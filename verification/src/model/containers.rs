//! Shape containers: generic wrappers for fields whose JSON form is a single
//! value, an array of values, or (for some fields) the wildcard token `"*"`.
//!
//! The containers record which JSON shape the source document used, so that
//! re-serialization reproduces the same shape: a one-element array stays an
//! array and is never collapsed to a scalar.

use vstd::prelude::*;

verus! {

/// A field whose JSON serialization is either a single value of type `T` or
/// a JSON array of values of type `T`.
#[derive(Debug, Clone, PartialEq, Eq)]
pub enum OneOrAll<T> {
    /// A single value, serialized as a bare scalar.
    One(T),
    /// A list of values, serialized as a JSON array (even when it holds
    /// exactly one element).
    All(Vec<T>),
}

/// A field whose JSON serialization is the wildcard token `"*"`, a single
/// value of type `T`, or a JSON array of values of type `T`.
#[derive(Debug, Clone, PartialEq, Eq)]
pub enum OneOrAny<T> {
    /// The wildcard token: the JSON string `"*"`.
    Any,
    /// A single value, serialized as a bare scalar.
    One(T),
    /// A list of values, serialized as a JSON array (even when it holds
    /// exactly one element).
    AnyOf(Vec<T>),
}

impl<T> OneOrAny<T> {
    /// Returns `true` exactly when the container is the wildcard.
    pub fn is_any(&self) -> (r: bool)
        ensures
            r == (self is Any),
    {
        match self {
            OneOrAny::Any => true,
            _ => false,
        }
    }

    /// Returns `true` exactly when the container holds a single value.
    pub fn is_one(&self) -> (r: bool)
        ensures
            r == (self is One),
    {
        match self {
            OneOrAny::One(_) => true,
            _ => false,
        }
    }

    /// Returns `true` exactly when the container holds a list of values.
    pub fn is_any_of(&self) -> (r: bool)
        ensures
            r == (self is AnyOf),
    {
        match self {
            OneOrAny::AnyOf(_) => true,
            _ => false,
        }
    }

    /// Consumes the container; yields the single value when the container is
    /// `One`, and `None` for the wildcard or a list.
    pub fn one(self) -> (r: Option<T>)
        ensures
            r == (match self {
                OneOrAny::One(value) => Some(value),
                _ => None::<T>,
            }),
    {
        match self {
            OneOrAny::One(value) => Some(value),
            _ => None,
        }
    }

    /// Consumes the container; yields the list of values when the container
    /// is `AnyOf`, and `None` for the wildcard or a single value.
    pub fn any_of(self) -> (r: Option<Vec<T>>)
        ensures
            r == (match self {
                OneOrAny::AnyOf(values) => Some(values),
                _ => None::<Vec<T>>,
            }),
    {
        match self {
            OneOrAny::AnyOf(values) => Some(values),
            _ => None,
        }
    }
}


/// The mathematical model of a [`OneOrAll`] container.
pub ghost enum SpecOneOrAll<T> {
    One(T),
    All(Seq<T>),
}

/// The mathematical model of a [`OneOrAny`] container.
pub ghost enum SpecOneOrAny<T> {
    Any,
    One(T),
    AnyOf(Seq<T>),
}

impl<T: DeepView> View for OneOrAll<T> {
    type V = SpecOneOrAll<T::V>;

    open spec fn view(&self) -> SpecOneOrAll<T::V> {
        match self {
            OneOrAll::One(t) => SpecOneOrAll::One(t.deep_view()),
            OneOrAll::All(v) => SpecOneOrAll::All(v.deep_view()),
        }
    }
}

impl<T: DeepView> DeepView for OneOrAll<T> {
    type V = SpecOneOrAll<T::V>;

    open spec fn deep_view(&self) -> SpecOneOrAll<T::V> {
        self.view()
    }
}

impl<T: DeepView> View for OneOrAny<T> {
    type V = SpecOneOrAny<T::V>;

    open spec fn view(&self) -> SpecOneOrAny<T::V> {
        match self {
            OneOrAny::Any => SpecOneOrAny::Any,
            OneOrAny::One(t) => SpecOneOrAny::One(t.deep_view()),
            OneOrAny::AnyOf(v) => SpecOneOrAny::AnyOf(v.deep_view()),
        }
    }
}

impl<T: DeepView> DeepView for OneOrAny<T> {
    type V = SpecOneOrAny<T::V>;

    open spec fn deep_view(&self) -> SpecOneOrAny<T::V> {
        self.view()
    }
}

} // verus!
