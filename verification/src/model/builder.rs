//! A fluent builder for condition blocks: chained key/value assignment
//! under one operator, with a terminal build step producing the immutable
//! [`Condition`].

use vstd::prelude::*;
use crate::model::containers::{OneOrAll, SpecOneOrAll};
use crate::model::elements::GlobalConditionOperator;
use crate::model::policy::Condition;
use crate::strings::str_owned;

verus! {

/// Accumulates the key/value rows of a condition block for one operator.
#[derive(Debug, Clone)]
pub struct ConditionBuilder {
    operator: GlobalConditionOperator,
    entries: Vec<(String, OneOrAll<String>)>,
}

impl View for ConditionBuilder {
    type V = (GlobalConditionOperator, Seq<(Seq<char>, SpecOneOrAll<Seq<char>>)>);

    closed spec fn view(&self) -> (
        GlobalConditionOperator,
        Seq<(Seq<char>, SpecOneOrAll<Seq<char>>)>,
    ) {
        (self.operator, self.entries.deep_view())
    }
}

impl ConditionBuilder {
    /// Starts a block for the given operator, with no rows yet.
    pub fn new(operator: GlobalConditionOperator) -> (r: ConditionBuilder)
        ensures
            r@.0 == operator,
            r@.1 == Seq::<(Seq<char>, SpecOneOrAll<Seq<char>>)>::empty(),
    {
        let r = ConditionBuilder { operator, entries: Vec::new() };
        proof {
            assert(r@.1 =~= Seq::<(Seq<char>, SpecOneOrAll<Seq<char>>)>::empty());
        }
        r
    }

    /// Adds one row mapping `key` to the single comparison value `value`.
    pub fn right_hand_str(self, key: &str, value: &str) -> (r: ConditionBuilder)
        ensures
            r@.0 == self@.0,
            r@.1 == self@.1.push((key@, SpecOneOrAll::One::<Seq<char>>(value@))),
    {
        let ConditionBuilder { operator, mut entries } = self;
        let ghost before = entries.deep_view();
        entries.push((str_owned(key), OneOrAll::One(str_owned(value))));
        proof {
            assert(entries.deep_view() =~= before.push(
                (key@, SpecOneOrAll::One::<Seq<char>>(value@)),
            ));
        }
        ConditionBuilder { operator, entries }
    }

    /// Adds one row mapping `key` to a list of comparison values, taking
    /// them out of the given vector and leaving it empty.
    pub fn right_hand_all(self, key: &str, values: &mut Vec<String>) -> (r: ConditionBuilder)
        ensures
            r@.0 == self@.0,
            r@.1 == self@.1.push((key@, SpecOneOrAll::All(old(values).deep_view()))),
            final(values)@.len() == 0,
    {
        let mut out: Vec<String> = Vec::new();
        core::mem::swap(values, &mut out);
        let ConditionBuilder { operator, mut entries } = self;
        let ghost before = entries.deep_view();
        let ghost vals = out.deep_view();
        entries.push((str_owned(key), OneOrAll::All(out)));
        proof {
            assert(entries.deep_view() =~= before.push((key@, SpecOneOrAll::All(vals))));
        }
        ConditionBuilder { operator, entries }
    }

    /// Finishes the block: a condition with this operator's rows as its
    /// only entry.
    pub fn build_as_condition(self) -> (c: Condition)
        ensures
            c@ == seq![(self@.0, self@.1)],
    {
        let ConditionBuilder { operator, entries } = self;
        let ghost rows = entries.deep_view();
        let mut m: Vec<(GlobalConditionOperator, Vec<(String, OneOrAll<String>)>)> = Vec::new();
        m.push((operator, entries));
        let c = Condition { entries: m };
        proof {
            assert(c@ =~= seq![(operator, rows)]);
        }
        c
    }
}

} // verus!
