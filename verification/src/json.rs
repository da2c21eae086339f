//! A minimal JSON document model.
//!
//! Policy documents are parsed into and serialized from [`JsonValue`].  The
//! mathematical model of a document is [`SpecJson`], the view of a
//! `JsonValue`: strings become character sequences, vectors become
//! sequences.

use vstd::prelude::*;

verus! {

/// The mathematical model of a JSON value.
#[verifier::ext_equal]
pub ghost enum SpecJson {
    Null,
    Bool(bool),
    /// A number, kept as its source text.
    Num(Seq<char>),
    Str(Seq<char>),
    Arr(Seq<SpecJson>),
    Obj(Seq<(Seq<char>, SpecJson)>),
}

/// A JSON value.  Numbers are kept as their source text: the policy
/// grammar accepts no numeric field, so they are only carried to be
/// reported in shape errors, never interpreted.
#[derive(Debug, PartialEq, Eq)]
pub enum JsonValue {
    Null,
    Bool(bool),
    /// A number, kept as its source text.
    Num(String),
    Str(String),
    Arr(Vec<JsonValue>),
    Obj(Vec<(String, JsonValue)>),
}

impl JsonValue {
    /// The mathematical model of this value.
    pub open spec fn spec_view(self) -> SpecJson
        decreases self,
    {
        match self {
            JsonValue::Null => SpecJson::Null,
            JsonValue::Bool(b) => SpecJson::Bool(b),
            JsonValue::Num(s) => SpecJson::Num(s@),
            JsonValue::Str(s) => SpecJson::Str(s@),
            JsonValue::Arr(es) => SpecJson::Arr(spec_view_list(es@)),
            JsonValue::Obj(fs) => SpecJson::Obj(spec_view_fields(fs@)),
        }
    }
}

/// The models of the elements of an array.
pub open spec fn spec_view_list(es: Seq<JsonValue>) -> Seq<SpecJson>
    decreases es,
{
    if es.len() == 0 {
        Seq::empty()
    } else {
        seq![es[0].spec_view()] + spec_view_list(es.drop_first())
    }
}

/// The models of the fields of an object.
pub open spec fn spec_view_fields(fs: Seq<(String, JsonValue)>) -> Seq<(Seq<char>, SpecJson)>
    decreases fs,
{
    if fs.len() == 0 {
        Seq::empty()
    } else {
        seq![(fs[0].0@, fs[0].1.spec_view())] + spec_view_fields(fs.drop_first())
    }
}

/// `spec_view_list` maps the elements one for one.
pub proof fn lemma_view_list(es: Seq<JsonValue>)
    ensures
        spec_view_list(es).len() == es.len(),
        forall|i: int| 0 <= i < es.len() ==> #[trigger] spec_view_list(es)[i] == es[i].spec_view(),
    decreases es,
{
    if es.len() > 0 {
        lemma_view_list(es.drop_first());
        assert forall|i: int| 0 <= i < es.len() implies #[trigger] spec_view_list(es)[i] == es[
            i
        ].spec_view() by {
            if i > 0 {
                assert(spec_view_list(es)[i] == spec_view_list(es.drop_first())[i - 1]);
                assert(es.drop_first()[i - 1] == es[i]);
            }
        }
    }
}

/// `spec_view_fields` maps the fields one for one.
pub proof fn lemma_view_fields(fs: Seq<(String, JsonValue)>)
    ensures
        spec_view_fields(fs).len() == fs.len(),
        forall|i: int|
            0 <= i < fs.len() ==> #[trigger] spec_view_fields(fs)[i] == (
            fs[i].0@,
            fs[i].1.spec_view(),
        ),
    decreases fs,
{
    if fs.len() > 0 {
        lemma_view_fields(fs.drop_first());
        assert forall|i: int|
            0 <= i < fs.len() implies #[trigger] spec_view_fields(fs)[i] == (
        fs[i].0@,
        fs[i].1.spec_view(),
        ) by {
            if i > 0 {
                assert(spec_view_fields(fs)[i] == spec_view_fields(fs.drop_first())[i - 1]);
                assert(fs.drop_first()[i - 1] == fs[i]);
            }
        }
    }
}

impl View for JsonValue {
    type V = SpecJson;

    open spec fn view(&self) -> SpecJson {
        self.spec_view()
    }
}

impl DeepView for JsonValue {
    type V = SpecJson;

    open spec fn deep_view(&self) -> SpecJson {
        self.spec_view()
    }
}

} // verus!
