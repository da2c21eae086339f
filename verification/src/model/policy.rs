//! The statement and policy aggregates, and the constructors of the
//! builder surface.

use vstd::prelude::*;
use crate::model::containers::{OneOrAll, OneOrAny, SpecOneOrAll, SpecOneOrAny};
use crate::model::elements::{
    ActionIdentifier, Effect, GlobalConditionOperator, PrincipalType, ResourceIdentifier, Version,
};

verus! {

/// The action field of a statement, keyed `Action` or `NotAction` in JSON:
/// the two keys are mutually exclusive and exactly one must be present.
#[derive(Debug, Clone, PartialEq, Eq)]
pub enum Action {
    Action(OneOrAny<ActionIdentifier>),
    NotAction(OneOrAny<ActionIdentifier>),
}

/// The mathematical model of an action field.
pub ghost enum SpecAction {
    Action(SpecOneOrAny<Seq<char>>),
    NotAction(SpecOneOrAny<Seq<char>>),
}

impl View for Action {
    type V = SpecAction;

    open spec fn view(&self) -> SpecAction {
        match self {
            Action::Action(c) => SpecAction::Action(c.deep_view()),
            Action::NotAction(c) => SpecAction::NotAction(c.deep_view()),
        }
    }
}

impl DeepView for Action {
    type V = SpecAction;

    open spec fn deep_view(&self) -> SpecAction {
        self.view()
    }
}

impl Action {
    /// A single-action field: serializes as a bare scalar.
    pub fn this(action: ActionIdentifier) -> (r: Action)
        ensures
            r@ == SpecAction::Action(SpecOneOrAny::One(action@)),
    {
        Action::Action(OneOrAny::One(action))
    }

    /// A many-actions field: serializes as an array, taking the values out
    /// of the given vector and leaving it empty.
    pub fn these(values: &mut Vec<ActionIdentifier>) -> (r: Action)
        ensures
            r@ == SpecAction::Action(SpecOneOrAny::AnyOf(old(values).deep_view())),
            final(values)@.len() == 0,
    {
        let mut out: Vec<ActionIdentifier> = Vec::new();
        core::mem::swap(values, &mut out);
        Action::Action(OneOrAny::AnyOf(out))
    }
}

/// The resource field of a statement, keyed `Resource` or `NotResource` in
/// JSON: the two keys are mutually exclusive, and the field as a whole is
/// optional.
#[derive(Debug, Clone, PartialEq, Eq)]
pub enum Resource {
    Resource(OneOrAny<ResourceIdentifier>),
    NotResource(OneOrAny<ResourceIdentifier>),
}

/// The mathematical model of a resource field.
pub ghost enum SpecResource {
    Resource(SpecOneOrAny<Seq<char>>),
    NotResource(SpecOneOrAny<Seq<char>>),
}

impl View for Resource {
    type V = SpecResource;

    open spec fn view(&self) -> SpecResource {
        match self {
            Resource::Resource(c) => SpecResource::Resource(c.deep_view()),
            Resource::NotResource(c) => SpecResource::NotResource(c.deep_view()),
        }
    }
}

impl DeepView for Resource {
    type V = SpecResource;

    open spec fn deep_view(&self) -> SpecResource {
        self.view()
    }
}

impl Resource {
    /// A single-resource field: serializes as a bare scalar.
    pub fn this(arn: String) -> (r: Resource)
        ensures
            r@ == SpecResource::Resource(SpecOneOrAny::One(arn@)),
    {
        Resource::Resource(OneOrAny::One(ResourceIdentifier::new(arn)))
    }

    /// A many-resources field: serializes as an array, taking the values
    /// out of the given vector and leaving it empty.
    pub fn these(values: &mut Vec<String>) -> (r: Resource)
        ensures
            r@ == SpecResource::Resource(SpecOneOrAny::AnyOf(old(values).deep_view())),
            final(values)@.len() == 0,
    {
        let mut out: Vec<String> = Vec::new();
        core::mem::swap(values, &mut out);
        let mut ids: Vec<ResourceIdentifier> = Vec::new();
        let ghost orig = out.deep_view();
        let mut i: usize = 0;
        while i < out.len()
            invariant
                0 <= i <= out.len(),
                orig == out.deep_view(),
                orig.len() == out.len(),
                ids@.len() == i,
                forall|j: int| 0 <= j < i ==> (#[trigger] ids@[j])@ == orig[j],
            decreases out.len() - i,
        {
            let s = out[i].clone();
            proof {
                assert(orig[i as int] == out@[i as int]@);
            }
            ids.push(ResourceIdentifier::new(s));
            i = i + 1;
        }
        proof {
            assert forall|j: int| 0 <= j < orig.len() implies ids.deep_view()[j] == orig[j] by {
                assert(ids@[j]@ == orig[j]);
            }
            assert(ids.deep_view() =~~= orig);
        }
        Resource::Resource(OneOrAny::AnyOf(ids))
    }
}

/// The principal of a statement: either the bare wildcard (`"Principal":
/// "*"`, meaning anyone) or a mapping from principal types to identifiers.
/// The two forms are distinct and both round-trip unchanged.
#[derive(Debug, Clone, PartialEq, Eq)]
pub enum Principal {
    /// The bare wildcard form.
    Any,
    /// The keyed-object form.
    Principal(Vec<(PrincipalType, OneOrAny<String>)>),
}

/// The mathematical model of a principal.
pub ghost enum SpecPrincipal {
    Any,
    Principal(Seq<(PrincipalType, SpecOneOrAny<Seq<char>>)>),
}

impl View for Principal {
    type V = SpecPrincipal;

    open spec fn view(&self) -> SpecPrincipal {
        match self {
            Principal::Any => SpecPrincipal::Any,
            Principal::Principal(m) => SpecPrincipal::Principal(m.deep_view()),
        }
    }
}

impl DeepView for Principal {
    type V = SpecPrincipal;

    open spec fn deep_view(&self) -> SpecPrincipal {
        self.view()
    }
}

impl Principal {
    /// A keyed principal with a single identifier.
    pub fn this(kind: PrincipalType, value: String) -> (r: Principal)
        ensures
            r@ == SpecPrincipal::Principal(
                seq![(kind, SpecOneOrAny::One::<Seq<char>>(value@))],
            ),
    {
        let mut m: Vec<(PrincipalType, OneOrAny<String>)> = Vec::new();
        m.push((kind, OneOrAny::One(value)));
        proof {
            assert(m.deep_view() =~= seq![(kind, SpecOneOrAny::One::<Seq<char>>(value@))]);
        }
        Principal::Principal(m)
    }

    /// A keyed principal with a list of identifiers, taking the values out
    /// of the given vector and leaving it empty.
    pub fn these(kind: PrincipalType, values: &mut Vec<String>) -> (r: Principal)
        ensures
            r@ == SpecPrincipal::Principal(
                seq![(kind, SpecOneOrAny::AnyOf(old(values).deep_view()))],
            ),
            final(values)@.len() == 0,
    {
        let mut out: Vec<String> = Vec::new();
        core::mem::swap(values, &mut out);
        let mut m: Vec<(PrincipalType, OneOrAny<String>)> = Vec::new();
        let ghost vals = out.deep_view();
        m.push((kind, OneOrAny::AnyOf(out)));
        proof {
            assert(m.deep_view() =~= seq![(kind, SpecOneOrAny::AnyOf(vals))]);
        }
        Principal::Principal(m)
    }
}

/// A condition block: a mapping from condition operators to mappings from
/// condition keys to comparison values.  Entry order is the document
/// order, and keys are unique at both levels in a well-formed block.
#[derive(Debug, Clone, PartialEq, Eq)]
pub struct Condition {
    pub entries: Vec<(GlobalConditionOperator, Vec<(String, OneOrAll<String>)>)>,
}

/// The mathematical model of a condition block.
pub type SpecCondition = Seq<
    (GlobalConditionOperator, Seq<(Seq<char>, SpecOneOrAll<Seq<char>>)>),
>;

impl View for Condition {
    type V = SpecCondition;

    open spec fn view(&self) -> SpecCondition {
        self.entries.deep_view()
    }
}

impl DeepView for Condition {
    type V = SpecCondition;

    open spec fn deep_view(&self) -> SpecCondition {
        self.view()
    }
}

/// One permission rule of a policy.
#[derive(Debug, Clone, PartialEq, Eq)]
pub struct Statement {
    pub sid: Option<String>,
    pub principal: Option<Principal>,
    pub effect: Effect,
    pub action: Action,
    pub resource: Option<Resource>,
    pub condition: Option<Condition>,
}

/// The mathematical model of a statement.
pub ghost struct SpecStatement {
    pub sid: Option<Seq<char>>,
    pub principal: Option<SpecPrincipal>,
    pub effect: Effect,
    pub action: SpecAction,
    pub resource: Option<SpecResource>,
    pub condition: Option<SpecCondition>,
}

impl View for Statement {
    type V = SpecStatement;

    open spec fn view(&self) -> SpecStatement {
        SpecStatement {
            sid: self.sid.deep_view(),
            principal: self.principal.deep_view(),
            effect: self.effect,
            action: self.action.deep_view(),
            resource: self.resource.deep_view(),
            condition: self.condition.deep_view(),
        }
    }
}

impl DeepView for Statement {
    type V = SpecStatement;

    open spec fn deep_view(&self) -> SpecStatement {
        self.view()
    }
}

impl Statement {
    /// A statement with the three required pieces; sid, principal and
    /// condition start out absent.
    pub fn new(effect: Effect, action: Action, resource: Resource) -> (r: Statement)
        ensures
            r@ == (SpecStatement {
                sid: None,
                principal: None,
                effect: effect,
                action: action@,
                resource: Some(resource@),
                condition: None,
            }),
    {
        Statement {
            sid: None,
            principal: None,
            effect,
            action,
            resource: Some(resource),
            condition: None,
        }
    }
}

/// A policy document.
#[derive(Debug, Clone, PartialEq, Eq)]
pub struct Policy {
    pub version: Option<Version>,
    pub id: Option<String>,
    pub statement: OneOrAll<Statement>,
}

/// The mathematical model of a policy document.
pub ghost struct SpecPolicy {
    pub version: Option<Version>,
    pub id: Option<Seq<char>>,
    pub statement: SpecOneOrAll<SpecStatement>,
}

impl View for Policy {
    type V = SpecPolicy;

    open spec fn view(&self) -> SpecPolicy {
        SpecPolicy {
            version: self.version.deep_view(),
            id: self.id.deep_view(),
            statement: self.statement.deep_view(),
        }
    }
}

impl DeepView for Policy {
    type V = SpecPolicy;

    open spec fn deep_view(&self) -> SpecPolicy {
        self.view()
    }
}

} // verus!
