//! The value-level codec: serializing a policy to a JSON value and parsing
//! a JSON value back into a validated policy.
//!
//! Every executable function mirrors a spec function exactly, so a parse or
//! serialization result is a pure function of its input.  Shape selection
//! follows the documented disambiguation order: the wildcard string first,
//! then the array form, then the scalar form.

use vstd::prelude::*;
use crate::json::{JsonValue, SpecJson};
use crate::model::containers::{OneOrAll, OneOrAny, SpecOneOrAll, SpecOneOrAny};
use crate::model::elements::{
    action_text_wf, effect_from, effect_repr, is_star, op_from, op_repr, ptype_from, ptype_repr,
    resource_text_wf, version_from, version_repr, ActionIdentifier, Effect,
    GlobalConditionOperator, PrincipalType, ResourceIdentifier, Version,
};
use crate::model::error::{
    DocumentError, ElementError, PathSegment, PolicyError, ShapeError, SpecDocumentError,
    SpecElementError, SpecPathSegment, SpecPolicyError, SpecShapeError, spec_nested,
};
use vstd::string::StrSliceExecFns;
use crate::model::policy::{
    Action, Condition, Policy, Principal, Resource, SpecAction, SpecCondition, SpecPolicy,
    SpecPrincipal, SpecResource, SpecStatement, Statement,
};

verus! {

/// The wildcard token as a character sequence.
pub open spec fn star_seq() -> Seq<char> {
    seq!['*']
}

// ---------------------------------------------------------------------
// Serialization, spec side.  The policy tree has fixed depth, so none of
// these is recursive.
// ---------------------------------------------------------------------

/// Serializes a wildcard-or-one-or-many container of strings: the wildcard
/// as the string `"*"`, one value as a bare string, a list as an array
/// (one-element lists stay arrays).
pub open spec fn sp_ser_any(c: SpecOneOrAny<Seq<char>>) -> SpecJson {
    match c {
        SpecOneOrAny::Any => SpecJson::Str(star_seq()),
        SpecOneOrAny::One(s) => SpecJson::Str(s),
        SpecOneOrAny::AnyOf(ss) => SpecJson::Arr(ss.map_values(|s: Seq<char>| SpecJson::Str(s))),
    }
}

/// Serializes a one-or-many container of strings.
pub open spec fn sp_ser_all(c: SpecOneOrAll<Seq<char>>) -> SpecJson {
    match c {
        SpecOneOrAll::One(s) => SpecJson::Str(s),
        SpecOneOrAll::All(ss) => SpecJson::Arr(ss.map_values(|s: Seq<char>| SpecJson::Str(s))),
    }
}

/// The key and value of a statement's action field.
pub open spec fn sp_ser_action(a: SpecAction) -> (Seq<char>, SpecJson) {
    match a {
        SpecAction::Action(c) => ("Action"@, sp_ser_any(c)),
        SpecAction::NotAction(c) => ("NotAction"@, sp_ser_any(c)),
    }
}

/// The key and value of a statement's resource field.
pub open spec fn sp_ser_resource(r: SpecResource) -> (Seq<char>, SpecJson) {
    match r {
        SpecResource::Resource(c) => ("Resource"@, sp_ser_any(c)),
        SpecResource::NotResource(c) => ("NotResource"@, sp_ser_any(c)),
    }
}

/// Serializes a principal: the bare wildcard as the string `"*"`, the
/// keyed form as an object in entry order.
pub open spec fn sp_ser_principal(p: SpecPrincipal) -> SpecJson {
    match p {
        SpecPrincipal::Any => SpecJson::Str(star_seq()),
        SpecPrincipal::Principal(m) => SpecJson::Obj(
            m.map_values(
                |e: (PrincipalType, SpecOneOrAny<Seq<char>>)| (ptype_repr(e.0), sp_ser_any(e.1)),
            ),
        ),
    }
}

/// Serializes a condition block as nested objects in entry order.
pub open spec fn sp_ser_condition(c: SpecCondition) -> SpecJson {
    SpecJson::Obj(
        c.map_values(
            |e: (GlobalConditionOperator, Seq<(Seq<char>, SpecOneOrAll<Seq<char>>)>)|
                (
                    op_repr(e.0),
                    SpecJson::Obj(
                        e.1.map_values(
                            |kv: (Seq<char>, SpecOneOrAll<Seq<char>>)| (kv.0, sp_ser_all(kv.1)),
                        ),
                    ),
                ),
        ),
    )
}

/// Serializes a statement with its fields in the fixed emission order:
/// Sid, Principal, Effect, Action, Resource, Condition.
pub open spec fn sp_ser_statement(s: SpecStatement) -> SpecJson {
    SpecJson::Obj(
        (match s.sid {
            Some(sid) => seq![("Sid"@, SpecJson::Str(sid))],
            None => Seq::empty(),
        }) + (match s.principal {
            Some(p) => seq![("Principal"@, sp_ser_principal(p))],
            None => Seq::empty(),
        }) + seq![("Effect"@, SpecJson::Str(effect_repr(s.effect)))] + seq![sp_ser_action(s.action)]
            + (match s.resource {
            Some(r) => seq![sp_ser_resource(r)],
            None => Seq::empty(),
        }) + (match s.condition {
            Some(c) => seq![("Condition"@, sp_ser_condition(c))],
            None => Seq::empty(),
        }),
    )
}

/// Serializes the statement field: one statement as a bare object, a list
/// as an array (one-element lists stay arrays).
pub open spec fn sp_ser_statements(c: SpecOneOrAll<SpecStatement>) -> SpecJson {
    match c {
        SpecOneOrAll::One(s) => sp_ser_statement(s),
        SpecOneOrAll::All(ss) => SpecJson::Arr(
            ss.map_values(|s: SpecStatement| sp_ser_statement(s)),
        ),
    }
}

/// Serializes a policy with its fields in the fixed emission order:
/// Version, Id, Statement.
pub open spec fn sp_ser_policy(p: SpecPolicy) -> SpecJson {
    SpecJson::Obj(
        (match p.version {
            Some(v) => seq![("Version"@, SpecJson::Str(version_repr(v)))],
            None => Seq::empty(),
        }) + (match p.id {
            Some(id) => seq![("Id"@, SpecJson::Str(id))],
            None => Seq::empty(),
        }) + seq![("Statement"@, sp_ser_statements(p.statement))],
    )
}

// ---------------------------------------------------------------------
// Parsing, spec side.  Paths in errors are relative to the value being
// parsed; callers re-root them with `spec_nested`.
// ---------------------------------------------------------------------

/// A shape error with an empty (relative) path.
pub open spec fn sp_shape_err(k: SpecShapeError) -> SpecPolicyError {
    SpecPolicyError::Shape(Seq::empty(), k)
}

/// How a single scalar parses for a string-valued element: strings go to
/// the element grammar, objects and arrays are the wrong shape, and other
/// scalars fail as elements that are not strings.
pub open spec fn sp_parse_str_element(v: SpecJson) -> Result<Seq<char>, SpecPolicyError> {
    match v {
        SpecJson::Str(s) => Ok(s),
        SpecJson::Arr(_) => Err(sp_shape_err(SpecShapeError::UnexpectedShape)),
        SpecJson::Obj(_) => Err(sp_shape_err(SpecShapeError::UnexpectedShape)),
        _ => Err(sp_shape_err(SpecShapeError::ElementParse(SpecElementError::NotAString))),
    }
}

/// The elements of an array for a wildcard-capable container: each element
/// must be a string of the element grammar `wf`, and the wildcard token may
/// stand in an array only when it is the sole element.
pub open spec fn sp_parse_any_items(
    es: Seq<SpecJson>,
    k: int,
    wf: spec_fn(Seq<char>) -> bool,
    mk: spec_fn(Seq<char>) -> SpecElementError,
) -> Result<Seq<Seq<char>>, SpecPolicyError>
    decreases es.len() - k,
{
    if k < 0 || k >= es.len() {
        Ok(Seq::empty())
    } else {
        match es[k] {
            SpecJson::Str(s) => {
                if is_star(s) && es.len() > 1 {
                    Err(
                        SpecPolicyError::Shape(
                            seq![SpecPathSegment::Index(k)],
                            SpecShapeError::WildcardInArray,
                        ),
                    )
                } else if !wf(s) {
                    Err(
                        SpecPolicyError::Shape(
                            seq![SpecPathSegment::Index(k)],
                            SpecShapeError::ElementParse(mk(s)),
                        ),
                    )
                } else {
                    match sp_parse_any_items(es, k + 1, wf, mk) {
                        Ok(rest) => Ok(seq![s] + rest),
                        Err(e) => Err(e),
                    }
                }
            },
            _ => {
                match sp_parse_str_element(es[k]) {
                    Ok(_) => arbitrary(),  // es[k] is not a string here
                    Err(e) => Err(spec_nested(e, SpecPathSegment::Index(k))),
                }
            },
        }
    }
}

/// Parses a wildcard-or-one-or-many container of strings whose scalars
/// must satisfy `wf`: the exact string `"*"` selects the wildcard, then an
/// array selects the list form, then the value must parse as one element.
pub open spec fn sp_parse_any(
    v: SpecJson,
    wf: spec_fn(Seq<char>) -> bool,
    mk: spec_fn(Seq<char>) -> SpecElementError,
) -> Result<SpecOneOrAny<Seq<char>>, SpecPolicyError> {
    match v {
        SpecJson::Str(s) => {
            if is_star(s) {
                Ok(SpecOneOrAny::Any)
            } else if wf(s) {
                Ok(SpecOneOrAny::One(s))
            } else {
                Err(sp_shape_err(SpecShapeError::ElementParse(mk(s))))
            }
        },
        SpecJson::Arr(es) => {
            match sp_parse_any_items(es, 0, wf, mk) {
                Ok(ss) => Ok(SpecOneOrAny::AnyOf(ss)),
                Err(e) => Err(e),
            }
        },
        SpecJson::Obj(_) => Err(sp_shape_err(SpecShapeError::UnexpectedShape)),
        _ => Err(sp_shape_err(SpecShapeError::ElementParse(SpecElementError::NotAString))),
    }
}

/// The grammar of principal identifiers: any string.
pub open spec fn any_text_wf(s: Seq<char>) -> bool {
    true
}

/// The element error for a malformed action string.
pub open spec fn mk_action_err(s: Seq<char>) -> SpecElementError {
    SpecElementError::MalformedAction(s)
}

/// The element error for a malformed resource string.
pub open spec fn mk_resource_err(s: Seq<char>) -> SpecElementError {
    SpecElementError::MalformedResource(s)
}

/// The (never-used) element error for principal identifier strings.
pub open spec fn mk_no_err(s: Seq<char>) -> SpecElementError {
    SpecElementError::NotAString
}

/// Parses a one-or-many container of plain strings (condition values): an
/// array selects the list form, otherwise the value must be one string.
pub open spec fn sp_parse_all_items(es: Seq<SpecJson>, k: int) -> Result<
    Seq<Seq<char>>,
    SpecPolicyError,
>
    decreases es.len() - k,
{
    if k < 0 || k >= es.len() {
        Ok(Seq::empty())
    } else {
        match sp_parse_str_element(es[k]) {
            Ok(s) => {
                match sp_parse_all_items(es, k + 1) {
                    Ok(rest) => Ok(seq![s] + rest),
                    Err(e) => Err(e),
                }
            },
            Err(e) => Err(spec_nested(e, SpecPathSegment::Index(k))),
        }
    }
}

/// Parses a one-or-many container of plain strings.
pub open spec fn sp_parse_all(v: SpecJson) -> Result<SpecOneOrAll<Seq<char>>, SpecPolicyError> {
    match v {
        SpecJson::Arr(es) => {
            match sp_parse_all_items(es, 0) {
                Ok(ss) => Ok(SpecOneOrAll::All(ss)),
                Err(e) => Err(e),
            }
        },
        _ => {
            match sp_parse_str_element(v) {
                Ok(s) => Ok(SpecOneOrAll::One(s)),
                Err(e) => Err(e),
            }
        },
    }
}

/// Whether the accumulated principal entries already bind `t`.
pub open spec fn sp_has_ptype(m: Seq<(PrincipalType, SpecOneOrAny<Seq<char>>)>, t: PrincipalType)
    -> bool {
    exists|i: int| 0 <= i < m.len() && m[i].0 == t
}

/// The entries of the keyed principal object, in document order, with
/// unique principal types.
pub open spec fn sp_parse_principal_entries(
    fs: Seq<(Seq<char>, SpecJson)>,
    k: int,
    acc: Seq<(PrincipalType, SpecOneOrAny<Seq<char>>)>,
) -> Result<Seq<(PrincipalType, SpecOneOrAny<Seq<char>>)>, SpecPolicyError>
    decreases fs.len() - k,
{
    if k < 0 || k >= fs.len() {
        Ok(acc)
    } else {
        let (name, val) = fs[k];
        match ptype_from(name) {
            None => Err(
                SpecPolicyError::Element(
                    Seq::empty(),
                    SpecElementError::UnknownPrincipalType(name),
                ),
            ),
            Some(t) => {
                if sp_has_ptype(acc, t) {
                    Err(
                        SpecPolicyError::Document(
                            Seq::empty(),
                            SpecDocumentError::DuplicateField(name),
                        ),
                    )
                } else {
                    match sp_parse_any(val, |s: Seq<char>| any_text_wf(s), |s: Seq<char>|
                        mk_no_err(s)) {
                        Ok(c) => sp_parse_principal_entries(fs, k + 1, acc.push((t, c))),
                        Err(e) => Err(spec_nested(e, SpecPathSegment::Field(name))),
                    }
                }
            },
        }
    }
}

/// Parses a principal: the exact string `"*"` is the bare wildcard form,
/// an object is the keyed form, and anything else is the wrong shape.
pub open spec fn sp_parse_principal(v: SpecJson) -> Result<SpecPrincipal, SpecPolicyError> {
    match v {
        SpecJson::Str(s) => {
            if is_star(s) {
                Ok(SpecPrincipal::Any)
            } else {
                Err(sp_shape_err(SpecShapeError::UnexpectedShape))
            }
        },
        SpecJson::Obj(fs) => {
            match sp_parse_principal_entries(fs, 0, Seq::empty()) {
                Ok(m) => Ok(SpecPrincipal::Principal(m)),
                Err(e) => Err(e),
            }
        },
        _ => Err(sp_shape_err(SpecShapeError::UnexpectedShape)),
    }
}

/// Whether the accumulated condition rows already bind `key`.
pub open spec fn sp_has_key(m: Seq<(Seq<char>, SpecOneOrAll<Seq<char>>)>, key: Seq<char>) -> bool {
    exists|i: int| 0 <= i < m.len() && m[i].0 == key
}

/// The rows of one operator's block, in document order, with unique keys.
pub open spec fn sp_parse_condition_rows(
    fs: Seq<(Seq<char>, SpecJson)>,
    k: int,
    acc: Seq<(Seq<char>, SpecOneOrAll<Seq<char>>)>,
) -> Result<Seq<(Seq<char>, SpecOneOrAll<Seq<char>>)>, SpecPolicyError>
    decreases fs.len() - k,
{
    if k < 0 || k >= fs.len() {
        Ok(acc)
    } else {
        let (name, val) = fs[k];
        if sp_has_key(acc, name) {
            Err(
                SpecPolicyError::Document(Seq::empty(), SpecDocumentError::DuplicateField(name)),
            )
        } else {
            match sp_parse_all(val) {
                Ok(c) => sp_parse_condition_rows(fs, k + 1, acc.push((name, c))),
                Err(e) => Err(spec_nested(e, SpecPathSegment::Field(name))),
            }
        }
    }
}

/// Whether the accumulated condition entries already bind `op`.
pub open spec fn sp_has_op(
    m: Seq<(GlobalConditionOperator, Seq<(Seq<char>, SpecOneOrAll<Seq<char>>)>)>,
    op: GlobalConditionOperator,
) -> bool {
    exists|i: int| 0 <= i < m.len() && m[i].0 == op
}

/// The operator entries of a condition block, in document order, with
/// unique operators.
pub open spec fn sp_parse_condition_entries(
    fs: Seq<(Seq<char>, SpecJson)>,
    k: int,
    acc: SpecCondition,
) -> Result<SpecCondition, SpecPolicyError>
    decreases fs.len() - k,
{
    if k < 0 || k >= fs.len() {
        Ok(acc)
    } else {
        let (name, val) = fs[k];
        match op_from(name) {
            None => Err(
                SpecPolicyError::Element(Seq::empty(), SpecElementError::UnknownOperator(name)),
            ),
            Some(op) => {
                if sp_has_op(acc, op) {
                    Err(
                        SpecPolicyError::Document(
                            Seq::empty(),
                            SpecDocumentError::DuplicateField(name),
                        ),
                    )
                } else {
                    match val {
                        SpecJson::Obj(rows) => {
                            match sp_parse_condition_rows(rows, 0, Seq::empty()) {
                                Ok(m) => sp_parse_condition_entries(
                                    fs,
                                    k + 1,
                                    acc.push((op, m)),
                                ),
                                Err(e) => Err(spec_nested(e, SpecPathSegment::Field(name))),
                            }
                        },
                        _ => Err(
                            SpecPolicyError::Shape(
                                seq![SpecPathSegment::Field(name)],
                                SpecShapeError::UnexpectedShape,
                            ),
                        ),
                    }
                }
            },
        }
    }
}

/// Parses a condition block: an object of operator blocks.
pub open spec fn sp_parse_condition(v: SpecJson) -> Result<SpecCondition, SpecPolicyError> {
    match v {
        SpecJson::Obj(fs) => sp_parse_condition_entries(fs, 0, Seq::empty()),
        _ => Err(sp_shape_err(SpecShapeError::UnexpectedShape)),
    }
}

/// The slots a statement's fields are collected into before validation.
pub ghost struct SpecStatementSlots {
    pub sid: Option<Seq<char>>,
    pub principal: Option<SpecPrincipal>,
    pub effect: Option<Effect>,
    pub action: Option<SpecAction>,
    pub resource: Option<SpecResource>,
    pub condition: Option<SpecCondition>,
}

/// Walks a statement object's fields in document order, filling slots;
/// then checks the document invariants: `Effect` is required, and exactly
/// one of `Action`/`NotAction` must be present (`Resource`/`NotResource`
/// stay optional but mutually exclusive).
pub open spec fn sp_parse_statement_fields(
    fs: Seq<(Seq<char>, SpecJson)>,
    k: int,
    slots: SpecStatementSlots,
) -> Result<SpecStatement, SpecPolicyError>
    decreases fs.len() - k,
{
    if k < 0 || k >= fs.len() {
        match slots.effect {
            None => Err(
                SpecPolicyError::Document(
                    Seq::empty(),
                    SpecDocumentError::MissingField("Effect"@),
                ),
            ),
            Some(eff) => {
                match slots.action {
                    None => Err(
                        SpecPolicyError::Document(
                            Seq::empty(),
                            SpecDocumentError::ConflictingFields("Action"@),
                        ),
                    ),
                    Some(act) => Ok(
                        SpecStatement {
                            sid: slots.sid,
                            principal: slots.principal,
                            effect: eff,
                            action: act,
                            resource: slots.resource,
                            condition: slots.condition,
                        },
                    ),
                }
            },
        }
    } else {
        let (name, val) = fs[k];
        if name == "Sid"@ {
            if slots.sid is Some {
                Err(
                    SpecPolicyError::Document(
                        Seq::empty(),
                        SpecDocumentError::DuplicateField(name),
                    ),
                )
            } else {
                match val {
                    SpecJson::Str(s) => sp_parse_statement_fields(
                        fs,
                        k + 1,
                        SpecStatementSlots { sid: Some(s), ..slots },
                    ),
                    _ => Err(
                        SpecPolicyError::Shape(
                            seq![SpecPathSegment::Field(name)],
                            SpecShapeError::UnexpectedShape,
                        ),
                    ),
                }
            }
        } else if name == "Principal"@ {
            if slots.principal is Some {
                Err(
                    SpecPolicyError::Document(
                        Seq::empty(),
                        SpecDocumentError::DuplicateField(name),
                    ),
                )
            } else {
                match sp_parse_principal(val) {
                    Ok(p) => sp_parse_statement_fields(
                        fs,
                        k + 1,
                        SpecStatementSlots { principal: Some(p), ..slots },
                    ),
                    Err(e) => Err(spec_nested(e, SpecPathSegment::Field(name))),
                }
            }
        } else if name == "Effect"@ {
            if slots.effect is Some {
                Err(
                    SpecPolicyError::Document(
                        Seq::empty(),
                        SpecDocumentError::DuplicateField(name),
                    ),
                )
            } else {
                match val {
                    SpecJson::Str(s) => {
                        match effect_from(s) {
                            Some(eff) => sp_parse_statement_fields(
                                fs,
                                k + 1,
                                SpecStatementSlots { effect: Some(eff), ..slots },
                            ),
                            None => Err(
                                SpecPolicyError::Element(
                                    seq![SpecPathSegment::Field(name)],
                                    SpecElementError::UnknownEffect(s),
                                ),
                            ),
                        }
                    },
                    _ => Err(
                        SpecPolicyError::Shape(
                            seq![SpecPathSegment::Field(name)],
                            SpecShapeError::UnexpectedShape,
                        ),
                    ),
                }
            }
        } else if name == "Action"@ || name == "NotAction"@ {
            match slots.action {
                Some(prev) => {
                    if (name == "Action"@ && prev is Action) || (name == "NotAction"@
                        && prev is NotAction) {
                        Err(
                            SpecPolicyError::Document(
                                Seq::empty(),
                                SpecDocumentError::DuplicateField(name),
                            ),
                        )
                    } else {
                        Err(
                            SpecPolicyError::Document(
                                Seq::empty(),
                                SpecDocumentError::ConflictingFields("Action"@),
                            ),
                        )
                    }
                },
                None => {
                    match sp_parse_any(val, |s: Seq<char>| action_text_wf(s), |s: Seq<char>|
                        mk_action_err(s)) {
                        Ok(c) => sp_parse_statement_fields(
                            fs,
                            k + 1,
                            SpecStatementSlots {
                                action: Some(
                                    if name == "Action"@ {
                                        SpecAction::Action(c)
                                    } else {
                                        SpecAction::NotAction(c)
                                    },
                                ),
                                ..slots
                            },
                        ),
                        Err(e) => Err(spec_nested(e, SpecPathSegment::Field(name))),
                    }
                },
            }
        } else if name == "Resource"@ || name == "NotResource"@ {
            match slots.resource {
                Some(prev) => {
                    if (name == "Resource"@ && prev is Resource) || (name == "NotResource"@
                        && prev is NotResource) {
                        Err(
                            SpecPolicyError::Document(
                                Seq::empty(),
                                SpecDocumentError::DuplicateField(name),
                            ),
                        )
                    } else {
                        Err(
                            SpecPolicyError::Document(
                                Seq::empty(),
                                SpecDocumentError::ConflictingFields("Resource"@),
                            ),
                        )
                    }
                },
                None => {
                    match sp_parse_any(val, |s: Seq<char>| resource_text_wf(s), |s: Seq<char>|
                        mk_resource_err(s)) {
                        Ok(c) => sp_parse_statement_fields(
                            fs,
                            k + 1,
                            SpecStatementSlots {
                                resource: Some(
                                    if name == "Resource"@ {
                                        SpecResource::Resource(c)
                                    } else {
                                        SpecResource::NotResource(c)
                                    },
                                ),
                                ..slots
                            },
                        ),
                        Err(e) => Err(spec_nested(e, SpecPathSegment::Field(name))),
                    }
                },
            }
        } else if name == "Condition"@ {
            if slots.condition is Some {
                Err(
                    SpecPolicyError::Document(
                        Seq::empty(),
                        SpecDocumentError::DuplicateField(name),
                    ),
                )
            } else {
                match sp_parse_condition(val) {
                    Ok(c) => sp_parse_statement_fields(
                        fs,
                        k + 1,
                        SpecStatementSlots { condition: Some(c), ..slots },
                    ),
                    Err(e) => Err(spec_nested(e, SpecPathSegment::Field(name))),
                }
            }
        } else {
            Err(SpecPolicyError::Document(Seq::empty(), SpecDocumentError::UnknownField(name)))
        }
    }
}

/// The empty statement slots.
pub open spec fn sp_empty_slots() -> SpecStatementSlots {
    SpecStatementSlots {
        sid: None,
        principal: None,
        effect: None,
        action: None,
        resource: None,
        condition: None,
    }
}

/// Parses one statement: an object, else the wrong shape.
pub open spec fn sp_parse_statement(v: SpecJson) -> Result<SpecStatement, SpecPolicyError> {
    match v {
        SpecJson::Obj(fs) => sp_parse_statement_fields(fs, 0, sp_empty_slots()),
        _ => Err(sp_shape_err(SpecShapeError::UnexpectedShape)),
    }
}

/// The statements of an array, each at its index.
pub open spec fn sp_parse_statement_items(es: Seq<SpecJson>, k: int) -> Result<
    Seq<SpecStatement>,
    SpecPolicyError,
>
    decreases es.len() - k,
{
    if k < 0 || k >= es.len() {
        Ok(Seq::empty())
    } else {
        match sp_parse_statement(es[k]) {
            Ok(s) => {
                match sp_parse_statement_items(es, k + 1) {
                    Ok(rest) => Ok(seq![s] + rest),
                    Err(e) => Err(e),
                }
            },
            Err(e) => Err(spec_nested(e, SpecPathSegment::Index(k))),
        }
    }
}

/// Parses the statement field: an array is the list form (kept as a list
/// even with one element), anything else must be one statement object.
pub open spec fn sp_parse_statements(v: SpecJson) -> Result<
    SpecOneOrAll<SpecStatement>,
    SpecPolicyError,
> {
    match v {
        SpecJson::Arr(es) => {
            match sp_parse_statement_items(es, 0) {
                Ok(ss) => Ok(SpecOneOrAll::All(ss)),
                Err(e) => Err(e),
            }
        },
        _ => {
            match sp_parse_statement(v) {
                Ok(s) => Ok(SpecOneOrAll::One(s)),
                Err(e) => Err(e),
            }
        },
    }
}

/// Walks the policy object's fields in document order; `Statement` is
/// required, `Version` must be a known tag, unknown fields are rejected.
pub open spec fn sp_parse_policy_fields(
    fs: Seq<(Seq<char>, SpecJson)>,
    k: int,
    ver: Option<Version>,
    id: Option<Seq<char>>,
    stmt: Option<SpecOneOrAll<SpecStatement>>,
) -> Result<SpecPolicy, SpecPolicyError>
    decreases fs.len() - k,
{
    if k < 0 || k >= fs.len() {
        match stmt {
            None => Err(
                SpecPolicyError::Document(
                    Seq::empty(),
                    SpecDocumentError::MissingField("Statement"@),
                ),
            ),
            Some(st) => Ok(SpecPolicy { version: ver, id: id, statement: st }),
        }
    } else {
        let (name, val) = fs[k];
        if name == "Version"@ {
            if ver is Some {
                Err(
                    SpecPolicyError::Document(
                        Seq::empty(),
                        SpecDocumentError::DuplicateField(name),
                    ),
                )
            } else {
                match val {
                    SpecJson::Str(s) => {
                        match version_from(s) {
                            Some(v) => sp_parse_policy_fields(fs, k + 1, Some(v), id, stmt),
                            None => Err(
                                SpecPolicyError::Document(
                                    seq![SpecPathSegment::Field(name)],
                                    SpecDocumentError::UnknownVersion(s),
                                ),
                            ),
                        }
                    },
                    _ => Err(
                        SpecPolicyError::Shape(
                            seq![SpecPathSegment::Field(name)],
                            SpecShapeError::UnexpectedShape,
                        ),
                    ),
                }
            }
        } else if name == "Id"@ {
            if id is Some {
                Err(
                    SpecPolicyError::Document(
                        Seq::empty(),
                        SpecDocumentError::DuplicateField(name),
                    ),
                )
            } else {
                match val {
                    SpecJson::Str(s) => sp_parse_policy_fields(fs, k + 1, ver, Some(s), stmt),
                    _ => Err(
                        SpecPolicyError::Shape(
                            seq![SpecPathSegment::Field(name)],
                            SpecShapeError::UnexpectedShape,
                        ),
                    ),
                }
            }
        } else if name == "Statement"@ {
            if stmt is Some {
                Err(
                    SpecPolicyError::Document(
                        Seq::empty(),
                        SpecDocumentError::DuplicateField(name),
                    ),
                )
            } else {
                match sp_parse_statements(val) {
                    Ok(st) => sp_parse_policy_fields(fs, k + 1, ver, id, Some(st)),
                    Err(e) => Err(spec_nested(e, SpecPathSegment::Field(name))),
                }
            }
        } else {
            Err(SpecPolicyError::Document(Seq::empty(), SpecDocumentError::UnknownField(name)))
        }
    }
}

/// Parses a whole policy document from its JSON value.
pub open spec fn sp_parse_policy(v: SpecJson) -> Result<SpecPolicy, SpecPolicyError> {
    match v {
        SpecJson::Obj(fs) => sp_parse_policy_fields(fs, 0, None, None, None),
        _ => Err(sp_shape_err(SpecShapeError::UnexpectedShape)),
    }
}

// ---------------------------------------------------------------------
// Executable code.  Each function mirrors its spec function exactly.
// ---------------------------------------------------------------------

/// The views of a result's two sides.
pub open spec fn rvw<T: DeepView, E: DeepView>(r: Result<T, E>) -> Result<T::V, E::V> {
    match r {
        Ok(t) => Ok(t.deep_view()),
        Err(e) => Err(e.deep_view()),
    }
}

/// The string holding exactly the wildcard token.
pub fn star_string() -> (s: String)
    ensures
        s@ == star_seq(),
{
    let mut v: Vec<char> = Vec::new();
    v.push('*');
    proof {
        assert(v@ =~= star_seq());
    }
    crate::strings::chars_to_string(&v)
}

/// Decides `is_star` on a string slice.
pub fn check_star(s: &str) -> (r: bool)
    ensures
        r == is_star(s@),
{
    let n = s.unicode_len();
    n == 1 && s.get_char(0) == '*'
}

/// A shape error with an empty path.
fn shape_here(k: ShapeError) -> (e: PolicyError)
    ensures
        e@ == sp_shape_err(k@),
{
    let e = PolicyError::Shape(Vec::new(), k);
    proof {
        assert(e@->Shape_0 =~= Seq::<SpecPathSegment>::empty());
    }
    e
}

/// A shape error at one array index.
fn shape_at_index(i: usize, k: ShapeError) -> (e: PolicyError)
    ensures
        e@ == SpecPolicyError::Shape(seq![SpecPathSegment::Index(i as int)], k@),
{
    let mut p: Vec<PathSegment> = Vec::new();
    p.push(PathSegment::Index(i));
    let e = PolicyError::Shape(p, k);
    proof {
        assert(e@->Shape_0 =~= seq![SpecPathSegment::Index(i as int)]);
    }
    e
}

/// A shape error at one object field.
fn shape_at_field(name: String, k: ShapeError) -> (e: PolicyError)
    ensures
        e@ == SpecPolicyError::Shape(seq![SpecPathSegment::Field(name@)], k@),
{
    let ghost n = name@;
    let mut p: Vec<PathSegment> = Vec::new();
    p.push(PathSegment::Field(name));
    let e = PolicyError::Shape(p, k);
    proof {
        assert(e@->Shape_0 =~= seq![SpecPathSegment::Field(n)]);
    }
    e
}

/// An element error with an empty path.
fn elem_here(k: ElementError) -> (e: PolicyError)
    ensures
        e@ == SpecPolicyError::Element(Seq::empty(), k@),
{
    let e = PolicyError::Element(Vec::new(), k);
    proof {
        assert(e@->Element_0 =~= Seq::<SpecPathSegment>::empty());
    }
    e
}

/// An element error at one object field.
fn elem_at_field(name: String, k: ElementError) -> (e: PolicyError)
    ensures
        e@ == SpecPolicyError::Element(seq![SpecPathSegment::Field(name@)], k@),
{
    let ghost n = name@;
    let mut p: Vec<PathSegment> = Vec::new();
    p.push(PathSegment::Field(name));
    let e = PolicyError::Element(p, k);
    proof {
        assert(e@->Element_0 =~= seq![SpecPathSegment::Field(n)]);
    }
    e
}

/// A document error with an empty path.
fn doc_here(k: DocumentError) -> (e: PolicyError)
    ensures
        e@ == SpecPolicyError::Document(Seq::empty(), k@),
{
    let e = PolicyError::Document(Vec::new(), k);
    proof {
        assert(e@->Document_0 =~= Seq::<SpecPathSegment>::empty());
    }
    e
}

/// A document error at one object field.
fn doc_at_field(name: String, k: DocumentError) -> (e: PolicyError)
    ensures
        e@ == SpecPolicyError::Document(seq![SpecPathSegment::Field(name@)], k@),
{
    let ghost n = name@;
    let mut p: Vec<PathSegment> = Vec::new();
    p.push(PathSegment::Field(name));
    let e = PolicyError::Document(p, k);
    proof {
        assert(e@->Document_0 =~= seq![SpecPathSegment::Field(n)]);
    }
    e
}

/// Serializes a wildcard container of plain strings.
fn ser_any_strings(c: &OneOrAny<String>) -> (r: JsonValue)
    ensures
        r@ == sp_ser_any(c.deep_view()),
{
    match c {
        OneOrAny::Any => JsonValue::Str(star_string()),
        OneOrAny::One(s) => JsonValue::Str(s.clone()),
        OneOrAny::AnyOf(ss) => {
            let mut out: Vec<JsonValue> = Vec::new();
            let mut i: usize = 0;
            while i < ss.len()
                invariant
                    0 <= i <= ss@.len(),
                    out@.len() == i,
                    forall|j: int|
                        0 <= j < i ==> (#[trigger] out@[j])@ == SpecJson::Str(ss.deep_view()[j]),
                decreases ss@.len() - i,
            {
                out.push(JsonValue::Str(ss[i].clone()));
                i = i + 1;
            }
            proof {
                crate::json::lemma_view_list(out@);
                assert(crate::json::spec_view_list(out@) =~~= ss.deep_view().map_values(
                    |s: Seq<char>| SpecJson::Str(s),
                ));
            }
            JsonValue::Arr(out)
        },
    }
}

/// Serializes a wildcard container of action identifiers.
fn ser_any_actions(c: &OneOrAny<ActionIdentifier>) -> (r: JsonValue)
    ensures
        r@ == sp_ser_any(c.deep_view()),
{
    match c {
        OneOrAny::Any => JsonValue::Str(star_string()),
        OneOrAny::One(a) => JsonValue::Str(a.to_string_repr()),
        OneOrAny::AnyOf(ss) => {
            let mut out: Vec<JsonValue> = Vec::new();
            let mut i: usize = 0;
            while i < ss.len()
                invariant
                    0 <= i <= ss@.len(),
                    out@.len() == i,
                    forall|j: int|
                        0 <= j < i ==> (#[trigger] out@[j])@ == SpecJson::Str(ss.deep_view()[j]),
                decreases ss@.len() - i,
            {
                out.push(JsonValue::Str(ss[i].to_string_repr()));
                i = i + 1;
            }
            proof {
                crate::json::lemma_view_list(out@);
                assert(crate::json::spec_view_list(out@) =~~= ss.deep_view().map_values(
                    |s: Seq<char>| SpecJson::Str(s),
                ));
            }
            JsonValue::Arr(out)
        },
    }
}

/// Serializes a wildcard container of resource identifiers.
fn ser_any_resources(c: &OneOrAny<ResourceIdentifier>) -> (r: JsonValue)
    ensures
        r@ == sp_ser_any(c.deep_view()),
{
    match c {
        OneOrAny::Any => JsonValue::Str(star_string()),
        OneOrAny::One(a) => JsonValue::Str(a.to_string_repr()),
        OneOrAny::AnyOf(ss) => {
            let mut out: Vec<JsonValue> = Vec::new();
            let mut i: usize = 0;
            while i < ss.len()
                invariant
                    0 <= i <= ss@.len(),
                    out@.len() == i,
                    forall|j: int|
                        0 <= j < i ==> (#[trigger] out@[j])@ == SpecJson::Str(ss.deep_view()[j]),
                decreases ss@.len() - i,
            {
                out.push(JsonValue::Str(ss[i].to_string_repr()));
                i = i + 1;
            }
            proof {
                crate::json::lemma_view_list(out@);
                assert(crate::json::spec_view_list(out@) =~~= ss.deep_view().map_values(
                    |s: Seq<char>| SpecJson::Str(s),
                ));
            }
            JsonValue::Arr(out)
        },
    }
}

/// Serializes a one-or-many container of plain strings.
fn ser_all_strings(c: &OneOrAll<String>) -> (r: JsonValue)
    ensures
        r@ == sp_ser_all(c.deep_view()),
{
    match c {
        OneOrAll::One(s) => JsonValue::Str(s.clone()),
        OneOrAll::All(ss) => {
            let mut out: Vec<JsonValue> = Vec::new();
            let mut i: usize = 0;
            while i < ss.len()
                invariant
                    0 <= i <= ss@.len(),
                    out@.len() == i,
                    forall|j: int|
                        0 <= j < i ==> (#[trigger] out@[j])@ == SpecJson::Str(ss.deep_view()[j]),
                decreases ss@.len() - i,
            {
                out.push(JsonValue::Str(ss[i].clone()));
                i = i + 1;
            }
            proof {
                crate::json::lemma_view_list(out@);
                assert(crate::json::spec_view_list(out@) =~~= ss.deep_view().map_values(
                    |s: Seq<char>| SpecJson::Str(s),
                ));
            }
            JsonValue::Arr(out)
        },
    }
}

/// Serializes a principal.
fn ser_principal(p: &Principal) -> (r: JsonValue)
    ensures
        r@ == sp_ser_principal(p.deep_view()),
{
    match p {
        Principal::Any => JsonValue::Str(star_string()),
        Principal::Principal(m) => {
            let mut out: Vec<(String, JsonValue)> = Vec::new();
            let mut i: usize = 0;
            while i < m.len()
                invariant
                    0 <= i <= m@.len(),
                    out@.len() == i,
                    forall|j: int|
                        0 <= j < i ==> ((#[trigger] out@[j]).0@, out@[j].1@) == (
                        ptype_repr(m.deep_view()[j].0),
                        sp_ser_any(m.deep_view()[j].1),
                        ),
                decreases m@.len() - i,
            {
                let key = m[i].0.to_string_repr();
                let val = ser_any_strings(&m[i].1);
                out.push((key, val));
                i = i + 1;
            }
            proof {
                crate::json::lemma_view_fields(out@);
                assert(crate::json::spec_view_fields(out@) =~~= m.deep_view().map_values(
                    |e: (PrincipalType, SpecOneOrAny<Seq<char>>)|
                        (ptype_repr(e.0), sp_ser_any(e.1)),
                ));
            }
            JsonValue::Obj(out)
        },
    }
}

/// Serializes one operator's rows.
fn ser_condition_rows(rows: &Vec<(String, OneOrAll<String>)>) -> (r: JsonValue)
    ensures
        r@ == SpecJson::Obj(
            rows.deep_view().map_values(
                |kv: (Seq<char>, SpecOneOrAll<Seq<char>>)| (kv.0, sp_ser_all(kv.1)),
            ),
        ),
{
    let mut out: Vec<(String, JsonValue)> = Vec::new();
    let mut i: usize = 0;
    while i < rows.len()
        invariant
            0 <= i <= rows@.len(),
            out@.len() == i,
            forall|j: int|
                0 <= j < i ==> ((#[trigger] out@[j]).0@, out@[j].1@) == (
                rows.deep_view()[j].0,
                sp_ser_all(rows.deep_view()[j].1),
                ),
        decreases rows@.len() - i,
    {
        let key = rows[i].0.clone();
        let val = ser_all_strings(&rows[i].1);
        out.push((key, val));
        i = i + 1;
    }
    proof {
        crate::json::lemma_view_fields(out@);
        assert(crate::json::spec_view_fields(out@) =~~= rows.deep_view().map_values(
            |kv: (Seq<char>, SpecOneOrAll<Seq<char>>)| (kv.0, sp_ser_all(kv.1)),
        ));
    }
    JsonValue::Obj(out)
}

/// Serializes a condition block.
fn ser_condition(c: &Condition) -> (r: JsonValue)
    ensures
        r@ == sp_ser_condition(c.deep_view()),
{
    let mut out: Vec<(String, JsonValue)> = Vec::new();
    let mut i: usize = 0;
    while i < c.entries.len()
        invariant
            0 <= i <= c.entries@.len(),
            c.deep_view().len() == c.entries@.len(),
            out@.len() == i,
            forall|j: int|
                0 <= j < i ==> ((#[trigger] out@[j]).0@, out@[j].1@) == (
                op_repr(c.deep_view()[j].0),
                SpecJson::Obj(
                    c.deep_view()[j].1.map_values(
                        |kv: (Seq<char>, SpecOneOrAll<Seq<char>>)| (kv.0, sp_ser_all(kv.1)),
                    ),
                ),
                ),
        decreases c.entries@.len() - i,
    {
        let key = c.entries[i].0.to_string_repr();
        let val = ser_condition_rows(&c.entries[i].1);
        out.push((key, val));
        i = i + 1;
    }
    proof {
        crate::json::lemma_view_fields(out@);
        assert(crate::json::spec_view_fields(out@) =~~= c.deep_view().map_values(
            |e: (GlobalConditionOperator, Seq<(Seq<char>, SpecOneOrAll<Seq<char>>)>)|
                (
                    op_repr(e.0),
                    SpecJson::Obj(
                        e.1.map_values(
                            |kv: (Seq<char>, SpecOneOrAll<Seq<char>>)| (kv.0, sp_ser_all(kv.1)),
                        ),
                    ),
                ),
        ));
    }
    JsonValue::Obj(out)
}

/// Serializes one statement, with fields in the fixed emission order.
fn ser_statement(s: &Statement) -> (r: JsonValue)
    ensures
        r@ == sp_ser_statement(s@),
{
    let mut fields: Vec<(String, JsonValue)> = Vec::new();
    match &s.sid {
        Some(sid) => {
            fields.push((crate::strings::str_owned("Sid"), JsonValue::Str(sid.clone())));
        },
        None => {},
    }
    match &s.principal {
        Some(p) => {
            fields.push((crate::strings::str_owned("Principal"), ser_principal(p)));
        },
        None => {},
    }
    fields.push(
        (crate::strings::str_owned("Effect"), JsonValue::Str(s.effect.to_string_repr())),
    );
    match &s.action {
        Action::Action(c) => {
            fields.push((crate::strings::str_owned("Action"), ser_any_actions(c)));
        },
        Action::NotAction(c) => {
            fields.push((crate::strings::str_owned("NotAction"), ser_any_actions(c)));
        },
    }
    match &s.resource {
        Some(Resource::Resource(c)) => {
            fields.push((crate::strings::str_owned("Resource"), ser_any_resources(c)));
        },
        Some(Resource::NotResource(c)) => {
            fields.push((crate::strings::str_owned("NotResource"), ser_any_resources(c)));
        },
        None => {},
    }
    match &s.condition {
        Some(c) => {
            fields.push((crate::strings::str_owned("Condition"), ser_condition(c)));
        },
        None => {},
    }
    proof {
        crate::json::lemma_view_fields(fields@);
        assert(sp_ser_statement(s@) matches SpecJson::Obj(t) && crate::json::spec_view_fields(
            fields@,
        ) =~~= t);
    }
    JsonValue::Obj(fields)
}

/// Serializes the statement field.
fn ser_statements(c: &OneOrAll<Statement>) -> (r: JsonValue)
    ensures
        r@ == sp_ser_statements(c.deep_view()),
{
    match c {
        OneOrAll::One(s) => ser_statement(s),
        OneOrAll::All(ss) => {
            let mut out: Vec<JsonValue> = Vec::new();
            let mut i: usize = 0;
            while i < ss.len()
                invariant
                    0 <= i <= ss@.len(),
                    out@.len() == i,
                    forall|j: int|
                        0 <= j < i ==> (#[trigger] out@[j])@ == sp_ser_statement(
                            ss.deep_view()[j],
                        ),
                decreases ss@.len() - i,
            {
                out.push(ser_statement(&ss[i]));
                i = i + 1;
            }
            proof {
                crate::json::lemma_view_list(out@);
                assert(crate::json::spec_view_list(out@) =~~= ss.deep_view().map_values(
                    |s: SpecStatement| sp_ser_statement(s),
                ));
            }
            JsonValue::Arr(out)
        },
    }
}

/// Serializes a whole policy to its JSON value, with fields in the fixed
/// emission order: Version, Id, Statement.
pub fn policy_to_json(p: &Policy) -> (r: JsonValue)
    ensures
        r@ == sp_ser_policy(p@),
{
    let mut fields: Vec<(String, JsonValue)> = Vec::new();
    match &p.version {
        Some(v) => {
            fields.push(
                (crate::strings::str_owned("Version"), JsonValue::Str(v.to_string_repr())),
            );
        },
        None => {},
    }
    match &p.id {
        Some(id) => {
            fields.push((crate::strings::str_owned("Id"), JsonValue::Str(id.clone())));
        },
        None => {},
    }
    fields.push((crate::strings::str_owned("Statement"), ser_statements(&p.statement)));
    proof {
        crate::json::lemma_view_fields(fields@);
        assert(sp_ser_policy(p@) matches SpecJson::Obj(t) && crate::json::spec_view_fields(
            fields@,
        ) =~~= t);
    }
    JsonValue::Obj(fields)
}

/// Parses the elements of an action array.
fn parse_action_items(es: &Vec<JsonValue>, k: usize) -> (r: Result<
    Vec<ActionIdentifier>,
    PolicyError,
>)
    requires
        k <= es@.len(),
    ensures
        rvw(r) == sp_parse_any_items(
            crate::json::spec_view_list(es@),
            k as int,
            |s: Seq<char>| action_text_wf(s),
            |s: Seq<char>| mk_action_err(s),
        ),
    decreases es@.len() - k,
{
    proof {
        crate::json::lemma_view_list(es@);
    }
    if k >= es.len() {
        let out: Vec<ActionIdentifier> = Vec::new();
        proof {
            assert(out.deep_view() =~~= Seq::<Seq<char>>::empty());
        }
        return Ok(out);
    }
    match &es[k] {
        JsonValue::Str(s) => {
            if check_star(s.as_str()) && es.len() > 1 {
                Err(shape_at_index(k, ShapeError::WildcardInArray))
            } else {
                match ActionIdentifier::parse_from_string(s.as_str()) {
                    Err(e) => Err(shape_at_index(k, ShapeError::ElementParse(e))),
                    Ok(a) => {
                        match parse_action_items(es, k + 1) {
                            Ok(mut rest) => {
                                let ghost pre = rest.deep_view();
                                rest.insert(0, a);
                                proof {
                                    assert(rest.deep_view() =~~= seq![s@] + pre);
                                }
                                Ok(rest)
                            },
                            Err(e) => Err(e),
                        }
                    },
                }
            }
        },
        JsonValue::Arr(_) => Err(
            shape_here(ShapeError::UnexpectedShape).nested(PathSegment::Index(k)),
        ),
        JsonValue::Obj(_) => Err(
            shape_here(ShapeError::UnexpectedShape).nested(PathSegment::Index(k)),
        ),
        _ => Err(
            shape_here(ShapeError::ElementParse(ElementError::NotAString)).nested(
                PathSegment::Index(k),
            ),
        ),
    }
}

/// Parses the elements of a resource array.
fn parse_resource_items(es: &Vec<JsonValue>, k: usize) -> (r: Result<
    Vec<ResourceIdentifier>,
    PolicyError,
>)
    requires
        k <= es@.len(),
    ensures
        rvw(r) == sp_parse_any_items(
            crate::json::spec_view_list(es@),
            k as int,
            |s: Seq<char>| resource_text_wf(s),
            |s: Seq<char>| mk_resource_err(s),
        ),
    decreases es@.len() - k,
{
    proof {
        crate::json::lemma_view_list(es@);
    }
    if k >= es.len() {
        let out: Vec<ResourceIdentifier> = Vec::new();
        proof {
            assert(out.deep_view() =~~= Seq::<Seq<char>>::empty());
        }
        return Ok(out);
    }
    match &es[k] {
        JsonValue::Str(s) => {
            if check_star(s.as_str()) && es.len() > 1 {
                Err(shape_at_index(k, ShapeError::WildcardInArray))
            } else {
                match ResourceIdentifier::parse_from_string(s.as_str()) {
                    Err(e) => Err(shape_at_index(k, ShapeError::ElementParse(e))),
                    Ok(a) => {
                        match parse_resource_items(es, k + 1) {
                            Ok(mut rest) => {
                                let ghost pre = rest.deep_view();
                                rest.insert(0, a);
                                proof {
                                    assert(rest.deep_view() =~~= seq![s@] + pre);
                                }
                                Ok(rest)
                            },
                            Err(e) => Err(e),
                        }
                    },
                }
            }
        },
        JsonValue::Arr(_) => Err(
            shape_here(ShapeError::UnexpectedShape).nested(PathSegment::Index(k)),
        ),
        JsonValue::Obj(_) => Err(
            shape_here(ShapeError::UnexpectedShape).nested(PathSegment::Index(k)),
        ),
        _ => Err(
            shape_here(ShapeError::ElementParse(ElementError::NotAString)).nested(
                PathSegment::Index(k),
            ),
        ),
    }
}

/// Parses the elements of a principal identifier array.
fn parse_pstring_items(es: &Vec<JsonValue>, k: usize) -> (r: Result<Vec<String>, PolicyError>)
    requires
        k <= es@.len(),
    ensures
        rvw(r) == sp_parse_any_items(
            crate::json::spec_view_list(es@),
            k as int,
            |s: Seq<char>| any_text_wf(s),
            |s: Seq<char>| mk_no_err(s),
        ),
    decreases es@.len() - k,
{
    proof {
        crate::json::lemma_view_list(es@);
    }
    if k >= es.len() {
        let out: Vec<String> = Vec::new();
        proof {
            assert(out.deep_view() =~~= Seq::<Seq<char>>::empty());
        }
        return Ok(out);
    }
    match &es[k] {
        JsonValue::Str(s) => {
            if check_star(s.as_str()) && es.len() > 1 {
                Err(shape_at_index(k, ShapeError::WildcardInArray))
            } else {
                match parse_pstring_items(es, k + 1) {
                    Ok(mut rest) => {
                        let ghost pre = rest.deep_view();
                        rest.insert(0, s.clone());
                        proof {
                            assert(rest.deep_view() =~~= seq![s@] + pre);
                        }
                        Ok(rest)
                    },
                    Err(e) => Err(e),
                }
            }
        },
        JsonValue::Arr(_) => Err(
            shape_here(ShapeError::UnexpectedShape).nested(PathSegment::Index(k)),
        ),
        JsonValue::Obj(_) => Err(
            shape_here(ShapeError::UnexpectedShape).nested(PathSegment::Index(k)),
        ),
        _ => Err(
            shape_here(ShapeError::ElementParse(ElementError::NotAString)).nested(
                PathSegment::Index(k),
            ),
        ),
    }
}

/// Parses an action container.
fn parse_any_actions(v: &JsonValue) -> (r: Result<OneOrAny<ActionIdentifier>, PolicyError>)
    ensures
        rvw(r) == sp_parse_any(
            v@,
            |s: Seq<char>| action_text_wf(s),
            |s: Seq<char>| mk_action_err(s),
        ),
{
    match v {
        JsonValue::Str(s) => {
            if check_star(s.as_str()) {
                Ok(OneOrAny::Any)
            } else {
                match ActionIdentifier::parse_from_string(s.as_str()) {
                    Ok(a) => Ok(OneOrAny::One(a)),
                    Err(e) => Err(shape_here(ShapeError::ElementParse(e))),
                }
            }
        },
        JsonValue::Arr(es) => {
            match parse_action_items(es, 0) {
                Ok(items) => Ok(OneOrAny::AnyOf(items)),
                Err(e) => Err(e),
            }
        },
        JsonValue::Obj(_) => Err(shape_here(ShapeError::UnexpectedShape)),
        _ => Err(shape_here(ShapeError::ElementParse(ElementError::NotAString))),
    }
}

/// Parses a resource container.
fn parse_any_resources(v: &JsonValue) -> (r: Result<OneOrAny<ResourceIdentifier>, PolicyError>)
    ensures
        rvw(r) == sp_parse_any(
            v@,
            |s: Seq<char>| resource_text_wf(s),
            |s: Seq<char>| mk_resource_err(s),
        ),
{
    match v {
        JsonValue::Str(s) => {
            if check_star(s.as_str()) {
                Ok(OneOrAny::Any)
            } else {
                match ResourceIdentifier::parse_from_string(s.as_str()) {
                    Ok(a) => Ok(OneOrAny::One(a)),
                    Err(e) => Err(shape_here(ShapeError::ElementParse(e))),
                }
            }
        },
        JsonValue::Arr(es) => {
            match parse_resource_items(es, 0) {
                Ok(items) => Ok(OneOrAny::AnyOf(items)),
                Err(e) => Err(e),
            }
        },
        JsonValue::Obj(_) => Err(shape_here(ShapeError::UnexpectedShape)),
        _ => Err(shape_here(ShapeError::ElementParse(ElementError::NotAString))),
    }
}

/// Parses a principal identifier container.
fn parse_any_pstrings(v: &JsonValue) -> (r: Result<OneOrAny<String>, PolicyError>)
    ensures
        rvw(r) == sp_parse_any(v@, |s: Seq<char>| any_text_wf(s), |s: Seq<char>| mk_no_err(s)),
{
    match v {
        JsonValue::Str(s) => {
            if check_star(s.as_str()) {
                Ok(OneOrAny::Any)
            } else {
                Ok(OneOrAny::One(s.clone()))
            }
        },
        JsonValue::Arr(es) => {
            match parse_pstring_items(es, 0) {
                Ok(items) => Ok(OneOrAny::AnyOf(items)),
                Err(e) => Err(e),
            }
        },
        JsonValue::Obj(_) => Err(shape_here(ShapeError::UnexpectedShape)),
        _ => Err(shape_here(ShapeError::ElementParse(ElementError::NotAString))),
    }
}

/// Parses the elements of a condition value array.
fn parse_all_items(es: &Vec<JsonValue>, k: usize) -> (r: Result<Vec<String>, PolicyError>)
    requires
        k <= es@.len(),
    ensures
        rvw(r) == sp_parse_all_items(crate::json::spec_view_list(es@), k as int),
    decreases es@.len() - k,
{
    proof {
        crate::json::lemma_view_list(es@);
    }
    if k >= es.len() {
        let out: Vec<String> = Vec::new();
        proof {
            assert(out.deep_view() =~~= Seq::<Seq<char>>::empty());
        }
        return Ok(out);
    }
    match &es[k] {
        JsonValue::Str(s) => {
            match parse_all_items(es, k + 1) {
                Ok(mut rest) => {
                    let ghost pre = rest.deep_view();
                    rest.insert(0, s.clone());
                    proof {
                        assert(rest.deep_view() =~~= seq![s@] + pre);
                    }
                    Ok(rest)
                },
                Err(e) => Err(e),
            }
        },
        JsonValue::Arr(_) => Err(
            shape_here(ShapeError::UnexpectedShape).nested(PathSegment::Index(k)),
        ),
        JsonValue::Obj(_) => Err(
            shape_here(ShapeError::UnexpectedShape).nested(PathSegment::Index(k)),
        ),
        _ => Err(
            shape_here(ShapeError::ElementParse(ElementError::NotAString)).nested(
                PathSegment::Index(k),
            ),
        ),
    }
}

/// Parses a condition value container.
fn parse_all_strings(v: &JsonValue) -> (r: Result<OneOrAll<String>, PolicyError>)
    ensures
        rvw(r) == sp_parse_all(v@),
{
    match v {
        JsonValue::Arr(es) => {
            match parse_all_items(es, 0) {
                Ok(items) => Ok(OneOrAll::All(items)),
                Err(e) => Err(e),
            }
        },
        JsonValue::Str(s) => Ok(OneOrAll::One(s.clone())),
        JsonValue::Obj(_) => Err(shape_here(ShapeError::UnexpectedShape)),
        _ => Err(shape_here(ShapeError::ElementParse(ElementError::NotAString))),
    }
}

/// Decides `sp_has_ptype`.
fn find_ptype(acc: &Vec<(PrincipalType, OneOrAny<String>)>, t: PrincipalType) -> (r: bool)
    ensures
        r == sp_has_ptype(acc.deep_view(), t),
{
    let mut i: usize = 0;
    while i < acc.len()
        invariant
            0 <= i <= acc@.len(),
            acc.deep_view().len() == acc@.len(),
            forall|j: int| 0 <= j < i ==> #[trigger] acc.deep_view()[j].0 != t,
        decreases acc@.len() - i,
    {
        if acc[i].0 == t {
            proof {
                assert(acc.deep_view()[i as int].0 == t);
            }
            return true;
        }
        i = i + 1;
    }
    false
}

/// Parses the entries of a keyed principal object.
fn parse_principal_entries(
    fs: &Vec<(String, JsonValue)>,
    k: usize,
    acc: Vec<(PrincipalType, OneOrAny<String>)>,
) -> (r: Result<Vec<(PrincipalType, OneOrAny<String>)>, PolicyError>)
    requires
        k <= fs@.len(),
    ensures
        rvw(r) == sp_parse_principal_entries(
            crate::json::spec_view_fields(fs@),
            k as int,
            acc.deep_view(),
        ),
    decreases fs@.len() - k,
{
    proof {
        crate::json::lemma_view_fields(fs@);
    }
    if k >= fs.len() {
        return Ok(acc);
    }
    let pair = &fs[k];
    match PrincipalType::parse_from_string(pair.0.as_str()) {
        None => Err(elem_here(ElementError::UnknownPrincipalType(pair.0.clone()))),
        Some(t) => {
            if find_ptype(&acc, t) {
                Err(doc_here(DocumentError::DuplicateField(pair.0.clone())))
            } else {
                match parse_any_pstrings(&pair.1) {
                    Ok(c) => {
                        let mut acc2 = acc;
                        let ghost pre = acc2.deep_view();
                        acc2.push((t, c));
                        proof {
                            assert(acc2.deep_view() =~~= pre.push((t, c.deep_view())));
                        }
                        parse_principal_entries(fs, k + 1, acc2)
                    },
                    Err(e) => Err(e.nested(PathSegment::Field(pair.0.clone()))),
                }
            }
        },
    }
}

/// Parses a principal.
fn parse_principal(v: &JsonValue) -> (r: Result<Principal, PolicyError>)
    ensures
        rvw(r) == sp_parse_principal(v@),
{
    match v {
        JsonValue::Str(s) => {
            if check_star(s.as_str()) {
                Ok(Principal::Any)
            } else {
                Err(shape_here(ShapeError::UnexpectedShape))
            }
        },
        JsonValue::Obj(fs) => {
            let empty_acc: Vec<(PrincipalType, OneOrAny<String>)> = Vec::new();
            proof {
                assert(empty_acc.deep_view() =~~= Seq::<
                    (PrincipalType, SpecOneOrAny<Seq<char>>),
                >::empty());
            }
            match parse_principal_entries(fs, 0, empty_acc) {
                Ok(m) => Ok(Principal::Principal(m)),
                Err(e) => Err(e),
            }
        },
        _ => Err(shape_here(ShapeError::UnexpectedShape)),
    }
}

/// Decides `sp_has_key`.
fn find_key(rows: &Vec<(String, OneOrAll<String>)>, key: &String) -> (r: bool)
    ensures
        r == sp_has_key(rows.deep_view(), key@),
{
    let mut i: usize = 0;
    while i < rows.len()
        invariant
            0 <= i <= rows@.len(),
            rows.deep_view().len() == rows@.len(),
            forall|j: int| 0 <= j < i ==> #[trigger] rows.deep_view()[j].0 != key@,
        decreases rows@.len() - i,
    {
        if crate::strings::eq_str(rows[i].0.as_str(), key.as_str()) {
            proof {
                assert(rows.deep_view()[i as int].0 == key@);
            }
            return true;
        }
        i = i + 1;
    }
    false
}

/// Parses the rows of one operator's block.
fn parse_condition_rows(
    fs: &Vec<(String, JsonValue)>,
    k: usize,
    acc: Vec<(String, OneOrAll<String>)>,
) -> (r: Result<Vec<(String, OneOrAll<String>)>, PolicyError>)
    requires
        k <= fs@.len(),
    ensures
        rvw(r) == sp_parse_condition_rows(
            crate::json::spec_view_fields(fs@),
            k as int,
            acc.deep_view(),
        ),
    decreases fs@.len() - k,
{
    proof {
        crate::json::lemma_view_fields(fs@);
    }
    if k >= fs.len() {
        return Ok(acc);
    }
    let pair = &fs[k];
    if find_key(&acc, &pair.0) {
        Err(doc_here(DocumentError::DuplicateField(pair.0.clone())))
    } else {
        match parse_all_strings(&pair.1) {
            Ok(c) => {
                let mut acc2 = acc;
                let ghost pre = acc2.deep_view();
                let ghost keyview = pair.0@;
                acc2.push((pair.0.clone(), c));
                proof {
                    assert(acc2.deep_view() =~~= pre.push((keyview, c.deep_view())));
                }
                parse_condition_rows(fs, k + 1, acc2)
            },
            Err(e) => Err(e.nested(PathSegment::Field(pair.0.clone()))),
        }
    }
}

/// Decides `sp_has_op`.
fn find_op(
    acc: &Vec<(GlobalConditionOperator, Vec<(String, OneOrAll<String>)>)>,
    op: GlobalConditionOperator,
) -> (r: bool)
    ensures
        r == sp_has_op(acc.deep_view(), op),
{
    let mut i: usize = 0;
    while i < acc.len()
        invariant
            0 <= i <= acc@.len(),
            acc.deep_view().len() == acc@.len(),
            forall|j: int| 0 <= j < i ==> #[trigger] acc.deep_view()[j].0 != op,
        decreases acc@.len() - i,
    {
        if acc[i].0 == op {
            proof {
                assert(acc.deep_view()[i as int].0 == op);
            }
            return true;
        }
        i = i + 1;
    }
    false
}

/// Parses the operator entries of a condition block.
fn parse_condition_entries(
    fs: &Vec<(String, JsonValue)>,
    k: usize,
    acc: Vec<(GlobalConditionOperator, Vec<(String, OneOrAll<String>)>)>,
) -> (r: Result<Vec<(GlobalConditionOperator, Vec<(String, OneOrAll<String>)>)>, PolicyError>)
    requires
        k <= fs@.len(),
    ensures
        rvw(r) == sp_parse_condition_entries(
            crate::json::spec_view_fields(fs@),
            k as int,
            acc.deep_view(),
        ),
    decreases fs@.len() - k,
{
    proof {
        crate::json::lemma_view_fields(fs@);
    }
    if k >= fs.len() {
        return Ok(acc);
    }
    let pair = &fs[k];
    match GlobalConditionOperator::parse_from_string(pair.0.as_str()) {
        None => Err(elem_here(ElementError::UnknownOperator(pair.0.clone()))),
        Some(op) => {
            if find_op(&acc, op) {
                Err(doc_here(DocumentError::DuplicateField(pair.0.clone())))
            } else {
                match &pair.1 {
                    JsonValue::Obj(rows) => {
                        let empty_rows: Vec<(String, OneOrAll<String>)> = Vec::new();
                        proof {
                            assert(empty_rows.deep_view() =~~= Seq::<
                                (Seq<char>, SpecOneOrAll<Seq<char>>),
                            >::empty());
                        }
                        match parse_condition_rows(rows, 0, empty_rows) {
                            Ok(m) => {
                                let mut acc2 = acc;
                                let ghost pre = acc2.deep_view();
                                let ghost mview = m.deep_view();
                                acc2.push((op, m));
                                proof {
                                    assert(acc2.deep_view() =~~= pre.push((op, mview)));
                                }
                                parse_condition_entries(fs, k + 1, acc2)
                            },
                            Err(e) => Err(e.nested(PathSegment::Field(pair.0.clone()))),
                        }
                    },
                    _ => Err(
                        shape_at_field(pair.0.clone(), ShapeError::UnexpectedShape),
                    ),
                }
            }
        },
    }
}

/// Parses a condition block.
fn parse_condition(v: &JsonValue) -> (r: Result<Condition, PolicyError>)
    ensures
        rvw(r) == (match sp_parse_condition(v@) {
            Ok(c) => Ok::<SpecCondition, SpecPolicyError>(c),
            Err(e) => Err(e),
        }),
{
    match v {
        JsonValue::Obj(fs) => {
            let empty_acc: Vec<(GlobalConditionOperator, Vec<(String, OneOrAll<String>)>)> =
                Vec::new();
            proof {
                assert(empty_acc.deep_view() =~~= Seq::<
                    (GlobalConditionOperator, Seq<(Seq<char>, SpecOneOrAll<Seq<char>>)>),
                >::empty());
            }
            match parse_condition_entries(fs, 0, empty_acc) {
                Ok(m) => Ok(Condition { entries: m }),
                Err(e) => Err(e),
            }
        },
        _ => Err(shape_here(ShapeError::UnexpectedShape)),
    }
}

/// Parses a statement object's fields from index `k` on, with the slots
/// filled so far.
fn parse_statement_fields(
    fs: &Vec<(String, JsonValue)>,
    k: usize,
    sid: Option<String>,
    principal: Option<Principal>,
    effect: Option<Effect>,
    action: Option<Action>,
    resource: Option<Resource>,
    condition: Option<Condition>,
) -> (r: Result<Statement, PolicyError>)
    requires
        k <= fs@.len(),
    ensures
        rvw(r) == sp_parse_statement_fields(
            crate::json::spec_view_fields(fs@),
            k as int,
            SpecStatementSlots {
                sid: sid.deep_view(),
                principal: principal.deep_view(),
                effect: effect.deep_view(),
                action: action.deep_view(),
                resource: resource.deep_view(),
                condition: condition.deep_view(),
            },
        ),
    decreases fs@.len() - k,
{
    proof {
        crate::json::lemma_view_fields(fs@);
    }
    if k >= fs.len() {
        return match effect {
            None => Err(
                doc_here(DocumentError::MissingField(crate::strings::str_owned("Effect"))),
            ),
            Some(eff) => {
                match action {
                    None => Err(
                        doc_here(
                            DocumentError::ConflictingFields(
                                crate::strings::str_owned("Action"),
                            ),
                        ),
                    ),
                    Some(act) => Ok(
                        Statement {
                            sid,
                            principal,
                            effect: eff,
                            action: act,
                            resource,
                            condition,
                        },
                    ),
                }
            },
        };
    }
    let pair = &fs[k];
    let name = &pair.0;
    let val = &pair.1;
    if crate::strings::eq_str(name.as_str(), "Sid") {
        if sid.is_some() {
            Err(doc_here(DocumentError::DuplicateField(name.clone())))
        } else {
            match val {
                JsonValue::Str(s) => parse_statement_fields(
                    fs,
                    k + 1,
                    Some(s.clone()),
                    principal,
                    effect,
                    action,
                    resource,
                    condition,
                ),
                _ => Err(shape_at_field(name.clone(), ShapeError::UnexpectedShape)),
            }
        }
    } else if crate::strings::eq_str(name.as_str(), "Principal") {
        if principal.is_some() {
            Err(doc_here(DocumentError::DuplicateField(name.clone())))
        } else {
            match parse_principal(val) {
                Ok(p) => parse_statement_fields(
                    fs,
                    k + 1,
                    sid,
                    Some(p),
                    effect,
                    action,
                    resource,
                    condition,
                ),
                Err(e) => Err(e.nested(PathSegment::Field(name.clone()))),
            }
        }
    } else if crate::strings::eq_str(name.as_str(), "Effect") {
        if effect.is_some() {
            Err(doc_here(DocumentError::DuplicateField(name.clone())))
        } else {
            match val {
                JsonValue::Str(s) => {
                    match Effect::parse_from_string(s.as_str()) {
                        Some(eff) => parse_statement_fields(
                            fs,
                            k + 1,
                            sid,
                            principal,
                            Some(eff),
                            action,
                            resource,
                            condition,
                        ),
                        None => Err(
                            elem_at_field(name.clone(), ElementError::UnknownEffect(s.clone())),
                        ),
                    }
                },
                _ => Err(shape_at_field(name.clone(), ShapeError::UnexpectedShape)),
            }
        }
    } else if crate::strings::eq_str(name.as_str(), "Action") || crate::strings::eq_str(
        name.as_str(),
        "NotAction",
    ) {
        match &action {
            Some(prev) => {
                let same = match prev {
                    Action::Action(_) => crate::strings::eq_str(name.as_str(), "Action"),
                    Action::NotAction(_) => crate::strings::eq_str(name.as_str(), "NotAction"),
                };
                if same {
                    Err(doc_here(DocumentError::DuplicateField(name.clone())))
                } else {
                    Err(
                        doc_here(
                            DocumentError::ConflictingFields(
                                crate::strings::str_owned("Action"),
                            ),
                        ),
                    )
                }
            },
            None => {
                match parse_any_actions(val) {
                    Ok(c) => {
                        let act = if crate::strings::eq_str(name.as_str(), "Action") {
                            Action::Action(c)
                        } else {
                            Action::NotAction(c)
                        };
                        parse_statement_fields(
                            fs,
                            k + 1,
                            sid,
                            principal,
                            effect,
                            Some(act),
                            resource,
                            condition,
                        )
                    },
                    Err(e) => Err(e.nested(PathSegment::Field(name.clone()))),
                }
            },
        }
    } else if crate::strings::eq_str(name.as_str(), "Resource") || crate::strings::eq_str(
        name.as_str(),
        "NotResource",
    ) {
        match &resource {
            Some(prev) => {
                let same = match prev {
                    Resource::Resource(_) => crate::strings::eq_str(name.as_str(), "Resource"),
                    Resource::NotResource(_) => crate::strings::eq_str(
                        name.as_str(),
                        "NotResource",
                    ),
                };
                if same {
                    Err(doc_here(DocumentError::DuplicateField(name.clone())))
                } else {
                    Err(
                        doc_here(
                            DocumentError::ConflictingFields(
                                crate::strings::str_owned("Resource"),
                            ),
                        ),
                    )
                }
            },
            None => {
                match parse_any_resources(val) {
                    Ok(c) => {
                        let res = if crate::strings::eq_str(name.as_str(), "Resource") {
                            Resource::Resource(c)
                        } else {
                            Resource::NotResource(c)
                        };
                        parse_statement_fields(
                            fs,
                            k + 1,
                            sid,
                            principal,
                            effect,
                            action,
                            Some(res),
                            condition,
                        )
                    },
                    Err(e) => Err(e.nested(PathSegment::Field(name.clone()))),
                }
            },
        }
    } else if crate::strings::eq_str(name.as_str(), "Condition") {
        if condition.is_some() {
            Err(doc_here(DocumentError::DuplicateField(name.clone())))
        } else {
            match parse_condition(val) {
                Ok(c) => parse_statement_fields(
                    fs,
                    k + 1,
                    sid,
                    principal,
                    effect,
                    action,
                    resource,
                    Some(c),
                ),
                Err(e) => Err(e.nested(PathSegment::Field(name.clone()))),
            }
        }
    } else {
        Err(doc_here(DocumentError::UnknownField(name.clone())))
    }
}

/// Parses one statement.
fn parse_statement(v: &JsonValue) -> (r: Result<Statement, PolicyError>)
    ensures
        rvw(r) == sp_parse_statement(v@),
{
    match v {
        JsonValue::Obj(fs) => parse_statement_fields(
            fs,
            0,
            None,
            None,
            None,
            None,
            None,
            None,
        ),
        _ => Err(shape_here(ShapeError::UnexpectedShape)),
    }
}

/// Parses the statements of an array.
fn parse_statement_items(es: &Vec<JsonValue>, k: usize) -> (r: Result<Vec<Statement>, PolicyError>)
    requires
        k <= es@.len(),
    ensures
        rvw(r) == sp_parse_statement_items(crate::json::spec_view_list(es@), k as int),
    decreases es@.len() - k,
{
    proof {
        crate::json::lemma_view_list(es@);
    }
    if k >= es.len() {
        let out: Vec<Statement> = Vec::new();
        proof {
            assert(out.deep_view() =~~= Seq::<SpecStatement>::empty());
        }
        return Ok(out);
    }
    match parse_statement(&es[k]) {
        Ok(st) => {
            match parse_statement_items(es, k + 1) {
                Ok(mut rest) => {
                    let ghost pre = rest.deep_view();
                    let ghost stview = st@;
                    rest.insert(0, st);
                    proof {
                        assert(rest.deep_view() =~~= seq![stview] + pre);
                    }
                    Ok(rest)
                },
                Err(e) => Err(e),
            }
        },
        Err(e) => Err(e.nested(PathSegment::Index(k))),
    }
}

/// Parses the statement field.
fn parse_statements(v: &JsonValue) -> (r: Result<OneOrAll<Statement>, PolicyError>)
    ensures
        rvw(r) == sp_parse_statements(v@),
{
    match v {
        JsonValue::Arr(es) => {
            match parse_statement_items(es, 0) {
                Ok(items) => Ok(OneOrAll::All(items)),
                Err(e) => Err(e),
            }
        },
        _ => {
            match parse_statement(v) {
                Ok(st) => Ok(OneOrAll::One(st)),
                Err(e) => Err(e),
            }
        },
    }
}

/// Parses a policy object's fields from index `k` on.
fn parse_policy_fields(
    fs: &Vec<(String, JsonValue)>,
    k: usize,
    ver: Option<Version>,
    id: Option<String>,
    stmt: Option<OneOrAll<Statement>>,
) -> (r: Result<Policy, PolicyError>)
    requires
        k <= fs@.len(),
    ensures
        rvw(r) == sp_parse_policy_fields(
            crate::json::spec_view_fields(fs@),
            k as int,
            ver.deep_view(),
            id.deep_view(),
            stmt.deep_view(),
        ),
    decreases fs@.len() - k,
{
    proof {
        crate::json::lemma_view_fields(fs@);
    }
    if k >= fs.len() {
        return match stmt {
            None => Err(
                doc_here(
                    DocumentError::MissingField(crate::strings::str_owned("Statement")),
                ),
            ),
            Some(st) => Ok(Policy { version: ver, id, statement: st }),
        };
    }
    let pair = &fs[k];
    let name = &pair.0;
    let val = &pair.1;
    if crate::strings::eq_str(name.as_str(), "Version") {
        if ver.is_some() {
            Err(doc_here(DocumentError::DuplicateField(name.clone())))
        } else {
            match val {
                JsonValue::Str(s) => {
                    match Version::parse_from_string(s.as_str()) {
                        Some(v2) => parse_policy_fields(fs, k + 1, Some(v2), id, stmt),
                        None => Err(
                            doc_at_field(
                                name.clone(),
                                DocumentError::UnknownVersion(s.clone()),
                            ),
                        ),
                    }
                },
                _ => Err(shape_at_field(name.clone(), ShapeError::UnexpectedShape)),
            }
        }
    } else if crate::strings::eq_str(name.as_str(), "Id") {
        if id.is_some() {
            Err(doc_here(DocumentError::DuplicateField(name.clone())))
        } else {
            match val {
                JsonValue::Str(s) => parse_policy_fields(fs, k + 1, ver, Some(s.clone()), stmt),
                _ => Err(shape_at_field(name.clone(), ShapeError::UnexpectedShape)),
            }
        }
    } else if crate::strings::eq_str(name.as_str(), "Statement") {
        if stmt.is_some() {
            Err(doc_here(DocumentError::DuplicateField(name.clone())))
        } else {
            match parse_statements(val) {
                Ok(st) => parse_policy_fields(fs, k + 1, ver, id, Some(st)),
                Err(e) => Err(e.nested(PathSegment::Field(name.clone()))),
            }
        }
    } else {
        Err(doc_here(DocumentError::UnknownField(name.clone())))
    }
}

/// Parses a whole policy document from its JSON value, validating the
/// document invariants along the way.
pub fn parse_policy_value(v: &JsonValue) -> (r: Result<Policy, PolicyError>)
    ensures
        rvw(r) == sp_parse_policy(v@),
{
    match v {
        JsonValue::Obj(fs) => parse_policy_fields(fs, 0, None, None, None),
        _ => Err(shape_here(ShapeError::UnexpectedShape)),
    }
}

} // verus!
