//! The laws of the codec: round-tripping, shape preservation, wildcard
//! distinctness, mutual exclusion, and determinism, each proved against
//! the spec functions that the executable codec mirrors.

use vstd::prelude::*;
use crate::json::SpecJson;
use crate::model::containers::{SpecOneOrAll, SpecOneOrAny};
use crate::model::elements::{
    action_text_wf, effect_from, effect_repr, is_star, op_from, op_repr, ptype_from, ptype_repr,
    resource_text_wf, version_from, version_repr, Effect, GlobalConditionOperator, PrincipalType,
    Version,
};
use crate::model::error::{SpecElementError, SpecPolicyError};
use crate::model::policy::{
    SpecAction, SpecCondition, SpecPolicy, SpecPrincipal, SpecResource, SpecStatement,
};
use crate::codec::{
    any_text_wf, mk_action_err, mk_no_err, mk_resource_err, sp_parse_all, sp_parse_all_items,
    sp_parse_any, sp_parse_any_items, sp_parse_condition, sp_parse_condition_entries,
    sp_parse_condition_rows, sp_parse_policy, sp_parse_policy_fields, sp_parse_principal,
    sp_parse_principal_entries, sp_parse_statement, sp_parse_statement_fields,
    sp_parse_statement_items, sp_parse_statements, sp_empty_slots, sp_ser_all, sp_ser_any,
    sp_ser_condition, sp_ser_policy, sp_ser_principal, sp_ser_statement, sp_ser_statements,
    star_seq, SpecStatementSlots,
};

verus! {

broadcast use vstd::string::group_string_axioms;

/// Well-formedness of a wildcard container whose element grammar is `wf`:
/// every element satisfies the grammar, a single value is not the literal
/// wildcard token (that spelling is the `Any` form), and the wildcard
/// token stands in a list only when it is the sole element.
pub open spec fn any_container_wf(c: SpecOneOrAny<Seq<char>>, wf: spec_fn(Seq<char>) -> bool)
    -> bool {
    match c {
        SpecOneOrAny::Any => true,
        SpecOneOrAny::One(s) => wf(s) && !is_star(s),
        SpecOneOrAny::AnyOf(ss) => (forall|i: int| 0 <= i < ss.len() ==> wf(#[trigger] ss[i]))
            && (ss.len() > 1 ==> forall|i: int| 0 <= i < ss.len() ==> !is_star(#[trigger] ss[i])),
    }
}

/// Well-formedness of a principal: in the keyed form, the principal types
/// are unique and each identifier container is well formed.
pub open spec fn principal_wf(p: SpecPrincipal) -> bool {
    match p {
        SpecPrincipal::Any => true,
        SpecPrincipal::Principal(m) => (forall|i: int, j: int|
            0 <= i < j < m.len() ==> (#[trigger] m[i]).0 != (#[trigger] m[j]).0) && (forall|
            i: int,
        |
            0 <= i < m.len() ==> any_container_wf(
                (#[trigger] m[i]).1,
                |s: Seq<char>| any_text_wf(s),
            )),
    }
}

/// Well-formedness of a condition block: operators are unique, and within
/// each operator's block the condition keys are unique.
pub open spec fn condition_wf(c: SpecCondition) -> bool {
    &&& (forall|i: int, j: int|
        0 <= i < j < c.len() ==> (#[trigger] c[i]).0 != (#[trigger] c[j]).0)
    &&& (forall|i: int|
        0 <= i < c.len() ==> (forall|a: int, b: int|
            0 <= a < b < (#[trigger] c[i]).1.len() ==> (#[trigger] c[i].1[a]).0 != (
            #[trigger] c[i].1[b]).0))
}

/// Well-formedness of a statement: its containers obey their grammars.
pub open spec fn statement_wf(s: SpecStatement) -> bool {
    &&& (match s.action {
        SpecAction::Action(c) => any_container_wf(c, |t: Seq<char>| action_text_wf(t)),
        SpecAction::NotAction(c) => any_container_wf(c, |t: Seq<char>| action_text_wf(t)),
    })
    &&& (match s.resource {
        Some(SpecResource::Resource(c)) => any_container_wf(
            c,
            |t: Seq<char>| resource_text_wf(t),
        ),
        Some(SpecResource::NotResource(c)) => any_container_wf(
            c,
            |t: Seq<char>| resource_text_wf(t),
        ),
        None => true,
    })
    &&& (match s.principal {
        Some(p) => principal_wf(p),
        None => true,
    })
    &&& (match s.condition {
        Some(c) => condition_wf(c),
        None => true,
    })
}

/// Well-formedness of a policy: each of its statements is well formed.
pub open spec fn policy_wf(p: SpecPolicy) -> bool {
    match p.statement {
        SpecOneOrAll::One(s) => statement_wf(s),
        SpecOneOrAll::All(ss) => forall|i: int|
            0 <= i < ss.len() ==> statement_wf(#[trigger] ss[i]),
    }
}

/// Parsing inverts serialization on the items of a wildcard container.
proof fn lemma_rt_any_items(
    ss: Seq<Seq<char>>,
    k: int,
    wf: spec_fn(Seq<char>) -> bool,
    mk: spec_fn(Seq<char>) -> SpecElementError,
)
    requires
        0 <= k <= ss.len(),
        forall|i: int| 0 <= i < ss.len() ==> wf(#[trigger] ss[i]),
        ss.len() > 1 ==> forall|i: int| 0 <= i < ss.len() ==> !is_star(#[trigger] ss[i]),
    ensures
        sp_parse_any_items(ss.map_values(|s: Seq<char>| SpecJson::Str(s)), k, wf, mk) == Ok::<
            Seq<Seq<char>>,
            SpecPolicyError,
        >(ss.skip(k)),
    decreases ss.len() - k,
{
    let es = ss.map_values(|s: Seq<char>| SpecJson::Str(s));
    if k >= ss.len() {
        assert(ss.skip(k) =~= Seq::<Seq<char>>::empty());
    } else {
        assert(es[k] == SpecJson::Str(ss[k]));
        lemma_rt_any_items(ss, k + 1, wf, mk);
        assert(seq![ss[k]] + ss.skip(k + 1) =~= ss.skip(k));
    }
}

/// Parsing inverts serialization on a well-formed wildcard container.
pub proof fn lemma_rt_any(
    c: SpecOneOrAny<Seq<char>>,
    wf: spec_fn(Seq<char>) -> bool,
    mk: spec_fn(Seq<char>) -> SpecElementError,
)
    requires
        any_container_wf(c, wf),
    ensures
        sp_parse_any(sp_ser_any(c), wf, mk) == Ok::<SpecOneOrAny<Seq<char>>, SpecPolicyError>(c),
{
    match c {
        SpecOneOrAny::Any => {
            assert(is_star(star_seq()));
        },
        SpecOneOrAny::One(s) => {},
        SpecOneOrAny::AnyOf(ss) => {
            lemma_rt_any_items(ss, 0, wf, mk);
            assert(ss.skip(0) =~= ss);
        },
    }
}

/// Parsing inverts serialization on the items of a one-or-many container.
proof fn lemma_rt_all_items(ss: Seq<Seq<char>>, k: int)
    requires
        0 <= k <= ss.len(),
    ensures
        sp_parse_all_items(ss.map_values(|s: Seq<char>| SpecJson::Str(s)), k) == Ok::<
            Seq<Seq<char>>,
            SpecPolicyError,
        >(ss.skip(k)),
    decreases ss.len() - k,
{
    let es = ss.map_values(|s: Seq<char>| SpecJson::Str(s));
    if k >= ss.len() {
        assert(ss.skip(k) =~= Seq::<Seq<char>>::empty());
    } else {
        assert(es[k] == SpecJson::Str(ss[k]));
        lemma_rt_all_items(ss, k + 1);
        assert(seq![ss[k]] + ss.skip(k + 1) =~= ss.skip(k));
    }
}

/// Parsing inverts serialization on a one-or-many container.
pub proof fn lemma_rt_all(c: SpecOneOrAll<Seq<char>>)
    ensures
        sp_parse_all(sp_ser_all(c)) == Ok::<SpecOneOrAll<Seq<char>>, SpecPolicyError>(c),
{
    match c {
        SpecOneOrAll::One(s) => {},
        SpecOneOrAll::All(ss) => {
            lemma_rt_all_items(ss, 0);
            assert(ss.skip(0) =~= ss);
        },
    }
}

/// The principal-type tokens parse back to their principal types.
proof fn lemma_rt_ptype(t: PrincipalType)
    ensures
        ptype_from(ptype_repr(t)) == Some(t),
{
    reveal_strlit("AWS");
    assert("AWS"@ =~= seq!['A', 'W', 'S']);
    reveal_strlit("Federated");
    assert("Federated"@ =~= seq!['F', 'e', 'd', 'e', 'r', 'a', 't', 'e', 'd']);
    reveal_strlit("Service");
    assert("Service"@ =~= seq!['S', 'e', 'r', 'v', 'i', 'c', 'e']);
    reveal_strlit("CanonicalUser");
    assert("CanonicalUser"@ =~= seq!['C', 'a', 'n', 'o', 'n', 'i', 'c', 'a', 'l', 'U', 's', 'e', 'r']);
}

/// The effect tokens parse back to their effects.
proof fn lemma_rt_effect(e: Effect)
    ensures
        effect_from(effect_repr(e)) == Some(e),
{
    reveal_strlit("Allow");
    assert("Allow"@ =~= seq!['A', 'l', 'l', 'o', 'w']);
    reveal_strlit("Deny");
    assert("Deny"@ =~= seq!['D', 'e', 'n', 'y']);
}

/// The version tags parse back to their versions.
proof fn lemma_rt_version(v: Version)
    ensures
        version_from(version_repr(v)) == Some(v),
{
    reveal_strlit("2008-10-17");
    assert("2008-10-17"@ =~= seq!['2', '0', '0', '8', '-', '1', '0', '-', '1', '7']);
    reveal_strlit("2012-10-17");
    assert("2012-10-17"@ =~= seq!['2', '0', '1', '2', '-', '1', '0', '-', '1', '7']);
}

/// The condition-operator keys parse back to their operators.
#[verifier::rlimit(60)]
proof fn lemma_rt_op(op: GlobalConditionOperator)
    ensures
        op_from(op_repr(op)) == Some(op),
{
    reveal_strlit("StringEquals");
    assert("StringEquals"@ =~= seq!['S', 't', 'r', 'i', 'n', 'g', 'E', 'q', 'u', 'a', 'l', 's']);
    reveal_strlit("StringNotEquals");
    assert("StringNotEquals"@ =~= seq!['S', 't', 'r', 'i', 'n', 'g', 'N', 'o', 't', 'E', 'q', 'u', 'a', 'l', 's']);
    reveal_strlit("StringEqualsIgnoreCase");
    assert("StringEqualsIgnoreCase"@ =~= seq!['S', 't', 'r', 'i', 'n', 'g', 'E', 'q', 'u', 'a', 'l', 's', 'I', 'g', 'n', 'o', 'r', 'e', 'C', 'a', 's', 'e']);
    reveal_strlit("StringNotEqualsIgnoreCase");
    assert("StringNotEqualsIgnoreCase"@ =~= seq!['S', 't', 'r', 'i', 'n', 'g', 'N', 'o', 't', 'E', 'q', 'u', 'a', 'l', 's', 'I', 'g', 'n', 'o', 'r', 'e', 'C', 'a', 's', 'e']);
    reveal_strlit("StringLike");
    assert("StringLike"@ =~= seq!['S', 't', 'r', 'i', 'n', 'g', 'L', 'i', 'k', 'e']);
    reveal_strlit("StringNotLike");
    assert("StringNotLike"@ =~= seq!['S', 't', 'r', 'i', 'n', 'g', 'N', 'o', 't', 'L', 'i', 'k', 'e']);
    reveal_strlit("NumericEquals");
    assert("NumericEquals"@ =~= seq!['N', 'u', 'm', 'e', 'r', 'i', 'c', 'E', 'q', 'u', 'a', 'l', 's']);
    reveal_strlit("NumericNotEquals");
    assert("NumericNotEquals"@ =~= seq!['N', 'u', 'm', 'e', 'r', 'i', 'c', 'N', 'o', 't', 'E', 'q', 'u', 'a', 'l', 's']);
    reveal_strlit("NumericLessThan");
    assert("NumericLessThan"@ =~= seq!['N', 'u', 'm', 'e', 'r', 'i', 'c', 'L', 'e', 's', 's', 'T', 'h', 'a', 'n']);
    reveal_strlit("NumericLessThanEquals");
    assert("NumericLessThanEquals"@ =~= seq!['N', 'u', 'm', 'e', 'r', 'i', 'c', 'L', 'e', 's', 's', 'T', 'h', 'a', 'n', 'E', 'q', 'u', 'a', 'l', 's']);
    reveal_strlit("NumericGreaterThan");
    assert("NumericGreaterThan"@ =~= seq!['N', 'u', 'm', 'e', 'r', 'i', 'c', 'G', 'r', 'e', 'a', 't', 'e', 'r', 'T', 'h', 'a', 'n']);
    reveal_strlit("NumericGreaterThanEquals");
    assert("NumericGreaterThanEquals"@ =~= seq!['N', 'u', 'm', 'e', 'r', 'i', 'c', 'G', 'r', 'e', 'a', 't', 'e', 'r', 'T', 'h', 'a', 'n', 'E', 'q', 'u', 'a', 'l', 's']);
    reveal_strlit("DateEquals");
    assert("DateEquals"@ =~= seq!['D', 'a', 't', 'e', 'E', 'q', 'u', 'a', 'l', 's']);
    reveal_strlit("DateNotEquals");
    assert("DateNotEquals"@ =~= seq!['D', 'a', 't', 'e', 'N', 'o', 't', 'E', 'q', 'u', 'a', 'l', 's']);
    reveal_strlit("DateLessThan");
    assert("DateLessThan"@ =~= seq!['D', 'a', 't', 'e', 'L', 'e', 's', 's', 'T', 'h', 'a', 'n']);
    reveal_strlit("DateLessThanEquals");
    assert("DateLessThanEquals"@ =~= seq!['D', 'a', 't', 'e', 'L', 'e', 's', 's', 'T', 'h', 'a', 'n', 'E', 'q', 'u', 'a', 'l', 's']);
    reveal_strlit("DateGreaterThan");
    assert("DateGreaterThan"@ =~= seq!['D', 'a', 't', 'e', 'G', 'r', 'e', 'a', 't', 'e', 'r', 'T', 'h', 'a', 'n']);
    reveal_strlit("DateGreaterThanEquals");
    assert("DateGreaterThanEquals"@ =~= seq!['D', 'a', 't', 'e', 'G', 'r', 'e', 'a', 't', 'e', 'r', 'T', 'h', 'a', 'n', 'E', 'q', 'u', 'a', 'l', 's']);
    reveal_strlit("Bool");
    assert("Bool"@ =~= seq!['B', 'o', 'o', 'l']);
    reveal_strlit("BinaryEquals");
    assert("BinaryEquals"@ =~= seq!['B', 'i', 'n', 'a', 'r', 'y', 'E', 'q', 'u', 'a', 'l', 's']);
    reveal_strlit("IpAddress");
    assert("IpAddress"@ =~= seq!['I', 'p', 'A', 'd', 'd', 'r', 'e', 's', 's']);
    reveal_strlit("NotIpAddress");
    assert("NotIpAddress"@ =~= seq!['N', 'o', 't', 'I', 'p', 'A', 'd', 'd', 'r', 'e', 's', 's']);
    reveal_strlit("ArnEquals");
    assert("ArnEquals"@ =~= seq!['A', 'r', 'n', 'E', 'q', 'u', 'a', 'l', 's']);
    reveal_strlit("ArnLike");
    assert("ArnLike"@ =~= seq!['A', 'r', 'n', 'L', 'i', 'k', 'e']);
    reveal_strlit("ArnNotEquals");
    assert("ArnNotEquals"@ =~= seq!['A', 'r', 'n', 'N', 'o', 't', 'E', 'q', 'u', 'a', 'l', 's']);
    reveal_strlit("ArnNotLike");
    assert("ArnNotLike"@ =~= seq!['A', 'r', 'n', 'N', 'o', 't', 'L', 'i', 'k', 'e']);
    reveal_strlit("Null");
    assert("Null"@ =~= seq!['N', 'u', 'l', 'l']);
}

/// Parsing inverts serialization on the entries of a keyed principal.
proof fn lemma_rt_principal_entries(m: Seq<(PrincipalType, SpecOneOrAny<Seq<char>>)>, k: int)
    requires
        0 <= k <= m.len(),
        forall|i: int, j: int|
            0 <= i < j < m.len() ==> (#[trigger] m[i]).0 != (#[trigger] m[j]).0,
        forall|i: int|
            0 <= i < m.len() ==> any_container_wf(
                (#[trigger] m[i]).1,
                |s: Seq<char>| any_text_wf(s),
            ),
    ensures
        sp_parse_principal_entries(
            m.map_values(
                |e: (PrincipalType, SpecOneOrAny<Seq<char>>)| (ptype_repr(e.0), sp_ser_any(e.1)),
            ),
            k,
            m.take(k),
        ) == Ok::<Seq<(PrincipalType, SpecOneOrAny<Seq<char>>)>, SpecPolicyError>(m),
    decreases m.len() - k,
{
    let fs = m.map_values(
        |e: (PrincipalType, SpecOneOrAny<Seq<char>>)| (ptype_repr(e.0), sp_ser_any(e.1)),
    );
    if k >= m.len() {
        assert(m.take(k) =~= m);
    } else {
        assert(fs[k] == (ptype_repr(m[k].0), sp_ser_any(m[k].1)));
        lemma_rt_ptype(m[k].0);
        assert(any_container_wf(m[k].1, |s: Seq<char>| any_text_wf(s)));
        lemma_rt_any(m[k].1, |s: Seq<char>| any_text_wf(s), |s: Seq<char>| mk_no_err(s));
        assert(!crate::codec::sp_has_ptype(m.take(k), m[k].0)) by {
            assert forall|i: int| 0 <= i < m.take(k).len() implies (#[trigger] m.take(k)[i]).0
                != m[k].0 by {
                assert(m.take(k)[i] == m[i]);
            }
        }
        assert(m.take(k).push((m[k].0, m[k].1)) =~= m.take(k + 1));
        lemma_rt_principal_entries(m, k + 1);
    }
}

/// Parsing inverts serialization on a well-formed principal.
pub proof fn lemma_rt_principal(p: SpecPrincipal)
    requires
        principal_wf(p),
    ensures
        sp_parse_principal(sp_ser_principal(p)) == Ok::<SpecPrincipal, SpecPolicyError>(p),
{
    match p {
        SpecPrincipal::Any => {
            assert(is_star(star_seq()));
        },
        SpecPrincipal::Principal(m) => {
            lemma_rt_principal_entries(m, 0);
            assert(m.take(0) =~= Seq::<(PrincipalType, SpecOneOrAny<Seq<char>>)>::empty());
        },
    }
}

/// Parsing inverts serialization on the rows of one operator's block.
proof fn lemma_rt_condition_rows(rows: Seq<(Seq<char>, SpecOneOrAll<Seq<char>>)>, k: int)
    requires
        0 <= k <= rows.len(),
        forall|a: int, b: int|
            0 <= a < b < rows.len() ==> (#[trigger] rows[a]).0 != (#[trigger] rows[b]).0,
    ensures
        sp_parse_condition_rows(
            rows.map_values(
                |kv: (Seq<char>, SpecOneOrAll<Seq<char>>)| (kv.0, sp_ser_all(kv.1)),
            ),
            k,
            rows.take(k),
        ) == Ok::<Seq<(Seq<char>, SpecOneOrAll<Seq<char>>)>, SpecPolicyError>(rows),
    decreases rows.len() - k,
{
    let fs = rows.map_values(
        |kv: (Seq<char>, SpecOneOrAll<Seq<char>>)| (kv.0, sp_ser_all(kv.1)),
    );
    if k >= rows.len() {
        assert(rows.take(k) =~= rows);
    } else {
        assert(fs[k] == (rows[k].0, sp_ser_all(rows[k].1)));
        assert(!crate::codec::sp_has_key(rows.take(k), rows[k].0)) by {
            assert forall|i: int| 0 <= i < rows.take(k).len() implies (#[trigger] rows.take(
                k,
            )[i]).0 != rows[k].0 by {
                assert(rows.take(k)[i] == rows[i]);
            }
        }
        lemma_rt_all(rows[k].1);
        assert(rows.take(k).push((rows[k].0, rows[k].1)) =~= rows.take(k + 1));
        lemma_rt_condition_rows(rows, k + 1);
    }
}

/// Parsing inverts serialization on the entries of a condition block.
proof fn lemma_rt_condition_entries(c: SpecCondition, k: int)
    requires
        0 <= k <= c.len(),
        forall|i: int, j: int|
            0 <= i < j < c.len() ==> (#[trigger] c[i]).0 != (#[trigger] c[j]).0,
        forall|i: int|
            0 <= i < c.len() ==> (forall|a: int, b: int|
                0 <= a < b < (#[trigger] c[i]).1.len() ==> (#[trigger] c[i].1[a]).0 != (
                #[trigger] c[i].1[b]).0),
    ensures
        sp_parse_condition_entries(
            c.map_values(
                |e: (GlobalConditionOperator, Seq<(Seq<char>, SpecOneOrAll<Seq<char>>)>)|
                    (
                        op_repr(e.0),
                        SpecJson::Obj(
                            e.1.map_values(
                                |kv: (Seq<char>, SpecOneOrAll<Seq<char>>)|
                                    (kv.0, sp_ser_all(kv.1)),
                            ),
                        ),
                    ),
            ),
            k,
            c.take(k),
        ) == Ok::<SpecCondition, SpecPolicyError>(c),
    decreases c.len() - k,
{
    let fs = c.map_values(
        |e: (GlobalConditionOperator, Seq<(Seq<char>, SpecOneOrAll<Seq<char>>)>)|
            (
                op_repr(e.0),
                SpecJson::Obj(
                    e.1.map_values(
                        |kv: (Seq<char>, SpecOneOrAll<Seq<char>>)| (kv.0, sp_ser_all(kv.1)),
                    ),
                ),
            ),
    );
    if k >= c.len() {
        assert(c.take(k) =~= c);
    } else {
        lemma_rt_op(c[k].0);
        assert(!crate::codec::sp_has_op(c.take(k), c[k].0)) by {
            assert forall|i: int| 0 <= i < c.take(k).len() implies (#[trigger] c.take(k)[i]).0
                != c[k].0 by {
                assert(c.take(k)[i] == c[i]);
            }
        }
        lemma_rt_condition_rows(c[k].1, 0);
        assert(c[k].1.take(0) =~= Seq::<(Seq<char>, SpecOneOrAll<Seq<char>>)>::empty());
        assert(c.take(k).push((c[k].0, c[k].1)) =~= c.take(k + 1));
        lemma_rt_condition_entries(c, k + 1);
    }
}

/// Parsing inverts serialization on a well-formed condition block.
pub proof fn lemma_rt_condition(c: SpecCondition)
    requires
        condition_wf(c),
    ensures
        sp_parse_condition(sp_ser_condition(c)) == Ok::<SpecCondition, SpecPolicyError>(c),
{
    lemma_rt_condition_entries(c, 0);
    assert(c.take(0) =~= Seq::<
        (GlobalConditionOperator, Seq<(Seq<char>, SpecOneOrAll<Seq<char>>)>),
    >::empty());
}

/// Parsing inverts serialization on a well-formed statement.
#[verifier::rlimit(100)]
pub proof fn lemma_rt_statement(s: SpecStatement)
    requires
        statement_wf(s),
    ensures
        sp_parse_statement(sp_ser_statement(s)) == Ok::<SpecStatement, SpecPolicyError>(s),
{
    reveal_strlit("Sid");
    assert("Sid"@ =~= seq!['S', 'i', 'd']);
    reveal_strlit("Principal");
    assert("Principal"@ =~= seq!['P', 'r', 'i', 'n', 'c', 'i', 'p', 'a', 'l']);
    reveal_strlit("Effect");
    assert("Effect"@ =~= seq!['E', 'f', 'f', 'e', 'c', 't']);
    reveal_strlit("Action");
    assert("Action"@ =~= seq!['A', 'c', 't', 'i', 'o', 'n']);
    reveal_strlit("NotAction");
    assert("NotAction"@ =~= seq!['N', 'o', 't', 'A', 'c', 't', 'i', 'o', 'n']);
    reveal_strlit("Resource");
    assert("Resource"@ =~= seq!['R', 'e', 's', 'o', 'u', 'r', 'c', 'e']);
    reveal_strlit("NotResource");
    assert("NotResource"@ =~= seq!['N', 'o', 't', 'R', 'e', 's', 'o', 'u', 'r', 'c', 'e']);
    reveal_strlit("Condition");
    assert("Condition"@ =~= seq!['C', 'o', 'n', 'd', 'i', 't', 'i', 'o', 'n']);
    lemma_rt_effect(s.effect);
    match s.action {
        SpecAction::Action(c) => lemma_rt_any(c, |t: Seq<char>| action_text_wf(t), |t: Seq<char>|
            mk_action_err(t)),
        SpecAction::NotAction(c) => lemma_rt_any(
            c,
            |t: Seq<char>| action_text_wf(t),
            |t: Seq<char>| mk_action_err(t),
        ),
    }
    match s.resource {
        Some(SpecResource::Resource(c)) => lemma_rt_any(c, |t: Seq<char>| resource_text_wf(t), |
            t: Seq<char>,
        | mk_resource_err(t)),
        Some(SpecResource::NotResource(c)) => lemma_rt_any(
            c,
            |t: Seq<char>| resource_text_wf(t),
            |t: Seq<char>| mk_resource_err(t),
        ),
        None => {},
    }
    match s.principal {
        Some(p) => lemma_rt_principal(p),
        None => {},
    }
    match s.condition {
        Some(c) => lemma_rt_condition(c),
        None => {},
    }
    assert(sp_parse_statement(sp_ser_statement(s)) == Ok::<SpecStatement, SpecPolicyError>(s)) by {
        reveal_with_fuel(crate::codec::sp_parse_statement_fields, 8);
    }
}

/// Parsing inverts serialization on a sequence of well-formed statements.
proof fn lemma_rt_statement_items(ss: Seq<SpecStatement>, k: int)
    requires
        0 <= k <= ss.len(),
        forall|i: int| 0 <= i < ss.len() ==> statement_wf(#[trigger] ss[i]),
    ensures
        sp_parse_statement_items(ss.map_values(|s: SpecStatement| sp_ser_statement(s)), k) == Ok::<
            Seq<SpecStatement>,
            SpecPolicyError,
        >(ss.skip(k)),
    decreases ss.len() - k,
{
    let es = ss.map_values(|s: SpecStatement| sp_ser_statement(s));
    if k >= ss.len() {
        assert(ss.skip(k) =~= Seq::<SpecStatement>::empty());
    } else {
        assert(es[k] == sp_ser_statement(ss[k]));
        lemma_rt_statement(ss[k]);
        lemma_rt_statement_items(ss, k + 1);
        assert(seq![ss[k]] + ss.skip(k + 1) =~= ss.skip(k));
    }
}

/// Parsing inverts serialization on the statement field.
pub proof fn lemma_rt_statements(c: SpecOneOrAll<SpecStatement>)
    requires
        match c {
            SpecOneOrAll::One(s) => statement_wf(s),
            SpecOneOrAll::All(ss) => forall|i: int|
                0 <= i < ss.len() ==> statement_wf(#[trigger] ss[i]),
        },
    ensures
        sp_parse_statements(sp_ser_statements(c)) == Ok::<
            SpecOneOrAll<SpecStatement>,
            SpecPolicyError,
        >(c),
{
    match c {
        SpecOneOrAll::One(s) => {
            lemma_rt_statement(s);
        },
        SpecOneOrAll::All(ss) => {
            lemma_rt_statement_items(ss, 0);
            assert(ss.skip(0) =~= ss);
        },
    }
}

/// The round-trip law: parsing the serialization of any well-formed policy
/// yields that policy again, exactly.
#[verifier::rlimit(100)]
pub proof fn lemma_policy_round_trip(p: SpecPolicy)
    requires
        policy_wf(p),
    ensures
        sp_parse_policy(sp_ser_policy(p)) == Ok::<SpecPolicy, SpecPolicyError>(p),
{
    reveal_strlit("Version");
    assert("Version"@ =~= seq!['V', 'e', 'r', 's', 'i', 'o', 'n']);
    reveal_strlit("Id");
    assert("Id"@ =~= seq!['I', 'd']);
    reveal_strlit("Statement");
    assert("Statement"@ =~= seq!['S', 't', 'a', 't', 'e', 'm', 'e', 'n', 't']);
    match p.version {
        Some(v) => lemma_rt_version(v),
        None => {},
    }
    lemma_rt_statements(p.statement);
    assert(sp_parse_policy(sp_ser_policy(p)) == Ok::<SpecPolicy, SpecPolicyError>(p)) by {
        reveal_with_fuel(crate::codec::sp_parse_policy_fields, 5);
    }
}


/// The length of a successfully parsed wildcard-container array equals
/// the number of its JSON elements.
proof fn lemma_any_items_len(
    es: Seq<SpecJson>,
    k: int,
    wf: spec_fn(Seq<char>) -> bool,
    mk: spec_fn(Seq<char>) -> SpecElementError,
)
    requires
        0 <= k <= es.len(),
    ensures
        sp_parse_any_items(es, k, wf, mk) matches Ok(ss) ==> ss.len() == es.len() - k,
    decreases es.len() - k,
{
    if k < es.len() {
        lemma_any_items_len(es, k + 1, wf, mk);
    }
}

/// Shape preservation: a field parsed from an array stays a list of the
/// same length and re-serializes as an array of that length, never
/// collapsed to a scalar; a field parsed from a bare string never becomes
/// the list form, and a single value re-serializes as a bare string.
pub proof fn lemma_shape_preservation(
    v: SpecJson,
    c: SpecOneOrAny<Seq<char>>,
    wf: spec_fn(Seq<char>) -> bool,
    mk: spec_fn(Seq<char>) -> SpecElementError,
)
    requires
        sp_parse_any(v, wf, mk) == Ok::<SpecOneOrAny<Seq<char>>, SpecPolicyError>(c),
    ensures
        v matches SpecJson::Arr(es) ==> (c matches SpecOneOrAny::AnyOf(ss) && ss.len()
            == es.len() && (sp_ser_any(c) matches SpecJson::Arr(rendered) && rendered.len()
            == es.len())),
        v is Str ==> !(c is AnyOf) && sp_ser_any(c) is Str,
{
    match v {
        SpecJson::Arr(es) => {
            lemma_any_items_len(es, 0, wf, mk);
        },
        _ => {},
    }
}

/// Wildcard distinctness: the bare string `"*"` parses to the bare
/// wildcard principal, which re-serializes to exactly that string and is
/// distinct from every keyed-object principal.
pub proof fn lemma_wildcard_distinct(m: Seq<(PrincipalType, SpecOneOrAny<Seq<char>>)>)
    ensures
        sp_parse_principal(SpecJson::Str(star_seq())) == Ok::<SpecPrincipal, SpecPolicyError>(
            SpecPrincipal::Any,
        ),
        sp_ser_principal(SpecPrincipal::Any) == SpecJson::Str(star_seq()),
        SpecPrincipal::Any != SpecPrincipal::Principal(m),
{
    assert(is_star(star_seq()));
}

/// Once the action slot is filled, any later `Action` or `NotAction` key
/// makes the statement fail: the walk can only end in an error.
proof fn lemma_action_slot_conflict(
    fs: Seq<(Seq<char>, SpecJson)>,
    k: int,
    slots: SpecStatementSlots,
)
    requires
        0 <= k <= fs.len(),
        slots.action is Some,
        exists|i: int|
            k <= i < fs.len() && ((#[trigger] fs[i]).0 == "Action"@ || fs[i].0 == "NotAction"@),
    ensures
        sp_parse_statement_fields(fs, k, slots) is Err,
    decreases fs.len() - k,
{
    reveal_strlit("Sid");
    assert("Sid"@ =~= seq!['S', 'i', 'd']);
    reveal_strlit("Principal");
    assert("Principal"@ =~= seq!['P', 'r', 'i', 'n', 'c', 'i', 'p', 'a', 'l']);
    reveal_strlit("Effect");
    assert("Effect"@ =~= seq!['E', 'f', 'f', 'e', 'c', 't']);
    reveal_strlit("Action");
    assert("Action"@ =~= seq!['A', 'c', 't', 'i', 'o', 'n']);
    reveal_strlit("NotAction");
    assert("NotAction"@ =~= seq!['N', 'o', 't', 'A', 'c', 't', 'i', 'o', 'n']);
    reveal_strlit("Resource");
    assert("Resource"@ =~= seq!['R', 'e', 's', 'o', 'u', 'r', 'c', 'e']);
    reveal_strlit("NotResource");
    assert("NotResource"@ =~= seq!['N', 'o', 't', 'R', 'e', 's', 'o', 'u', 'r', 'c', 'e']);
    reveal_strlit("Condition");
    assert("Condition"@ =~= seq!['C', 'o', 'n', 'd', 'i', 't', 'i', 'o', 'n']);
    let i0 = choose|i: int|
        k <= i < fs.len() && ((#[trigger] fs[i]).0 == "Action"@ || fs[i].0 == "NotAction"@);
    assert(k < fs.len());
    let name = fs[k].0;
    let val = fs[k].1;
    if name == "Action"@ || name == "NotAction"@ {
        // The slot is already filled: this key is a duplicate or a conflict.
    } else {
        assert(i0 != k);
        if name == "Sid"@ {
            if slots.sid is None && val is Str {
                lemma_action_slot_conflict(
                    fs,
                    k + 1,
                    SpecStatementSlots { sid: Some(val->Str_0), ..slots },
                );
            }
        } else if name == "Principal"@ {
            if slots.principal is None {
                match sp_parse_principal(val) {
                    Ok(p) => lemma_action_slot_conflict(
                        fs,
                        k + 1,
                        SpecStatementSlots { principal: Some(p), ..slots },
                    ),
                    Err(_) => {},
                }
            }
        } else if name == "Effect"@ {
            if slots.effect is None && val is Str {
                match effect_from(val->Str_0) {
                    Some(e) => lemma_action_slot_conflict(
                        fs,
                        k + 1,
                        SpecStatementSlots { effect: Some(e), ..slots },
                    ),
                    None => {},
                }
            }
        } else if name == "Resource"@ || name == "NotResource"@ {
            match slots.resource {
                Some(_) => {},
                None => {
                    match sp_parse_any(val, |t: Seq<char>| resource_text_wf(t), |t: Seq<char>|
                        mk_resource_err(t)) {
                        Ok(c) => {
                            let r = if name == "Resource"@ {
                                SpecResource::Resource(c)
                            } else {
                                SpecResource::NotResource(c)
                            };
                            lemma_action_slot_conflict(
                                fs,
                                k + 1,
                                SpecStatementSlots { resource: Some(r), ..slots },
                            );
                        },
                        Err(_) => {},
                    }
                },
            }
        } else if name == "Condition"@ {
            if slots.condition is None {
                match sp_parse_condition(val) {
                    Ok(c) => lemma_action_slot_conflict(
                        fs,
                        k + 1,
                        SpecStatementSlots { condition: Some(c), ..slots },
                    ),
                    Err(_) => {},
                }
            }
        } else {
            // An unknown key fails outright.
        }
    }
}

/// With the action slot still empty but both keys of the pair ahead, the
/// walk can only end in an error.
proof fn lemma_both_present(fs: Seq<(Seq<char>, SpecJson)>, k: int, slots: SpecStatementSlots)
    requires
        0 <= k <= fs.len(),
        slots.action is None,
        exists|i: int| k <= i < fs.len() && (#[trigger] fs[i]).0 == "Action"@,
        exists|j: int| k <= j < fs.len() && (#[trigger] fs[j]).0 == "NotAction"@,
    ensures
        sp_parse_statement_fields(fs, k, slots) is Err,
    decreases fs.len() - k,
{
    reveal_strlit("Sid");
    assert("Sid"@ =~= seq!['S', 'i', 'd']);
    reveal_strlit("Principal");
    assert("Principal"@ =~= seq!['P', 'r', 'i', 'n', 'c', 'i', 'p', 'a', 'l']);
    reveal_strlit("Effect");
    assert("Effect"@ =~= seq!['E', 'f', 'f', 'e', 'c', 't']);
    reveal_strlit("Action");
    assert("Action"@ =~= seq!['A', 'c', 't', 'i', 'o', 'n']);
    reveal_strlit("NotAction");
    assert("NotAction"@ =~= seq!['N', 'o', 't', 'A', 'c', 't', 'i', 'o', 'n']);
    reveal_strlit("Resource");
    assert("Resource"@ =~= seq!['R', 'e', 's', 'o', 'u', 'r', 'c', 'e']);
    reveal_strlit("NotResource");
    assert("NotResource"@ =~= seq!['N', 'o', 't', 'R', 'e', 's', 'o', 'u', 'r', 'c', 'e']);
    reveal_strlit("Condition");
    assert("Condition"@ =~= seq!['C', 'o', 'n', 'd', 'i', 't', 'i', 'o', 'n']);
    let ia = choose|i: int| k <= i < fs.len() && (#[trigger] fs[i]).0 == "Action"@;
    let ina = choose|j: int| k <= j < fs.len() && (#[trigger] fs[j]).0 == "NotAction"@;
    assert(k < fs.len());
    let name = fs[k].0;
    let val = fs[k].1;
    if name == "Action"@ || name == "NotAction"@ {
        match sp_parse_any(val, |t: Seq<char>| action_text_wf(t), |t: Seq<char>|
            mk_action_err(t)) {
            Ok(c) => {
                let act = if name == "Action"@ {
                    SpecAction::Action(c)
                } else {
                    SpecAction::NotAction(c)
                };
                if name == "Action"@ {
                    assert(ina != k);
                    lemma_action_slot_conflict(
                        fs,
                        k + 1,
                        SpecStatementSlots { action: Some(act), ..slots },
                    );
                } else {
                    assert(ia != k);
                    lemma_action_slot_conflict(
                        fs,
                        k + 1,
                        SpecStatementSlots { action: Some(act), ..slots },
                    );
                }
            },
            Err(_) => {},
        }
    } else {
        assert(ia != k);
        assert(ina != k);
        if name == "Sid"@ {
            if slots.sid is None && val is Str {
                lemma_both_present(
                    fs,
                    k + 1,
                    SpecStatementSlots { sid: Some(val->Str_0), ..slots },
                );
            }
        } else if name == "Principal"@ {
            if slots.principal is None {
                match sp_parse_principal(val) {
                    Ok(p) => lemma_both_present(
                        fs,
                        k + 1,
                        SpecStatementSlots { principal: Some(p), ..slots },
                    ),
                    Err(_) => {},
                }
            }
        } else if name == "Effect"@ {
            if slots.effect is None && val is Str {
                match effect_from(val->Str_0) {
                    Some(e) => lemma_both_present(
                        fs,
                        k + 1,
                        SpecStatementSlots { effect: Some(e), ..slots },
                    ),
                    None => {},
                }
            }
        } else if name == "Resource"@ || name == "NotResource"@ {
            match slots.resource {
                Some(_) => {},
                None => {
                    match sp_parse_any(val, |t: Seq<char>| resource_text_wf(t), |t: Seq<char>|
                        mk_resource_err(t)) {
                        Ok(c) => {
                            let r = if name == "Resource"@ {
                                SpecResource::Resource(c)
                            } else {
                                SpecResource::NotResource(c)
                            };
                            lemma_both_present(
                                fs,
                                k + 1,
                                SpecStatementSlots { resource: Some(r), ..slots },
                            );
                        },
                        Err(_) => {},
                    }
                },
            }
        } else if name == "Condition"@ {
            if slots.condition is None {
                match sp_parse_condition(val) {
                    Ok(c) => lemma_both_present(
                        fs,
                        k + 1,
                        SpecStatementSlots { condition: Some(c), ..slots },
                    ),
                    Err(_) => {},
                }
            }
        } else {
        }
    }
}

/// Mutual exclusion, the both-present side: a statement object holding
/// both an `Action` key and a `NotAction` key never parses.
pub proof fn lemma_mutual_exclusion_both(fs: Seq<(Seq<char>, SpecJson)>)
    requires
        exists|i: int| 0 <= i < fs.len() && (#[trigger] fs[i]).0 == "Action"@,
        exists|j: int| 0 <= j < fs.len() && (#[trigger] fs[j]).0 == "NotAction"@,
    ensures
        sp_parse_statement(SpecJson::Obj(fs)) is Err,
{
    lemma_both_present(fs, 0, sp_empty_slots());
}

/// With the action slot empty and no key of the pair ahead, the walk can
/// only end in an error.
proof fn lemma_neither_present(fs: Seq<(Seq<char>, SpecJson)>, k: int, slots: SpecStatementSlots)
    requires
        0 <= k <= fs.len(),
        slots.action is None,
        forall|i: int|
            k <= i < fs.len() ==> (#[trigger] fs[i]).0 != "Action"@ && fs[i].0 != "NotAction"@,
    ensures
        sp_parse_statement_fields(fs, k, slots) is Err,
    decreases fs.len() - k,
{
    reveal_strlit("Sid");
    assert("Sid"@ =~= seq!['S', 'i', 'd']);
    reveal_strlit("Principal");
    assert("Principal"@ =~= seq!['P', 'r', 'i', 'n', 'c', 'i', 'p', 'a', 'l']);
    reveal_strlit("Effect");
    assert("Effect"@ =~= seq!['E', 'f', 'f', 'e', 'c', 't']);
    reveal_strlit("Action");
    assert("Action"@ =~= seq!['A', 'c', 't', 'i', 'o', 'n']);
    reveal_strlit("NotAction");
    assert("NotAction"@ =~= seq!['N', 'o', 't', 'A', 'c', 't', 'i', 'o', 'n']);
    reveal_strlit("Resource");
    assert("Resource"@ =~= seq!['R', 'e', 's', 'o', 'u', 'r', 'c', 'e']);
    reveal_strlit("NotResource");
    assert("NotResource"@ =~= seq!['N', 'o', 't', 'R', 'e', 's', 'o', 'u', 'r', 'c', 'e']);
    reveal_strlit("Condition");
    assert("Condition"@ =~= seq!['C', 'o', 'n', 'd', 'i', 't', 'i', 'o', 'n']);
    if k >= fs.len() {
        // The walk ends with the action slot empty: a conflict (or a
        // missing effect) either way.
    } else {
        let name = fs[k].0;
        let val = fs[k].1;
        if name == "Sid"@ {
            if slots.sid is None && val is Str {
                lemma_neither_present(
                    fs,
                    k + 1,
                    SpecStatementSlots { sid: Some(val->Str_0), ..slots },
                );
            }
        } else if name == "Principal"@ {
            if slots.principal is None {
                match sp_parse_principal(val) {
                    Ok(p) => lemma_neither_present(
                        fs,
                        k + 1,
                        SpecStatementSlots { principal: Some(p), ..slots },
                    ),
                    Err(_) => {},
                }
            }
        } else if name == "Effect"@ {
            if slots.effect is None && val is Str {
                match effect_from(val->Str_0) {
                    Some(e) => lemma_neither_present(
                        fs,
                        k + 1,
                        SpecStatementSlots { effect: Some(e), ..slots },
                    ),
                    None => {},
                }
            }
        } else if name == "Resource"@ || name == "NotResource"@ {
            match slots.resource {
                Some(_) => {},
                None => {
                    match sp_parse_any(val, |t: Seq<char>| resource_text_wf(t), |t: Seq<char>|
                        mk_resource_err(t)) {
                        Ok(c) => {
                            let r = if name == "Resource"@ {
                                SpecResource::Resource(c)
                            } else {
                                SpecResource::NotResource(c)
                            };
                            lemma_neither_present(
                                fs,
                                k + 1,
                                SpecStatementSlots { resource: Some(r), ..slots },
                            );
                        },
                        Err(_) => {},
                    }
                },
            }
        } else if name == "Condition"@ {
            if slots.condition is None {
                match sp_parse_condition(val) {
                    Ok(c) => lemma_neither_present(
                        fs,
                        k + 1,
                        SpecStatementSlots { condition: Some(c), ..slots },
                    ),
                    Err(_) => {},
                }
            }
        } else {
        }
    }
}

/// Mutual exclusion, the neither-present side: a statement object holding
/// neither an `Action` key nor a `NotAction` key never parses.
pub proof fn lemma_mutual_exclusion_neither(fs: Seq<(Seq<char>, SpecJson)>)
    requires
        forall|i: int|
            0 <= i < fs.len() ==> (#[trigger] fs[i]).0 != "Action"@ && fs[i].0 != "NotAction"@,
    ensures
        sp_parse_statement(SpecJson::Obj(fs)) is Err,
{
    lemma_neither_present(fs, 0, sp_empty_slots());
}

/// Determinism: the whole pipeline, error included, is a function of the
/// document text alone, which the executable parser provably mirrors; so
/// parsing the same malformed document twice yields the identical
/// structured error, and rendering that error yields identical text.
pub proof fn lemma_parse_deterministic(s1: Seq<char>, s2: Seq<char>)
    requires
        s1 == s2,
    ensures
        crate::text::sp_policy_from_text(s1) == crate::text::sp_policy_from_text(s2),
{
}

} // verus!
