use vstd::prelude::*;

use vstd::string::StringExecFns;

use crate::actions::{Connector, ReferentialAction};
use crate::diagnostics::{Diagnostic, Diagnostics, ErrorKind};
use crate::entity::{FieldArity, InternalDataModel, Relation};

verus! {

/// A foreign-key field of the relation can hold null only when its
/// arity is optional.
pub open spec fn spec_field_nullable(dm: InternalDataModel, r: Relation, k: int) -> bool {
    dm.models@[r.child_model as int].fields@[r.fk_fields@[k] as int].arity == FieldArity::Optional
}

/// An explicitly requested action is illegal when the backend does not
/// support it at all, or when it is `SetNull` and some foreign-key field
/// of the relation cannot hold null.
pub open spec fn spec_action_illegal(
    dm: InternalDataModel,
    connector: Connector,
    r: Relation,
    a: ReferentialAction,
) -> bool {
    ||| !connector.spec_supports(a)
    ||| (a == ReferentialAction::SetNull && exists|k: int|
        0 <= k < r.fk_fields@.len() && !spec_field_nullable(dm, r, k))
}

/// The first foreign-key position at or after `j` whose field cannot
/// hold null; the field count when there is none.
pub open spec fn spec_first_bad_fk_from(dm: InternalDataModel, r: Relation, j: int) -> int
    decreases r.fk_fields@.len() - j,
{
    if j < 0 || j >= r.fk_fields@.len() {
        r.fk_fields@.len() as int
    } else if !spec_field_nullable(dm, r, j) {
        j
    } else {
        spec_first_bad_fk_from(dm, r, j + 1)
    }
}

proof fn lemma_first_bad_fk(dm: InternalDataModel, r: Relation, j: int, k: int)
    requires
        0 <= j <= k < r.fk_fields@.len(),
        forall|q: int| j <= q < k ==> spec_field_nullable(dm, r, q),
        !spec_field_nullable(dm, r, k),
    ensures
        spec_first_bad_fk_from(dm, r, j) == k,
    decreases k - j,
{
    if j < k {
        lemma_first_bad_fk(dm, r, j + 1, k);
    }
}

/// The message of a diagnostic for an action the backend cannot perform.
pub open spec fn spec_unsupported_action_message(a: ReferentialAction) -> Seq<char> {
    "The referential action `"@ + a.spec_name()
        + "` is not supported by the current backend."@
}

fn unsupported_action_message(a: ReferentialAction) -> (r: String)
    ensures
        r@ == spec_unsupported_action_message(a),
{
    let mut s = String::from_str("The referential action `");
    s.append(a.name());
    s.append("` is not supported by the current backend.");
    s
}

/// The message of a diagnostic for `SetNull` on a relation with a
/// required foreign-key field, naming the field and the action.
pub open spec fn spec_set_null_message(field_name: Seq<char>) -> Seq<char> {
    "The `SetNull` referential action cannot be used because the foreign-key field `"@
        + field_name + "` is required."@
}

fn set_null_message(field_name: &str) -> (r: String)
    ensures
        r@ == spec_set_null_message(field_name@),
{
    let mut s = String::from_str(
        "The `SetNull` referential action cannot be used because the foreign-key field `",
    );
    s.append(field_name);
    s.append("` is required.");
    s
}

/// The message the diagnostic for an illegal action carries: either the
/// backend does not support the action, or `SetNull` hit the first
/// non-nullable foreign-key field.
pub open spec fn spec_illegal_action_message(
    dm: InternalDataModel,
    connector: Connector,
    r: Relation,
    a: ReferentialAction,
) -> Seq<char> {
    if !connector.spec_supports(a) {
        spec_unsupported_action_message(a)
    } else {
        spec_set_null_message(
            dm.models@[r.child_model as int].fields@[r.fk_fields@[spec_first_bad_fk_from(
                dm,
                r,
                0,
            )] as int].name@,
        )
    }
}

/// Check one explicitly requested action of relation `rel_id` against
/// backend capability and field nullability, appending exactly one
/// diagnostic when it is illegal and nothing otherwise.
pub fn check_explicit_action(
    dm: &InternalDataModel,
    connector: Connector,
    rel_id: usize,
    a: ReferentialAction,
    diagnostics: &mut Diagnostics,
)
    requires
        dm.wf(),
        rel_id < dm.relations@.len(),
    ensures
        !spec_action_illegal(*dm, connector, dm.relations@[rel_id as int], a)
            ==> final(diagnostics).errors@ == old(diagnostics).errors@,
        spec_action_illegal(*dm, connector, dm.relations@[rel_id as int], a) ==> {
            &&& final(diagnostics).errors@.len() == old(diagnostics).errors@.len() + 1
            &&& forall|k: int|
                0 <= k < old(diagnostics).errors@.len()
                    ==> final(diagnostics).errors@[k] == old(diagnostics).errors@[k]
            &&& final(diagnostics).errors@.last().kind == ErrorKind::IllegalReferentialAction
            &&& final(diagnostics).errors@.last().subject == rel_id
            &&& final(diagnostics).errors@.last().peer is None
            &&& final(diagnostics).errors@.last().span == dm.relations@[rel_id as int].span
            &&& final(diagnostics).errors@.last().message@ == spec_illegal_action_message(
                *dm,
                connector,
                dm.relations@[rel_id as int],
                a,
            )
        },
{
    let r = dm.relation_by_id(rel_id);
    if !connector.supports_referential_action(a) {
        let message = unsupported_action_message(a);
        let ghost prev = diagnostics.errors@;
        diagnostics.push_error(
            Diagnostic {
                kind: ErrorKind::IllegalReferentialAction,
                message,
                span: r.span,
                subject: rel_id,
                peer: None,
            },
        );
        proof {
            assert(forall|q: int| 0 <= q < prev.len() ==> diagnostics.errors@[q] == #[trigger] prev[q]);
        }
        return ;
    }
    if a == ReferentialAction::SetNull {
        let child = dm.model_by_id(r.child_model);
        let mut k: usize = 0;
        while k < r.fk_fields.len()
            invariant
                dm.wf(),
                rel_id < dm.relations@.len(),
                r == dm.relations@[rel_id as int],
                child == dm.models@[r.child_model as int],
                k <= r.fk_fields@.len(),
                a == ReferentialAction::SetNull,
                connector.spec_supports(a),
                diagnostics == old(diagnostics),
                forall|q: int| 0 <= q < k ==> spec_field_nullable(*dm, *r, q),
            decreases r.fk_fields@.len() - k,
        {
            let field = &child.fields[r.fk_fields[k]];
            if !matches!(field.arity, FieldArity::Optional) {
                proof {
                    assert(!spec_field_nullable(*dm, *r, k as int));
                    assert(exists|q: int|
                        0 <= q < r.fk_fields@.len() && !spec_field_nullable(*dm, *r, q)) by {
                        let qq: int = k as int;
                        assert(0 <= qq);
                        assert(qq < r.fk_fields@.len());
                        assert(!spec_field_nullable(*dm, *r, qq));
                    }
                    assert(spec_action_illegal(*dm, connector, dm.relations@[rel_id as int], a));
                    lemma_first_bad_fk(*dm, *r, 0, k as int);
                }
                let message = set_null_message(field.name.as_str());
                let ghost prev = diagnostics.errors@;
                diagnostics.push_error(
                    Diagnostic {
                        kind: ErrorKind::IllegalReferentialAction,
                        message,
                        span: r.span,
                        subject: rel_id,
                        peer: None,
                    },
                );
                proof {
                    assert(forall|q: int| 0 <= q < prev.len() ==> diagnostics.errors@[q] == #[trigger] prev[q]);
                }
                return ;
            }
            k += 1;
        }
        proof {
            assert(forall|q: int|
                0 <= q < r.fk_fields@.len() ==> spec_field_nullable(*dm, *r, q));
            assert(!spec_action_illegal(*dm, connector, dm.relations@[rel_id as int], a));
        }
    }
}

/// Resolve the effective `onUpdate` and `onDelete` actions of a
/// relation: the explicit action where the user gave one, otherwise the
/// backend's default for the relation's arity.
pub fn resolve_referential_actions(r: &Relation, connector: Connector) -> (acts: (
    ReferentialAction,
    ReferentialAction,
))
    ensures
        acts.0 == match r.explicit_on_update {
            Some(a) => a,
            None => connector.spec_default_on_update(r.required),
        },
        acts.1 == match r.explicit_on_delete {
            Some(a) => a,
            None => connector.spec_default_on_delete(r.required),
        },
{
    let on_update = match r.explicit_on_update {
        Some(a) => a,
        None => connector.default_on_update(r.required),
    };
    let on_delete = match r.explicit_on_delete {
        Some(a) => a,
        None => connector.default_on_delete(r.required),
    };
    (on_update, on_delete)
}

/// Whether the relation's explicitly requested update (resp. delete)
/// action is illegal for this backend and relation.
pub open spec fn spec_explicit_update_illegal(
    dm: InternalDataModel,
    connector: Connector,
    r: Relation,
) -> bool {
    match r.explicit_on_update {
        Some(a) => spec_action_illegal(dm, connector, r, a),
        None => false,
    }
}

pub open spec fn spec_explicit_delete_illegal(
    dm: InternalDataModel,
    connector: Connector,
    r: Relation,
) -> bool {
    match r.explicit_on_delete {
        Some(a) => spec_action_illegal(dm, connector, r, a),
        None => false,
    }
}

/// Validate both explicitly requested actions of relation `rel_id`:
/// each illegal one is reported through exactly one appended diagnostic,
/// and nothing else changes.
pub fn validate_relation_actions(
    dm: &InternalDataModel,
    connector: Connector,
    rel_id: usize,
    diagnostics: &mut Diagnostics,
)
    requires
        dm.wf(),
        rel_id < dm.relations@.len(),
    ensures
        final(diagnostics).errors@.len() == old(diagnostics).errors@.len() + (
        if spec_explicit_update_illegal(*dm, connector, dm.relations@[rel_id as int]) {
            1int
        } else {
            0int
        }) + (
        if spec_explicit_delete_illegal(*dm, connector, dm.relations@[rel_id as int]) {
            1int
        } else {
            0int
        }),
        forall|k: int|
            0 <= k < old(diagnostics).errors@.len()
                ==> final(diagnostics).errors@[k] == old(diagnostics).errors@[k],
        forall|k: int|
            old(diagnostics).errors@.len() <= k < final(diagnostics).errors@.len() ==> {
                &&& (#[trigger] final(diagnostics).errors@[k]).kind
                    == ErrorKind::IllegalReferentialAction
                &&& final(diagnostics).errors@[k].subject == rel_id
                &&& final(diagnostics).errors@[k].span == dm.relations@[rel_id as int].span
            },
{
    let r = dm.relation_by_id(rel_id);
    if let Some(a) = r.explicit_on_update {
        check_explicit_action(dm, connector, rel_id, a, diagnostics);
    }
    let r = dm.relation_by_id(rel_id);
    if let Some(a) = r.explicit_on_delete {
        check_explicit_action(dm, connector, rel_id, a, diagnostics);
    }
}

/// For a relation none of whose foreign-key fields is nullable,
/// `SetNull` is illegal on every backend, so validation rejects it
/// wherever it was requested.
pub proof fn lemma_set_null_rejected_on_non_nullable(
    dm: InternalDataModel,
    connector: Connector,
    r: Relation,
)
    requires
        dm.rel_wf(r),
        forall|k: int| 0 <= k < r.fk_fields@.len() ==> !spec_field_nullable(dm, r, k),
    ensures
        spec_action_illegal(dm, connector, r, ReferentialAction::SetNull),
        r.explicit_on_update == Some(ReferentialAction::SetNull)
            ==> spec_explicit_update_illegal(dm, connector, r),
        r.explicit_on_delete == Some(ReferentialAction::SetNull)
            ==> spec_explicit_delete_illegal(dm, connector, r),
{
    assert(!spec_field_nullable(dm, r, 0));
}

} // verus!
