use vstd::prelude::*;

use vstd::string::StringExecFns;

use crate::actions::{spec_strings_view, Connector, ConstraintKind};
use crate::diagnostics::{Diagnostic, Diagnostics, ErrorKind, Span};
use crate::entity::{Constraint, InternalDataModel};

verus! {

/// The backend-defined partition in which a constraint's final name must
/// be unique: either one partition for the whole schema, or one per model.
/// Computed from backend capability plus the constraint's owning model,
/// never stored.
#[derive(Clone, Copy, PartialEq, Eq, Structural, Debug)]
pub enum ConstraintNamespace {
    Global,
    Model(usize),
}

/// The namespace the backend assigns to a constraint.
pub open spec fn spec_namespace_of(connector: Connector, c: Constraint) -> ConstraintNamespace {
    match connector.spec_name_scope(c.kind) {
        crate::actions::NameScope::Global => ConstraintNamespace::Global,
        crate::actions::NameScope::PerModel => ConstraintNamespace::Model(c.model_id),
    }
}

pub fn namespace_of(connector: Connector, c: &Constraint) -> (ns: ConstraintNamespace)
    ensures
        ns == spec_namespace_of(connector, *c),
{
    match connector.name_scope(c.kind) {
        crate::actions::NameScope::Global => ConstraintNamespace::Global,
        crate::actions::NameScope::PerModel => ConstraintNamespace::Model(c.model_id),
    }
}

/// How a diagnostic describes a namespace in terms of the owning model,
/// so that two same-named constraints in different namespaces are never
/// reported as conflicting.
pub open spec fn spec_namespace_description(ns: ConstraintNamespace, model_name: Seq<char>) -> Seq<
    char,
> {
    match ns {
        ConstraintNamespace::Global => "global"@,
        ConstraintNamespace::Model(_) => "on model `"@ + model_name + "`"@,
    }
}

pub fn namespace_description(ns: ConstraintNamespace, model_name: &str) -> (r: String)
    ensures
        r@ == spec_namespace_description(ns, model_name@),
{
    match ns {
        ConstraintNamespace::Global => String::from_str("global"),
        ConstraintNamespace::Model(_) => {
            let mut s = String::from_str("on model `");
            s.append(model_name);
            s.append("`");
            s
        },
    }
}


/// The suffix the default name of each constraint kind carries.
pub open spec fn spec_kind_suffix(kind: ConstraintKind) -> Seq<char> {
    match kind {
        ConstraintKind::Index => "_idx"@,
        ConstraintKind::Unique => "_key"@,
        ConstraintKind::PrimaryKey => "_pkey"@,
        ConstraintKind::ForeignKey => "_fkey"@,
        ConstraintKind::FieldDefault => "_df"@,
    }
}

/// The columns of a constraint, each preceded by an underscore.
pub open spec fn spec_joined_columns(columns: Seq<Seq<char>>, n: int) -> Seq<char>
    decreases n,
{
    if n <= 0 {
        Seq::empty()
    } else {
        spec_joined_columns(columns, n - 1) + "_"@ + columns[n - 1]
    }
}

/// The deterministic default backend name of a constraint, derived from
/// the owning model's name, the column names, and the kind: it is what
/// the final name falls back to when the user gave no explicit `map`.
pub open spec fn spec_default_constraint_name(
    model_name: Seq<char>,
    columns: Seq<Seq<char>>,
    kind: ConstraintKind,
) -> Seq<char> {
    model_name + spec_joined_columns(columns, columns.len() as int) + spec_kind_suffix(kind)
}

fn kind_suffix(kind: ConstraintKind) -> (r: &'static str)
    ensures
        r@ == spec_kind_suffix(kind),
{
    match kind {
        ConstraintKind::Index => "_idx",
        ConstraintKind::Unique => "_key",
        ConstraintKind::PrimaryKey => "_pkey",
        ConstraintKind::ForeignKey => "_fkey",
        ConstraintKind::FieldDefault => "_df",
    }
}

/// Derive a constraint's default backend name from the owning model's
/// name and its column names.
pub fn default_constraint_name(model_name: &str, columns: &Vec<String>, kind: ConstraintKind) -> (r:
    String)
    ensures
        r@ == spec_default_constraint_name(model_name@, spec_strings_view(columns@), kind),
{
    let ghost cols = spec_strings_view(columns@);
    proof {
        crate::actions::lemma_strings_view(columns@);
    }
    let mut s = String::from_str(model_name);
    let mut i: usize = 0;
    while i < columns.len()
        invariant
            i <= columns@.len(),
            cols == spec_strings_view(columns@),
            cols.len() == columns@.len(),
            forall|q: int| 0 <= q < columns@.len() ==> cols[q] == (#[trigger] columns@[q])@,
            s@ == model_name@ + spec_joined_columns(cols, i as int),
        decreases columns@.len() - i,
    {
        s.append("_");
        s.append(columns[i].as_str());
        i += 1;
    }
    s.append(kind_suffix(kind));
    s
}

/// Two distinct constraints collide when they have the same kind, the
/// same backend-assigned namespace, and the same final name.
pub open spec fn spec_collides(
    dm: InternalDataModel,
    connector: Connector,
    i: int,
    j: int,
) -> bool {
    &&& 0 <= i < dm.constraints@.len()
    &&& 0 <= j < dm.constraints@.len()
    &&& i != j
    &&& dm.constraints@[i].kind == dm.constraints@[j].kind
    &&& spec_namespace_of(connector, dm.constraints@[i]) == spec_namespace_of(
        connector,
        dm.constraints@[j],
    )
    &&& dm.constraints@[i].spec_final_name() == dm.constraints@[j].spec_final_name()
}

/// The ids below `n` that collide with constraint `c`, in increasing
/// order.
pub open spec fn spec_violations_upto(
    dm: InternalDataModel,
    connector: Connector,
    c: int,
    n: int,
) -> Seq<usize>
    decreases n,
{
    if n <= 0 {
        Seq::empty()
    } else if spec_collides(dm, connector, c, n - 1) {
        spec_violations_upto(dm, connector, c, n - 1).push((n - 1) as usize)
    } else {
        spec_violations_upto(dm, connector, c, n - 1)
    }
}

/// Every other constraint whose final name collides with `c`'s within
/// `c`'s namespace, in increasing id order.
pub open spec fn spec_scope_violations(
    dm: InternalDataModel,
    connector: Connector,
    c: int,
) -> Seq<usize> {
    spec_violations_upto(dm, connector, c, dm.constraints@.len() as int)
}

/// Any constraint that collides with `c` appears among the violations
/// computed for `c`.
pub proof fn lemma_violations_contain(
    dm: InternalDataModel,
    connector: Connector,
    c: int,
    n: int,
    j: int,
)
    requires
        spec_collides(dm, connector, c, j),
        j < n <= dm.constraints@.len(),
    ensures
        spec_violations_upto(dm, connector, c, n).contains(j as usize),
    decreases n,
{
    if j == n - 1 {
        assert(spec_violations_upto(dm, connector, c, n)[spec_violations_upto(
            dm,
            connector,
            c,
            n - 1,
        ).len() as int] == j as usize);
    } else {
        lemma_violations_contain(dm, connector, c, n - 1, j);
        let prev = spec_violations_upto(dm, connector, c, n - 1);
        let k = choose|k: int| 0 <= k < prev.len() && prev[k] == j as usize;
        assert(spec_violations_upto(dm, connector, c, n)[k] == j as usize);
    }
}

fn final_names_equal(a: &Constraint, b: &Constraint) -> (r: bool)
    ensures
        r == (a.spec_final_name() == b.spec_final_name()),
{
    let an: &String = match &a.mapped_name {
        Some(n) => n,
        None => &a.default_name,
    };
    let bn: &String = match &b.mapped_name {
        Some(n) => n,
        None => &b.default_name,
    };
    *an == *bn
}

/// Find every other constraint with the same final name as `c`'s within
/// `c`'s namespace.
pub fn scope_violations(dm: &InternalDataModel, connector: Connector, c: usize) -> (v: Vec<usize>)
    requires
        c < dm.constraints@.len(),
    ensures
        v@ == spec_scope_violations(*dm, connector, c as int),
{
    let mut v: Vec<usize> = Vec::new();
    let target = &dm.constraints[c];
    let target_ns = namespace_of(connector, target);
    let mut j: usize = 0;
    while j < dm.constraints.len()
        invariant
            c < dm.constraints@.len(),
            j <= dm.constraints@.len(),
            target == dm.constraints@[c as int],
            target_ns == spec_namespace_of(connector, dm.constraints@[c as int]),
            v@ == spec_violations_upto(*dm, connector, c as int, j as int),
        decreases dm.constraints@.len() - j,
    {
        let other = &dm.constraints[j];
        if j != c && target.kind == other.kind && target_ns == namespace_of(connector, other)
            && final_names_equal(target, other) {
            v.push(j);
        }
        j += 1;
    }
    v
}

/// The text of a namespace-violation diagnostic: it names the offending
/// final name and describes the namespace.
pub open spec fn spec_violation_message(final_name: Seq<char>, ns_desc: Seq<char>) -> Seq<char> {
    "The given constraint name `"@ + final_name
        + "` has to be unique in the following namespace: "@ + ns_desc
        + ". Please provide a different name using the `map` argument."@
}

fn violation_message(final_name: &str, ns_desc: &str) -> (r: String)
    ensures
        r@ == spec_violation_message(final_name@, ns_desc@),
{
    let mut s = String::from_str("The given constraint name `");
    s.append(final_name);
    s.append("` has to be unique in the following namespace: ");
    s.append(ns_desc);
    s.append(". Please provide a different name using the `map` argument.");
    s
}

/// The span a namespace diagnostic points at, preferring the explicit
/// `map` argument, then the `name` argument, then the whole attribute,
/// and falling back to the owning model's declaration.
pub open spec fn spec_violation_span(c: Constraint, model_span: Span) -> Span {
    match c.attribute {
        Some(a) => match a.map_arg_span {
            Some(s) => s,
            None => match a.name_arg_span {
                Some(s) => s,
                None => a.span,
            },
        },
        None => model_span,
    }
}

fn violation_span(c: &Constraint, model_span: Span) -> (s: Span)
    ensures
        s == spec_violation_span(*c, model_span),
{
    match &c.attribute {
        Some(a) => match a.map_arg_span {
            Some(s) => s,
            None => match a.name_arg_span {
                Some(s) => s,
                None => a.span,
            },
        },
        None => model_span,
    }
}

/// The message a diagnostic for constraint `c` carries.
pub open spec fn spec_constraint_message(
    dm: InternalDataModel,
    connector: Connector,
    c: int,
) -> Seq<char> {
    spec_violation_message(
        dm.constraints@[c].spec_final_name(),
        spec_namespace_description(
            spec_namespace_of(connector, dm.constraints@[c]),
            dm.models@[dm.constraints@[c].model_id as int].name@,
        ),
    )
}

/// What one namespace-violation diagnostic for constraint `c` colliding
/// with `peer` holds: the stable kind, both ids, the message carrying
/// `c`'s final name and namespace description, and the preferred span.
pub open spec fn spec_is_violation_diag(
    dm: InternalDataModel,
    connector: Connector,
    c: int,
    peer: usize,
    d: Diagnostic,
) -> bool {
    &&& d.kind == ErrorKind::NamespaceViolation
    &&& d.subject == c
    &&& d.peer == Some(peer)
    &&& d.message@ == spec_constraint_message(dm, connector, c)
    &&& d.span == spec_violation_span(
        dm.constraints@[c],
        dm.models@[dm.constraints@[c].model_id as int].span,
    )
}

/// Different backends validate index and unique constraint names in a
/// certain namespace. Checks constraint `c`'s final name against every
/// peer in its namespace and appends one diagnostic per collision.
pub fn has_a_unique_constraint_name(
    dm: &InternalDataModel,
    connector: Connector,
    c: usize,
    diagnostics: &mut Diagnostics,
)
    requires
        dm.wf(),
        c < dm.constraints@.len(),
    ensures
        final(diagnostics).errors@.len() == old(diagnostics).errors@.len()
            + spec_scope_violations(*dm, connector, c as int).len(),
        forall|k: int|
            0 <= k < old(diagnostics).errors@.len() ==> final(diagnostics).errors@[k] == old(
                diagnostics,
            ).errors@[k],
        forall|k: int|
            0 <= k < spec_scope_violations(*dm, connector, c as int).len()
                ==> spec_is_violation_diag(
                *dm,
                connector,
                c as int,
                spec_scope_violations(*dm, connector, c as int)[k],
                #[trigger] final(diagnostics).errors@[old(diagnostics).errors@.len() + k],
            ),
{
    let constraint = &dm.constraints[c];
    let model = dm.model_by_id(constraint.model_id);
    let ns = namespace_of(connector, constraint);
    let desc = namespace_description(ns, model.name.as_str());
    let message = violation_message(constraint.final_database_name(), desc.as_str());
    let span = violation_span(constraint, model.span);
    let violations = scope_violations(dm, connector, c);

    let ghost base = diagnostics.errors@.len() as int;
    let mut k: usize = 0;
    while k < violations.len()
        invariant
            c < dm.constraints@.len(),
            violations@ == spec_scope_violations(*dm, connector, c as int),
            k <= violations@.len(),
            message@ == spec_constraint_message(*dm, connector, c as int),
            span == spec_violation_span(
                dm.constraints@[c as int],
                dm.models@[dm.constraints@[c as int].model_id as int].span,
            ),
            diagnostics.errors@.len() == base + k,
            base == old(diagnostics).errors@.len(),
            forall|q: int| 0 <= q < base ==> diagnostics.errors@[q] == old(diagnostics).errors@[q],
            forall|q: int|
                0 <= q < k ==> spec_is_violation_diag(
                    *dm,
                    connector,
                    c as int,
                    spec_scope_violations(*dm, connector, c as int)[q],
                    #[trigger] diagnostics.errors@[base + q],
                ),
        decreases violations@.len() - k,
    {
        let peer = violations[k];
        let ghost prev = diagnostics.errors@;
        diagnostics.push_error(
            Diagnostic {
                kind: ErrorKind::NamespaceViolation,
                message: message.clone(),
                span,
                subject: c,
                peer: Some(peer),
            },
        );
        proof {
            assert(forall|q: int|
                0 <= q < base + k ==> diagnostics.errors@[q] == #[trigger] prev[q]);
        }
        k += 1;
    }
}

/// Namespace validation over the whole entity model: every constraint is
/// checked against every peer in its namespace, and every collision is
/// reported. The final postcondition is the uniqueness law: for any two
/// distinct constraints with the same final name in the same namespace, a
/// diagnostic referencing both is appended.
pub fn validate_constraint_namespaces(
    dm: &InternalDataModel,
    connector: Connector,
    diagnostics: &mut Diagnostics,
)
    requires
        dm.wf(),
    ensures
        old(diagnostics).errors@.len() <= final(diagnostics).errors@.len(),
        forall|k: int|
            0 <= k < old(diagnostics).errors@.len() ==> final(diagnostics).errors@[k] == old(
                diagnostics,
            ).errors@[k],
        forall|i: int, j: int|
            spec_collides(*dm, connector, i, j) ==> exists|k: int|
                0 <= k < final(diagnostics).errors@.len() && spec_is_violation_diag(
                    *dm,
                    connector,
                    i,
                    j as usize,
                    #[trigger] final(diagnostics).errors@[k],
                ),
{
    let mut c: usize = 0;
    while c < dm.constraints.len()
        invariant
            dm.wf(),
            c <= dm.constraints@.len(),
            old(diagnostics).errors@.len() <= diagnostics.errors@.len(),
            forall|k: int|
                0 <= k < old(diagnostics).errors@.len() ==> diagnostics.errors@[k] == old(
                    diagnostics,
                ).errors@[k],
            forall|i: int, j: int|
                0 <= i < c && spec_collides(*dm, connector, i, j) ==> exists|k: int|
                    0 <= k < diagnostics.errors@.len() && spec_is_violation_diag(
                        *dm,
                        connector,
                        i,
                        j as usize,
                        #[trigger] diagnostics.errors@[k],
                    ),
        decreases dm.constraints@.len() - c,
    {
        let ghost pre = diagnostics.errors@;
        has_a_unique_constraint_name(dm, connector, c, diagnostics);
        proof {
            assert forall|i: int, j: int|
                0 <= i < c + 1 && spec_collides(*dm, connector, i, j) implies exists|k: int|
                0 <= k < diagnostics.errors@.len() && spec_is_violation_diag(
                    *dm,
                    connector,
                    i,
                    j as usize,
                    #[trigger] diagnostics.errors@[k],
                ) by {
                if i < c {
                    let k0 = choose|k: int|
                        0 <= k < pre.len() && spec_is_violation_diag(
                            *dm,
                            connector,
                            i,
                            j as usize,
                            #[trigger] pre[k],
                        );
                    assert(diagnostics.errors@[k0] == pre[k0]);
                } else {
                    lemma_violations_contain(
                        *dm,
                        connector,
                        c as int,
                        dm.constraints@.len() as int,
                        j,
                    );
                    let viols = spec_scope_violations(*dm, connector, c as int);
                    let q = choose|q: int| 0 <= q < viols.len() && viols[q] == j as usize;
                    assert(spec_is_violation_diag(
                        *dm,
                        connector,
                        c as int,
                        j as usize,
                        diagnostics.errors@[pre.len() + q],
                    ));
                }
            }
        }
        c += 1;
    }
}

/// A constraint given an explicit `map` name is reported under exactly
/// that name: its final name is the mapped name, and the violation
/// message embeds it verbatim, never the derived default.
pub proof fn lemma_mapped_name_reported_verbatim(
    dm: InternalDataModel,
    connector: Connector,
    c: int,
    mapped: String,
)
    requires
        0 <= c < dm.constraints@.len(),
        dm.constraints@[c].mapped_name == Some(mapped),
    ensures
        dm.constraints@[c].spec_final_name() == mapped@,
        spec_constraint_message(dm, connector, c) == spec_violation_message(
            mapped@,
            spec_namespace_description(
                spec_namespace_of(connector, dm.constraints@[c]),
                dm.models@[dm.constraints@[c].model_id as int].name@,
            ),
        ),
{
}

} // verus!
