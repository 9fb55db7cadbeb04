use vstd::prelude::*;

use crate::actions::ReferentialAction;
use crate::cascade::{lemma_count_true_le, lemma_count_true_update, make_bools, spec_count_true};
use crate::entity::{DefaultValue, InternalDataModel, Relation, ScalarField};

verus! {

// ---------------------------------------------------------------------------
// Record values.
// ---------------------------------------------------------------------------

/// A field value as the write path sees it.
#[derive(Debug)]
pub enum Value {
    Null,
    Int(i64),
    Text(String),
}

pub open spec fn spec_val_eq(a: Value, b: Value) -> bool {
    match (a, b) {
        (Value::Null, Value::Null) => true,
        (Value::Int(x), Value::Int(y)) => x == y,
        (Value::Text(x), Value::Text(y)) => x@ == y@,
        _ => false,
    }
}

pub fn value_equal(a: &Value, b: &Value) -> (r: bool)
    ensures
        r == spec_val_eq(*a, *b),
{
    match (a, b) {
        (Value::Null, Value::Null) => true,
        (Value::Int(x), Value::Int(y)) => *x == *y,
        (Value::Text(x), Value::Text(y)) => *x == *y,
        _ => false,
    }
}

pub fn clone_value(v: &Value) -> (r: Value)
    ensures
        r == *v,
{
    match v {
        Value::Null => Value::Null,
        Value::Int(x) => Value::Int(*x),
        Value::Text(s) => Value::Text(s.clone()),
    }
}

fn clone_fields(f: &Vec<Value>) -> (r: Vec<Value>)
    ensures
        r@ == f@,
{
    let mut r: Vec<Value> = Vec::new();
    let mut i: usize = 0;
    while i < f.len()
        invariant
            i <= f@.len(),
            r@.len() == i,
            forall|q: int| 0 <= q < i ==> r@[q] == f@[q],
        decreases f@.len() - i,
    {
        r.push(clone_value(&f[i]));
        i += 1;
    }
    proof {
        assert(r@ =~= f@);
    }
    r
}

fn clone_pairs(p: &Vec<(usize, Value)>) -> (r: Vec<(usize, Value)>)
    ensures
        r@ == p@,
{
    let mut r: Vec<(usize, Value)> = Vec::new();
    let mut i: usize = 0;
    while i < p.len()
        invariant
            i <= p@.len(),
            r@.len() == i,
            forall|q: int| 0 <= q < i ==> r@[q] == p@[q],
        decreases p@.len() - i,
    {
        let f = p[i].0;
        r.push((f, clone_value(&p[i].1)));
        i += 1;
    }
    proof {
        assert(r@ =~= p@);
    }
    r
}

// ---------------------------------------------------------------------------
// Records and their mathematical view.
// ---------------------------------------------------------------------------

/// One stored record: the model it belongs to and one value per field.
#[derive(Debug)]
pub struct Record {
    pub model: usize,
    pub fields: Vec<Value>,
}

/// The view of a record.
pub struct RecordV {
    pub model: usize,
    pub fields: Seq<Value>,
}

impl View for Record {
    type V = RecordV;

    open spec fn view(&self) -> RecordV {
        RecordV { model: self.model, fields: self.fields@ }
    }
}

/// The view of a whole store.
pub open spec fn spec_recs(s: Seq<Record>) -> Seq<RecordV> {
    s.map_values(|r: Record| r@)
}

// ---------------------------------------------------------------------------
// Pending propagation work.
// ---------------------------------------------------------------------------

/// One pending operation of a propagation in progress: set some fields
/// of a record (recursing into its own relations only for `Cascade`
/// mutations), or remove a record.
pub enum Task {
    Mutate { rec: usize, sets: Vec<(usize, Value)>, recurse: bool },
    Remove { rec: usize },
}

pub enum TaskV {
    Mutate { rec: usize, sets: Seq<(usize, Value)>, recurse: bool },
    Remove { rec: usize },
}

impl View for Task {
    type V = TaskV;

    open spec fn view(&self) -> TaskV {
        match self {
            Task::Mutate { rec, sets, recurse } => TaskV::Mutate {
                rec: *rec,
                sets: sets@,
                recurse: *recurse,
            },
            Task::Remove { rec } => TaskV::Remove { rec: *rec },
        }
    }
}

pub open spec fn spec_tasks(s: Seq<Task>) -> Seq<TaskV> {
    s.map_values(|t: Task| t@)
}

// ---------------------------------------------------------------------------
// Dependent-record matching.
// ---------------------------------------------------------------------------

/// `child` depends on a parent with fields `pfields` through `rel`:
/// it lives on the relation's child model and every foreign-key field
/// equals the corresponding referenced field of the parent.
pub open spec fn spec_col_matches(rel: Relation, pfields: Seq<Value>, child: RecordV, k: int) -> bool {
    &&& rel.fk_fields@[k] < child.fields.len()
    &&& rel.referenced_fields@[k] < pfields.len()
    &&& spec_val_eq(
        child.fields[rel.fk_fields@[k] as int],
        pfields[rel.referenced_fields@[k] as int],
    )
}

pub open spec fn spec_matches(rel: Relation, pfields: Seq<Value>, child: RecordV) -> bool {
    &&& child.model == rel.child_model
    &&& rel.referenced_fields@.len() == rel.fk_fields@.len()
    &&& forall|k: int|
        0 <= k < rel.fk_fields@.len() ==> #[trigger] spec_col_matches(rel, pfields, child, k)
}

fn rec_matches(rel: &Relation, pfields: &Vec<Value>, child: &Record) -> (r: bool)
    ensures
        r == spec_matches(*rel, pfields@, child@),
{
    if child.model != rel.child_model {
        return false;
    }
    if rel.referenced_fields.len() != rel.fk_fields.len() {
        return false;
    }
    let mut k: usize = 0;
    while k < rel.fk_fields.len()
        invariant
            k <= rel.fk_fields@.len(),
            rel.referenced_fields@.len() == rel.fk_fields@.len(),
            child.model == rel.child_model,
            forall|q: int| 0 <= q < k ==> #[trigger] spec_col_matches(*rel, pfields@, child@, q),
        decreases rel.fk_fields@.len() - k,
    {
        let cf = rel.fk_fields[k];
        let pf = rel.referenced_fields[k];
        if cf >= child.fields.len() || pf >= pfields.len() {
            proof {
                assert(!spec_col_matches(*rel, pfields@, child@, k as int));
            }
            return false;
        }
        if !value_equal(&child.fields[cf], &pfields[pf]) {
            proof {
                assert(!spec_col_matches(*rel, pfields@, child@, k as int));
            }
            return false;
        }
        proof {
            assert(spec_col_matches(*rel, pfields@, child@, k as int));
        }
        k += 1;
    }
    true
}

/// The indices below `n` of live records that depend on the parent
/// through `rel`, in increasing order.
pub open spec fn spec_deps_upto(
    recs: Seq<RecordV>,
    deleted: Seq<bool>,
    rel: Relation,
    pfields: Seq<Value>,
    n: int,
) -> Seq<usize>
    decreases n,
{
    if n <= 0 {
        Seq::empty()
    } else {
        let rest = spec_deps_upto(recs, deleted, rel, pfields, n - 1);
        if !deleted[n - 1] && spec_matches(rel, pfields, recs[n - 1]) {
            rest.push((n - 1) as usize)
        } else {
            rest
        }
    }
}

pub open spec fn spec_deps(
    recs: Seq<RecordV>,
    deleted: Seq<bool>,
    rel: Relation,
    pfields: Seq<Value>,
) -> Seq<usize> {
    spec_deps_upto(recs, deleted, rel, pfields, recs.len() as int)
}

fn find_deps(
    records: &Vec<Record>,
    deleted: &Vec<bool>,
    rel: &Relation,
    pfields: &Vec<Value>,
) -> (r: Vec<usize>)
    requires
        deleted@.len() == records@.len(),
    ensures
        r@ == spec_deps(spec_recs(records@), deleted@, *rel, pfields@),
{
    let mut r: Vec<usize> = Vec::new();
    let mut j: usize = 0;
    while j < records.len()
        invariant
            j <= records@.len(),
            deleted@.len() == records@.len(),
            r@ == spec_deps_upto(spec_recs(records@), deleted@, *rel, pfields@, j as int),
        decreases records@.len() - j,
    {
        if !deleted[j] && rec_matches(rel, pfields, &records[j]) {
            r.push(j);
        }
        proof {
            assert(spec_recs(records@)[j as int] == records@[j as int]@);
        }
        j += 1;
    }
    r
}

// ---------------------------------------------------------------------------
// The field mutations one relation implies.
// ---------------------------------------------------------------------------

/// The value the mutation set assigns to field `f`, if any (first match
/// at or after position `i` wins).
pub open spec fn spec_lookup_from(sets: Seq<(usize, Value)>, f: usize, i: int) -> Option<Value>
    decreases sets.len() - i,
{
    if i < 0 || i >= sets.len() {
        None
    } else if sets[i].0 == f {
        Some(sets[i].1)
    } else {
        spec_lookup_from(sets, f, i + 1)
    }
}

fn lookup_set(sets: &Vec<(usize, Value)>, f: usize) -> (r: Option<Value>)
    ensures
        r == spec_lookup_from(sets@, f, 0),
{
    let mut acc: Option<Value> = None;
    let mut i: usize = sets.len();
    while i > 0
        invariant
            i <= sets@.len(),
            acc == spec_lookup_from(sets@, f, i as int),
        decreases i,
    {
        i -= 1;
        if sets[i].0 == f {
            acc = Some(clone_value(&sets[i].1));
        }
    }
    acc
}

/// The child-side mutations a `Cascade` edge derives from the parent's
/// mutation set: for every foreign-key column whose referenced column
/// was assigned, assign the same value to the foreign key.
pub open spec fn spec_rel_pairs(rel: Relation, sets: Seq<(usize, Value)>, n: int) -> Seq<
    (usize, Value),
>
    decreases n,
{
    if n <= 0 || rel.referenced_fields@.len() != rel.fk_fields@.len() {
        Seq::empty()
    } else {
        let rest = spec_rel_pairs(rel, sets, n - 1);
        match spec_lookup_from(sets, rel.referenced_fields@[n - 1], 0) {
            Some(v) => rest.push((rel.fk_fields@[n - 1], v)),
            None => rest,
        }
    }
}

fn rel_pairs(rel: &Relation, sets: &Vec<(usize, Value)>) -> (r: Vec<(usize, Value)>)
    ensures
        r@ == spec_rel_pairs(*rel, sets@, rel.fk_fields@.len() as int),
{
    let mut r: Vec<(usize, Value)> = Vec::new();
    if rel.referenced_fields.len() != rel.fk_fields.len() {
        return r;
    }
    let mut k: usize = 0;
    while k < rel.fk_fields.len()
        invariant
            k <= rel.fk_fields@.len(),
            rel.referenced_fields@.len() == rel.fk_fields@.len(),
            r@ == spec_rel_pairs(*rel, sets@, k as int),
        decreases rel.fk_fields@.len() - k,
    {
        match lookup_set(sets, rel.referenced_fields[k]) {
            Some(v) => {
                r.push((rel.fk_fields[k], v));
            },
            None => {},
        }
        k += 1;
    }
    r
}

/// All foreign-key columns of the relation reset to null.
pub open spec fn spec_null_pairs(rel: Relation, n: int) -> Seq<(usize, Value)>
    decreases n,
{
    if n <= 0 {
        Seq::empty()
    } else {
        spec_null_pairs(rel, n - 1).push((rel.fk_fields@[n - 1], Value::Null))
    }
}

fn null_pairs(rel: &Relation) -> (r: Vec<(usize, Value)>)
    ensures
        r@ == spec_null_pairs(*rel, rel.fk_fields@.len() as int),
{
    let mut r: Vec<(usize, Value)> = Vec::new();
    let mut k: usize = 0;
    while k < rel.fk_fields.len()
        invariant
            k <= rel.fk_fields@.len(),
            r@ == spec_null_pairs(*rel, k as int),
        decreases rel.fk_fields@.len() - k,
    {
        r.push((rel.fk_fields[k], Value::Null));
        k += 1;
    }
    r
}

/// The write-path value of a field's declared default.
pub open spec fn spec_default_value_of(f: ScalarField) -> Value {
    match f.default_value {
        Some(DefaultValue::IntValue(i)) => Value::Int(i),
        Some(DefaultValue::TextValue(s)) => Value::Text(s),
        _ => Value::Null,
    }
}

fn default_value_of(f: &ScalarField) -> (r: Value)
    ensures
        r == spec_default_value_of(*f),
{
    match &f.default_value {
        Some(DefaultValue::IntValue(i)) => Value::Int(*i),
        Some(DefaultValue::TextValue(s)) => Value::Text(s.clone()),
        _ => Value::Null,
    }
}

/// All foreign-key columns of the relation reset to their declared
/// defaults on the child model.
pub open spec fn spec_default_pairs(fields: Seq<ScalarField>, rel: Relation, n: int) -> Seq<
    (usize, Value),
>
    decreases n,
{
    if n <= 0 {
        Seq::empty()
    } else {
        let rest = spec_default_pairs(fields, rel, n - 1);
        let cf = rel.fk_fields@[n - 1];
        let dv = if (cf as int) < fields.len() {
            spec_default_value_of(fields[cf as int])
        } else {
            Value::Null
        };
        rest.push((cf, dv))
    }
}

fn default_pairs(child_fields: &Vec<ScalarField>, rel: &Relation) -> (r: Vec<(usize, Value)>)
    ensures
        r@ == spec_default_pairs(child_fields@, *rel, rel.fk_fields@.len() as int),
{
    let mut r: Vec<(usize, Value)> = Vec::new();
    let mut k: usize = 0;
    while k < rel.fk_fields.len()
        invariant
            k <= rel.fk_fields@.len(),
            r@ == spec_default_pairs(child_fields@, *rel, k as int),
        decreases rel.fk_fields@.len() - k,
    {
        let cf = rel.fk_fields[k];
        let dv = if cf < child_fields.len() {
            default_value_of(&child_fields[cf])
        } else {
            Value::Null
        };
        r.push((cf, dv));
        k += 1;
    }
    r
}

/// Apply a mutation set to a record's fields; assignments outside the
/// record are ignored.
pub open spec fn spec_apply_sets(fields: Seq<Value>, sets: Seq<(usize, Value)>, n: int) -> Seq<
    Value,
>
    decreases n,
{
    if n <= 0 {
        fields
    } else {
        let prev = spec_apply_sets(fields, sets, n - 1);
        if (sets[n - 1].0 as int) < fields.len() {
            prev.update(sets[n - 1].0 as int, sets[n - 1].1)
        } else {
            prev
        }
    }
}

fn apply_sets(fields: Vec<Value>, sets: &Vec<(usize, Value)>) -> (r: Vec<Value>)
    ensures
        r@ == spec_apply_sets(fields@, sets@, sets@.len() as int),
{
    let ghost init = fields@;
    let mut f = fields;
    let mut k: usize = 0;
    while k < sets.len()
        invariant
            k <= sets@.len(),
            f@ == spec_apply_sets(init, sets@, k as int),
            f@.len() == init.len(),
        decreases sets@.len() - k,
    {
        let idx = sets[k].0;
        if idx < f.len() {
            f[idx] = clone_value(&sets[k].1);
        }
        k += 1;
    }
    f
}

// ---------------------------------------------------------------------------
// Task expansion: what one record's change implies for its dependents.
// ---------------------------------------------------------------------------

/// Tasks that mutate each dependent with the same pairs.
pub open spec fn spec_dep_mutates(
    deps: Seq<usize>,
    pairs: Seq<(usize, Value)>,
    recurse: bool,
    n: int,
) -> Seq<TaskV>
    decreases n,
{
    if n <= 0 {
        Seq::empty()
    } else {
        spec_dep_mutates(deps, pairs, recurse, n - 1).push(
            TaskV::Mutate { rec: deps[n - 1], sets: pairs, recurse },
        )
    }
}

/// Tasks that remove each dependent.
pub open spec fn spec_dep_removes(deps: Seq<usize>, n: int) -> Seq<TaskV>
    decreases n,
{
    if n <= 0 {
        Seq::empty()
    } else {
        spec_dep_removes(deps, n - 1).push(TaskV::Remove { rec: deps[n - 1] })
    }
}

/// The tasks implied by the record on `old_model` whose pre-change
/// fields were `pfields` after it was changed by `sets` (for an update)
/// or removed (for a delete), walking the relations in order. `Err`
/// names the first `Restrict`/`NoAction` relation that still has a live
/// dependent.
pub open spec fn spec_expand_upto(
    dm: InternalDataModel,
    recs: Seq<RecordV>,
    deleted: Seq<bool>,
    old_model: usize,
    pfields: Seq<Value>,
    sets: Seq<(usize, Value)>,
    is_update: bool,
    n: int,
) -> Result<Seq<TaskV>, usize>
    decreases n,
{
    if n <= 0 {
        Ok(Seq::empty())
    } else {
        match spec_expand_upto(dm, recs, deleted, old_model, pfields, sets, is_update, n - 1) {
            Err(e) => Err(e),
            Ok(rest) => {
                let rel = dm.relations@[n - 1];
                if rel.parent_model != old_model {
                    Ok(rest)
                } else {
                    let pairs = spec_rel_pairs(rel, sets, rel.fk_fields@.len() as int);
                    if is_update && pairs.len() == 0 {
                        Ok(rest)
                    } else {
                        let deps = spec_deps(recs, deleted, rel, pfields);
                        let action = if is_update {
                            rel.on_update
                        } else {
                            rel.on_delete
                        };
                        match action {
                            ReferentialAction::Cascade => Ok(
                                rest + (if is_update {
                                    spec_dep_mutates(deps, pairs, true, deps.len() as int)
                                } else {
                                    spec_dep_removes(deps, deps.len() as int)
                                }),
                            ),
                            ReferentialAction::Restrict | ReferentialAction::NoAction => {
                                if deps.len() > 0 {
                                    Err((n - 1) as usize)
                                } else {
                                    Ok(rest)
                                }
                            },
                            ReferentialAction::SetNull => Ok(
                                rest + spec_dep_mutates(
                                    deps,
                                    spec_null_pairs(rel, rel.fk_fields@.len() as int),
                                    false,
                                    deps.len() as int,
                                ),
                            ),
                            ReferentialAction::SetDefault => Ok(
                                rest + spec_dep_mutates(
                                    deps,
                                    spec_default_pairs(
                                        dm.models@[rel.child_model as int].fields@,
                                        rel,
                                        rel.fk_fields@.len() as int,
                                    ),
                                    false,
                                    deps.len() as int,
                                ),
                            ),
                        }
                    }
                }
            },
        }
    }
}

proof fn lemma_expand_err_propagates(
    dm: InternalDataModel,
    recs: Seq<RecordV>,
    deleted: Seq<bool>,
    old_model: usize,
    pfields: Seq<Value>,
    sets: Seq<(usize, Value)>,
    is_update: bool,
    m: int,
    n: int,
)
    requires
        m <= n,
        spec_expand_upto(dm, recs, deleted, old_model, pfields, sets, is_update, m) is Err,
    ensures
        spec_expand_upto(dm, recs, deleted, old_model, pfields, sets, is_update, n)
            == spec_expand_upto(dm, recs, deleted, old_model, pfields, sets, is_update, m),
    decreases n - m,
{
    if m < n {
        lemma_expand_err_propagates(
            dm,
            recs,
            deleted,
            old_model,
            pfields,
            sets,
            is_update,
            m,
            n - 1,
        );
    }
}

pub open spec fn spec_expand(
    dm: InternalDataModel,
    recs: Seq<RecordV>,
    deleted: Seq<bool>,
    old_model: usize,
    pfields: Seq<Value>,
    sets: Seq<(usize, Value)>,
    is_update: bool,
) -> Result<Seq<TaskV>, usize> {
    spec_expand_upto(
        dm,
        recs,
        deleted,
        old_model,
        pfields,
        sets,
        is_update,
        dm.relations@.len() as int,
    )
}

fn push_dep_mutates(
    tasks: &mut Vec<Task>,
    deps: &Vec<usize>,
    pairs: &Vec<(usize, Value)>,
    recurse: bool,
)
    ensures
        spec_tasks(final(tasks)@) == spec_tasks(old(tasks)@) + spec_dep_mutates(
            deps@,
            pairs@,
            recurse,
            deps@.len() as int,
        ),
{
    let mut d: usize = 0;
    while d < deps.len()
        invariant
            d <= deps@.len(),
            spec_tasks(tasks@) == spec_tasks(old(tasks)@) + spec_dep_mutates(
                deps@,
                pairs@,
                recurse,
                d as int,
            ),
        decreases deps@.len() - d,
    {
        let sets = clone_pairs(pairs);
        let ghost pre = tasks@;
        tasks.push(Task::Mutate { rec: deps[d], sets, recurse });
        proof {
            assert(spec_tasks(tasks@) =~= spec_tasks(pre).push(
                TaskV::Mutate { rec: deps@[d as int], sets: pairs@, recurse },
            ));
        }
        d += 1;
    }
}

fn push_dep_removes(tasks: &mut Vec<Task>, deps: &Vec<usize>)
    ensures
        spec_tasks(final(tasks)@) == spec_tasks(old(tasks)@) + spec_dep_removes(
            deps@,
            deps@.len() as int,
        ),
{
    let mut d: usize = 0;
    while d < deps.len()
        invariant
            d <= deps@.len(),
            spec_tasks(tasks@) == spec_tasks(old(tasks)@) + spec_dep_removes(deps@, d as int),
        decreases deps@.len() - d,
    {
        let ghost pre = tasks@;
        tasks.push(Task::Remove { rec: deps[d] });
        proof {
            assert(spec_tasks(tasks@) =~= spec_tasks(pre).push(
                TaskV::Remove { rec: deps@[d as int] },
            ));
        }
        d += 1;
    }
}

fn expand(
    dm: &InternalDataModel,
    records: &Vec<Record>,
    deleted: &Vec<bool>,
    old_model: usize,
    pfields: &Vec<Value>,
    sets: &Vec<(usize, Value)>,
    is_update: bool,
) -> (r: Result<Vec<Task>, usize>)
    requires
        dm.wf(),
        deleted@.len() == records@.len(),
    ensures
        match r {
            Ok(ts) => spec_expand(
                *dm,
                spec_recs(records@),
                deleted@,
                old_model,
                pfields@,
                sets@,
                is_update,
            ) == Ok::<Seq<TaskV>, usize>(spec_tasks(ts@)),
            Err(e) => spec_expand(
                *dm,
                spec_recs(records@),
                deleted@,
                old_model,
                pfields@,
                sets@,
                is_update,
            ) == Err::<Seq<TaskV>, usize>(e),
        },
{
    let mut tasks: Vec<Task> = Vec::new();
    proof {
        assert(spec_tasks(tasks@) =~= Seq::<TaskV>::empty());
    }
    let mut i: usize = 0;
    while i < dm.relations.len()
        invariant
            dm.wf(),
            deleted@.len() == records@.len(),
            i <= dm.relations@.len(),
            spec_expand_upto(
                *dm,
                spec_recs(records@),
                deleted@,
                old_model,
                pfields@,
                sets@,
                is_update,
                i as int,
            ) == Ok::<Seq<TaskV>, usize>(spec_tasks(tasks@)),
        decreases dm.relations@.len() - i,
    {
        let rel = &dm.relations[i];
        if rel.parent_model == old_model {
            let pairs = rel_pairs(rel, sets);
            if !(is_update && pairs.len() == 0) {
                let deps = find_deps(records, deleted, rel, pfields);
                let action = if is_update {
                    rel.on_update
                } else {
                    rel.on_delete
                };
                match action {
                    ReferentialAction::Cascade => {
                        if is_update {
                            push_dep_mutates(&mut tasks, &deps, &pairs, true);
                        } else {
                            push_dep_removes(&mut tasks, &deps);
                        }
                    },
                    ReferentialAction::Restrict | ReferentialAction::NoAction => {
                        if deps.len() > 0 {
                            proof {
                                assert(spec_expand_upto(
                                    *dm,
                                    spec_recs(records@),
                                    deleted@,
                                    old_model,
                                    pfields@,
                                    sets@,
                                    is_update,
                                    i + 1,
                                ) == Err::<Seq<TaskV>, usize>(i));
                                lemma_expand_err_propagates(
                                    *dm,
                                    spec_recs(records@),
                                    deleted@,
                                    old_model,
                                    pfields@,
                                    sets@,
                                    is_update,
                                    i + 1,
                                    dm.relations@.len() as int,
                                );
                            }
                            return Err(i);
                        }
                    },
                    ReferentialAction::SetNull => {
                        let np = null_pairs(rel);
                        push_dep_mutates(&mut tasks, &deps, &np, false);
                    },
                    ReferentialAction::SetDefault => {
                        let child = &dm.models[rel.child_model];
                        let dp = default_pairs(&child.fields, rel);
                        push_dep_mutates(&mut tasks, &deps, &dp, false);
                    },
                }
            }
        }
        i += 1;
    }
    Ok(tasks)
}

// ---------------------------------------------------------------------------
// The propagation engine.
// ---------------------------------------------------------------------------

/// What a whole propagation computes, processing pending tasks from the
/// back: each task's target is mutated or removed at most once (targets
/// already visited are skipped, which both de-duplicates converging
/// branches and bounds the work), a `Cascade` mutation expands into the
/// target's own relations, and the first blocked `Restrict`/`NoAction`
/// relation aborts the whole propagation.
pub open spec fn spec_run(
    dm: InternalDataModel,
    recs: Seq<RecordV>,
    deleted: Seq<bool>,
    visited: Seq<bool>,
    pending: Seq<TaskV>,
) -> Result<(Seq<RecordV>, Seq<bool>), usize>
    decreases visited.len() - spec_count_true(visited), pending.len(),
        via spec_run_decreases
{
    if pending.len() == 0 {
        Ok((recs, deleted))
    } else {
        let task = pending.last();
        let rest = pending.drop_last();
        match task {
            TaskV::Mutate { rec, sets, recurse } => {
                if rec >= recs.len() || rec >= visited.len() || visited[rec as int] {
                    spec_run(dm, recs, deleted, visited, rest)
                } else {
                    let oldrec = recs[rec as int];
                    let newrec = RecordV {
                        model: oldrec.model,
                        fields: spec_apply_sets(oldrec.fields, sets, sets.len() as int),
                    };
                    let recs2 = recs.update(rec as int, newrec);
                    let visited2 = visited.update(rec as int, true);
                    if recurse {
                        match spec_expand(
                            dm,
                            recs2,
                            deleted,
                            oldrec.model,
                            oldrec.fields,
                            sets,
                            true,
                        ) {
                            Err(r) => Err(r),
                            Ok(ts) => spec_run(dm, recs2, deleted, visited2, rest + ts),
                        }
                    } else {
                        spec_run(dm, recs2, deleted, visited2, rest)
                    }
                }
            },
            TaskV::Remove { rec } => {
                if rec >= recs.len() || rec >= visited.len() || rec >= deleted.len()
                    || visited[rec as int] || deleted[rec as int] {
                    spec_run(dm, recs, deleted, visited, rest)
                } else {
                    let deleted2 = deleted.update(rec as int, true);
                    let visited2 = visited.update(rec as int, true);
                    match spec_expand(
                        dm,
                        recs,
                        deleted2,
                        recs[rec as int].model,
                        recs[rec as int].fields,
                        Seq::empty(),
                        false,
                    ) {
                        Err(r) => Err(r),
                        Ok(ts) => spec_run(dm, recs, deleted2, visited2, rest + ts),
                    }
                }
            },
        }
    }
}

#[via_fn]
proof fn spec_run_decreases(
    dm: InternalDataModel,
    recs: Seq<RecordV>,
    deleted: Seq<bool>,
    visited: Seq<bool>,
    pending: Seq<TaskV>,
) {
    lemma_count_true_le(visited);
    if pending.len() > 0 {
        match pending.last() {
            TaskV::Mutate { rec, sets, recurse } => {
                if !(rec >= recs.len() || rec >= visited.len() || visited[rec as int]) {
                    lemma_count_true_update(visited, rec as int, true);
                    lemma_count_true_le(visited.update(rec as int, true));
                }
            },
            TaskV::Remove { rec } => {
                if !(rec >= recs.len() || rec >= visited.len() || rec >= deleted.len()
                    || visited[rec as int] || deleted[rec as int]) {
                    lemma_count_true_update(visited, rec as int, true);
                    lemma_count_true_le(visited.update(rec as int, true));
                }
            },
        }
    }
}

fn run_tasks(
    dm: &InternalDataModel,
    records: Vec<Record>,
    deleted: Vec<bool>,
    visited: Vec<bool>,
    pending: Vec<Task>,
) -> (r: Result<(Vec<Record>, Vec<bool>), usize>)
    requires
        dm.wf(),
        deleted@.len() == records@.len(),
        visited@.len() == records@.len(),
    ensures
        match r {
            Ok(out) => spec_run(*dm, spec_recs(records@), deleted@, visited@, spec_tasks(pending@))
                == Ok::<(Seq<RecordV>, Seq<bool>), usize>((spec_recs(out.0@), out.1@)),
            Err(e) => spec_run(*dm, spec_recs(records@), deleted@, visited@, spec_tasks(pending@))
                == Err::<(Seq<RecordV>, Seq<bool>), usize>(e),
        },
    decreases visited@.len() - spec_count_true(visited@), pending@.len(),
{
    let ghost recs0 = spec_recs(records@);
    let ghost pending0 = spec_tasks(pending@);
    proof {
        lemma_count_true_le(visited@);
    }
    let mut records = records;
    let mut deleted = deleted;
    let mut visited = visited;
    let mut pending = pending;
    let task = match pending.pop() {
        None => {
            proof {
                assert(pending0.len() == 0);
            }
            return Ok((records, deleted));
        },
        Some(t) => t,
    };
    proof {
        assert(task@ == pending0.last());
        assert(spec_tasks(pending@) =~= pending0.drop_last());
    }
    match task {
        Task::Mutate { rec, sets, recurse } => {
            if rec >= records.len() || visited[rec] {
                run_tasks(dm, records, deleted, visited, pending)
            } else {
                let old_fields = clone_fields(&records[rec].fields);
                let model = records[rec].model;
                let new_fields = apply_sets(clone_fields(&old_fields), &sets);
                let ghost oldrec = spec_recs(records@)[rec as int];
                let ghost vis0 = visited@;
                records[rec] = Record { model, fields: new_fields };
                visited[rec] = true;
                proof {
                    assert(oldrec.model == model && oldrec.fields == old_fields@);
                    assert(spec_recs(records@) =~= recs0.update(
                        rec as int,
                        RecordV {
                            model: oldrec.model,
                            fields: spec_apply_sets(oldrec.fields, sets@, sets@.len() as int),
                        },
                    ));
                    lemma_count_true_update(vis0, rec as int, true);
                    lemma_count_true_le(visited@);
                }
                if recurse {
                    match expand(dm, &records, &deleted, model, &old_fields, &sets, true) {
                        Err(e) => Err(e),
                        Ok(mut ts) => {
                            let ghost tsv = spec_tasks(ts@);
                            pending.append(&mut ts);
                            proof {
                                assert(spec_tasks(pending@) =~= pending0.drop_last() + tsv);
                            }
                            run_tasks(dm, records, deleted, visited, pending)
                        },
                    }
                } else {
                    run_tasks(dm, records, deleted, visited, pending)
                }
            }
        },
        Task::Remove { rec } => {
            if rec >= records.len() || visited[rec] || deleted[rec] {
                run_tasks(dm, records, deleted, visited, pending)
            } else {
                let old_fields = clone_fields(&records[rec].fields);
                let model = records[rec].model;
                let ghost vis0 = visited@;
                deleted[rec] = true;
                visited[rec] = true;
                proof {
                    lemma_count_true_update(vis0, rec as int, true);
                    lemma_count_true_le(visited@);
                }
                let empty_sets: Vec<(usize, Value)> = Vec::new();
                match expand(dm, &records, &deleted, model, &old_fields, &empty_sets, false) {
                    Err(e) => Err(e),
                    Ok(mut ts) => {
                        let ghost tsv = spec_tasks(ts@);
                        pending.append(&mut ts);
                        proof {
                            assert(spec_tasks(pending@) =~= pending0.drop_last() + tsv);
                        }
                        run_tasks(dm, records, deleted, visited, pending)
                    },
                }
            }
        },
    }
}

// ---------------------------------------------------------------------------
// The write operations and their public entry points.
// ---------------------------------------------------------------------------

/// A write-time referential-integrity violation: names the relation
/// whose `Restrict`/`NoAction` edge still has live dependents.
#[derive(Debug)]
pub struct IntegrityError {
    pub relation: usize,
}

/// An update that assigns `new_value` to `set_field` of every record of
/// `model` whose `where_field` currently equals `where_value`.
pub struct UpdateWrite {
    pub model: usize,
    pub where_field: usize,
    pub where_value: Value,
    pub set_field: usize,
    pub new_value: Value,
}

/// A delete of every record of `model` whose `where_field` currently
/// equals `where_value`.
pub struct DeleteWrite {
    pub model: usize,
    pub where_field: usize,
    pub where_value: Value,
}

/// Record `j` is addressed by the write's `where` clause.
pub open spec fn spec_is_target(
    recs: Seq<RecordV>,
    model: usize,
    where_field: usize,
    where_value: Value,
    j: int,
) -> bool {
    &&& recs[j].model == model
    &&& where_field < recs[j].fields.len()
    &&& spec_val_eq(recs[j].fields[where_field as int], where_value)
}

/// The initial tasks of an update: one recursive mutation per addressed
/// record.
pub open spec fn spec_update_tasks_upto(recs: Seq<RecordV>, w: UpdateWrite, n: int) -> Seq<TaskV>
    decreases n,
{
    if n <= 0 {
        Seq::empty()
    } else {
        let rest = spec_update_tasks_upto(recs, w, n - 1);
        if spec_is_target(recs, w.model, w.where_field, w.where_value, n - 1) {
            rest.push(
                TaskV::Mutate {
                    rec: (n - 1) as usize,
                    sets: seq![(w.set_field, w.new_value)],
                    recurse: true,
                },
            )
        } else {
            rest
        }
    }
}

/// The initial tasks of a delete: one removal per addressed record.
pub open spec fn spec_delete_tasks_upto(recs: Seq<RecordV>, w: DeleteWrite, n: int) -> Seq<TaskV>
    decreases n,
{
    if n <= 0 {
        Seq::empty()
    } else {
        let rest = spec_delete_tasks_upto(recs, w, n - 1);
        if spec_is_target(recs, w.model, w.where_field, w.where_value, n - 1) {
            rest.push(TaskV::Remove { rec: (n - 1) as usize })
        } else {
            rest
        }
    }
}

/// What an update write computes over the whole store.
pub open spec fn spec_apply_update(dm: InternalDataModel, recs: Seq<RecordV>, w: UpdateWrite) -> Result<
    (Seq<RecordV>, Seq<bool>),
    usize,
> {
    spec_run(
        dm,
        recs,
        Seq::new(recs.len(), |i: int| false),
        Seq::new(recs.len(), |i: int| false),
        spec_update_tasks_upto(recs, w, recs.len() as int),
    )
}

/// The records that survive a delete, in their original order.
pub open spec fn spec_compact(recs: Seq<RecordV>, deleted: Seq<bool>, n: int) -> Seq<RecordV>
    decreases n,
{
    if n <= 0 {
        Seq::empty()
    } else {
        let rest = spec_compact(recs, deleted, n - 1);
        if n - 1 < deleted.len() && deleted[n - 1] {
            rest
        } else {
            rest.push(recs[n - 1])
        }
    }
}

/// What a delete write computes over the whole store.
pub open spec fn spec_apply_delete(dm: InternalDataModel, recs: Seq<RecordV>, w: DeleteWrite) -> Result<
    Seq<RecordV>,
    usize,
> {
    match spec_run(
        dm,
        recs,
        Seq::new(recs.len(), |i: int| false),
        Seq::new(recs.len(), |i: int| false),
        spec_delete_tasks_upto(recs, w, recs.len() as int),
    ) {
        Ok(p) => Ok(spec_compact(p.0, p.1, p.0.len() as int)),
        Err(e) => Err(e),
    }
}

fn update_tasks(store: &Vec<Record>, w: &UpdateWrite) -> (r: Vec<Task>)
    ensures
        spec_tasks(r@) == spec_update_tasks_upto(spec_recs(store@), *w, store@.len() as int),
{
    let mut tasks: Vec<Task> = Vec::new();
    proof {
        assert(spec_tasks(tasks@) =~= Seq::<TaskV>::empty());
    }
    let mut j: usize = 0;
    while j < store.len()
        invariant
            j <= store@.len(),
            spec_tasks(tasks@) == spec_update_tasks_upto(spec_recs(store@), *w, j as int),
        decreases store@.len() - j,
    {
        proof {
            assert(spec_recs(store@)[j as int] == store@[j as int]@);
        }
        if store[j].model == w.model && w.where_field < store[j].fields.len() && value_equal(
            &store[j].fields[w.where_field],
            &w.where_value,
        ) {
            let mut sets: Vec<(usize, Value)> = Vec::new();
            sets.push((w.set_field, clone_value(&w.new_value)));
            let ghost pre = tasks@;
            tasks.push(Task::Mutate { rec: j, sets, recurse: true });
            proof {
                assert(spec_tasks(tasks@) =~= spec_tasks(pre).push(
                    TaskV::Mutate {
                        rec: j,
                        sets: seq![(w.set_field, w.new_value)],
                        recurse: true,
                    },
                ));
            }
        }
        j += 1;
    }
    tasks
}

fn delete_tasks(store: &Vec<Record>, w: &DeleteWrite) -> (r: Vec<Task>)
    ensures
        spec_tasks(r@) == spec_delete_tasks_upto(spec_recs(store@), *w, store@.len() as int),
{
    let mut tasks: Vec<Task> = Vec::new();
    proof {
        assert(spec_tasks(tasks@) =~= Seq::<TaskV>::empty());
    }
    let mut j: usize = 0;
    while j < store.len()
        invariant
            j <= store@.len(),
            spec_tasks(tasks@) == spec_delete_tasks_upto(spec_recs(store@), *w, j as int),
        decreases store@.len() - j,
    {
        proof {
            assert(spec_recs(store@)[j as int] == store@[j as int]@);
        }
        if store[j].model == w.model && w.where_field < store[j].fields.len() && value_equal(
            &store[j].fields[w.where_field],
            &w.where_value,
        ) {
            let ghost pre = tasks@;
            tasks.push(Task::Remove { rec: j });
            proof {
                assert(spec_tasks(tasks@) =~= spec_tasks(pre).push(TaskV::Remove { rec: j }));
            }
        }
        j += 1;
    }
    tasks
}

/// A propagation that completes keeps the store's shape: as many
/// records as before, each still belonging to its model.
pub proof fn lemma_run_preserves_shape(
    dm: InternalDataModel,
    recs: Seq<RecordV>,
    deleted: Seq<bool>,
    visited: Seq<bool>,
    pending: Seq<TaskV>,
)
    ensures
        spec_run(dm, recs, deleted, visited, pending) matches Ok(p) ==> p.0.len() == recs.len()
            && p.1.len() == deleted.len() && (forall|i: int|
            0 <= i < recs.len() ==> (#[trigger] spec_run(
                dm,
                recs,
                deleted,
                visited,
                pending,
            )->Ok_0.0[i]).model == recs[i].model),
    decreases visited.len() - spec_count_true(visited), pending.len(),
{
    lemma_count_true_le(visited);
    if pending.len() == 0 {
    } else {
        let task = pending.last();
        let rest = pending.drop_last();
        match task {
            TaskV::Mutate { rec, sets, recurse } => {
                if rec >= recs.len() || rec >= visited.len() || visited[rec as int] {
                    lemma_run_preserves_shape(dm, recs, deleted, visited, rest);
                } else {
                    lemma_count_true_update(visited, rec as int, true);
                    lemma_count_true_le(visited.update(rec as int, true));
                    let oldrec = recs[rec as int];
                    let newrec = RecordV {
                        model: oldrec.model,
                        fields: spec_apply_sets(oldrec.fields, sets, sets.len() as int),
                    };
                    let recs2 = recs.update(rec as int, newrec);
                    let visited2 = visited.update(rec as int, true);
                    if recurse {
                        match spec_expand(
                            dm,
                            recs2,
                            deleted,
                            oldrec.model,
                            oldrec.fields,
                            sets,
                            true,
                        ) {
                            Err(r) => {},
                            Ok(ts) => {
                                lemma_run_preserves_shape(dm, recs2, deleted, visited2, rest + ts);
                            },
                        }
                    } else {
                        lemma_run_preserves_shape(dm, recs2, deleted, visited2, rest);
                    }
                }
            },
            TaskV::Remove { rec } => {
                if rec >= recs.len() || rec >= visited.len() || rec >= deleted.len()
                    || visited[rec as int] || deleted[rec as int] {
                    lemma_run_preserves_shape(dm, recs, deleted, visited, rest);
                } else {
                    lemma_count_true_update(visited, rec as int, true);
                    lemma_count_true_le(visited.update(rec as int, true));
                    let deleted2 = deleted.update(rec as int, true);
                    let visited2 = visited.update(rec as int, true);
                    match spec_expand(
                        dm,
                        recs,
                        deleted2,
                        recs[rec as int].model,
                        recs[rec as int].fields,
                        Seq::empty(),
                        false,
                    ) {
                        Err(r) => {},
                        Ok(ts) => {
                            lemma_run_preserves_shape(dm, recs, deleted2, visited2, rest + ts);
                        },
                    }
                }
            },
        }
    }
}

/// Execute an update write with full referential-action propagation:
/// the addressed records are changed, `Cascade` relations carry the
/// change transitively into dependents, `SetNull`/`SetDefault`
/// relations detach dependents one hop, and a `Restrict`/`NoAction`
/// relation with live dependents rejects the whole write, leaving no
/// partial change visible. The result is exactly what `spec_apply_update`
/// states, so the outcome is a function of the inputs alone.
pub fn apply_update(dm: &InternalDataModel, store: Vec<Record>, w: &UpdateWrite) -> (r: Result<
    Vec<Record>,
    IntegrityError,
>)
    requires
        dm.wf(),
    ensures
        match r {
            Ok(out) => spec_apply_update(*dm, spec_recs(store@), *w) matches Ok(p) && p.0
                == spec_recs(out@) && out@.len() == store@.len(),
            Err(e) => spec_apply_update(*dm, spec_recs(store@), *w) == Err::<
                (Seq<RecordV>, Seq<bool>),
                usize,
            >(e.relation),
        },
{
    let n = store.len();
    let deleted = make_bools(n, false);
    let visited = make_bools(n, false);
    let tasks = update_tasks(&store, w);
    proof {
        assert(deleted@ =~= Seq::new(spec_recs(store@).len(), |i: int| false));
        assert(visited@ =~= Seq::new(spec_recs(store@).len(), |i: int| false));
        lemma_run_preserves_shape(
            *dm,
            spec_recs(store@),
            deleted@,
            visited@,
            spec_tasks(tasks@),
        );
    }
    match run_tasks(dm, store, deleted, visited, tasks) {
        Ok(out) => Ok(out.0),
        Err(e) => Err(IntegrityError { relation: e }),
    }
}

/// Execute a delete write with full referential-action propagation; the
/// surviving records come back in their original order, exactly as
/// `spec_apply_delete` states.
pub fn apply_delete(dm: &InternalDataModel, store: Vec<Record>, w: &DeleteWrite) -> (r: Result<
    Vec<Record>,
    IntegrityError,
>)
    requires
        dm.wf(),
    ensures
        match r {
            Ok(out) => spec_apply_delete(*dm, spec_recs(store@), *w) matches Ok(p) && p
                == spec_recs(out@),
            Err(e) => spec_apply_delete(*dm, spec_recs(store@), *w) == Err::<Seq<RecordV>, usize>(
                e.relation,
            ),
        },
{
    let n = store.len();
    let deleted = make_bools(n, false);
    let visited = make_bools(n, false);
    let tasks = delete_tasks(&store, w);
    proof {
        assert(deleted@ =~= Seq::new(spec_recs(store@).len(), |i: int| false));
        assert(visited@ =~= Seq::new(spec_recs(store@).len(), |i: int| false));
    }
    match run_tasks(dm, store, deleted, visited, tasks) {
        Ok(out) => {
            let (records, dels) = out;
            let mut kept: Vec<Record> = Vec::new();
            proof {
                assert(spec_recs(kept@) =~= Seq::<RecordV>::empty());
            }
            let mut j: usize = 0;
            while j < records.len()
                invariant
                    j <= records@.len(),
                    spec_recs(kept@) == spec_compact(spec_recs(records@), dels@, j as int),
                decreases records@.len() - j,
            {
                proof {
                    assert(spec_recs(records@)[j as int] == records@[j as int]@);
                }
                if !(j < dels.len() && dels[j]) {
                    let model = records[j].model;
                    let fields = clone_fields(&records[j].fields);
                    let ghost pre = kept@;
                    kept.push(Record { model, fields });
                    proof {
                        assert(spec_recs(kept@) =~= spec_recs(pre).push(records@[j as int]@));
                    }
                }
                j += 1;
            }
            Ok(kept)
        },
        Err(e) => Err(IntegrityError { relation: e }),
    }
}

/// Applying the same update-cascade twice, from the same input state,
/// yields the same final record state both times: the propagation
/// outcome is a function of the schema, the store and the write alone,
/// with no hidden state, and `apply_update` returns exactly it.
pub proof fn lemma_update_cascade_deterministic(
    dm: InternalDataModel,
    recs1: Seq<RecordV>,
    recs2: Seq<RecordV>,
    w1: UpdateWrite,
    w2: UpdateWrite,
)
    requires
        recs1 == recs2,
        w1 == w2,
    ensures
        spec_apply_update(dm, recs1, w1) == spec_apply_update(dm, recs2, w2),
{
}


} // verus!
