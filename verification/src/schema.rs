use vstd::prelude::*;

use vstd::string::StringExecFns;

use crate::actions::Connector;
use crate::cascade::{
    cascade_edges, find_cascade_cycle, spec_delete_cascade_edges, spec_has_cycle, spec_is_cycle,
    spec_update_cascade_edges,
};
use crate::diagnostics::{Diagnostic, Diagnostics, ErrorKind, Span};
use crate::entity::InternalDataModel;
use crate::namespace::validate_constraint_namespaces;
use crate::resolve::validate_relation_actions;

verus! {

/// The diagnostics sink holds a cascade-cycle diagnostic.
pub open spec fn spec_has_cycle_diag(d: Diagnostics) -> bool {
    exists|k: int|
        0 <= k < d.errors@.len() && (#[trigger] d.errors@[k]).kind == ErrorKind::CascadeCycle
}

/// Load a schema: run every validation pass over the entity model,
/// collecting diagnostics in one shared sink, and reject the schema
/// wholesale when the `Cascade`-labeled subgraph of its action graph
/// (for either operation kind) contains a cycle, since writes against
/// such a schema could propagate forever. Exactly the cyclic schemas
/// are rejected; a rejected load carries a cycle diagnostic and hands
/// back no entity model, an accepted one returns the model unchanged
/// beside the non-fatal diagnostics.
pub fn load_schema(dm: InternalDataModel, connector: Connector) -> (r: (
    Option<InternalDataModel>,
    Diagnostics,
))
    requires
        dm.wf(),
    ensures
        (r.0 is Some) == (!spec_has_cycle(spec_update_cascade_edges(dm)) && !spec_has_cycle(
            spec_delete_cascade_edges(dm),
        )),
        r.0 is Some ==> r.0->0 == dm,
        r.0 is None ==> spec_has_cycle_diag(r.1),
{
    let mut diagnostics = Diagnostics::new();
    validate_constraint_namespaces(&dm, connector, &mut diagnostics);
    let mut i: usize = 0;
    while i < dm.relations.len()
        invariant
            dm.wf(),
            i <= dm.relations@.len(),
        decreases dm.relations@.len() - i,
    {
        validate_relation_actions(&dm, connector, i, &mut diagnostics);
        i += 1;
    }
    let update_edges = cascade_edges(&dm, true);
    let delete_edges = cascade_edges(&dm, false);
    let update_cycle = find_cascade_cycle(dm.models.len(), &update_edges);
    let delete_cycle = find_cascade_cycle(dm.models.len(), &delete_edges);
    let cycle_node: Option<usize> = match &update_cycle {
        Some(c) => {
            proof {
                assert(spec_has_cycle(spec_update_cascade_edges(dm)));
            }
            Some(c[0])
        },
        None => match &delete_cycle {
            Some(c) => {
                proof {
                    assert(spec_has_cycle(spec_delete_cascade_edges(dm)));
                }
                Some(c[0])
            },
            None => None,
        },
    };
    match cycle_node {
        Some(node) => {
            let message = String::from_str(
                "The relations whose referential action is `Cascade` form a cycle; a write could propagate forever, so the schema is rejected.",
            );
            let ghost pre = diagnostics.errors@;
            diagnostics.push_error(
                Diagnostic {
                    kind: ErrorKind::CascadeCycle,
                    message,
                    span: Span { start: 0, end: 0 },
                    subject: node,
                    peer: None,
                },
            );
            proof {
                assert(spec_has_cycle_diag(diagnostics)) by {
                    assert((diagnostics.errors@[pre.len() as int]).kind
                        == ErrorKind::CascadeCycle);
                }
            }
            (None, diagnostics)
        },
        None => (Some(dm), diagnostics),
    }
}

} // verus!
