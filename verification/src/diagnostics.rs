use vstd::prelude::*;

verus! {

/// A region of the schema source text that a diagnostic points at.
#[derive(Clone, Copy, PartialEq, Eq, Structural, Debug)]
pub struct Span {
    pub start: usize,
    pub end: usize,
}

/// Stable classification of a validation failure.
#[derive(Clone, Copy, PartialEq, Eq, Structural, Debug)]
pub enum ErrorKind {
    /// Two constraints share a final name within one namespace.
    NamespaceViolation,
    /// A referential action is unsupported by the backend or illegal for
    /// the relation's field nullability.
    IllegalReferentialAction,
    /// The `Cascade`-labeled action subgraph contains a cycle.
    CascadeCycle,
}

/// One structured validation failure: a message, a stable kind, a source
/// span, and the ids of the schema objects involved.
pub struct Diagnostic {
    pub kind: ErrorKind,
    pub message: String,
    pub span: Span,
    /// Id of the schema object the diagnostic is about (a constraint or a
    /// relation, depending on `kind`).
    pub subject: usize,
    /// Id of a second object involved, when there is one: the colliding
    /// peer of a namespace violation.
    pub peer: Option<usize>,
}

/// The shared sink that validation passes append to; failures accumulate
/// so a user sees every problem in one pass.
pub struct Diagnostics {
    pub errors: Vec<Diagnostic>,
}

impl Diagnostics {
    pub fn new() -> (d: Diagnostics)
        ensures
            d.errors@.len() == 0,
    {
        Diagnostics { errors: Vec::new() }
    }

    pub fn push_error(&mut self, e: Diagnostic)
        ensures
            final(self).errors@ == old(self).errors@.push(e),
    {
        self.errors.push(e);
    }

    pub fn has_errors(&self) -> (b: bool)
        ensures
            b == (self.errors@.len() > 0),
    {
        self.errors.len() > 0
    }
}

} // verus!
