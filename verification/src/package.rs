use vstd::prelude::*;

verus! {

/// Which bundled entry point an inline package runs.
#[derive(Clone, Copy, Debug, PartialEq, Eq, Structural)]
pub enum Entrypoint {
    Descriptor,
    Viewer,
    SimplePool,
    Token,
    AssociatedToken,
}

/// A program module linked into the process and dispatched by name.
#[derive(Clone, Copy, Debug, PartialEq, Eq, Structural)]
pub struct InlinePackage {
    pub entrypoint: Entrypoint,
}

impl InlinePackage {
    pub fn new(entrypoint: Entrypoint) -> (r: InlinePackage)
        ensures
            r.entrypoint == entrypoint,
    {
        InlinePackage { entrypoint }
    }
}

/// The executable behavior behind a program id: the built-in system
/// program, or one of the bundled inline modules.
#[derive(Clone, Copy, Debug, PartialEq, Eq, Structural)]
pub enum Package {
    System,
    Inline(InlinePackage),
}

} // verus!
