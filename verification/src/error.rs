use vstd::prelude::*;

verus! {

/// Why a request could not be built.
#[derive(Debug, Clone, Copy, PartialEq, Eq, Structural)]
pub enum JevError {
    /// The builder lacked a state, or held no question.
    BuildError,
}

} // verus!
