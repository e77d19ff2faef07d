use vstd::prelude::*;

verus! {

/// How the error between an expected and a sampled price is measured.
#[derive(Clone, Copy, Debug, PartialEq, Eq, Structural)]
pub enum ErrorType {
    SquaredRelative,
    SquaredAbsolute,
}

} // verus!
