//! The shells for which an integration script exists.
use vstd::prelude::*;

verus! {

/// A shell that the integration script is written for.
#[derive(Clone, Copy, PartialEq, Eq, Debug, Structural)]
pub enum Shell {
    Bash,
    Zsh,
    Fish,
    Powershell,
}

} // verus!
