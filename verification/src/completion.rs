//! Arguments of the shell completion command.
use vstd::prelude::*;

verus! {

/// Arguments of the `completion` command.
pub struct CompletionArgs {
    /// Shell type to generate completions for
    pub shell: ShellArg,
}

/// Supported shells for completion generation.
#[derive(Clone, Copy, PartialEq, Eq, Structural, Debug)]
pub enum ShellArg {
    /// Bourne Again SHell (bash)
    Bash,
    /// Z SHell (zsh)
    Zsh,
    /// Friendly Interactive SHell (fish)
    Fish,
    /// Elvish shell
    Elvish,
    /// PowerShell
    Powershell,
}

} // verus!
