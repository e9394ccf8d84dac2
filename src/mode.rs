use vstd::prelude::*;

verus! {

/// The strategy by which the set of candidate files is chosen.
#[derive(Clone, Copy, Debug, PartialEq, Eq, Structural)]
pub enum Mode {
    FromCli,
    All,
    GitModified,
    GitStaged,
    GitStagedWithStash,
}

/// Whether a mode asks the version-control adapter for its files.
pub open spec fn spec_uses_vcs(m: Mode) -> bool {
    !(m is FromCli || m is All)
}

/// How a mode reads in messages.
pub open spec fn mode_text(m: Mode) -> Seq<char> {
    match m {
        Mode::FromCli => "paths passed on the command line (recursively)"@,
        Mode::All => "all files in the project"@,
        Mode::GitModified => "modified files according to git"@,
        Mode::GitStaged => "files staged for a git commit"@,
        Mode::GitStagedWithStash => "files staged for a git commit, stashing unstaged content"@,
    }
}

impl Mode {
    /// How the mode reads in messages.
    pub fn description(&self) -> (r: &'static str)
        ensures
            r@ == mode_text(*self),
    {
        match self {
            Mode::FromCli => "paths passed on the command line (recursively)",
            Mode::All => "all files in the project",
            Mode::GitModified => "modified files according to git",
            Mode::GitStaged => "files staged for a git commit",
            Mode::GitStagedWithStash => "files staged for a git commit, stashing unstaged content",
        }
    }

    /// True for the modes that need a version-control checkout.
    pub fn uses_vcs(&self) -> (r: bool)
        ensures
            r == spec_uses_vcs(*self),
    {
        match self {
            Mode::FromCli | Mode::All => false,
            _ => true,
        }
    }
}

} // verus!
