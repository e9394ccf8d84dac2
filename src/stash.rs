use vstd::prelude::*;
use crate::mode::Mode;

verus! {

/// Why a resolution could not list its candidate files.
pub enum ResolveError {
    /// Walking the paths or asking the version-control adapter for files failed.
    ListFailed { message: String },
    /// Stashing the unstaged changes failed; nothing was stashed.
    StashFailed { message: String },
    /// Restoring the stash failed: the working tree is left altered.
    PopFailed { message: String },
    /// An event came that the step asked for cannot produce.
    UnexpectedEvent,
}

/// Where a resolution stands.
pub enum ResolveState {
    /// Waiting for one listing of files, with nothing to restore.
    Listing,
    /// Waiting for the unstaged changes to be stashed.
    Stashing,
    /// The unstaged changes are stashed; waiting for the staged files.
    Stashed,
    /// Waiting for the stash to be restored, holding what the listing gave.
    Popping { listed: Result<Vec<String>, ResolveError> },
    /// The resolution has ended.
    Done,
}

/// What the caller is to do next.
pub enum ResolveAction {
    /// Walk these paths recursively and list the files found.
    Walk { paths: Vec<String> },
    /// Walk the whole project and list the files found.
    WalkRoot,
    /// List the files with uncommitted modifications.
    ListModified,
    /// List the files staged for a commit.
    ListStaged,
    /// Stash the unstaged changes, keeping the index.
    StashUnstaged,
    /// Restore the stash.
    PopStash,
    /// Nothing more is to be done; here is the outcome.
    Finish { result: Result<Vec<String>, ResolveError> },
    /// The resolution had already ended.
    Idle,
}

/// What came of the action that was asked for.
pub enum VcsEvent {
    /// A walk or a listing gave these files.
    Listed { files: Vec<String> },
    /// A stash or a pop succeeded.
    Succeeded,
    /// The step failed.
    Failed { message: String },
}

/// The first state and action of a resolution in mode `mode`.
pub open spec fn spec_start(mode: Mode, paths: Vec<String>) -> (ResolveState, ResolveAction) {
    match mode {
        Mode::FromCli => (ResolveState::Listing, ResolveAction::Walk { paths }),
        Mode::All => (ResolveState::Listing, ResolveAction::WalkRoot),
        Mode::GitModified => (ResolveState::Listing, ResolveAction::ListModified),
        Mode::GitStaged => (ResolveState::Listing, ResolveAction::ListStaged),
        Mode::GitStagedWithStash => (ResolveState::Stashing, ResolveAction::StashUnstaged),
    }
}

/// The next state and action once `event` has come in state `s`.
///
/// Once the stash is taken, every event of the listing step leads to a pop,
/// and a failure of the listing is reported only after it; a failed pop is
/// reported as such, whatever the listing gave.
pub open spec fn spec_step(s: ResolveState, event: VcsEvent) -> (ResolveState, ResolveAction) {
    match s {
        ResolveState::Listing => match event {
            VcsEvent::Listed { files } => (ResolveState::Done, ResolveAction::Finish { result: Ok(files) }),
            VcsEvent::Failed { message } => (
                ResolveState::Done,
                ResolveAction::Finish { result: Err(ResolveError::ListFailed { message }) },
            ),
            VcsEvent::Succeeded => (
                ResolveState::Done,
                ResolveAction::Finish { result: Err(ResolveError::UnexpectedEvent) },
            ),
        },
        ResolveState::Stashing => match event {
            VcsEvent::Succeeded => (ResolveState::Stashed, ResolveAction::ListStaged),
            VcsEvent::Failed { message } => (
                ResolveState::Done,
                ResolveAction::Finish { result: Err(ResolveError::StashFailed { message }) },
            ),
            VcsEvent::Listed { .. } => (
                ResolveState::Done,
                ResolveAction::Finish { result: Err(ResolveError::UnexpectedEvent) },
            ),
        },
        ResolveState::Stashed => match event {
            VcsEvent::Listed { files } => (ResolveState::Popping { listed: Ok(files) }, ResolveAction::PopStash),
            VcsEvent::Failed { message } => (
                ResolveState::Popping { listed: Err(ResolveError::ListFailed { message }) },
                ResolveAction::PopStash,
            ),
            VcsEvent::Succeeded => (
                ResolveState::Popping { listed: Err(ResolveError::UnexpectedEvent) },
                ResolveAction::PopStash,
            ),
        },
        ResolveState::Popping { listed } => match event {
            VcsEvent::Failed { message } => (
                ResolveState::Done,
                ResolveAction::Finish { result: Err(ResolveError::PopFailed { message }) },
            ),
            _ => (ResolveState::Done, ResolveAction::Finish { result: listed }),
        },
        ResolveState::Done => (ResolveState::Done, ResolveAction::Idle),
    }
}

/// Begins the resolution of mode `mode`; `paths` are the explicit paths of
/// `FromCli`.
pub fn start(mode: Mode, paths: Vec<String>) -> (r: (ResolveState, ResolveAction))
    ensures
        r == spec_start(mode, paths),
{
    match mode {
        Mode::FromCli => (ResolveState::Listing, ResolveAction::Walk { paths }),
        Mode::All => (ResolveState::Listing, ResolveAction::WalkRoot),
        Mode::GitModified => (ResolveState::Listing, ResolveAction::ListModified),
        Mode::GitStaged => (ResolveState::Listing, ResolveAction::ListStaged),
        Mode::GitStagedWithStash => (ResolveState::Stashing, ResolveAction::StashUnstaged),
    }
}

/// Advances a resolution by the outcome of the action it asked for.
pub fn step(s: ResolveState, event: VcsEvent) -> (r: (ResolveState, ResolveAction))
    ensures
        r == spec_step(s, event),
{
    match s {
        ResolveState::Listing => match event {
            VcsEvent::Listed { files } => (ResolveState::Done, ResolveAction::Finish { result: Ok(files) }),
            VcsEvent::Failed { message } => (
                ResolveState::Done,
                ResolveAction::Finish { result: Err(ResolveError::ListFailed { message }) },
            ),
            VcsEvent::Succeeded => (
                ResolveState::Done,
                ResolveAction::Finish { result: Err(ResolveError::UnexpectedEvent) },
            ),
        },
        ResolveState::Stashing => match event {
            VcsEvent::Succeeded => (ResolveState::Stashed, ResolveAction::ListStaged),
            VcsEvent::Failed { message } => (
                ResolveState::Done,
                ResolveAction::Finish { result: Err(ResolveError::StashFailed { message }) },
            ),
            VcsEvent::Listed { .. } => (
                ResolveState::Done,
                ResolveAction::Finish { result: Err(ResolveError::UnexpectedEvent) },
            ),
        },
        ResolveState::Stashed => match event {
            VcsEvent::Listed { files } => (ResolveState::Popping { listed: Ok(files) }, ResolveAction::PopStash),
            VcsEvent::Failed { message } => (
                ResolveState::Popping { listed: Err(ResolveError::ListFailed { message }) },
                ResolveAction::PopStash,
            ),
            VcsEvent::Succeeded => (
                ResolveState::Popping { listed: Err(ResolveError::UnexpectedEvent) },
                ResolveAction::PopStash,
            ),
        },
        ResolveState::Popping { listed } => match event {
            VcsEvent::Failed { message } => (
                ResolveState::Done,
                ResolveAction::Finish { result: Err(ResolveError::PopFailed { message }) },
            ),
            _ => (ResolveState::Done, ResolveAction::Finish { result: listed }),
        },
        ResolveState::Done => (ResolveState::Done, ResolveAction::Idle),
    }
}

/// The stash is restored on every path out of the staged listing: a taken
/// stash leads, whatever the listing gives, to exactly one pop request, the
/// next event ends the resolution, a failed listing is reported only after
/// the pop, and a failed pop is reported as such. A pop is never asked for
/// where no stash was taken.
pub proof fn lemma_stash_always_restored(
    s: ResolveState,
    e1: VcsEvent,
    e2: VcsEvent,
    mode: Mode,
    paths: Vec<String>,
)
    ensures
        mode == Mode::GitStagedWithStash ==> spec_start(mode, paths).1 is StashUnstaged,
        mode != Mode::GitStagedWithStash ==> !(spec_start(mode, paths).0 is Stashing),
        spec_step(ResolveState::Stashing, VcsEvent::Succeeded) == (ResolveState::Stashed, ResolveAction::ListStaged),
        spec_step(ResolveState::Stashed, e1).1 is PopStash,
        spec_step(ResolveState::Stashed, e1).0 is Popping,
        spec_step(spec_step(ResolveState::Stashed, e1).0, e2).1 is Finish,
        spec_step(spec_step(ResolveState::Stashed, e1).0, e2).0 is Done,
        e1 matches VcsEvent::Failed { message } ==> e2 is Succeeded ==> spec_step(
            spec_step(ResolveState::Stashed, e1).0,
            e2,
        ).1 == (ResolveAction::Finish { result: Err(ResolveError::ListFailed { message }) }),
        e1 matches VcsEvent::Listed { files } ==> e2 is Succeeded ==> spec_step(
            spec_step(ResolveState::Stashed, e1).0,
            e2,
        ).1 == (ResolveAction::Finish { result: Ok(files) }),
        e2 matches VcsEvent::Failed { message } ==> spec_step(spec_step(ResolveState::Stashed, e1).0, e2).1 == (
        ResolveAction::Finish { result: Err(ResolveError::PopFailed { message }) }),
        spec_step(s, e1).1 is PopStash ==> s is Stashed,
{
}

} // verus!
