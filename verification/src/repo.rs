//! Repository synchronisation decisions.  The surrounding program opens or
//! initialises the working copy, fetches the remote branch, and asks the
//! merge analysis whether the fetched commit is already present or can be
//! fast-forwarded; this module decides the action and what the branch tip
//! becomes, so that a sync against an unchanged remote leaves the tip alone.

use vstd::prelude::*;
use crate::paths::bytes_eq;

verus! {

/// Failure modes of a sync run, tagged by the operation that failed.
#[derive(Clone, Copy, Debug, PartialEq, Eq, Structural)]
pub enum SyncError {
    /// A fresh repository could not be initialised.
    Init,
    /// The canonical remote could not be registered on a fresh repository.
    AddRemote,
    /// The canonical remote could not be obtained.
    Remote,
    /// Fetching the remote branch failed.
    Fetch,
    /// The merge could not be completed without conflicts.
    Merge,
}

impl SyncError {
    /// A human-readable description of the failure.
    pub fn message(&self) -> (r: &'static str)
        ensures
            self is Init ==> r@ == "Unable to initialize repository"@,
            self is AddRemote ==> r@ == "Unable to add remote"@,
            self is Remote ==> r@ == "Unable to obtain remote"@,
            self is Fetch ==> r@ == "Unable to fetch commit"@,
            self is Merge ==> r@ == "Unable to merge"@,
    {
        match self {
            SyncError::Init => "Unable to initialize repository",
            SyncError::AddRemote => "Unable to add remote",
            SyncError::Remote => "Unable to obtain remote",
            SyncError::Fetch => "Unable to fetch commit",
            SyncError::Merge => "Unable to merge",
        }
    }
}

/// How the working copy is brought to the fetched commit.
#[derive(Clone, Copy, Debug, PartialEq, Eq, Structural)]
pub enum SyncAction {
    /// The fetched commit is already in the local history: change nothing.
    UpToDate,
    /// Move the branch reference and working tree straight to the fetched
    /// commit (also the case when no local branch exists yet).
    FastForward,
    /// A real content merge is required.
    Merge,
}

/// The sync decision: identical tips or an analysis that reports the fetched
/// commit as already merged mean there is nothing to do; a missing local
/// branch or a fast-forward-eligible analysis moves the tip directly; only
/// the remaining case needs a content merge.
pub open spec fn sync_action_spec(
    local_tip: Option<Seq<u8>>,
    fetched: Seq<u8>,
    analysis_up_to_date: bool,
    analysis_fast_forward: bool,
) -> SyncAction {
    match local_tip {
        Option::None => SyncAction::FastForward,
        Option::Some(t) => {
            if t == fetched || analysis_up_to_date {
                SyncAction::UpToDate
            } else if analysis_fast_forward {
                SyncAction::FastForward
            } else {
                SyncAction::Merge
            }
        },
    }
}

/// The branch tip after an action resolved against `fetched`; `merged` names
/// the commit a content merge produced.
pub open spec fn tip_after_spec(
    local_tip: Option<Seq<u8>>,
    fetched: Seq<u8>,
    merged: Seq<u8>,
    action: SyncAction,
) -> Option<Seq<u8>> {
    match action {
        SyncAction::UpToDate => local_tip,
        SyncAction::FastForward => Option::Some(fetched),
        SyncAction::Merge => Option::Some(merged),
    }
}

/// Decide the sync action from the local branch tip (its commit id bytes, or
/// `None` when the branch does not exist yet), the fetched commit id, and
/// the two merge-analysis verdicts.
pub fn decide_sync_action(
    local_tip: Option<&Vec<u8>>,
    fetched: &Vec<u8>,
    analysis_up_to_date: bool,
    analysis_fast_forward: bool,
) -> (r: SyncAction)
    ensures
        r == sync_action_spec(
            match local_tip {
                Option::None => Option::None,
                Option::Some(t) => Option::Some(t@),
            },
            fetched@,
            analysis_up_to_date,
            analysis_fast_forward,
        ),
{
    match local_tip {
        Option::None => SyncAction::FastForward,
        Option::Some(t) => {
            if bytes_eq(t, fetched) || analysis_up_to_date {
                SyncAction::UpToDate
            } else if analysis_fast_forward {
                SyncAction::FastForward
            } else {
                SyncAction::Merge
            }
        },
    }
}

/// Idempotent sync: once the local tip equals the fetched commit — as it
/// does after a successful fast-forward against an unchanged remote — the
/// decision is `UpToDate` whatever the analysis reports, and the tip stays
/// exactly where it was.
pub proof fn lemma_sync_idempotent(
    t: Seq<u8>,
    merged: Seq<u8>,
    analysis_up_to_date: bool,
    analysis_fast_forward: bool,
)
    ensures
        sync_action_spec(Option::Some(t), t, analysis_up_to_date, analysis_fast_forward)
            is UpToDate,
        tip_after_spec(
            Option::Some(t),
            t,
            merged,
            sync_action_spec(Option::Some(t), t, analysis_up_to_date, analysis_fast_forward),
        ) == Option::Some(t),
{
}

/// A fast-forward lands on the fetched commit, so a second sync against the
/// same remote tip finds identical tips and changes nothing.
pub proof fn lemma_fast_forward_converges(
    local_tip: Option<Seq<u8>>,
    fetched: Seq<u8>,
    merged: Seq<u8>,
    analysis_up_to_date: bool,
    analysis_fast_forward: bool,
)
    requires
        sync_action_spec(local_tip, fetched, analysis_up_to_date, analysis_fast_forward)
            is FastForward,
    ensures
        tip_after_spec(
            local_tip,
            fetched,
            merged,
            sync_action_spec(local_tip, fetched, analysis_up_to_date, analysis_fast_forward),
        ) == Option::Some(fetched),
        sync_action_spec(Option::Some(fetched), fetched, false, false) is UpToDate,
{
}

} // verus!
