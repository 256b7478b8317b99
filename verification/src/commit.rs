//! The atomic commit protocol: write the encoded bytes to a temporary file in
//! the destination's directory, flush, force to stable storage, then rename
//! over the destination. The protocol is a state machine here; the caller
//! performs each action against the real file system and reports back. A
//! model of the protocol's effect on the two files is proved: a failure at
//! any stage leaves the destination untouched.

use vstd::prelude::*;

verus! {

/// The stage of the protocol at which an operation can fail.
#[derive(Clone, Copy, Debug, PartialEq, Eq, Structural)]
pub enum WriteStage {
    Create,
    Write,
    Flush,
    Sync,
    Rename,
}

/// Protocol state: the stages done so far, done, or failed at a stage.
#[derive(Clone, Copy, Debug, PartialEq, Eq, Structural)]
pub enum CommitState {
    Start,
    Created,
    Written,
    Flushed,
    Synced,
    Renamed,
    Failed(WriteStage),
}

/// The next outside operation the protocol asks for.
#[derive(Clone, Copy, Debug, PartialEq, Eq, Structural)]
pub enum CommitAction {
    CreateTemp,
    WriteAll,
    FlushData,
    SyncData,
    RenameInto,
}

/// The action owed in each state; `None` once done or failed.
pub open spec fn spec_next_action(s: CommitState) -> Option<CommitAction> {
    match s {
        CommitState::Start => Some(CommitAction::CreateTemp),
        CommitState::Created => Some(CommitAction::WriteAll),
        CommitState::Written => Some(CommitAction::FlushData),
        CommitState::Flushed => Some(CommitAction::SyncData),
        CommitState::Synced => Some(CommitAction::RenameInto),
        CommitState::Renamed => None,
        CommitState::Failed(_) => None,
    }
}

/// The transition on an action's success or failure: the stages advance in
/// order, and any stage can move to `Failed` with its own stage recorded; no
/// retries.
pub open spec fn spec_step(s: CommitState, ok: bool) -> CommitState {
    match s {
        CommitState::Start => if ok {
            CommitState::Created
        } else {
            CommitState::Failed(WriteStage::Create)
        },
        CommitState::Created => if ok {
            CommitState::Written
        } else {
            CommitState::Failed(WriteStage::Write)
        },
        CommitState::Written => if ok {
            CommitState::Flushed
        } else {
            CommitState::Failed(WriteStage::Flush)
        },
        CommitState::Flushed => if ok {
            CommitState::Synced
        } else {
            CommitState::Failed(WriteStage::Sync)
        },
        CommitState::Synced => if ok {
            CommitState::Renamed
        } else {
            CommitState::Failed(WriteStage::Rename)
        },
        _ => s,
    }
}

/// The action owed in a state.
pub fn next_action(s: &CommitState) -> (r: Option<CommitAction>)
    ensures
        r == spec_next_action(*s),
{
    match s {
        CommitState::Start => Some(CommitAction::CreateTemp),
        CommitState::Created => Some(CommitAction::WriteAll),
        CommitState::Written => Some(CommitAction::FlushData),
        CommitState::Flushed => Some(CommitAction::SyncData),
        CommitState::Synced => Some(CommitAction::RenameInto),
        CommitState::Renamed => None,
        CommitState::Failed(_) => None,
    }
}

/// Advances the protocol after the current action succeeded or failed.
pub fn step(s: &CommitState, ok: bool) -> (r: CommitState)
    ensures
        r == spec_step(*s, ok),
{
    match s {
        CommitState::Start => if ok {
            CommitState::Created
        } else {
            CommitState::Failed(WriteStage::Create)
        },
        CommitState::Created => if ok {
            CommitState::Written
        } else {
            CommitState::Failed(WriteStage::Write)
        },
        CommitState::Written => if ok {
            CommitState::Flushed
        } else {
            CommitState::Failed(WriteStage::Flush)
        },
        CommitState::Flushed => if ok {
            CommitState::Synced
        } else {
            CommitState::Failed(WriteStage::Sync)
        },
        CommitState::Synced => if ok {
            CommitState::Renamed
        } else {
            CommitState::Failed(WriteStage::Rename)
        },
        CommitState::Renamed => CommitState::Renamed,
        CommitState::Failed(st) => CommitState::Failed(*st),
    }
}

/// A model of the two files the protocol touches: the destination and the
/// temporary file, each absent or holding bytes.
pub struct FsModel {
    pub dest: Option<Vec<u8>>,
    pub temp: Option<Vec<u8>>,
}

/// Runs the whole protocol against the file model, failing the stage named
/// by `fail_at` if any. Whatever the injected failure, the destination is
/// byte-identical to what it was — in particular, none is created where none
/// existed — and from the moment the temporary file exists it is left behind
/// for diagnosis, never deleted. Only a run that reaches the rename replaces
/// the destination, and then it holds exactly the payload.
pub fn run_commit(fs: FsModel, payload: Vec<u8>, fail_at: Option<WriteStage>) -> (r: (
    FsModel,
    Result<(), WriteStage>,
))
    ensures
        fail_at is None ==> r.1 == Ok::<(), WriteStage>(()) && r.0.dest.deep_view()
            == Some(payload@) && r.0.temp is None,
        (fail_at matches Some(st)) ==> r.1 == Err::<(), WriteStage>(fail_at.unwrap())
            && r.0.dest.deep_view() == fs.dest.deep_view() && (fail_at != Some(WriteStage::Create)
            ==> r.0.temp is Some),
{
    let mut fs = fs;
    let mut state = CommitState::Start;

    // Create the temporary file.
    let ok = !matches!(fail_at, Some(WriteStage::Create));
    state = step(&state, ok);
    if !ok {
        return (fs, Err(WriteStage::Create));
    }
    fs.temp = Some(Vec::new());

    // Write the payload into it.
    let ok = !matches!(fail_at, Some(WriteStage::Write));
    state = step(&state, ok);
    if !ok {
        return (fs, Err(WriteStage::Write));
    }
    fs.temp = Some(payload);

    // Flush buffered data.
    let ok = !matches!(fail_at, Some(WriteStage::Flush));
    state = step(&state, ok);
    if !ok {
        return (fs, Err(WriteStage::Flush));
    }

    // Force the data to stable storage.
    let ok = !matches!(fail_at, Some(WriteStage::Sync));
    state = step(&state, ok);
    if !ok {
        return (fs, Err(WriteStage::Sync));
    }

    // Rename the temporary file onto the destination.
    let ok = !matches!(fail_at, Some(WriteStage::Rename));
    state = step(&state, ok);
    if !ok {
        return (fs, Err(WriteStage::Rename));
    }
    fs.dest = fs.temp;
    fs.temp = None;
    proof {
        assert(state == CommitState::Renamed);
        assert(spec_next_action(state) is None);
    }
    (fs, Ok(()))
}

} // verus!
