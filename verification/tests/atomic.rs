use itunesdb::commit::CommitAction;
use itunesdb::commit::CommitState;
use itunesdb::commit::FsModel;
use itunesdb::commit::WriteStage;
use itunesdb::commit::next_action;
use itunesdb::commit::run_commit;
use itunesdb::commit::step;

#[test]
fn commit_success_replaces_destination() {
    let fs = FsModel { dest: Some(vec![1, 2, 3]), temp: None };
    let (fs2, r) = run_commit(fs, vec![9, 9, 9], None);
    assert_eq!(r, Ok(()));
    assert_eq!(fs2.dest, Some(vec![9, 9, 9]));
    assert!(fs2.temp.is_none());
}

#[test]
fn failure_before_rename_leaves_destination_identical() {
    let prior = vec![1, 2, 3];
    for stage in [WriteStage::Write, WriteStage::Flush, WriteStage::Sync, WriteStage::Rename] {
        let fs = FsModel { dest: Some(prior.clone()), temp: None };
        let (fs2, r) = run_commit(fs, vec![9, 9, 9], Some(stage));
        assert_eq!(r, Err(stage));
        assert_eq!(fs2.dest, Some(prior.clone()));
        // The temporary file is left on disk for diagnosis.
        assert!(fs2.temp.is_some());
    }
}

#[test]
fn failure_creates_no_destination() {
    for stage in [
        WriteStage::Create,
        WriteStage::Write,
        WriteStage::Flush,
        WriteStage::Sync,
        WriteStage::Rename,
    ] {
        let fs = FsModel { dest: None, temp: None };
        let (fs2, r) = run_commit(fs, vec![9], Some(stage));
        assert_eq!(r, Err(stage));
        assert!(fs2.dest.is_none());
    }
}

#[test]
fn state_machine_walks_the_stages() {
    let mut s = CommitState::Start;
    let expected = [
        CommitAction::CreateTemp,
        CommitAction::WriteAll,
        CommitAction::FlushData,
        CommitAction::SyncData,
        CommitAction::RenameInto,
    ];
    for a in expected {
        assert_eq!(next_action(&s), Some(a));
        s = step(&s, true);
    }
    assert_eq!(s, CommitState::Renamed);
    assert_eq!(next_action(&s), None);
}

#[test]
fn state_machine_records_failed_stage() {
    let s = CommitState::Written;
    let f = step(&s, false);
    assert_eq!(f, CommitState::Failed(WriteStage::Flush));
    assert_eq!(next_action(&f), None);
    // A failed protocol stays failed; no automatic retries.
    assert_eq!(step(&f, true), f);
}
