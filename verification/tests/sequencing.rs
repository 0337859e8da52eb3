use cratery::error::ErrorKind;
use cratery::index::publish_message;
use cratery::journal::{IndexJournal, JournalState};
use cratery::migrations::{migration_start, parse_version, VersionNumber};
use cratery::publish::{Publication, PublishStage};

#[test]
fn publication_writes_every_plane_in_order() {
    let mut p = Publication::start();
    let expected = [
        PublishStage::Opening,
        PublishStage::Authenticating,
        PublishStage::Parsing,
        PublishStage::Inserting,
        PublishStage::Storing,
        PublishStage::Indexing,
        PublishStage::ReadingTargets,
        PublishStage::Committing,
        PublishStage::Enqueueing,
    ];
    for stage in expected {
        assert_eq!(p.stage, stage);
        assert_eq!(p.result(), None);
        p.advance(None);
    }
    assert_eq!(p.stage, PublishStage::Done);
    assert_eq!(p.result(), Some(Ok(())));
    assert!(p.inserted && p.stored && p.indexed && p.committed && p.queued);
    p.advance(Some(ErrorKind::Internal));
    assert_eq!(p.result(), Some(Ok(())));
}

#[test]
fn publication_that_exists_already_is_rolled_back() {
    let mut p = Publication::start();
    for _ in 0..3 {
        p.advance(None);
    }
    assert_eq!(p.stage, PublishStage::Inserting);
    p.advance(Some(ErrorKind::AlreadyExists));
    assert_eq!(p.stage, PublishStage::RollingBack);
    p.advance(None);
    assert_eq!(p.result(), Some(Err(ErrorKind::AlreadyExists)));
    assert!(!p.inserted && !p.stored && !p.indexed && !p.committed && !p.queued);
}

#[test]
fn failed_index_write_deletes_the_tarball() {
    let mut p = Publication::start();
    for _ in 0..5 {
        p.advance(None);
    }
    assert_eq!(p.stage, PublishStage::Indexing);
    assert!(p.stored);
    p.advance(Some(ErrorKind::Internal));
    assert_eq!(p.stage, PublishStage::DeletingTarball);
    p.advance(None);
    assert_eq!(p.stage, PublishStage::RollingBack);
    assert!(!p.stored);
    p.advance(None);
    assert_eq!(p.result(), Some(Err(ErrorKind::Internal)));
    assert!(!p.inserted && !p.indexed && !p.committed);
}

#[test]
fn publication_ends_at_each_failure() {
    let failures = [
        (0, PublishStage::Done),
        (1, PublishStage::RollingBack),
        (2, PublishStage::RollingBack),
        (3, PublishStage::RollingBack),
        (4, PublishStage::RollingBack),
        (5, PublishStage::DeletingTarball),
    ];
    for (steps, next) in failures {
        let mut p = Publication::start();
        for _ in 0..steps {
            p.advance(None);
        }
        p.advance(Some(ErrorKind::Unauthorized));
        assert_eq!(p.stage, next);
        while p.result().is_none() {
            p.advance(Some(ErrorKind::Internal));
        }
        assert_eq!(p.result(), Some(Err(ErrorKind::Unauthorized)));
        assert!(!p.committed && !p.indexed && !p.queued && !p.inserted);
    }
}

#[test]
fn publication_survives_what_follows_the_index() {
    let mut p = Publication::start();
    for _ in 0..6 {
        p.advance(None);
    }
    assert_eq!(p.stage, PublishStage::ReadingTargets);
    p.advance(Some(ErrorKind::Internal));
    assert_eq!(p.stage, PublishStage::Committing);
    p.advance(None);
    assert_eq!(p.result(), Some(Ok(())));
    assert!(p.committed && !p.queued);

    let mut q = Publication::start();
    for _ in 0..8 {
        q.advance(None);
    }
    assert_eq!(q.stage, PublishStage::Enqueueing);
    q.advance(Some(ErrorKind::Internal));
    assert_eq!(q.result(), Some(Ok(())));
    assert!(q.committed && !q.queued);

    let mut r = Publication::start();
    for _ in 0..7 {
        r.advance(None);
    }
    assert_eq!(r.stage, PublishStage::Committing);
    r.advance(Some(ErrorKind::Internal));
    assert_eq!(r.result(), Some(Err(ErrorKind::Internal)));
    assert!(!r.committed && r.indexed && r.stored);
}

#[test]
fn each_change_of_the_index_is_one_commit() {
    let mut journal = IndexJournal::new();
    assert_eq!(journal.state, JournalState::Idle);
    for (n, vers) in ["0.1.0", "0.2.0", "0.3.0"].iter().enumerate() {
        journal.stage(publish_message("foo", vers)).unwrap();
        assert_eq!(journal.state, JournalState::Staged);
        assert_eq!(journal.pending.as_deref(), Some(format!("publish foo {}", vers).as_str()));
        journal.commit_succeeded().unwrap();
        assert_eq!(journal.state, JournalState::Committed);
        assert_eq!(journal.commits, n as u64 + 1);
        journal.release().unwrap();
        assert_eq!(journal.state, JournalState::Idle);
    }
    assert_eq!(journal.commits, 3);
}

#[test]
fn failed_commit_leaves_the_history() {
    let mut journal = IndexJournal::new();
    journal.stage("publish foo 0.1.0".to_string()).unwrap();
    journal.commit_failed().unwrap();
    assert_eq!(journal.state, JournalState::Idle);
    assert_eq!(journal.commits, 0);
    assert!(journal.pending.is_none());
}

#[test]
fn index_changes_do_not_overlap() {
    let mut journal = IndexJournal::new();
    assert_eq!(journal.commit_succeeded().unwrap_err().kind, ErrorKind::Conflict);
    assert_eq!(journal.commit_failed().unwrap_err().kind, ErrorKind::Conflict);
    assert_eq!(journal.release().unwrap_err().kind, ErrorKind::Conflict);
    journal.stage("a".to_string()).unwrap();
    assert_eq!(journal.stage("b".to_string()).unwrap_err().kind, ErrorKind::Conflict);
    assert_eq!(journal.pending.as_deref(), Some("a"));
    assert_eq!(journal.release().unwrap_err().kind, ErrorKind::Conflict);
    journal.commit_succeeded().unwrap();
    assert_eq!(journal.stage("c".to_string()).unwrap_err().kind, ErrorKind::Conflict);
    assert_eq!(journal.commit_succeeded().unwrap_err().kind, ErrorKind::Conflict);
    assert_eq!(journal.commits, 1);
}

#[test]
fn schema_versions_are_read() {
    assert_eq!(parse_version("1.2.0").unwrap(), VersionNumber(1, 2, 0));
    assert_eq!(parse_version("0.0.0").unwrap(), VersionNumber(0, 0, 0));
    assert_eq!(parse_version("01.002.3").unwrap(), VersionNumber(1, 2, 3));
    assert_eq!(parse_version("4294967295.0.1").unwrap(), VersionNumber(4294967295, 0, 1));
    for bad in ["", "1", "1.2", "1.2.3.4", "1..3", "a.b.c", "1.2.3 ", "4294967296.0.0", "1.2.-3", "1.2.", "99999999999999999999999.0.0"] {
        let error = parse_version(bad).unwrap_err();
        assert_eq!(error.kind, ErrorKind::Internal);
        assert_eq!(error.http_status(), 500);
    }
    assert!(VersionNumber(1, 2, 0).at_least(&VersionNumber(1, 2, 0)));
    assert!(VersionNumber(1, 10, 0).at_least(&VersionNumber(1, 9, 9)));
    assert!(VersionNumber(2, 0, 0).at_least(&VersionNumber(1, 9, 9)));
    assert!(!VersionNumber(1, 2, 0).at_least(&VersionNumber(1, 2, 1)));
    assert!(!VersionNumber(0, 9, 9).at_least(&VersionNumber(1, 0, 0)));
}

#[test]
fn migrations_start_after_the_version_reached() {
    let targets = ["1.1.0", "1.2.0", "1.3.0", "1.4.0", "1.5.0"];
    assert_eq!(migration_start(None, &targets).unwrap(), 0);
    assert_eq!(migration_start(Some("1.0.0"), &targets).unwrap(), 0);
    assert_eq!(migration_start(Some("1.1.0"), &targets).unwrap(), 1);
    assert_eq!(migration_start(Some("1.2.0"), &targets).unwrap(), 2);
    assert_eq!(migration_start(Some("1.2.5"), &targets).unwrap(), 2);
    assert_eq!(migration_start(Some("1.5.0"), &targets).unwrap(), 5);
    assert_eq!(migration_start(Some("2.0.0"), &targets).unwrap(), 5);
    assert_eq!(migration_start(Some("2.0.0"), &[]).unwrap(), 0);
    assert_eq!(migration_start(Some("one"), &targets).unwrap_err().kind, ErrorKind::Internal);
    assert_eq!(migration_start(Some("1.0.0"), &["1.1.0", "x"]).unwrap_err().kind, ErrorKind::Internal);
    assert_eq!(migration_start(Some("1.3.0"), &["x", "1.1.0"]).unwrap(), 2);
    assert_eq!(migration_start(None, &["x"]).unwrap(), 0);
}
