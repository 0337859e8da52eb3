use cratery::auth::{check_is_user, check_token, check_user_deletion, AuthenticatedUser, RegistryUser, RegistryUserToken};
use cratery::error::ErrorKind;
use cratery::index::IndexFile;
use cratery::metadata::{CrateRecord, DocsState, Outcome};
use cratery::search::{search_crates, search_rank, CrateSummary, RANK_NONE, RANK_PREFIX, RANK_SUBSTRING};
use cratery::upload::{CrateMetadata, IndexEntry};

fn alice() -> AuthenticatedUser {
    AuthenticatedUser { uid: 1, principal: "alice".to_string(), can_write: true, can_admin: false }
}

fn manifest(vers: &str) -> CrateMetadata {
    CrateMetadata { name: "foo".to_string(), vers: vers.to_string(), deps: vec![], features: vec![], links: None }
}

fn line(vers: &str) -> IndexEntry {
    manifest(vers).build_index_data("00".repeat(32))
}

fn summary(name: &str, downloads: u64) -> CrateSummary {
    CrateSummary { name: name.to_string(), downloads }
}

#[test]
fn index_file_gains_one_line_for_each_version() {
    let mut file = IndexFile::new();
    assert!(file.entries.is_empty());
    file.append(line("0.1.0")).unwrap();
    assert_eq!(file.entries.len(), 1);
    assert_eq!(file.entries[0].vers, "0.1.0");
    let error = file.append(line("0.1.0")).unwrap_err();
    assert_eq!(error.kind, ErrorKind::AlreadyExists);
    assert_eq!(file.entries.len(), 1);
    file.append(line("0.2.0")).unwrap();
    file.append(line("0.1.1")).unwrap();
    let versions: Vec<&str> = file.entries.iter().map(|e| e.vers.as_str()).collect();
    assert_eq!(versions, vec!["0.1.0", "0.2.0", "0.1.1"]);
    assert_eq!(file.find("0.2.0"), Some(1));
    assert_eq!(file.find("0.2"), None);
}

#[test]
fn yanking_rewrites_one_line() {
    let mut file = IndexFile::new();
    file.append(line("0.1.0")).unwrap();
    file.append(line("0.2.0")).unwrap();
    assert_eq!(file.set_yanked("0.1.0", true).unwrap(), Outcome::Changed);
    assert!(file.entries[0].yanked);
    assert!(!file.entries[1].yanked);
    assert_eq!(file.entries[0].cksum, "00".repeat(32));
    assert_eq!(file.set_yanked("0.1.0", true).unwrap(), Outcome::Unchanged);
    assert_eq!(file.set_yanked("0.1.0", false).unwrap(), Outcome::Changed);
    assert!(!file.entries[0].yanked);
    assert_eq!(file.set_yanked("0.3.0", true).unwrap_err().kind, ErrorKind::NotFound);
    assert_eq!(file.entries.len(), 2);
}

#[test]
fn metadata_is_joined_with_the_index() {
    let mut record = CrateRecord::create(&alice(), &manifest("0.1.0"), &vec![], 0).unwrap();
    record.publish_version(&alice(), &manifest("0.2.0"), 1).unwrap();
    let mut file = IndexFile::new();
    assert_eq!(record.join_index(&file).unwrap_err().kind, ErrorKind::Internal);
    file.append(line("0.2.0")).unwrap();
    assert_eq!(record.join_index(&file).unwrap_err().kind, ErrorKind::Internal);
    file.append(line("0.1.0")).unwrap();
    assert_eq!(record.join_index(&file).unwrap(), vec![1, 0]);
    record.yank_version(&alice(), "0.2.0", true).unwrap();
    assert_eq!(record.join_index(&file).unwrap_err().kind, ErrorKind::Internal);
    file.set_yanked("0.2.0", true).unwrap();
    assert_eq!(record.join_index(&file).unwrap(), vec![1, 0]);
    record.versions.clear();
    assert_eq!(record.join_index(&file).unwrap_err().kind, ErrorKind::NotFound);
}

#[test]
fn documentation_is_built_again_on_request() {
    let mut record =
        CrateRecord::create(&alice(), &manifest("0.1.0"), &vec!["x86_64-unknown-linux-gnu".to_string()], 0).unwrap();
    record.versions[0].docs = DocsState::Failed(9, "broken".to_string());
    record.versions[0].docs_attempts = 3;
    let job = record.regen_docs(&alice(), "0.1.0").unwrap();
    assert_eq!(job.name, "foo");
    assert_eq!(job.version, "0.1.0");
    assert_eq!(job.targets, vec!["x86_64-unknown-linux-gnu".to_string()]);
    assert!(matches!(record.versions[0].docs, DocsState::Queued));
    assert_eq!(record.versions[0].docs_attempts, 0);
    assert_eq!(record.regen_docs(&alice(), "0.5.0").unwrap_err().kind, ErrorKind::NotFound);
    let mut bob = alice();
    bob.uid = 2;
    assert_eq!(record.regen_docs(&bob, "0.1.0").unwrap_err().kind, ErrorKind::Forbidden);
}

#[test]
fn search_ranks_names() {
    assert_eq!(search_rank("serde", "ser"), RANK_PREFIX);
    assert_eq!(search_rank("serde", "serde"), RANK_PREFIX);
    assert_eq!(search_rank("serde", ""), RANK_PREFIX);
    assert_eq!(search_rank("", ""), RANK_PREFIX);
    assert_eq!(search_rank("Serde", "sER"), RANK_PREFIX);
    assert_eq!(search_rank("serde", "erd"), RANK_SUBSTRING);
    assert_eq!(search_rank("serde", "e"), RANK_SUBSTRING);
    assert_eq!(search_rank("serde", "de"), RANK_SUBSTRING);
    assert_eq!(search_rank("tokio-serde", "SERDE"), RANK_SUBSTRING);
    assert_eq!(search_rank("serde", "serde_json"), RANK_NONE);
    assert_eq!(search_rank("serde", "x"), RANK_NONE);
    assert_eq!(search_rank("", "x"), RANK_NONE);
    assert_eq!(search_rank("aab", "ab"), RANK_SUBSTRING);
}

#[test]
fn search_lists_prefixes_first_and_then_by_downloads() {
    let crates = vec![
        summary("tokio-serde", 900),
        summary("serde_json", 50),
        summary("rand", 10_000),
        summary("serde", 70),
        summary("serde_yaml", 50),
        summary("miniserde", 900),
    ];
    assert_eq!(search_crates(&crates, "serde", None), vec![3, 1, 4, 0, 5]);
    assert_eq!(search_crates(&crates, "serde", Some(2)), vec![3, 1]);
    assert_eq!(search_crates(&crates, "serde", Some(4)), vec![3, 1, 4, 0]);
    assert_eq!(search_crates(&crates, "serde", Some(0)), Vec::<usize>::new());
    assert_eq!(search_crates(&crates, "zzz", None), Vec::<usize>::new());
    assert_eq!(search_crates(&crates, "", Some(3)), vec![2, 0, 5]);
    assert_eq!(search_crates(&crates, "RAND", Some(1000)), vec![2]);
    assert_eq!(search_crates(&vec![], "a", None), Vec::<usize>::new());
}

#[test]
fn search_page_holds_ten_by_default_and_a_hundred_at_most() {
    let crates: Vec<CrateSummary> = (0..150).map(|i| summary(&format!("pkg{}", i), i)).collect();
    let page = search_crates(&crates, "pkg", None);
    assert_eq!(page.len(), 10);
    assert_eq!(page[0], 149);
    assert_eq!(page[9], 140);
    let page = search_crates(&crates, "pkg", Some(1000));
    assert_eq!(page.len(), 100);
    assert_eq!(page[99], 50);
    assert_eq!(search_crates(&crates, "pkg", Some(100)).len(), 100);
    assert_eq!(search_crates(&crates, "pkg14", Some(100)), vec![149, 148, 147, 146, 145, 144, 143, 142, 141, 140, 14]);
}

#[test]
fn tokens_are_checked_by_fingerprint() {
    let user = RegistryUser {
        id: 7,
        email: "alice@example.com".to_string(),
        name: "Alice".to_string(),
        is_active: true,
        is_admin: false,
    };
    let token = |id: i64, user: i64, fingerprint: &[u8], can_write: bool, can_admin: bool| RegistryUserToken {
        id,
        user,
        name: format!("token {}", id),
        fingerprint: fingerprint.to_vec(),
        can_write,
        can_admin,
    };
    let tokens = vec![
        token(1, 8, b"aaaa", true, true),
        token(2, 7, b"bbbb", false, false),
        token(3, 7, b"aaaa", true, false),
        token(4, 7, b"aaaa", false, true),
    ];
    let found = check_token(&user, &tokens, b"aaaa").unwrap();
    assert_eq!(found.uid, 7);
    assert_eq!(found.principal, "alice@example.com");
    assert!(found.can_write);
    assert!(!found.can_admin);
    let found = check_token(&user, &tokens, b"bbbb").unwrap();
    assert!(!found.can_write && !found.can_admin);
    assert_eq!(check_token(&user, &tokens, b"cccc").unwrap_err().kind, ErrorKind::Unauthorized);
    assert_eq!(check_token(&user, &tokens, b"aaa").unwrap_err().kind, ErrorKind::Unauthorized);
    assert_eq!(check_token(&user, &vec![], b"aaaa").unwrap_err().kind, ErrorKind::Unauthorized);
    let mut inactive = user.clone();
    inactive.is_active = false;
    assert_eq!(check_token(&inactive, &tokens, b"aaaa").unwrap_err().kind, ErrorKind::Unauthorized);
    assert!(check_is_user(&user).is_ok());
    assert_eq!(check_is_user(&inactive).unwrap_err().kind, ErrorKind::Unauthorized);
    assert!(check_user_deletion(0).is_ok());
    assert_eq!(check_user_deletion(2).unwrap_err().kind, ErrorKind::Conflict);
}

#[test]
fn downloads_of_a_package_are_those_of_its_versions() {
    let mut record = CrateRecord::create(&alice(), &manifest("0.1.0"), &vec![], 0).unwrap();
    record.publish_version(&alice(), &manifest("0.2.0"), 1).unwrap();
    assert_eq!(record.total_downloads(), 0);
    for _ in 0..3 {
        record.record_download("0.1.0").unwrap();
    }
    record.record_download("0.2.0").unwrap();
    assert_eq!(record.total_downloads(), 4);
    record.versions[0].downloads = u64::MAX - 1;
    assert_eq!(record.total_downloads(), u64::MAX);
    record.versions[1].downloads = 0;
    assert_eq!(record.total_downloads(), u64::MAX - 1);
}

#[test]
fn head_is_outdated_until_checked() {
    let mut record = CrateRecord::create(&alice(), &manifest("0.1.0"), &vec![], 0).unwrap();
    assert!(record.is_head_outdated(100));
    record.versions[0].deps_checked(150, None);
    assert!(!record.is_head_outdated(100));
    assert!(record.is_head_outdated(151));
    record.publish_version(&alice(), &manifest("0.2.0"), 1).unwrap();
    assert!(record.is_head_outdated(100));
    record.versions[1].deps_checked(90, Some("RUSTSEC-2024-0001".to_string()));
    assert!(record.is_head_outdated(100));
    assert!(!record.is_head_outdated(90));
    match &record.versions[1].deps {
        cratery::metadata::DepsState::Issues(at, summary) => {
            assert_eq!(*at, 90);
            assert_eq!(summary, "RUSTSEC-2024-0001");
        }
        other => panic!("{:?}", other),
    }
    record.versions.clear();
    assert!(!record.is_head_outdated(0));
}

#[test]
fn records_from_outside_are_examined() {
    let mut record = CrateRecord::create(&alice(), &manifest("0.1.0"), &vec![], 0).unwrap();
    assert!(record.is_sound());
    record.publish_version(&alice(), &manifest("0.2.0"), 1).unwrap();
    record.add_owners(&alice(), &[2, 3]).unwrap();
    assert!(record.is_sound());
    let mut twice = record.clone();
    twice.owners.push(2);
    assert!(!twice.is_sound());
    let mut nobody = record.clone();
    nobody.owners.clear();
    assert!(!nobody.is_sound());
    let mut same = record.clone();
    same.versions[1].version = "0.1.0".to_string();
    assert!(!same.is_sound());
    let mut file = IndexFile::new();
    assert!(file.is_sound());
    file.entries.push(line("0.1.0"));
    file.entries.push(line("0.2.0"));
    assert!(file.is_sound());
    file.entries.push(line("0.1.0"));
    assert!(!file.is_sound());
}

#[test]
fn stale_versions_are_listed_in_order() {
    let mut record = CrateRecord::create(&alice(), &manifest("0.1.0"), &vec![], 0).unwrap();
    for vers in ["0.2.0", "0.3.0", "0.4.0"] {
        record.publish_version(&alice(), &manifest(vers), 1).unwrap();
    }
    assert_eq!(record.stale_versions(100), vec![0, 1, 2, 3]);
    record.versions[0].deps_checked(100, None);
    record.versions[2].deps_checked(99, None);
    record.versions[3].deps_checked(500, Some("found".to_string()));
    assert_eq!(record.stale_versions(100), vec![1, 2]);
    assert_eq!(record.stale_versions(501), vec![0, 1, 2, 3]);
    assert_eq!(record.stale_versions(0), vec![1]);
}
