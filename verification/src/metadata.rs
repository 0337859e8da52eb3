//! The records of the metadata store and the rules that every change to them
//! obeys: who may publish, what yanking does, who owns a package, how
//! downloads are counted and how the documentation of a version progresses.

use vstd::prelude::*;
use vstd::string::*;
use crate::auth::AuthenticatedUser;
use crate::error::{
    error_already_exists, error_conflict, error_forbidden, error_internal,
    error_invalid_request, error_not_found, specialize, ApiError, ErrorKind,
};
use crate::index::IndexFile;
use crate::upload::IndexEntry;
use crate::text::{bytes_of, clone_strings, lowercase, same_text, same_text_ignoring_case};
use crate::upload::CrateMetadata;

verus! {

/// How often the documentation of a version is built before it is given up.
pub const MAX_DOCS_ATTEMPTS: u8 = 3;

/// The number of search results on a page when the request names none.
pub const DEFAULT_PER_PAGE: usize = 10;

/// The largest number of search results on a page.
pub const MAX_PER_PAGE: usize = 100;

/// Where the documentation of a version stands.
#[derive(Clone, Debug)]
pub enum DocsState {
    /// Nothing was asked for.
    Missing,
    /// A build is waiting.
    Queued,
    /// A build is running.
    Building,
    /// The documentation was built at the given time.
    Done(i64),
    /// Every attempt failed, the last at the given time with the given reason.
    Failed(i64, String),
}

/// Where the check of the dependencies of a version stands.
#[derive(Clone, Debug)]
pub enum DepsState {
    /// Never checked.
    Pending,
    /// Checked at the given time without finding.
    Clean(i64),
    /// Checked at the given time with the given findings.
    Issues(i64, String),
}

/// Whether a call changed anything.
#[derive(Clone, Copy, Debug, PartialEq, Eq, Structural)]
pub enum Outcome {
    /// The record was changed.
    Changed,
    /// The record was as asked already.
    Unchanged,
}

/// One version of a package.
#[derive(Clone, Debug)]
pub struct VersionRecord {
    /// The semantic version.
    pub version: String,
    /// When it was uploaded.
    pub upload: i64,
    /// Whether it was withdrawn.
    pub yanked: bool,
    /// How often it was downloaded.
    pub downloads: u64,
    /// Where its documentation stands.
    pub docs: DocsState,
    /// How many builds of its documentation failed since it was last queued.
    pub docs_attempts: u8,
    /// Where the check of its dependencies stands.
    pub deps: DepsState,
}

/// A job for the documentation worker.
#[derive(Clone, Debug)]
pub struct JobCrate {
    /// The name of the package.
    pub name: String,
    /// The version.
    pub version: String,
    /// The platforms to build the documentation for.
    pub targets: Vec<String>,
}

/// A package with its owners and versions.
#[derive(Clone, Debug)]
pub struct CrateRecord {
    /// The name of the package.
    pub name: String,
    /// The ids of the users that own it.
    pub owners: Vec<i64>,
    /// The platforms its documentation is built for.
    pub targets: Vec<String>,
    /// Its versions, in the order of their publication.
    pub versions: Vec<VersionRecord>,
}

impl DocsState {
    /// Whether a build is owed: one is queued, or none was ever asked for.
    pub open spec fn is_open(self) -> bool {
        self is Queued || self is Missing
    }
}

impl VersionRecord {
    /// The record of a version that was just uploaded: not withdrawn, never
    /// downloaded, its documentation queued, its dependencies unchecked.
    pub open spec fn is_fresh(self, version: Seq<char>, now: i64) -> bool {
        &&& self.version@ == version
        &&& self.upload == now
        &&& !self.yanked
        &&& self.downloads == 0
        &&& self.docs is Queued
        &&& self.docs_attempts == 0
        &&& self.deps is Pending
    }

    /// The record after a call that asks for the version to be withdrawn
    /// (`yanked`) or to be restored: only the flag changes.
    pub open spec fn with_yanked(self, yanked: bool) -> VersionRecord {
        VersionRecord { yanked, ..self }
    }

    /// The record after one more download. The count stops at the largest
    /// number it can hold.
    pub open spec fn with_download(self) -> VersionRecord {
        VersionRecord {
            downloads: if self.downloads < u64::MAX {
                (self.downloads + 1) as u64
            } else {
                self.downloads
            },
            ..self
        }
    }

    /// The record after a sequence of calls to withdraw or to restore.
    pub open spec fn after_yanks(self, calls: Seq<bool>) -> VersionRecord
        decreases calls.len(),
    {
        if calls.len() == 0 {
            self
        } else {
            self.after_yanks(calls.drop_last()).with_yanked(calls.last())
        }
    }

    /// The record after a number of downloads.
    pub open spec fn after_downloads(self, n: nat) -> VersionRecord
        decreases n,
    {
        if n == 0 {
            self
        } else {
            self.after_downloads((n - 1) as nat).with_download()
        }
    }

    /// Creates the record of a version that was just uploaded.
    pub fn new(version: &str, now: i64) -> (r: VersionRecord)
        ensures
            r.is_fresh(version@, now),
    {
        VersionRecord {
            version: version.to_owned(),
            upload: now,
            yanked: false,
            downloads: 0,
            docs: DocsState::Queued,
            docs_attempts: 0,
            deps: DepsState::Pending,
        }
    }

    /// Withdraws the version (`yanked`) or restores it. Says whether the flag
    /// changed; nothing else does.
    pub fn set_yanked(&mut self, yanked: bool) -> (outcome: Outcome)
        ensures
            *final(self) == old(self).with_yanked(yanked),
            outcome == (if old(self).yanked == yanked {
                Outcome::Unchanged
            } else {
                Outcome::Changed
            }),
    {
        let outcome = if self.yanked == yanked {
            Outcome::Unchanged
        } else {
            Outcome::Changed
        };
        self.yanked = yanked;
        outcome
    }

    /// Counts one download.
    pub fn increment_downloads(&mut self)
        ensures
            *final(self) == old(self).with_download(),
            final(self).downloads >= old(self).downloads,
    {
        if self.downloads < u64::MAX {
            self.downloads = self.downloads + 1;
        }
    }

    /// Whether the documentation worker owes this version a build.
    pub fn is_undocumented(&self) -> (r: bool)
        ensures
            r == self.docs.is_open(),
    {
        match self.docs {
            DocsState::Queued => true,
            DocsState::Missing => true,
            _ => false,
        }
    }

    /// The worker takes the version up: a queued build becomes a running one.
    /// In any other state nothing changes and the call is a conflict.
    pub fn docs_started(&mut self) -> (r: Result<(), ApiError>)
        ensures
            r is Ok <==> old(self).docs is Queued,
            r is Ok ==> *final(self) == (VersionRecord { docs: DocsState::Building, ..*old(self) }),
            r is Err ==> *final(self) == *old(self) && r->Err_0.is_plain(ErrorKind::Conflict),
    {
        match self.docs {
            DocsState::Queued => {
                self.docs = DocsState::Building;
                Ok(())
            },
            _ => Err(error_conflict()),
        }
    }

    /// The running build succeeded at `now`. In any state but a running build
    /// nothing changes and the call is a conflict.
    pub fn docs_succeeded(&mut self, now: i64) -> (r: Result<(), ApiError>)
        ensures
            r is Ok <==> old(self).docs is Building,
            r is Ok ==> *final(self) == (VersionRecord { docs: DocsState::Done(now), ..*old(self) }),
            r is Err ==> *final(self) == *old(self) && r->Err_0.is_plain(ErrorKind::Conflict),
    {
        match self.docs {
            DocsState::Building => {
                self.docs = DocsState::Done(now);
                Ok(())
            },
            _ => Err(error_conflict()),
        }
    }

    /// The running build failed at `now`. The failure is counted; the version
    /// is queued again until the third failure, which is final. Says whether
    /// the version was queued again. In any state but a running build nothing
    /// changes and the call is a conflict.
    pub fn docs_failed(&mut self, now: i64, reason: String) -> (r: Result<bool, ApiError>)
        ensures
            r is Ok <==> old(self).docs is Building,
            r is Ok ==> {
                let attempts = if old(self).docs_attempts < MAX_DOCS_ATTEMPTS {
                    (old(self).docs_attempts + 1) as u8
                } else {
                    MAX_DOCS_ATTEMPTS
                };
                &&& r->Ok_0 == (attempts < MAX_DOCS_ATTEMPTS)
                &&& *final(self) == (VersionRecord {
                    docs: if attempts < MAX_DOCS_ATTEMPTS {
                        DocsState::Queued
                    } else {
                        DocsState::Failed(now, reason)
                    },
                    docs_attempts: attempts,
                    ..*old(self)
                })
            },
            r is Err ==> *final(self) == *old(self) && r->Err_0.is_plain(ErrorKind::Conflict),
    {
        match self.docs {
            DocsState::Building => {
                let attempts: u8 = if self.docs_attempts < MAX_DOCS_ATTEMPTS {
                    self.docs_attempts + 1
                } else {
                    MAX_DOCS_ATTEMPTS
                };
                self.docs_attempts = attempts;
                if attempts < MAX_DOCS_ATTEMPTS {
                    self.docs = DocsState::Queued;
                    Ok(true)
                } else {
                    self.docs = DocsState::Failed(now, reason);
                    Ok(false)
                }
            },
            _ => Err(error_conflict()),
        }
    }

    /// Queues the documentation again and forgets the earlier failures.
    pub fn docs_requeued(&mut self)
        ensures
            *final(self) == (VersionRecord {
                docs: DocsState::Queued,
                docs_attempts: 0,
                ..*old(self)
            }),
    {
        self.docs = DocsState::Queued;
        self.docs_attempts = 0;
    }

    /// Records a check of the dependencies made at `now`: clean if it found
    /// nothing, else with the summary of what it found.
    pub fn deps_checked(&mut self, now: i64, issues: Option<String>)
        ensures
            *final(self) == (VersionRecord {
                deps: match issues {
                    None => DepsState::Clean(now),
                    Some(summary) => DepsState::Issues(now, summary),
                },
                ..*old(self)
            }),
    {
        self.deps = match issues {
            None => DepsState::Clean(now),
            Some(summary) => DepsState::Issues(now, summary),
        };
    }

    /// Whether the dependencies are to be checked again: they never were, or
    /// the last check is older than the advisories published at `advisories`.
    pub fn is_deps_stale(&self, advisories: i64) -> (r: bool)
        ensures
            r == match self.deps {
                DepsState::Pending => true,
                DepsState::Clean(at) => at < advisories,
                DepsState::Issues(at, _) => at < advisories,
            },
    {
        match &self.deps {
            DepsState::Pending => true,
            DepsState::Clean(at) => *at < advisories,
            DepsState::Issues(at, _) => *at < advisories,
        }
    }
}

/// After any sequence of calls to withdraw or to restore, the flag is what
/// the last call asked for and nothing else has changed: the download count,
/// the states of documentation and dependencies are those of the beginning.
pub proof fn lemma_yank_sequence(record: VersionRecord, calls: Seq<bool>)
    ensures
        record.after_yanks(calls) == record.with_yanked(
            if calls.len() == 0 {
                record.yanked
            } else {
                calls.last()
            },
        ),
        record.after_yanks(calls).downloads == record.downloads,
    decreases calls.len(),
{
    if calls.len() > 0 {
        lemma_yank_sequence(record, calls.drop_last());
    }
}

/// A call that repeats the one before it changes nothing.
pub proof fn lemma_yank_idempotent(record: VersionRecord, yanked: bool)
    ensures
        record.with_yanked(yanked).with_yanked(yanked) == record.with_yanked(yanked),
        record.with_yanked(yanked).yanked == yanked,
{
}

/// The download count never goes down, however many downloads are counted
/// and however often the version is withdrawn or restored in between.
pub proof fn lemma_downloads_monotone(record: VersionRecord, n: nat, yanked: bool)
    ensures
        record.after_downloads(n).downloads >= record.downloads,
        record.after_downloads(n).downloads == (if record.downloads + n <= u64::MAX {
            record.downloads + n
        } else {
            u64::MAX as int
        }),
        record.after_downloads(n).with_yanked(yanked).downloads >= record.downloads,
    decreases n,
{
    if n > 0 {
        lemma_downloads_monotone(record, (n - 1) as nat, yanked);
    }
}

/// A version that was published is a version of the package, so that no
/// caller can publish it again, whatever the manifest says besides; and the
/// package has gained exactly that one version.
pub proof fn lemma_publish_once(
    before: CrateRecord,
    after: CrateRecord,
    metadata: CrateMetadata,
    now: i64,
    caller: AuthenticatedUser,
    again: CrateMetadata,
)
    requires
        before.is_published_into(after, metadata, now),
        again.vers@ == metadata.vers@,
    ensures
        after.has_version(metadata.vers@),
        !after.accepts_publication(caller, again),
        after.versions@.len() == before.versions@.len() + 1,
{
    assert(after.versions@[after.versions@.len() - 1].version@ == metadata.vers@);
}

/// The owners after new ones are added, one after the other: each new one
/// that is no owner yet follows the others.
pub open spec fn owners_with(owners: Seq<i64>, added: Seq<i64>) -> Seq<i64>
    decreases added.len(),
{
    if added.len() == 0 {
        owners
    } else {
        let before = owners_with(owners, added.drop_last());
        if before.contains(added.last()) {
            before
        } else {
            before.push(added.last())
        }
    }
}

/// The owners that stay when the named ones are removed, in their order.
pub open spec fn owners_without(owners: Seq<i64>, removed: Seq<i64>) -> Seq<i64>
    decreases owners.len(),
{
    if owners.len() == 0 {
        owners
    } else {
        let rest = owners_without(owners.drop_last(), removed);
        if removed.contains(owners.last()) {
            rest
        } else {
            rest.push(owners.last())
        }
    }
}

/// Adding owners keeps the owners there were, in their order, lists nobody
/// twice, and makes owners of exactly those that were named.
pub proof fn lemma_owners_with(owners: Seq<i64>, added: Seq<i64>)
    requires
        owners.no_duplicates(),
    ensures
        owners_with(owners, added).no_duplicates(),
        owners_with(owners, added).len() >= owners.len(),
        owners_with(owners, added).subrange(0, owners.len() as int) == owners,
        forall|u: i64|
            owners_with(owners, added).contains(u) <==> owners.contains(u) || added.contains(u),
    decreases added.len(),
{
    let all = owners_with(owners, added);
    if added.len() == 0 {
        assert(all.subrange(0, owners.len() as int) =~= owners);
    } else {
        let earlier = added.drop_last();
        let before = owners_with(owners, earlier);
        let id = added.last();
        lemma_owners_with(owners, earlier);
        assert(added =~= earlier.push(id));
        assert(all.subrange(0, owners.len() as int) =~= before.subrange(0, owners.len() as int));
        assert forall|u: i64| all.contains(u) <==> owners.contains(u) || added.contains(u) by {
            vstd::seq_lib::lemma_seq_contains_after_push(before, id, u);
            vstd::seq_lib::lemma_seq_contains_after_push(earlier, id, u);
            assert(before.contains(u) <==> owners.contains(u) || earlier.contains(u));
        }
        if !before.contains(id) {
            assert forall|i: int, j: int| 0 <= i < all.len() && 0 <= j < all.len() && i != j implies all[i]
                != all[j] by {
                if i == before.len() {
                    assert(before.contains(before[j]));
                } else if j == before.len() {
                    assert(before.contains(before[i]));
                }
            }
        }
    }
}

/// The owners that stay are the owners that are not named; so an owner
/// stays exactly if some owner is not named.
pub proof fn lemma_owners_without(owners: Seq<i64>, removed: Seq<i64>)
    ensures
        forall|u: i64|
            owners_without(owners, removed).contains(u) <==> owners.contains(u) && !removed.contains(
                u,
            ),
        owners_without(owners, removed).len() > 0 <==> exists|u: i64|
            owners.contains(u) && !removed.contains(u),
        owners_without(owners, removed).len() <= owners.len(),
        owners.no_duplicates() ==> owners_without(owners, removed).no_duplicates(),
    decreases owners.len(),
{
    let kept = owners_without(owners, removed);
    if owners.len() > 0 {
        let shorter = owners.drop_last();
        let rest = owners_without(shorter, removed);
        let id = owners.last();
        lemma_owners_without(shorter, removed);
        assert(owners =~= shorter.push(id));
        assert forall|u: i64| kept.contains(u) <==> owners.contains(u) && !removed.contains(u) by {
            vstd::seq_lib::lemma_seq_contains_after_push(shorter, id, u);
            vstd::seq_lib::lemma_seq_contains_after_push(rest, id, u);
            assert(rest.contains(u) <==> shorter.contains(u) && !removed.contains(u));
        }
        if owners.no_duplicates() {
            assert forall|i: int, j: int|
                0 <= i < shorter.len() && 0 <= j < shorter.len() && i != j implies shorter[i]
                != shorter[j] by {
                assert(shorter[i] == owners[i] && shorter[j] == owners[j]);
            }
            if shorter.contains(id) {
                let j = choose|j: int| 0 <= j < shorter.len() && shorter[j] == id;
                assert(owners[j] == owners[owners.len() - 1]);
            }
            assert forall|i: int, j: int| 0 <= i < kept.len() && 0 <= j < kept.len() && i != j implies kept[i]
                != kept[j] by {
                if !removed.contains(id) {
                    if i == rest.len() {
                        assert(rest.contains(rest[j]));
                    } else if j == rest.len() {
                        assert(rest.contains(rest[i]));
                    }
                }
            }
        }
    }
    if kept.len() > 0 {
        assert(kept.contains(kept[0]));
    }
    if exists|u: i64| owners.contains(u) && !removed.contains(u) {
        let u = choose|u: i64| owners.contains(u) && !removed.contains(u);
        assert(kept.contains(u));
    }
}

/// The downloads of versions together.
pub open spec fn downloads_of(versions: Seq<VersionRecord>) -> nat
    decreases versions.len(),
{
    if versions.len() == 0 {
        0
    } else {
        downloads_of(versions.drop_last()) + versions.last().downloads as nat
    }
}

/// Whether a list of ids holds an id.
pub fn contains_id(list: &[i64], id: i64) -> (r: bool)
    ensures
        r == list@.contains(id),
{
    let mut i: usize = 0;
    while i < list.len()
        invariant
            i <= list.len(),
            forall|j: int| 0 <= j < i ==> list@[j] != id,
        decreases list.len() - i,
    {
        if list[i] == id {
            return true;
        }
        i += 1;
    }
    false
}

impl CrateRecord {
    /// The record is sound: the package has an owner, no owner is listed
    /// twice, and no two versions have the same number.
    pub open spec fn wf(self) -> bool {
        &&& self.owners@.len() >= 1
        &&& self.owners@.no_duplicates()
        &&& forall|i: int, j: int|
            0 <= i < j < self.versions@.len() ==> (#[trigger] self.versions@[i]).version@ != (
            #[trigger] self.versions@[j]).version@
    }

    /// Whether the package has a version of the given number.
    pub open spec fn has_version(self, version: Seq<char>) -> bool {
        exists|i: int| 0 <= i < self.versions@.len() && (#[trigger] self.versions@[i]).version@ == version
    }

    /// Whether a caller may change the package: the caller may write and is
    /// one of its owners.
    pub open spec fn may_be_changed_by(self, principal: AuthenticatedUser) -> bool {
        principal.can_write && self.owners@.contains(principal.uid)
    }

    /// Whether the record is that of the package that a manifest names. The
    /// case of letters does not tell two packages apart.
    pub open spec fn is_named_by(self, metadata: CrateMetadata) -> bool {
        lowercase(bytes_of(self.name@)) == lowercase(bytes_of(metadata.name@))
    }

    /// Whether a further version may be published: the caller may change the
    /// package, the manifest is valid and names this package, and the package
    /// does not have the version yet.
    pub open spec fn accepts_publication(
        self,
        principal: AuthenticatedUser,
        metadata: CrateMetadata,
    ) -> bool {
        &&& self.may_be_changed_by(principal)
        &&& metadata.is_valid()
        &&& self.is_named_by(metadata)
        &&& !self.has_version(metadata.vers@)
    }

    /// Whether `after` is this package with the version of a manifest
    /// published at `now`: the same package with one more version, fresh, after
    /// the others.
    pub open spec fn is_published_into(
        self,
        after: CrateRecord,
        metadata: CrateMetadata,
        now: i64,
    ) -> bool {
        &&& after.name == self.name
        &&& after.owners == self.owners
        &&& after.targets == self.targets
        &&& after.versions@.len() == self.versions@.len() + 1
        &&& after.versions@.drop_last() == self.versions@
        &&& after.versions@.last().is_fresh(metadata.vers@, now)
    }

    /// Whether the record is sound, for records that come from outside.
    pub fn is_sound(&self) -> (r: bool)
        ensures
            r == self.wf(),
    {
        if self.owners.len() == 0 {
            return false;
        }
        let mut i: usize = 0;
        while i < self.owners.len()
            invariant
                i <= self.owners@.len(),
                forall|a: int, b: int| 0 <= a < b < i ==> self.owners@[a] != self.owners@[b],
            decreases self.owners@.len() - i,
        {
            let mut j: usize = 0;
            while j < i
                invariant
                    j <= i < self.owners@.len(),
                    forall|a: int| 0 <= a < j ==> self.owners@[a] != self.owners@[i as int],
                decreases i - j,
            {
                if self.owners[j] == self.owners[i] {
                    return false;
                }
                j += 1;
            }
            i += 1;
        }
        let mut k: usize = 0;
        while k < self.versions.len()
            invariant
                k <= self.versions@.len(),
                self.owners@.len() >= 1,
                self.owners@.no_duplicates(),
                forall|a: int, b: int|
                    0 <= a < b < k ==> (#[trigger] self.versions@[a]).version@ != (
                    #[trigger] self.versions@[b]).version@,
            decreases self.versions@.len() - k,
        {
            let mut j: usize = 0;
            while j < k
                invariant
                    j <= k < self.versions@.len(),
                    forall|a: int|
                        0 <= a < j ==> (#[trigger] self.versions@[a]).version@
                            != self.versions@[k as int].version@,
                decreases k - j,
            {
                if same_text(self.versions[j].version.as_str(), self.versions[k].version.as_str()) {
                    return false;
                }
                j += 1;
            }
            k += 1;
        }
        true
    }

    /// The position of the version of the given number.
    pub fn find_version(&self, version: &str) -> (r: Option<usize>)
        ensures
            r is Some <==> self.has_version(version@),
            r is Some ==> r->0 < self.versions@.len() && self.versions@[r->0 as int].version@
                == version@,
    {
        let mut i: usize = 0;
        while i < self.versions.len()
            invariant
                i <= self.versions@.len(),
                forall|j: int| 0 <= j < i ==> (#[trigger] self.versions@[j]).version@ != version@,
            decreases self.versions@.len() - i,
        {
            if same_text(self.versions[i].version.as_str(), version) {
                return Some(i);
            }
            i += 1;
        }
        None
    }

    fn check_may_change(&self, principal: &AuthenticatedUser) -> (r: bool)
        ensures
            r == self.may_be_changed_by(*principal),
    {
        principal.can_write && contains_id(self.owners.as_slice(), principal.uid)
    }

    /// Creates the record of a package from the first version that is
    /// published of it. A caller that may not write is forbidden to; a manifest
    /// that is not valid is an invalid request. The caller becomes the only
    /// owner, and the package has the given platforms and that one version.
    pub fn create(
        principal: &AuthenticatedUser,
        metadata: &CrateMetadata,
        targets: &Vec<String>,
        now: i64,
    ) -> (r: Result<CrateRecord, ApiError>)
        ensures
            r is Ok <==> principal.can_write && metadata.is_valid(),
            r is Ok ==> {
                let record = r->Ok_0;
                &&& record.wf()
                &&& record.name == metadata.name
                &&& record.owners@ == seq![principal.uid]
                &&& record.targets@ == targets@
                &&& record.versions@.len() == 1
                &&& record.versions@[0].is_fresh(metadata.vers@, now)
            },
            r is Err ==> (if !principal.can_write {
                r->Err_0.is_plain(ErrorKind::Forbidden)
            } else {
                r->Err_0.is_detailed(ErrorKind::InvalidRequest, "invalid manifest"@)
            }),
    {
        if !principal.can_write {
            return Err(error_forbidden());
        }
        match metadata.validate() {
            Err(e) => Err(e),
            Ok(()) => {
                let mut owners: Vec<i64> = Vec::new();
                owners.push(principal.uid);
                let mut versions: Vec<VersionRecord> = Vec::new();
                versions.push(VersionRecord::new(metadata.vers.as_str(), now));
                assert(owners@ =~= seq![principal.uid]);
                Ok(
                    CrateRecord {
                        name: metadata.name.clone(),
                        owners,
                        targets: clone_strings(targets),
                        versions,
                    },
                )
            },
        }
    }

    /// Records a further version of the package. In this order: a caller that
    /// may not change the package is forbidden to; a manifest that is not
    /// valid, or that names another package, is an invalid request; a version
    /// that the package has already exists. Otherwise the version is added
    /// after the others, fresh. A refusal changes nothing.
    pub fn publish_version(
        &mut self,
        principal: &AuthenticatedUser,
        metadata: &CrateMetadata,
        now: i64,
    ) -> (r: Result<(), ApiError>)
        requires
            old(self).wf(),
        ensures
            final(self).wf(),
            r is Ok <==> old(self).accepts_publication(*principal, *metadata),
            r is Ok ==> old(self).is_published_into(*final(self), *metadata, now),
            r is Err ==> *final(self) == *old(self),
            r is Err ==> (if !old(self).may_be_changed_by(*principal) {
                r->Err_0.is_plain(ErrorKind::Forbidden)
            } else if !metadata.is_valid() {
                r->Err_0.is_detailed(ErrorKind::InvalidRequest, "invalid manifest"@)
            } else if !old(self).is_named_by(*metadata) {
                r->Err_0.is_detailed(ErrorKind::InvalidRequest, "manifest of another package"@)
            } else {
                r->Err_0.is_plain(ErrorKind::AlreadyExists)
            }),
    {
        if !self.check_may_change(principal) {
            return Err(error_forbidden());
        }
        match metadata.validate() {
            Err(e) => {
                return Err(e);
            },
            Ok(()) => {},
        }
        if !same_text_ignoring_case(self.name.as_str(), metadata.name.as_str()) {
            return Err(
                specialize(error_invalid_request(), "manifest of another package".to_owned()),
            );
        }
        if self.find_version(metadata.vers.as_str()).is_some() {
            return Err(error_already_exists());
        }
        let record = VersionRecord::new(metadata.vers.as_str(), now);
        self.versions.push(record);
        assert(self.versions@.drop_last() =~= old(self).versions@);
        assert(self.versions@[self.versions@.len() - 1].version@ == metadata.vers@);
        Ok(())
    }

    /// Withdraws a version (`yanked`) or restores it, and says whether its
    /// flag changed. A caller that may not change the package is forbidden to;
    /// a version that the package does not have is not found. Only the flag of
    /// that version changes.
    pub fn yank_version(&mut self, principal: &AuthenticatedUser, version: &str, yanked: bool) -> (r:
        Result<Outcome, ApiError>)
        requires
            old(self).wf(),
        ensures
            final(self).wf(),
            r is Ok <==> old(self).may_be_changed_by(*principal) && old(self).has_version(version@),
            final(self).name == old(self).name,
            final(self).owners == old(self).owners,
            final(self).targets == old(self).targets,
            final(self).versions@.len() == old(self).versions@.len(),
            forall|i: int|
                0 <= i < old(self).versions@.len() ==> #[trigger] final(self).versions@[i] == (if r is Ok
                    && old(self).versions@[i].version@ == version@ {
                    old(self).versions@[i].with_yanked(yanked)
                } else {
                    old(self).versions@[i]
                }),
            r is Ok ==> exists|i: int|
                0 <= i < old(self).versions@.len() && (#[trigger] old(self).versions@[i]).version@
                    == version@ && r->Ok_0 == (if old(self).versions@[i].yanked == yanked {
                    Outcome::Unchanged
                } else {
                    Outcome::Changed
                }),
            r is Err ==> (if !old(self).may_be_changed_by(*principal) {
                r->Err_0.is_plain(ErrorKind::Forbidden)
            } else {
                r->Err_0.is_plain(ErrorKind::NotFound)
            }),
    {
        if !self.check_may_change(principal) {
            return Err(error_forbidden());
        }
        match self.find_version(version) {
            None => Err(error_not_found()),
            Some(i) => {
                let outcome = self.versions[i].set_yanked(yanked);
                assert(old(self).versions@[i as int].version@ == version@);
                Ok(outcome)
            },
        }
    }

    /// Counts one download of a version. A version that the package does not
    /// have is not found. Only the count of that version changes, and it does
    /// not go down.
    pub fn record_download(&mut self, version: &str) -> (r: Result<(), ApiError>)
        requires
            old(self).wf(),
        ensures
            final(self).wf(),
            r is Ok <==> old(self).has_version(version@),
            final(self).name == old(self).name,
            final(self).owners == old(self).owners,
            final(self).targets == old(self).targets,
            final(self).versions@.len() == old(self).versions@.len(),
            forall|i: int|
                0 <= i < old(self).versions@.len() ==> #[trigger] final(self).versions@[i] == (if old(
                    self,
                ).versions@[i].version@ == version@ {
                    old(self).versions@[i].with_download()
                } else {
                    old(self).versions@[i]
                }),
            forall|i: int|
                0 <= i < old(self).versions@.len() ==> (#[trigger] final(self).versions@[i]).downloads
                    >= old(self).versions@[i].downloads,
            r is Err ==> r->Err_0.is_plain(ErrorKind::NotFound),
    {
        match self.find_version(version) {
            None => Err(error_not_found()),
            Some(i) => {
                self.versions[i].increment_downloads();
                Ok(())
            },
        }
    }

    /// Adds owners to the package. A caller that may not change the package
    /// is forbidden to. The owners so far stay, in their order; each new one
    /// that is no owner yet follows them.
    pub fn add_owners(&mut self, principal: &AuthenticatedUser, new_owners: &[i64]) -> (r: Result<
        (),
        ApiError,
    >)
        requires
            old(self).wf(),
        ensures
            final(self).wf(),
            r is Ok <==> old(self).may_be_changed_by(*principal),
            final(self).name == old(self).name,
            final(self).targets == old(self).targets,
            final(self).versions == old(self).versions,
            r is Ok ==> {
                &&& final(self).owners@ == owners_with(old(self).owners@, new_owners@)
                &&& final(self).owners@.len() >= old(self).owners@.len()
                &&& final(self).owners@.subrange(0, old(self).owners@.len() as int) == old(
                    self,
                ).owners@
                &&& forall|u: i64|
                    final(self).owners@.contains(u) <==> old(self).owners@.contains(u)
                        || new_owners@.contains(u)
            },
            r is Err ==> *final(self) == *old(self) && r->Err_0.is_plain(ErrorKind::Forbidden),
    {
        if !self.check_may_change(principal) {
            return Err(error_forbidden());
        }
        let ghost before = self.owners@;
        let mut i: usize = 0;
        assert(new_owners@.subrange(0, 0) =~= Seq::<i64>::empty());
        while i < new_owners.len()
            invariant
                i <= new_owners@.len(),
                self.owners@ == owners_with(before, new_owners@.subrange(0, i as int)),
                self.name == old(self).name,
                self.targets == old(self).targets,
                self.versions == old(self).versions,
            decreases new_owners@.len() - i,
        {
            let id = new_owners[i];
            assert(new_owners@.subrange(0, i + 1).drop_last() =~= new_owners@.subrange(0, i as int));
            if !contains_id(self.owners.as_slice(), id) {
                self.owners.push(id);
            }
            i += 1;
        }
        proof {
            assert(new_owners@.subrange(0, new_owners@.len() as int) =~= new_owners@);
            lemma_owners_with(before, new_owners@);
        }
        Ok(())
    }

    /// Removes owners from the package. A caller that may not change the
    /// package is forbidden to; a removal that would leave the package without
    /// an owner is a conflict. Otherwise the owners that are not named stay,
    /// and a refusal changes nothing.
    pub fn remove_owners(&mut self, principal: &AuthenticatedUser, old_owners: &[i64]) -> (r: Result<
        (),
        ApiError,
    >)
        requires
            old(self).wf(),
        ensures
            final(self).wf(),
            final(self).owners@.len() >= 1,
            r is Ok <==> old(self).may_be_changed_by(*principal) && owners_without(
                old(self).owners@,
                old_owners@,
            ).len() > 0,
            r is Ok ==> final(self).owners@ == owners_without(old(self).owners@, old_owners@),
            final(self).name == old(self).name,
            final(self).targets == old(self).targets,
            final(self).versions == old(self).versions,
            r is Ok ==> forall|u: i64|
                final(self).owners@.contains(u) <==> old(self).owners@.contains(u)
                    && !old_owners@.contains(u),
            r is Err ==> *final(self) == *old(self),
            r is Err ==> (if !old(self).may_be_changed_by(*principal) {
                r->Err_0.is_plain(ErrorKind::Forbidden)
            } else {
                r->Err_0.is_plain(ErrorKind::Conflict)
            }),
    {
        if !self.check_may_change(principal) {
            return Err(error_forbidden());
        }
        let ghost before = self.owners@;
        let mut kept: Vec<i64> = Vec::new();
        let mut i: usize = 0;
        assert(before.subrange(0, 0) =~= Seq::<i64>::empty());
        while i < self.owners.len()
            invariant
                i <= before.len(),
                self.owners@ == before,
                kept@ == owners_without(before.subrange(0, i as int), old_owners@),
            decreases before.len() - i,
        {
            let id = self.owners[i];
            assert(before.subrange(0, i + 1).drop_last() =~= before.subrange(0, i as int));
            if !contains_id(old_owners, id) {
                kept.push(id);
            }
            i += 1;
        }
        proof {
            assert(before.subrange(0, before.len() as int) =~= before);
            lemma_owners_without(before, old_owners@);
        }
        if kept.len() == 0 {
            return Err(error_conflict());
        }
        self.owners = kept;
        Ok(())
    }

    /// Replaces the platforms for which the documentation of the package is
    /// built. A caller that may not change the package is forbidden to; a
    /// platform that is not among `known` is an invalid request that names the
    /// first such platform.
    pub fn set_targets(
        &mut self,
        principal: &AuthenticatedUser,
        targets: &Vec<String>,
        known: &Vec<String>,
    ) -> (r: Result<(), ApiError>)
        requires
            old(self).wf(),
        ensures
            final(self).wf(),
            r is Ok <==> old(self).may_be_changed_by(*principal) && first_unknown_target(
                targets@,
                known@,
            ) == targets@.len(),
            final(self).name == old(self).name,
            final(self).owners == old(self).owners,
            final(self).versions == old(self).versions,
            r is Ok ==> final(self).targets@ == targets@,
            r is Err ==> *final(self) == *old(self),
            r is Err ==> (if !old(self).may_be_changed_by(*principal) {
                r->Err_0.is_plain(ErrorKind::Forbidden)
            } else {
                r->Err_0.is_detailed(
                    ErrorKind::InvalidRequest,
                    "Unknown target: "@ + targets@[first_unknown_target(targets@, known@)]@,
                )
            }),
    {
        if !self.check_may_change(principal) {
            return Err(error_forbidden());
        }
        match check_targets(targets, known) {
            Err(e) => Err(e),
            Ok(()) => {
                self.targets = clone_strings(targets);
                Ok(())
            },
        }
    }

    /// Queues the documentation of a version again, whatever became of it
    /// before, and gives the job to hand to the worker. A caller that may not
    /// change the package is forbidden to; a version that the package does not
    /// have is not found. Only the documentation of that version changes.
    pub fn regen_docs(&mut self, principal: &AuthenticatedUser, version: &str) -> (r: Result<
        JobCrate,
        ApiError,
    >)
        requires
            old(self).wf(),
        ensures
            final(self).wf(),
            r is Ok <==> old(self).may_be_changed_by(*principal) && old(self).has_version(version@),
            final(self).name == old(self).name,
            final(self).owners == old(self).owners,
            final(self).targets == old(self).targets,
            final(self).versions@.len() == old(self).versions@.len(),
            forall|i: int|
                0 <= i < old(self).versions@.len() ==> #[trigger] final(self).versions@[i] == (if r is Ok
                    && old(self).versions@[i].version@ == version@ {
                    VersionRecord {
                        docs: DocsState::Queued,
                        docs_attempts: 0,
                        ..old(self).versions@[i]
                    }
                } else {
                    old(self).versions@[i]
                }),
            r is Ok ==> r->Ok_0.name == old(self).name && r->Ok_0.version@ == version@
                && r->Ok_0.targets@ == old(self).targets@,
            r is Err ==> (if !old(self).may_be_changed_by(*principal) {
                r->Err_0.is_plain(ErrorKind::Forbidden)
            } else {
                r->Err_0.is_plain(ErrorKind::NotFound)
            }),
    {
        if !self.check_may_change(principal) {
            return Err(error_forbidden());
        }
        match self.find_version(version) {
            None => Err(error_not_found()),
            Some(i) => {
                self.versions[i].docs_requeued();
                Ok(self.docs_job(version))
            },
        }
    }

    /// Whether the file of the index holds, for the version at the given
    /// position, a line with the same flag.
    pub open spec fn is_indexed(self, lines: Seq<IndexEntry>, position: int) -> bool {
        exists|k: int|
            0 <= k < lines.len() && (#[trigger] lines[k]).vers@ == self.versions@[position].version@
                && lines[k].yanked == self.versions@[position].yanked
    }

    /// Joins the versions of the package with their lines in the index, the
    /// metadata first: for each version, in the order of publication, the
    /// position of its line. A package without a version is not found. A
    /// version without a line, or with a line whose flag differs, means that
    /// the planes disagree, which is an internal error.
    pub fn join_index(&self, file: &IndexFile) -> (r: Result<Vec<usize>, ApiError>)
        requires
            file.wf(),
        ensures
            r is Ok <==> self.versions@.len() > 0 && forall|i: int|
                0 <= i < self.versions@.len() ==> self.is_indexed(file.entries@, i),
            r is Ok ==> r->Ok_0@.len() == self.versions@.len() && forall|i: int|
                0 <= i < self.versions@.len() ==> {
                    let k = #[trigger] r->Ok_0@[i];
                    &&& k < file.entries@.len()
                    &&& file.entries@[k as int].vers@ == self.versions@[i].version@
                    &&& file.entries@[k as int].yanked == self.versions@[i].yanked
                },
            r is Err ==> (if self.versions@.len() == 0 {
                r->Err_0.is_plain(ErrorKind::NotFound)
            } else {
                r->Err_0.is_plain(ErrorKind::Internal)
            }),
    {
        if self.versions.len() == 0 {
            return Err(error_not_found());
        }
        let mut lines: Vec<usize> = Vec::new();
        let mut i: usize = 0;
        while i < self.versions.len()
            invariant
                i <= self.versions@.len(),
                self.versions@.len() > 0,
                file.wf(),
                lines@.len() == i,
                forall|j: int| 0 <= j < i ==> self.is_indexed(file.entries@, j),
                forall|j: int|
                    0 <= j < i ==> {
                        let k = #[trigger] lines@[j];
                        &&& k < file.entries@.len()
                        &&& file.entries@[k as int].vers@ == self.versions@[j].version@
                        &&& file.entries@[k as int].yanked == self.versions@[j].yanked
                    },
            decreases self.versions@.len() - i,
        {
            let version = &self.versions[i];
            match file.find(version.version.as_str()) {
                None => {
                    assert(!self.is_indexed(file.entries@, i as int));
                    return Err(error_internal());
                },
                Some(k) => {
                    if file.entries[k].yanked != version.yanked {
                        assert(!self.is_indexed(file.entries@, i as int)) by {
                            if self.is_indexed(file.entries@, i as int) {
                                let other = choose|o: int|
                                    0 <= o < file.entries@.len() && (#[trigger] file.entries@[o]).vers@
                                        == self.versions@[i as int].version@ && file.entries@[o].yanked
                                        == self.versions@[i as int].yanked;
                                assert(other != k);
                                assert(file.entries@[other].vers@ == file.entries@[k as int].vers@);
                            }
                        }
                        return Err(error_internal());
                    }
                    assert(self.is_indexed(file.entries@, i as int));
                    lines.push(k);
                },
            }
            i += 1;
        }
        Ok(lines)
    }

    /// The downloads of all versions together, as far as the number fits.
    pub fn total_downloads(&self) -> (r: u64)
        ensures
            r == (if downloads_of(self.versions@) <= u64::MAX {
                downloads_of(self.versions@) as u64
            } else {
                u64::MAX
            }),
    {
        let mut total: u64 = 0;
        let mut i: usize = 0;
        assert(self.versions@.subrange(0, 0) =~= Seq::<VersionRecord>::empty());
        while i < self.versions.len()
            invariant
                i <= self.versions@.len(),
                total == (if downloads_of(self.versions@.subrange(0, i as int)) <= u64::MAX {
                    downloads_of(self.versions@.subrange(0, i as int)) as u64
                } else {
                    u64::MAX
                }),
            decreases self.versions@.len() - i,
        {
            assert(self.versions@.subrange(0, i + 1).drop_last() =~= self.versions@.subrange(
                0,
                i as int,
            ));
            let downloads = self.versions[i].downloads;
            total = if downloads > u64::MAX - total {
                u64::MAX
            } else {
                total + downloads
            };
            i += 1;
        }
        assert(self.versions@.subrange(0, self.versions@.len() as int) =~= self.versions@);
        total
    }

    /// Whether the last version of the package is to be checked again
    /// against the advisories published at `advisories`.
    pub fn is_head_outdated(&self, advisories: i64) -> (r: bool)
        ensures
            r == (self.versions@.len() > 0 && match self.versions@.last().deps {
                DepsState::Pending => true,
                DepsState::Clean(at) => at < advisories,
                DepsState::Issues(at, _) => at < advisories,
            }),
    {
        match self.last_version() {
            None => false,
            Some(version) => version.is_deps_stale(advisories),
        }
    }

    /// The positions, among the first `n` versions, of those whose
    /// dependencies are to be checked again against the advisories published
    /// at `advisories`.
    pub open spec fn stale(self, advisories: i64, n: int) -> Seq<int>
        decreases n,
    {
        if n <= 0 {
            Seq::empty()
        } else if (match self.versions@[n - 1].deps {
            DepsState::Pending => true,
            DepsState::Clean(at) => at < advisories,
            DepsState::Issues(at, _) => at < advisories,
        }) {
            self.stale(advisories, n - 1).push(n - 1)
        } else {
            self.stale(advisories, n - 1)
        }
    }

    /// The positions of the versions whose dependencies are to be checked
    /// again, in the order of publication.
    pub fn stale_versions(&self, advisories: i64) -> (r: Vec<usize>)
        ensures
            r@.len() == self.stale(advisories, self.versions@.len() as int).len(),
            forall|k: int|
                0 <= k < r@.len() ==> #[trigger] r@[k] as int == self.stale(
                    advisories,
                    self.versions@.len() as int,
                )[k],
    {
        let mut r: Vec<usize> = Vec::new();
        let mut i: usize = 0;
        while i < self.versions.len()
            invariant
                i <= self.versions@.len(),
                r@.len() == self.stale(advisories, i as int).len(),
                forall|k: int|
                    0 <= k < r@.len() ==> #[trigger] r@[k] as int == self.stale(advisories, i as int)[k],
            decreases self.versions@.len() - i,
        {
            if self.versions[i].is_deps_stale(advisories) {
                r.push(i);
            }
            i += 1;
        }
        r
    }

    /// The version that was published last, if there is any.
    pub fn last_version(&self) -> (r: Option<&VersionRecord>)
        ensures
            r is Some <==> self.versions@.len() > 0,
            r is Some ==> *r->0 == self.versions@.last(),
    {
        let n = self.versions.len();
        if n == 0 {
            None
        } else {
            Some(&self.versions[n - 1])
        }
    }

    /// The job that builds the documentation of a version of this package.
    pub fn docs_job(&self, version: &str) -> (job: JobCrate)
        ensures
            job.name == self.name,
            job.version@ == version@,
            job.targets@ == self.targets@,
    {
        JobCrate {
            name: self.name.clone(),
            version: version.to_owned(),
            targets: clone_strings(&self.targets),
        }
    }

    /// The positions, among the first `n` versions, of those that are owed a
    /// build of their documentation: none if the package has no platform to
    /// build for.
    pub open spec fn undocumented(self, n: int) -> Seq<int>
        decreases n,
    {
        if n <= 0 {
            Seq::empty()
        } else if self.targets@.len() > 0 && self.versions@[n - 1].docs.is_open() {
            self.undocumented(n - 1).push(n - 1)
        } else {
            self.undocumented(n - 1)
        }
    }

    /// Whether a job is the one that builds the documentation of the version
    /// at the given position.
    pub open spec fn is_job_of(self, job: JobCrate, position: int) -> bool {
        &&& 0 <= position < self.versions@.len()
        &&& job.name == self.name
        &&& job.version@ == self.versions@[position].version@
        &&& job.targets@ == self.targets@
    }

    /// The jobs that are owed to the versions of this package, in the order of
    /// publication: one for each version whose documentation is queued or was
    /// never asked for, provided the package has a platform to build for.
    pub fn undocumented_jobs(&self) -> (jobs: Vec<JobCrate>)
        ensures
            jobs@.len() == self.undocumented(self.versions@.len() as int).len(),
            forall|k: int|
                0 <= k < jobs@.len() ==> self.is_job_of(
                    #[trigger] jobs@[k],
                    self.undocumented(self.versions@.len() as int)[k],
                ),
    {
        let mut jobs: Vec<JobCrate> = Vec::new();
        let mut i: usize = 0;
        while i < self.versions.len()
            invariant
                i <= self.versions@.len(),
                jobs@.len() == self.undocumented(i as int).len(),
                forall|k: int|
                    0 <= k < jobs@.len() ==> self.undocumented(i as int)[k] < i && self.is_job_of(
                        #[trigger] jobs@[k],
                        self.undocumented(i as int)[k],
                    ),
            decreases self.versions@.len() - i,
        {
            let ghost held = jobs@;
            let ghost owed = self.undocumented(i as int);
            if self.targets.len() > 0 && self.versions[i].is_undocumented() {
                jobs.push(self.docs_job(self.versions[i].version.as_str()));
                assert(self.undocumented(i + 1) == owed.push(i as int));
            } else {
                assert(self.undocumented(i + 1) == owed);
            }
            assert forall|k: int| 0 <= k < held.len() implies jobs@[k] == held[k] && self.undocumented(
                i + 1,
            )[k] == owed[k] by {}
            i += 1;
        }
        assert(self.undocumented(i as int) == self.undocumented(self.versions@.len() as int));
        jobs
    }
}

/// The position of the first platform that is not among the known ones, or
/// the number of platforms if all are known.
pub open spec fn first_unknown_target(targets: Seq<String>, known: Seq<String>) -> int
    decreases targets.len(),
{
    if targets.len() == 0 {
        0
    } else if !is_known_target(targets[0]@, known) {
        0
    } else {
        1 + first_unknown_target(targets.drop_first(), known)
    }
}

/// Whether a platform is among the known ones.
pub open spec fn is_known_target(target: Seq<char>, known: Seq<String>) -> bool {
    exists|i: int| 0 <= i < known.len() && (#[trigger] known[i])@ == target
}

fn target_is_known(target: &str, known: &Vec<String>) -> (r: bool)
    ensures
        r == is_known_target(target@, known@),
{
    let mut i: usize = 0;
    while i < known.len()
        invariant
            i <= known@.len(),
            forall|j: int| 0 <= j < i ==> (#[trigger] known@[j])@ != target@,
        decreases known@.len() - i,
    {
        if same_text(known[i].as_str(), target) {
            return true;
        }
        i += 1;
    }
    false
}

/// Accepts a list of platforms if each is among the known ones; else the
/// list is an invalid request that names the first platform that is not.
pub fn check_targets(targets: &Vec<String>, known: &Vec<String>) -> (r: Result<(), ApiError>)
    ensures
        r is Ok <==> first_unknown_target(targets@, known@) == targets@.len(),
        r is Err ==> r->Err_0.is_detailed(
            ErrorKind::InvalidRequest,
            "Unknown target: "@ + targets@[first_unknown_target(targets@, known@)]@,
        ),
{
    let mut i: usize = 0;
    assert(targets@.subrange(0, targets@.len() as int) =~= targets@);
    while i < targets.len()
        invariant
            i <= targets@.len(),
            first_unknown_target(targets@, known@) == i + first_unknown_target(
                targets@.subrange(i as int, targets@.len() as int),
                known@,
            ),
        decreases targets@.len() - i,
    {
        let ghost rest = targets@.subrange(i as int, targets@.len() as int);
        assert(rest[0] == targets@[i as int]);
        assert(rest.drop_first() =~= targets@.subrange(i + 1, targets@.len() as int));
        if !target_is_known(targets[i].as_str(), known) {
            let mut details = "Unknown target: ".to_owned();
            details.append(targets[i].as_str());
            return Err(specialize(error_invalid_request(), details));
        }
        i += 1;
    }
    Ok(())
}

/// The number of search results on a page: ten when the request names none,
/// and never more than a hundred.
pub fn effective_per_page(per_page: Option<usize>) -> (r: usize)
    ensures
        r == match per_page {
            None => DEFAULT_PER_PAGE,
            Some(n) => if n > MAX_PER_PAGE {
                MAX_PER_PAGE
            } else {
                n
            },
        },
{
    match per_page {
        None => DEFAULT_PER_PAGE,
        Some(n) => if n > MAX_PER_PAGE {
            MAX_PER_PAGE
        } else {
            n
        },
    }
}

} // verus!
