//! The life of one change to the index. A change is staged under the lock of
//! the index, then committed, then the lock is released; a commit that fails
//! reverts the working tree and leaves the history as it was.

use vstd::prelude::*;
use vstd::string::*;
use crate::error::{error_conflict, ApiError, ErrorKind};

verus! {

/// Where the index stands between two changes.
#[derive(Clone, Copy, Debug, PartialEq, Eq, Structural)]
pub enum JournalState {
    /// Nobody holds the lock.
    Idle,
    /// A change was written to the working tree and awaits its commit.
    Staged,
    /// The change was committed and the lock is still held.
    Committed,
}

/// What happens to the index.
pub enum JournalEvent {
    /// The lock was taken and a change with the given commit message was
    /// written to the working tree.
    Stage(Seq<char>),
    /// The commit was made.
    CommitSucceeded,
    /// The commit failed and the working tree was reset to the head.
    CommitFailed,
    /// The lock was released.
    Release,
}

/// The index as the rules see it: its state, the message of the change that
/// is staged, and the messages of the commits on its branch, oldest first.
pub struct JournalModel {
    /// The state.
    pub state: JournalState,
    /// The message of the staged change.
    pub pending: Option<Seq<char>>,
    /// The messages of the commits, oldest first.
    pub history: Seq<Seq<char>>,
}

impl JournalModel {
    /// Whether an event may happen now.
    pub open spec fn accepts(self, event: JournalEvent) -> bool {
        match event {
            JournalEvent::Stage(_) => self.state == JournalState::Idle,
            JournalEvent::CommitSucceeded => self.state == JournalState::Staged,
            JournalEvent::CommitFailed => self.state == JournalState::Staged,
            JournalEvent::Release => self.state == JournalState::Committed,
        }
    }

    /// The index after an event. An event that may not happen now changes
    /// nothing.
    pub open spec fn step(self, event: JournalEvent) -> JournalModel {
        if !self.accepts(event) {
            self
        } else {
            match event {
                JournalEvent::Stage(message) => JournalModel {
                    state: JournalState::Staged,
                    pending: Some(message),
                    history: self.history,
                },
                JournalEvent::CommitSucceeded => JournalModel {
                    state: JournalState::Committed,
                    pending: None,
                    history: if self.pending is Some {
                        self.history.push(self.pending->0)
                    } else {
                        self.history
                    },
                },
                JournalEvent::CommitFailed => JournalModel {
                    state: JournalState::Idle,
                    pending: None,
                    history: self.history,
                },
                JournalEvent::Release => JournalModel {
                    state: JournalState::Idle,
                    pending: None,
                    history: self.history,
                },
            }
        }
    }

    /// The index after a sequence of events.
    pub open spec fn run(self, events: Seq<JournalEvent>) -> JournalModel
        decreases events.len(),
    {
        if events.len() == 0 {
            self
        } else {
            self.run(events.drop_last()).step(events.last())
        }
    }

    /// A change is pending exactly while one is staged.
    pub open spec fn wf(self) -> bool {
        self.pending is Some <==> self.state == JournalState::Staged
    }
}

/// The number of events of a sequence that commit a change, counted from the
/// index they start on.
pub open spec fn commits_in(journal: JournalModel, events: Seq<JournalEvent>) -> nat
    decreases events.len(),
{
    if events.len() == 0 {
        0
    } else {
        let before = journal.run(events.drop_last());
        let one: nat = if events.last() is CommitSucceeded && before.accepts(events.last()) {
            1
        } else {
            0
        };
        commits_in(journal, events.drop_last()) + one
    }
}

/// Whatever happens to the index, its history only grows at its end: the
/// commits it had stay, in their order, and each commit that succeeds adds
/// exactly one.
pub proof fn lemma_history_append_only(journal: JournalModel, events: Seq<JournalEvent>)
    requires
        journal.wf(),
    ensures
        journal.run(events).wf(),
        journal.run(events).history.len() == journal.history.len() + commits_in(journal, events),
        journal.run(events).history.subrange(0, journal.history.len() as int) == journal.history,
    decreases events.len(),
{
    if events.len() > 0 {
        lemma_history_append_only(journal, events.drop_last());
        let before = journal.run(events.drop_last());
        let after = before.step(events.last());
        assert(after.history.subrange(0, journal.history.len() as int)
            =~= before.history.subrange(0, journal.history.len() as int));
    } else {
        assert(journal.history.subrange(0, journal.history.len() as int) =~= journal.history);
    }
}

/// The index after one whole change: staged, committed, released.
pub open spec fn after_change(journal: JournalModel, message: Seq<char>) -> JournalModel {
    journal.step(JournalEvent::Stage(message)).step(JournalEvent::CommitSucceeded).step(
        JournalEvent::Release,
    )
}

/// The index after a sequence of whole changes, one after the other.
pub open spec fn after_changes(journal: JournalModel, messages: Seq<Seq<char>>) -> JournalModel
    decreases messages.len(),
{
    if messages.len() == 0 {
        journal
    } else {
        after_change(after_changes(journal, messages.drop_last()), messages.last())
    }
}

/// Changes that are made one after the other, as the lock of the index
/// forces them to be, leave one commit each: the history grows by their
/// messages, in their order, and the index is idle again.
pub proof fn lemma_one_commit_per_change(journal: JournalModel, messages: Seq<Seq<char>>)
    requires
        journal.wf(),
        journal.state == JournalState::Idle,
    ensures
        after_changes(journal, messages).state == JournalState::Idle,
        after_changes(journal, messages).wf(),
        after_changes(journal, messages).history == journal.history + messages,
    decreases messages.len(),
{
    if messages.len() > 0 {
        lemma_one_commit_per_change(journal, messages.drop_last());
        assert(after_changes(journal, messages).history =~= journal.history + messages);
    } else {
        assert(journal.history + messages =~= journal.history);
    }
}

/// The index between changes, as the registry keeps it while it runs.
pub struct IndexJournal {
    /// The state.
    pub state: JournalState,
    /// The message of the staged change.
    pub pending: Option<String>,
    /// The number of commits made since the registry started, as far as the
    /// number fits.
    pub commits: u64,
    /// The messages of those commits.
    pub history: Ghost<Seq<Seq<char>>>,
}

impl View for IndexJournal {
    type V = JournalModel;

    open spec fn view(&self) -> JournalModel {
        JournalModel {
            state: self.state,
            pending: match self.pending {
                Some(message) => Some(message@),
                None => None,
            },
            history: self.history@,
        }
    }
}

impl IndexJournal {
    /// The journal is sound: a change is pending exactly while one is staged,
    /// and the count of commits is the length of the history, or the largest
    /// number if the history is longer.
    pub open spec fn wf(self) -> bool {
        &&& self@.wf()
        &&& self.commits == (if self.history@.len() <= u64::MAX {
            self.history@.len() as u64
        } else {
            u64::MAX
        })
    }

    /// The journal of an index that nobody has changed yet.
    pub fn new() -> (journal: IndexJournal)
        ensures
            journal.wf(),
            journal@ == (JournalModel {
                state: JournalState::Idle,
                pending: None,
                history: Seq::empty(),
            }),
    {
        IndexJournal { state: JournalState::Idle, pending: None, commits: 0, history: Ghost(Seq::empty()) }
    }

    /// Records that the lock was taken and a change written to the working
    /// tree. While another change is under way this is a conflict.
    pub fn stage(&mut self, message: String) -> (r: Result<(), ApiError>)
        requires
            old(self).wf(),
        ensures
            final(self).wf(),
            r is Ok <==> old(self)@.accepts(JournalEvent::Stage(message@)),
            final(self)@ == old(self)@.step(JournalEvent::Stage(message@)),
            r is Err ==> r->Err_0.is_plain(ErrorKind::Conflict),
    {
        match self.state {
            JournalState::Idle => {
                self.state = JournalState::Staged;
                self.pending = Some(message);
                Ok(())
            },
            _ => Err(error_conflict()),
        }
    }

    /// Records that the staged change was committed: its message is the new
    /// end of the history. Without a staged change this is a conflict.
    pub fn commit_succeeded(&mut self) -> (r: Result<(), ApiError>)
        requires
            old(self).wf(),
        ensures
            final(self).wf(),
            r is Ok <==> old(self)@.accepts(JournalEvent::CommitSucceeded),
            final(self)@ == old(self)@.step(JournalEvent::CommitSucceeded),
            r is Ok ==> final(self)@.history == old(self)@.history.push(old(self)@.pending->0),
            r is Err ==> r->Err_0.is_plain(ErrorKind::Conflict),
    {
        match self.state {
            JournalState::Staged => {
                let ghost message = self@.pending->0;
                self.state = JournalState::Committed;
                self.pending = None;
                if self.commits < u64::MAX {
                    self.commits = self.commits + 1;
                }
                self.history = Ghost(self.history@.push(message));
                Ok(())
            },
            _ => Err(error_conflict()),
        }
    }

    /// Records that the commit failed and the working tree was reset to the
    /// head: the history is what it was. Without a staged change this is a
    /// conflict.
    pub fn commit_failed(&mut self) -> (r: Result<(), ApiError>)
        requires
            old(self).wf(),
        ensures
            final(self).wf(),
            r is Ok <==> old(self)@.accepts(JournalEvent::CommitFailed),
            final(self)@ == old(self)@.step(JournalEvent::CommitFailed),
            final(self)@.history == old(self)@.history,
            r is Err ==> r->Err_0.is_plain(ErrorKind::Conflict),
    {
        match self.state {
            JournalState::Staged => {
                self.state = JournalState::Idle;
                self.pending = None;
                Ok(())
            },
            _ => Err(error_conflict()),
        }
    }

    /// Records that the lock was released after a commit. In any other state
    /// this is a conflict.
    pub fn release(&mut self) -> (r: Result<(), ApiError>)
        requires
            old(self).wf(),
        ensures
            final(self).wf(),
            r is Ok <==> old(self)@.accepts(JournalEvent::Release),
            final(self)@ == old(self)@.step(JournalEvent::Release),
            final(self)@.history == old(self)@.history,
            r is Err ==> r->Err_0.is_plain(ErrorKind::Conflict),
    {
        match self.state {
            JournalState::Committed => {
                self.state = JournalState::Idle;
                Ok(())
            },
            _ => Err(error_conflict()),
        }
    }
}

} // verus!
