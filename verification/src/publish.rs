//! The sequence of a publication across the metadata store, the artifact
//! store, the index and the job queue. The registry performs each step and
//! reports its outcome; what follows is decided here.

use vstd::prelude::*;
use crate::error::ErrorKind;

verus! {

/// The step that a publication is at: what the registry is to do next.
#[derive(Clone, Copy, Debug, PartialEq, Eq, Structural)]
pub enum PublishStage {
    /// Take a connection to the metadata store and open a transaction.
    Opening,
    /// Authenticate the caller.
    Authenticating,
    /// Split the upload and validate its manifest.
    Parsing,
    /// Insert the rows of the version into the metadata store.
    Inserting,
    /// Store the tarball.
    Storing,
    /// Append the line to the index and commit it.
    Indexing,
    /// Read the platforms of the package.
    ReadingTargets,
    /// Commit the transaction.
    Committing,
    /// Queue the job that builds the documentation.
    Enqueueing,
    /// Delete the tarball that was stored, as well as that can be done.
    DeletingTarball,
    /// Roll the transaction back.
    RollingBack,
    /// Nothing: the publication is over.
    Done,
}

/// A step that failed, and how.
#[derive(Clone, Copy, Debug, PartialEq, Eq, Structural)]
pub struct Failure {
    /// The step that failed.
    pub stage: PublishStage,
    /// The kind of its error.
    pub kind: ErrorKind,
}

/// A publication under way.
#[derive(Clone, Copy, Debug, PartialEq, Eq, Structural)]
pub struct Publication {
    /// What the registry is to do next.
    pub stage: PublishStage,
    /// The failure that ends the publication, if a step failed.
    pub failure: Option<Failure>,
    /// Whether the open transaction holds the rows of the version.
    pub inserted: bool,
    /// Whether the artifact store holds the tarball.
    pub stored: bool,
    /// Whether the index holds the line, committed.
    pub indexed: bool,
    /// Whether the platforms of the package are known.
    pub targets_known: bool,
    /// Whether the transaction was committed.
    pub committed: bool,
    /// Whether the job for the documentation was queued.
    pub queued: bool,
}

impl Publication {
    /// A publication of which no step was taken yet.
    pub open spec fn initial() -> Publication {
        Publication {
            stage: PublishStage::Opening,
            failure: None,
            inserted: false,
            stored: false,
            indexed: false,
            targets_known: false,
            committed: false,
            queued: false,
        }
    }

    /// The publication after the step it is at ended with the given outcome:
    /// `None` for success, else the kind of the error.
    ///
    /// Until the index is written a failure undoes what was done: the tarball
    /// is deleted if the index refused the line, and the transaction is rolled
    /// back. Once the index holds the line nothing stops the publication short
    /// of the commit of the transaction: platforms that cannot be read only
    /// cost the job, and a job that cannot be queued costs nothing, for the
    /// version stays queued in the metadata store.
    pub open spec fn step(self, outcome: Option<ErrorKind>) -> Publication {
        let failed = Some(Failure { stage: self.stage, kind: outcome->0 });
        match self.stage {
            PublishStage::Opening => if outcome is None {
                Publication { stage: PublishStage::Authenticating, ..self }
            } else {
                Publication { stage: PublishStage::Done, failure: failed, ..self }
            },
            PublishStage::Authenticating => if outcome is None {
                Publication { stage: PublishStage::Parsing, ..self }
            } else {
                Publication { stage: PublishStage::RollingBack, failure: failed, ..self }
            },
            PublishStage::Parsing => if outcome is None {
                Publication { stage: PublishStage::Inserting, ..self }
            } else {
                Publication { stage: PublishStage::RollingBack, failure: failed, ..self }
            },
            PublishStage::Inserting => if outcome is None {
                Publication { stage: PublishStage::Storing, inserted: true, ..self }
            } else {
                Publication { stage: PublishStage::RollingBack, failure: failed, ..self }
            },
            PublishStage::Storing => if outcome is None {
                Publication { stage: PublishStage::Indexing, stored: true, ..self }
            } else {
                Publication { stage: PublishStage::RollingBack, failure: failed, ..self }
            },
            PublishStage::Indexing => if outcome is None {
                Publication { stage: PublishStage::ReadingTargets, indexed: true, ..self }
            } else {
                Publication { stage: PublishStage::DeletingTarball, failure: failed, ..self }
            },
            PublishStage::ReadingTargets => Publication {
                stage: PublishStage::Committing,
                targets_known: outcome is None,
                ..self
            },
            PublishStage::Committing => if outcome is None {
                Publication {
                    stage: if self.targets_known {
                        PublishStage::Enqueueing
                    } else {
                        PublishStage::Done
                    },
                    committed: true,
                    ..self
                }
            } else {
                Publication { stage: PublishStage::Done, failure: failed, inserted: false, ..self }
            },
            PublishStage::Enqueueing => Publication {
                stage: PublishStage::Done,
                queued: outcome is None,
                ..self
            },
            PublishStage::DeletingTarball => Publication {
                stage: PublishStage::RollingBack,
                stored: outcome is Some,
                ..self
            },
            PublishStage::RollingBack => Publication {
                stage: PublishStage::Done,
                inserted: false,
                ..self
            },
            PublishStage::Done => self,
        }
    }

    /// The publication after a sequence of outcomes, one for each step taken.
    pub open spec fn run(self, outcomes: Seq<Option<ErrorKind>>) -> Publication
        decreases outcomes.len(),
    {
        if outcomes.len() == 0 {
            self
        } else {
            self.run(outcomes.drop_last()).step(outcomes.last())
        }
    }

    /// What holds of every publication, whatever the outcomes of its steps.
    ///
    /// The planes are written in one order: the index holds the line only if
    /// the tarball is stored, the tarball is stored only after the rows were
    /// inserted, and the transaction is committed only when the index holds the
    /// line. A publication that ended well has written all of them. One that
    /// failed has committed no transaction and queued no job, and if it failed
    /// before the commit it has left no line in the index; it has left a
    /// tarball only if the deletion of the tarball failed too.
    pub open spec fn wf(self) -> bool {
        &&& self.indexed ==> self.stored
        &&& self.committed ==> self.indexed
        &&& self.queued ==> self.committed && self.targets_known
        &&& self.stored && self.failure is None ==> self.inserted || self.committed
        &&& self.stage == PublishStage::Done && self.failure is None ==> self.committed
        &&& self.committed ==> self.failure is None
        &&& self.failure is Some ==> !self.queued && self.stage != PublishStage::Enqueueing
        &&& self.failure is Some && self.failure->0.stage != PublishStage::Committing
            ==> !self.indexed
        &&& self.failure is Some && self.failure->0.stage != PublishStage::Committing
            && self.failure->0.stage != PublishStage::Indexing ==> !self.stored
        &&& self.failure is Some && self.stage == PublishStage::Done ==> !self.inserted
        &&& self.failure is None ==> (match self.stage {
            PublishStage::Opening | PublishStage::Authenticating | PublishStage::Parsing
            | PublishStage::Inserting => !self.inserted && !self.stored && !self.indexed,
            PublishStage::Storing => self.inserted && !self.stored && !self.indexed,
            PublishStage::Indexing => self.inserted && self.stored && !self.indexed,
            PublishStage::ReadingTargets | PublishStage::Committing => self.inserted
                && self.indexed && !self.committed,
            PublishStage::Enqueueing => self.committed && self.targets_known,
            PublishStage::DeletingTarball | PublishStage::RollingBack => false,
            PublishStage::Done => self.committed,
        })
        &&& self.failure is Some ==> (match self.stage {
            PublishStage::DeletingTarball => self.failure->0.stage == PublishStage::Indexing
                && self.stored,
            PublishStage::RollingBack => self.failure->0.stage != PublishStage::Committing
                && self.failure->0.stage != PublishStage::Opening,
            PublishStage::Done => true,
            _ => false,
        })
    }

    /// Whether the publication ended well.
    pub open spec fn is_completed(self) -> bool {
        self.stage == PublishStage::Done && self.failure is None
    }

    /// Begins a publication.
    pub fn start() -> (p: Publication)
        ensures
            p == Publication::initial(),
            p.wf(),
    {
        Publication {
            stage: PublishStage::Opening,
            failure: None,
            inserted: false,
            stored: false,
            indexed: false,
            targets_known: false,
            committed: false,
            queued: false,
        }
    }

    /// Takes note of the outcome of the step the publication is at, `None`
    /// for success, and moves to the step that follows.
    pub fn advance(&mut self, outcome: Option<ErrorKind>)
        requires
            old(self).wf(),
        ensures
            *final(self) == old(self).step(outcome),
            final(self).wf(),
    {
        let stage = self.stage;
        match stage {
            PublishStage::Opening => match outcome {
                None => {
                    self.stage = PublishStage::Authenticating;
                },
                Some(kind) => {
                    self.stage = PublishStage::Done;
                    self.failure = Some(Failure { stage, kind });
                },
            },
            PublishStage::Authenticating => match outcome {
                None => {
                    self.stage = PublishStage::Parsing;
                },
                Some(kind) => {
                    self.stage = PublishStage::RollingBack;
                    self.failure = Some(Failure { stage, kind });
                },
            },
            PublishStage::Parsing => match outcome {
                None => {
                    self.stage = PublishStage::Inserting;
                },
                Some(kind) => {
                    self.stage = PublishStage::RollingBack;
                    self.failure = Some(Failure { stage, kind });
                },
            },
            PublishStage::Inserting => match outcome {
                None => {
                    self.stage = PublishStage::Storing;
                    self.inserted = true;
                },
                Some(kind) => {
                    self.stage = PublishStage::RollingBack;
                    self.failure = Some(Failure { stage, kind });
                },
            },
            PublishStage::Storing => match outcome {
                None => {
                    self.stage = PublishStage::Indexing;
                    self.stored = true;
                },
                Some(kind) => {
                    self.stage = PublishStage::RollingBack;
                    self.failure = Some(Failure { stage, kind });
                },
            },
            PublishStage::Indexing => match outcome {
                None => {
                    self.stage = PublishStage::ReadingTargets;
                    self.indexed = true;
                },
                Some(kind) => {
                    self.stage = PublishStage::DeletingTarball;
                    self.failure = Some(Failure { stage, kind });
                },
            },
            PublishStage::ReadingTargets => {
                self.stage = PublishStage::Committing;
                self.targets_known = outcome.is_none();
            },
            PublishStage::Committing => match outcome {
                None => {
                    self.stage = if self.targets_known {
                        PublishStage::Enqueueing
                    } else {
                        PublishStage::Done
                    };
                    self.committed = true;
                },
                Some(kind) => {
                    self.stage = PublishStage::Done;
                    self.failure = Some(Failure { stage, kind });
                    self.inserted = false;
                },
            },
            PublishStage::Enqueueing => {
                self.stage = PublishStage::Done;
                self.queued = outcome.is_none();
            },
            PublishStage::DeletingTarball => {
                self.stage = PublishStage::RollingBack;
                self.stored = outcome.is_some();
            },
            PublishStage::RollingBack => {
                self.stage = PublishStage::Done;
                self.inserted = false;
            },
            PublishStage::Done => {},
        }
    }

    /// The result of the publication once it is over: success, or the kind of
    /// the error of the step that failed.
    pub fn result(&self) -> (r: Option<Result<(), ErrorKind>>)
        ensures
            r is Some <==> self.stage == PublishStage::Done,
            r is Some ==> (match self.failure {
                None => r->0 is Ok,
                Some(failure) => r->0 is Err && r->0->Err_0 == failure.kind,
            }),
    {
        match self.stage {
            PublishStage::Done => match self.failure {
                None => Some(Ok(())),
                Some(failure) => Some(Err(failure.kind)),
            },
            _ => None,
        }
    }
}

/// Whatever the outcomes of its steps, a publication keeps to the order of
/// the planes.
pub proof fn lemma_publication_is_sound(outcomes: Seq<Option<ErrorKind>>)
    ensures
        Publication::initial().run(outcomes).wf(),
    decreases outcomes.len(),
{
    if outcomes.len() > 0 {
        lemma_publication_is_sound(outcomes.drop_last());
    }
}

/// A publication that ended well has inserted and committed the rows of the
/// version, stored the tarball and written the line of the index.
pub proof fn lemma_completed_publication_is_whole(outcomes: Seq<Option<ErrorKind>>)
    requires
        Publication::initial().run(outcomes).is_completed(),
    ensures
        Publication::initial().run(outcomes).committed,
        Publication::initial().run(outcomes).stored,
        Publication::initial().run(outcomes).indexed,
{
    lemma_publication_is_sound(outcomes);
}

/// A publication that failed before the commit of its transaction has left
/// no row in the metadata store and no line in the index.
pub proof fn lemma_failed_publication_leaves_nothing(outcomes: Seq<Option<ErrorKind>>)
    requires
        Publication::initial().run(outcomes).stage == PublishStage::Done,
        Publication::initial().run(outcomes).failure is Some,
        Publication::initial().run(outcomes).failure->0.stage != PublishStage::Committing,
    ensures
        !Publication::initial().run(outcomes).inserted,
        !Publication::initial().run(outcomes).committed,
        !Publication::initial().run(outcomes).indexed,
        !Publication::initial().run(outcomes).queued,
{
    lemma_publication_is_sound(outcomes);
}

} // verus!
