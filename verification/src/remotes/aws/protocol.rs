//! The diff itself: what is done next, given how the last thing went.
//!
//! A session runs inside one transaction on the state database. It compares every object that the
//! bucket lists with the row that the database has for the object's key, tells the change handler
//! what differs and brings the row up to date. Rows that no listed object has marked as seen
//! belong to objects that are gone; they are reported and removed at the end.

use super::listing::{BatchView, NextView, PageView, RequestView, PAGE_SIZE};
use super::object::{ChangeView, CompactView, ObjectView, Tally};
use vstd::prelude::*;

verus! {

/// After how many objects progress is reported.
pub const PROGRESS_INTERVAL: u64 = 10_000;

/// A row of the state table.
pub struct StoredView {
    pub key: Seq<char>,
    pub state: CompactView,
}

/// What is to be done next.
pub enum ActionView {
    AddSeenColumn,
    ResetSeen,
    PrepareLookup,
    PrepareUpsert,
    PrepareMarkSeen,
    Connect,
    ListObjects(RequestView),
    Lookup(Seq<char>),
    Upsert(StoredView),
    MarkSeen(Seq<char>),
    Notify(ChangeView),
    PrepareUnseen,
    SelectUnseen,
    PrepareDelete,
    Delete(Seq<char>),
    DropSeenColumn,
    ReadClock,
    RecordUpdate(int),
    Commit,
    Finish(Tally),
    Abort,
}

/// How an action went.
pub enum OutcomeView {
    Done,
    Failed,
    Page(PageView),
    Found(Option<CompactView>),
    Unseen(Seq<StoredView>),
    Time(int),
}

/// What is to be reported.
pub enum NoticeView {
    ObjectFailed,
    Compared(Tally),
    Listed(nat),
    ListedInTotal(nat),
    SeenColumnKept,
}

/// What a session is waiting for.
pub enum StageView {
    AddingSeenColumn,
    ResettingSeen,
    PreparingLookup,
    PreparingUpsert,
    PreparingMarkSeen,
    Connecting,
    Listing,
    LookingUp { object: ObjectView, batch: BatchView },
    Inserting { object: ObjectView, batch: BatchView },
    MarkingSeen { object: ObjectView, previous: CompactView, batch: BatchView },
    Updating { object: ObjectView, previous: CompactView, batch: BatchView },
    Notifying { batch: BatchView },
    PreparingUnseen,
    SelectingUnseen,
    PreparingDelete { rows: Seq<StoredView> },
    NotifyingDeleted { key: Seq<char>, rows: Seq<StoredView> },
    Deleting { rows: Seq<StoredView> },
    DroppingSeenColumn,
    ReadingClock,
    RecordingUpdate,
    Committing,
    Finished,
    Aborted,
}

/// What a session keeps through all its stages: the bucket, the counts, and how many listed objects
/// it has dealt with.
pub struct LedgerView {
    pub bucket: Seq<char>,
    pub tally: Tally,
    pub listed: nat,
}

/// What a session knows.
pub struct SessionView {
    pub ledger: LedgerView,
    pub stage: StageView,
}

/// What one step of a session says.
pub struct StepView {
    pub session: SessionView,
    pub notices: Seq<NoticeView>,
    pub action: ActionView,
}

impl ObjectView {
    /// The row that remembers the object.
    pub open spec fn stored(self) -> StoredView {
        StoredView { key: self.key, state: self.compact() }
    }
}

impl LedgerView {
    /// A session that goes on with the given stage and action, and has nothing to report.
    pub open spec fn to(self, stage: StageView, action: ActionView) -> StepView {
        StepView { session: SessionView { ledger: self, stage }, notices: seq![], action }
    }

    /// A session that gives up.
    pub open spec fn abort(self) -> StepView {
        self.to(StageView::Aborted, ActionView::Abort)
    }

    /// A session that goes on after a success and gives up after a failure.
    pub open spec fn to_if_done(
        self,
        outcome: OutcomeView,
        stage: StageView,
        action: ActionView,
    ) -> StepView {
        if outcome is Done {
            self.to(stage, action)
        } else {
            self.abort()
        }
    }

    /// A session that asks for a page.
    pub open spec fn list(self, token: Option<Seq<char>>) -> StepView {
        self.to(
            StageView::Listing,
            ActionView::ListObjects(
                RequestView {
                    bucket: self.bucket,
                    max_keys: PAGE_SIZE as int,
                    continuation_token: token,
                },
            ),
        )
    }

    /// A session that turns to the next object of the page, or, where none is left, to the next
    /// page, or, where that was the last one, to the rows of objects that are gone.
    pub open spec fn advance(self, batch: BatchView, notices: Seq<NoticeView>) -> StepView {
        if batch.rest.len() > 0 {
            let object = batch.rest[0];
            let batch = BatchView { rest: batch.rest.drop_first(), next: batch.next };
            StepView {
                notices,
                ..self.to(
                    StageView::LookingUp { object, batch },
                    ActionView::Lookup(object.key),
                )
            }
        } else {
            match batch.next {
                NextView::Page(token) => StepView { notices, ..self.list(token) },
                NextView::End => StepView {
                    notices: notices.push(NoticeView::ListedInTotal(self.listed)),
                    ..self.to(StageView::PreparingUnseen, ActionView::PrepareUnseen)
                },
            }
        }
    }

    /// A session that has dealt with one more listed object.
    pub open spec fn counted(self) -> LedgerView {
        LedgerView { listed: self.listed + 1, ..self }
    }

    /// The progress that is reported when one more listed object has been dealt with.
    pub open spec fn listing_progress(self) -> Seq<NoticeView> {
        if self.listed % (PROGRESS_INTERVAL as nat) == 0 {
            seq![NoticeView::Listed(self.listed)]
        } else {
            seq![]
        }
    }

    /// What is reported of an object that could not be dealt with.
    pub open spec fn notices_if_failed(self) -> Seq<NoticeView> {
        seq![NoticeView::ObjectFailed] + self.counted().listing_progress()
    }

    /// What is reported of an object that has been dealt with.
    pub open spec fn notices_if_done(self) -> Seq<NoticeView> {
        let comparing_progress = if self.tally.compared() % (PROGRESS_INTERVAL as nat) == 0 {
            seq![NoticeView::Compared(self.tally)]
        } else {
            seq![]
        };
        comparing_progress + self.counted().listing_progress()
    }

    /// A session that leaves an object that could not be dealt with, and goes on with the others.
    pub open spec fn object_failed(self, batch: BatchView) -> StepView {
        self.counted().advance(batch, self.notices_if_failed())
    }

    /// A session that is done with an object, and goes on with the others.
    pub open spec fn object_done(self, batch: BatchView) -> StepView {
        self.counted().advance(batch, self.notices_if_done())
    }

    /// A session that turns to the next row of an object that is gone, or, where none is left,
    /// tidies up.
    pub open spec fn advance_deletion(self, rows: Seq<StoredView>) -> StepView {
        if rows.len() > 0 {
            let row = rows[0];
            LedgerView {
                tally: Tally { deleted: self.tally.deleted + 1, ..self.tally },
                ..self
            }.to(
                StageView::NotifyingDeleted { key: row.key, rows: rows.drop_first() },
                ActionView::Notify(ChangeView::Deleted(row.state.object(row.key))),
            )
        } else {
            self.to(StageView::DroppingSeenColumn, ActionView::DropSeenColumn)
        }
    }

    /// A session that writes the row of an object, in the given stage.
    pub open spec fn write(self, object: ObjectView, stage: StageView) -> StepView {
        self.to(stage, ActionView::Upsert(object.stored()))
    }

    /// A session whose object the database did not know, and whose row it has now written. The object
    /// is counted as added, and the change handler is told.
    pub open spec fn added(self, object: ObjectView, batch: BatchView) -> StepView {
        LedgerView { tally: Tally { added: self.tally.added + 1, ..self.tally }, ..self }.to(
            StageView::Notifying { batch },
            ActionView::Notify(ChangeView::Added(object)),
        )
    }

    /// A session whose object the database knew under another entity tag, and whose row it has now
    /// written. The object is counted as modified, and the change handler is told.
    pub open spec fn modified(
        self,
        object: ObjectView,
        previous: CompactView,
        batch: BatchView,
    ) -> StepView {
        LedgerView { tally: Tally { modified: self.tally.modified + 1, ..self.tally }, ..self }.to(
            StageView::Notifying { batch },
            ActionView::Notify(
                ChangeView::Modified { old: previous.object(object.key), new: object },
            ),
        )
    }

    /// A session whose object the database knew, and has now marked as seen. The entity tag alone
    /// tells whether the object changed.
    pub open spec fn compare(
        self,
        object: ObjectView,
        previous: CompactView,
        batch: BatchView,
    ) -> StepView {
        if previous.etag != object.etag {
            self.write(object, StageView::Updating { object, previous, batch })
        } else {
            LedgerView {
                tally: Tally { unchanged: self.tally.unchanged + 1, ..self.tally },
                ..self
            }.object_done(batch)
        }
    }
}

impl SessionView {
    /// How a session goes on, given how its last action went. An outcome that does not answer the
    /// action counts as its failure.
    pub open spec fn next(self, outcome: OutcomeView) -> StepView {
        let ledger = self.ledger;
        match self.stage {
            StageView::AddingSeenColumn => ledger.to(
                StageView::ResettingSeen,
                ActionView::ResetSeen,
            ),
            StageView::ResettingSeen => ledger.to_if_done(
                outcome,
                StageView::PreparingLookup,
                ActionView::PrepareLookup,
            ),
            StageView::PreparingLookup => ledger.to_if_done(
                outcome,
                StageView::PreparingUpsert,
                ActionView::PrepareUpsert,
            ),
            StageView::PreparingUpsert => ledger.to_if_done(
                outcome,
                StageView::PreparingMarkSeen,
                ActionView::PrepareMarkSeen,
            ),
            StageView::PreparingMarkSeen => ledger.to_if_done(
                outcome,
                StageView::Connecting,
                ActionView::Connect,
            ),
            StageView::Connecting => if outcome is Done {
                ledger.list(None)
            } else {
                ledger.abort()
            },
            StageView::Listing => match outcome {
                OutcomeView::Page(page) => ledger.advance(page.batch(), seq![]),
                _ => ledger.abort(),
            },
            StageView::LookingUp { object, batch } => match outcome {
                OutcomeView::Found(None) => ledger.write(
                    object,
                    StageView::Inserting { object, batch },
                ),
                OutcomeView::Found(Some(previous)) => ledger.to(
                    StageView::MarkingSeen { object, previous, batch },
                    ActionView::MarkSeen(object.key),
                ),
                _ => ledger.object_failed(batch),
            },
            StageView::Inserting { object, batch } => if outcome is Done {
                ledger.added(object, batch)
            } else {
                ledger.object_failed(batch)
            },
            StageView::MarkingSeen { object, previous, batch } => if outcome is Done {
                ledger.compare(object, previous, batch)
            } else {
                ledger.object_failed(batch)
            },
            StageView::Updating { object, previous, batch } => if outcome is Done {
                ledger.modified(object, previous, batch)
            } else {
                ledger.object_failed(batch)
            },
            StageView::Notifying { batch } => if outcome is Done {
                ledger.object_done(batch)
            } else {
                ledger.object_failed(batch)
            },
            StageView::PreparingUnseen => ledger.to_if_done(
                outcome,
                StageView::SelectingUnseen,
                ActionView::SelectUnseen,
            ),
            StageView::SelectingUnseen => match outcome {
                OutcomeView::Unseen(rows) => ledger.to(
                    StageView::PreparingDelete { rows },
                    ActionView::PrepareDelete,
                ),
                _ => ledger.abort(),
            },
            StageView::PreparingDelete { rows } => if outcome is Done {
                ledger.advance_deletion(rows)
            } else {
                ledger.abort()
            },
            StageView::NotifyingDeleted { key, rows } => ledger.to_if_done(
                outcome,
                StageView::Deleting { rows },
                ActionView::Delete(key),
            ),
            StageView::Deleting { rows } => if outcome is Done {
                ledger.advance_deletion(rows)
            } else {
                ledger.abort()
            },
            StageView::DroppingSeenColumn => StepView {
                notices: if outcome is Done {
                    seq![]
                } else {
                    seq![NoticeView::SeenColumnKept]
                },
                ..ledger.to(StageView::ReadingClock, ActionView::ReadClock)
            },
            StageView::ReadingClock => match outcome {
                OutcomeView::Time(time) => ledger.to(
                    StageView::RecordingUpdate,
                    ActionView::RecordUpdate(time),
                ),
                _ => ledger.abort(),
            },
            StageView::RecordingUpdate => ledger.to_if_done(
                outcome,
                StageView::Committing,
                ActionView::Commit,
            ),
            StageView::Committing => ledger.to_if_done(
                outcome,
                StageView::Finished,
                ActionView::Finish(ledger.tally),
            ),
            StageView::Finished => ledger.to(StageView::Finished, ActionView::Finish(ledger.tally)),
            StageView::Aborted => ledger.abort(),
        }
    }
}

/// How a session on the given bucket begins.
pub open spec fn first_step(bucket: Seq<char>) -> StepView {
    StepView {
        session: SessionView {
            ledger: LedgerView { bucket, tally: Tally::zero(), listed: 0 },
            stage: StageView::AddingSeenColumn,
        },
        notices: seq![],
        action: ActionView::AddSeenColumn,
    }
}

/// Whether the counts of a session agree with its stage. No more objects are counted as compared than
/// have been dealt with, but for the one that the change handler is told of. No row is counted as
/// deleted before the unseen rows are known, and then no more than there are.
pub open spec fn well_counted(s: SessionView) -> bool {
    &&& match s.stage {
        StageView::Notifying { .. } => s.ledger.tally.compared() <= s.ledger.listed + 1,
        _ => s.ledger.tally.compared() <= s.ledger.listed,
    }
    &&& match s.stage {
        StageView::PreparingDelete { rows } => s.ledger.tally.deleted + rows.len() <= usize::MAX,
        StageView::NotifyingDeleted { key, rows } => s.ledger.tally.deleted + rows.len() <= usize::MAX,
        StageView::Deleting { rows } => s.ledger.tally.deleted + rows.len() <= usize::MAX,
        StageView::DroppingSeenColumn
        | StageView::ReadingClock
        | StageView::RecordingUpdate
        | StageView::Committing
        | StageView::Finished
        | StageView::Aborted => true,
        _ => s.ledger.tally.deleted == 0,
    }
}

} // verus!
