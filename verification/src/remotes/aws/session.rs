//! Diff sessions that run.

use super::listing::{Batch, ListPage, ListRequest, NextPage, PAGE_SIZE};
use super::object::{Change, CompactS3Object, DiffStats, S3Object};
use super::protocol::{
    ActionView, LedgerView, NoticeView, OutcomeView, SessionView, StageView, StepView, StoredView,
    PROGRESS_INTERVAL,
};
use std::collections::VecDeque;
use vstd::prelude::*;

verus! {

/// What each of a sequence of notices says.
pub open spec fn notice_views(notices: Seq<Notice>) -> Seq<NoticeView> {
    notices.map_values(|n: Notice| n@)
}

/// What each of a sequence of stored objects says.
pub open spec fn stored_views(rows: Seq<StoredObject>) -> Seq<StoredView> {
    rows.map_values(|r: StoredObject| r@)
}

/// A row to be written to the state table.
pub struct StateRow {
    pub key: String,
    pub etag: String,
    pub size: i64,
    pub last_modified: i64,
}

impl View for StateRow {
    type V = StoredView;

    open spec fn view(&self) -> StoredView {
        StoredView {
            key: self.key@,
            state: super::object::CompactView {
                etag: self.etag@,
                size: self.size as int,
                last_modified: self.last_modified as int,
            },
        }
    }
}

impl S3Object {
    /// The row that remembers the object.
    pub fn to_row(&self) -> (row: StateRow)
        ensures
            row@ == self@.stored(),
            row.key@ == self.key@,
            row.etag@ == self.etag@,
            row.size == self.size,
            row.last_modified == self.last_modified@.secs,
    {
        StateRow {
            key: self.key.clone(),
            etag: self.etag.clone(),
            size: self.size,
            last_modified: self.last_modified.timestamp(),
        }
    }
}

/// A row that was read from the state table.
pub struct StoredObject {
    pub key: String,
    pub state: CompactS3Object,
}

impl View for StoredObject {
    type V = StoredView;

    open spec fn view(&self) -> StoredView {
        StoredView { key: self.key@, state: self.state@ }
    }
}

/// What the caller is to do next.
pub enum Action {
    /// Add the column that marks rows as seen. It may be there already.
    AddSeenColumn,
    /// Mark every row as not seen.
    ResetSeen,
    /// Prepare the statement that reads the row of a key.
    PrepareLookup,
    /// Prepare the statement that writes a row and marks it as seen.
    PrepareUpsert,
    /// Prepare the statement that marks the row of a key as seen.
    PrepareMarkSeen,
    /// Create a client of the service.
    Connect,
    /// Ask the service for a page of the listing.
    ListObjects(ListRequest),
    /// Read the row of a key.
    Lookup { key: String },
    /// Write a row and mark it as seen.
    Upsert(StateRow),
    /// Mark the row of a key as seen.
    MarkSeen { key: String },
    /// Tell the change handler.
    Notify(Change),
    /// Prepare the statement that reads the rows that are not marked as seen.
    PrepareUnseen,
    /// Read the rows that are not marked as seen.
    SelectUnseen,
    /// Prepare the statement that removes the row of a key.
    PrepareDelete,
    /// Remove the row of a key.
    Delete { key: String },
    /// Remove the column that marks rows as seen.
    DropSeenColumn,
    /// Read the clock.
    ReadClock,
    /// Record the time of this update, in Unix seconds.
    RecordUpdate { time: i64 },
    /// Commit the transaction.
    Commit,
    /// Return the counts.
    Finish(DiffStats),
    /// Roll the transaction back and return the error of the last action.
    Abort,
}

impl View for Action {
    type V = ActionView;

    open spec fn view(&self) -> ActionView {
        match self {
            Action::AddSeenColumn => ActionView::AddSeenColumn,
            Action::ResetSeen => ActionView::ResetSeen,
            Action::PrepareLookup => ActionView::PrepareLookup,
            Action::PrepareUpsert => ActionView::PrepareUpsert,
            Action::PrepareMarkSeen => ActionView::PrepareMarkSeen,
            Action::Connect => ActionView::Connect,
            Action::ListObjects(request) => ActionView::ListObjects(request@),
            Action::Lookup { key } => ActionView::Lookup(key@),
            Action::Upsert(row) => ActionView::Upsert(row@),
            Action::MarkSeen { key } => ActionView::MarkSeen(key@),
            Action::Notify(change) => ActionView::Notify(change@),
            Action::PrepareUnseen => ActionView::PrepareUnseen,
            Action::SelectUnseen => ActionView::SelectUnseen,
            Action::PrepareDelete => ActionView::PrepareDelete,
            Action::Delete { key } => ActionView::Delete(key@),
            Action::DropSeenColumn => ActionView::DropSeenColumn,
            Action::ReadClock => ActionView::ReadClock,
            Action::RecordUpdate { time } => ActionView::RecordUpdate(*time as int),
            Action::Commit => ActionView::Commit,
            Action::Finish(stats) => ActionView::Finish(stats@),
            Action::Abort => ActionView::Abort,
        }
    }
}

/// How the last action went.
pub enum Outcome {
    /// It succeeded and had nothing to say.
    Done,
    /// It failed.
    Failed,
    /// The service answered with a page.
    Page(ListPage),
    /// The row of the key was read, or there is none.
    Found(Option<CompactS3Object>),
    /// The rows that are not marked as seen were read.
    Unseen(Vec<StoredObject>),
    /// The clock was read, in Unix seconds.
    Time(i64),
}

impl View for Outcome {
    type V = OutcomeView;

    open spec fn view(&self) -> OutcomeView {
        match self {
            Outcome::Done => OutcomeView::Done,
            Outcome::Failed => OutcomeView::Failed,
            Outcome::Page(page) => OutcomeView::Page(page@),
            Outcome::Found(Some(state)) => OutcomeView::Found(Some(state@)),
            Outcome::Found(None) => OutcomeView::Found(None),
            Outcome::Unseen(rows) => OutcomeView::Unseen(stored_views(rows@)),
            Outcome::Time(time) => OutcomeView::Time(*time as int),
        }
    }
}

/// What the caller is to report before the next action.
pub enum Notice {
    /// An object could not be dealt with: the last action failed.
    ObjectFailed,
    /// So many objects have been compared.
    Compared(DiffStats),
    /// So many objects have been listed so far.
    Listed(u64),
    /// So many objects have been listed in total.
    ListedInTotal(u64),
    /// The column that marks rows as seen could not be removed.
    SeenColumnKept,
}

impl View for Notice {
    type V = NoticeView;

    open spec fn view(&self) -> NoticeView {
        match self {
            Notice::ObjectFailed => NoticeView::ObjectFailed,
            Notice::Compared(stats) => NoticeView::Compared(stats@),
            Notice::Listed(listed) => NoticeView::Listed(*listed as nat),
            Notice::ListedInTotal(listed) => NoticeView::ListedInTotal(*listed as nat),
            Notice::SeenColumnKept => NoticeView::SeenColumnKept,
        }
    }
}

enum Stage {
    AddingSeenColumn,
    ResettingSeen,
    PreparingLookup,
    PreparingUpsert,
    PreparingMarkSeen,
    Connecting,
    Listing,
    LookingUp { object: S3Object, batch: Batch },
    Inserting { object: S3Object, batch: Batch },
    MarkingSeen { object: S3Object, previous: CompactS3Object, batch: Batch },
    Updating { object: S3Object, previous: CompactS3Object, batch: Batch },
    Notifying { batch: Batch },
    PreparingUnseen,
    SelectingUnseen,
    PreparingDelete { rows: VecDeque<StoredObject> },
    NotifyingDeleted { key: String, rows: VecDeque<StoredObject> },
    Deleting { rows: VecDeque<StoredObject> },
    DroppingSeenColumn,
    ReadingClock,
    RecordingUpdate,
    Committing,
    Finished,
    Aborted,
}

impl View for Stage {
    type V = StageView;

    closed spec fn view(&self) -> StageView {
        match self {
            Stage::AddingSeenColumn => StageView::AddingSeenColumn,
            Stage::ResettingSeen => StageView::ResettingSeen,
            Stage::PreparingLookup => StageView::PreparingLookup,
            Stage::PreparingUpsert => StageView::PreparingUpsert,
            Stage::PreparingMarkSeen => StageView::PreparingMarkSeen,
            Stage::Connecting => StageView::Connecting,
            Stage::Listing => StageView::Listing,
            Stage::LookingUp { object, batch } => StageView::LookingUp {
                object: object@,
                batch: batch@,
            },
            Stage::Inserting { object, batch } => StageView::Inserting {
                object: object@,
                batch: batch@,
            },
            Stage::MarkingSeen { object, previous, batch } => StageView::MarkingSeen {
                object: object@,
                previous: previous@,
                batch: batch@,
            },
            Stage::Updating { object, previous, batch } => StageView::Updating {
                object: object@,
                previous: previous@,
                batch: batch@,
            },
            Stage::Notifying { batch } => StageView::Notifying { batch: batch@ },
            Stage::PreparingUnseen => StageView::PreparingUnseen,
            Stage::SelectingUnseen => StageView::SelectingUnseen,
            Stage::PreparingDelete { rows } => StageView::PreparingDelete {
                rows: stored_views(rows@),
            },
            Stage::NotifyingDeleted { key, rows } => StageView::NotifyingDeleted {
                key: key@,
                rows: stored_views(rows@),
            },
            Stage::Deleting { rows } => StageView::Deleting { rows: stored_views(rows@) },
            Stage::DroppingSeenColumn => StageView::DroppingSeenColumn,
            Stage::ReadingClock => StageView::ReadingClock,
            Stage::RecordingUpdate => StageView::RecordingUpdate,
            Stage::Committing => StageView::Committing,
            Stage::Finished => StageView::Finished,
            Stage::Aborted => StageView::Aborted,
        }
    }
}

/// What a session keeps through all its stages.
struct Ledger {
    bucket: String,
    stats: DiffStats,
    listed: u64,
}

impl View for Ledger {
    type V = LedgerView;

    closed spec fn view(&self) -> LedgerView {
        LedgerView {
            bucket: self.bucket@,
            tally: self.stats@,
            listed: self.listed as nat,
        }
    }
}

/// A diff of one bucket against one state database, waiting for the outcome of an action.
pub struct DiffSession {
    ledger: Ledger,
    stage: Stage,
}

impl View for DiffSession {
    type V = SessionView;

    closed spec fn view(&self) -> SessionView {
        SessionView { ledger: self.ledger@, stage: self.stage@ }
    }
}

/// How a session goes on: what to report, and then what to do.
pub struct Step {
    pub session: DiffSession,
    pub notices: Vec<Notice>,
    pub action: Action,
}

impl View for Step {
    type V = StepView;

    open spec fn view(&self) -> StepView {
        StepView {
            session: self.session@,
            notices: notice_views(self.notices@),
            action: self.action@,
        }
    }
}

impl Ledger {
    fn report_and(self, notices: Vec<Notice>, stage: Stage, action: Action) -> (step: Step)
        requires
            super::protocol::well_counted(SessionView { ledger: self@, stage: stage@ }),
        ensures
            step@ == (StepView {
                notices: notice_views(notices@),
                ..self@.to(stage@, action@)
            }),
    {
        Step { session: DiffSession { ledger: self, stage }, notices, action }
    }

    fn to(self, stage: Stage, action: Action) -> (step: Step)
        requires
            super::protocol::well_counted(SessionView { ledger: self@, stage: stage@ }),
        ensures
            step@ == self@.to(stage@, action@),
    {
        let notices: Vec<Notice> = Vec::new();
        assert(notice_views(notices@) =~= seq![]);
        self.report_and(notices, stage, action)
    }

    fn abort(self) -> (step: Step)
        requires
            self@.tally.compared() <= self@.listed,
        ensures
            step@ == self@.abort(),
    {
        self.to(Stage::Aborted, Action::Abort)
    }

    fn to_if(self, done: bool, stage: Stage, action: Action) -> (step: Step)
        requires
            self@.tally.compared() <= self@.listed,
            super::protocol::well_counted(SessionView { ledger: self@, stage: stage@ }),
        ensures
            step@ == (if done {
                self@.to(stage@, action@)
            } else {
                self@.abort()
            }),
    {
        if done {
            self.to(stage, action)
        } else {
            self.abort()
        }
    }

    fn request(&self, continuation_token: Option<String>) -> (action: Action)
        ensures
            action@ == self@.list(super::listing::text(continuation_token)).action,
    {
        Action::ListObjects(
            ListRequest { bucket: self.bucket.clone(), max_keys: PAGE_SIZE, continuation_token },
        )
    }

    fn advance(self, batch: Batch, notices: Vec<Notice>) -> (step: Step)
        requires
            self@.tally.compared() <= self@.listed,
            self@.tally.deleted == 0,
        ensures
            step@ == self@.advance(batch@, notice_views(notices@)),
    {
        let mut batch = batch;
        let mut notices = notices;
        let ghost start = batch@;
        match batch.rest.pop_front() {
            Some(object) => {
                assert(start.rest[0] == object@);
                assert(batch@.rest =~= start.rest.drop_first());
                let key = object.key.clone();
                self.report_and(notices, Stage::LookingUp { object, batch }, Action::Lookup { key })
            },
            None => match batch.next {
                NextPage::Page(token) => {
                    let action = self.request(token);
                    self.report_and(notices, Stage::Listing, action)
                },
                NextPage::End => {
                    let listed = self.listed;
                    let ghost before = notices@;
                    notices.push(Notice::ListedInTotal(listed));
                    assert(notice_views(notices@) =~= notice_views(before).push(
                        NoticeView::ListedInTotal(listed as nat),
                    ));
                    self.report_and(notices, Stage::PreparingUnseen, Action::PrepareUnseen)
                },
            },
        }
    }

    fn count_and_advance(self, batch: Batch, notices: Vec<Notice>) -> (step: Step)
        requires
            self@.tally.compared() <= self@.listed + 1,
            self@.tally.deleted == 0,
            self@.listed < u64::MAX,
        ensures
            step@ == self@.counted().advance(
                batch@,
                notice_views(notices@) + self@.counted().listing_progress(),
            ),
    {
        let listed: u64 = self.listed + 1;
        let mut notices = notices;
        let ghost before = notice_views(notices@);
        if listed % PROGRESS_INTERVAL == 0 {
            notices.push(Notice::Listed(listed));
        }
        assert(notice_views(notices@) =~= before + self@.counted().listing_progress());
        Ledger { bucket: self.bucket, stats: self.stats, listed }.advance(batch, notices)
    }

    fn object_failed(self, batch: Batch) -> (step: Step)
        requires
            self@.tally.compared() <= self@.listed + 1,
            self@.tally.deleted == 0,
            self@.listed < u64::MAX,
        ensures
            step@ == self@.object_failed(batch@),
    {
        let mut notices: Vec<Notice> = Vec::new();
        notices.push(Notice::ObjectFailed);
        assert(notice_views(notices@) =~= seq![NoticeView::ObjectFailed]);
        self.count_and_advance(batch, notices)
    }

    fn object_done(self, batch: Batch) -> (step: Step)
        requires
            self@.tally.compared() <= self@.listed + 1,
            self@.tally.deleted == 0,
            self@.listed < u64::MAX,
        ensures
            step@ == self@.object_done(batch@),
    {
        let stats = self.stats;
        let mut notices: Vec<Notice> = Vec::new();
        if (stats.added + stats.modified + stats.unchanged) % PROGRESS_INTERVAL == 0 {
            notices.push(Notice::Compared(stats));
            assert(notice_views(notices@) =~= seq![NoticeView::Compared(stats@)]);
        } else {
            assert(notice_views(notices@) =~= seq![]);
        }
        self.count_and_advance(batch, notices)
    }

    fn added(self, object: S3Object, batch: Batch) -> (step: Step)
        requires
            self@.tally.compared() <= self@.listed,
            self@.tally.deleted == 0,
            self@.listed < u64::MAX,
        ensures
            step@ == self@.added(object@, batch@),
    {
        let stats = DiffStats { added: self.stats.added + 1, ..self.stats };
        Ledger { bucket: self.bucket, stats, listed: self.listed }.to(
            Stage::Notifying { batch },
            Action::Notify(Change::Added(object)),
        )
    }

    fn modified(self, object: S3Object, previous: CompactS3Object, batch: Batch) -> (step: Step)
        requires
            self@.tally.compared() <= self@.listed,
            self@.tally.deleted == 0,
            self@.listed < u64::MAX,
        ensures
            step@ == self@.modified(object@, previous@, batch@),
    {
        let stats = DiffStats { modified: self.stats.modified + 1, ..self.stats };
        let old = previous.into_object(object.key.clone());
        Ledger { bucket: self.bucket, stats, listed: self.listed }.to(
            Stage::Notifying { batch },
            Action::Notify(Change::Modified { old, new: object }),
        )
    }

    fn compare(self, object: S3Object, previous: CompactS3Object, batch: Batch) -> (step: Step)
        requires
            self@.tally.compared() <= self@.listed,
            self@.tally.deleted == 0,
            self@.listed < u64::MAX,
        ensures
            step@ == self@.compare(object@, previous@, batch@),
    {
        if previous.etag != object.etag {
            let row = object.to_row();
            self.to(Stage::Updating { object, previous, batch }, Action::Upsert(row))
        } else {
            let stats = DiffStats { unchanged: self.stats.unchanged + 1, ..self.stats };
            Ledger { bucket: self.bucket, stats, listed: self.listed }.object_done(batch)
        }
    }

    fn advance_deletion(self, rows: VecDeque<StoredObject>) -> (step: Step)
        requires
            self@.tally.compared() <= self@.listed,
            self@.tally.deleted + rows@.len() <= usize::MAX,
        ensures
            step@ == self@.advance_deletion(stored_views(rows@)),
    {
        let mut rows = rows;
        let ghost start = stored_views(rows@);
        match rows.pop_front() {
            Some(row) => {
                assert(start[0] == row@);
                assert(stored_views(rows@) =~= start.drop_first());
                let stats = DiffStats { deleted: self.stats.deleted + 1, ..self.stats };
                let key = row.key.clone();
                Ledger { bucket: self.bucket, stats, listed: self.listed }.to(
                    Stage::NotifyingDeleted { key, rows },
                    Action::Notify(Change::Deleted(row.state.into_object(row.key))),
                )
            },
            None => self.to(Stage::DroppingSeenColumn, Action::DropSeenColumn),
        }
    }
}

/// Moves the elements of a vector to a queue, in their order.
fn queue(rows: Vec<StoredObject>) -> (queued: VecDeque<StoredObject>)
    ensures
        queued@ == rows@,
{
    let ghost all = rows@;
    let mut rows = rows;
    let mut queued: VecDeque<StoredObject> = VecDeque::new();
    while rows.len() > 0
        invariant
            rows@ + queued@ == all,
        decreases rows.len(),
    {
        if let Some(row) = rows.pop() {
            queued.push_front(row);
            assert(rows@ + queued@ =~= all);
        }
    }
    assert(queued@ =~= all);
    queued
}

impl Outcome {
    fn is_done(&self) -> (done: bool)
        ensures
            done == (self@ is Done),
    {
        matches!(self, Outcome::Done)
    }
}

impl DiffSession {
    #[verifier::type_invariant]
    closed spec fn valid(self) -> bool {
        super::protocol::well_counted(self@)
    }

    /// Begins a diff of the given bucket.
    pub fn start(bucket: String) -> (step: Step)
        ensures
            step@ == super::protocol::first_step(bucket@),
    {
        Ledger { bucket, stats: DiffStats::default(), listed: 0 }.to(
            Stage::AddingSeenColumn,
            Action::AddSeenColumn,
        )
    }

    /// How many listed objects have been dealt with.
    pub fn listed(&self) -> (listed: u64)
        ensures
            listed == self@.ledger.listed,
    {
        self.ledger.listed
    }

    /// Goes on, given how the last action went.
    pub fn resume(self, outcome: Outcome) -> (step: Step)
        requires
            self@.ledger.listed < u64::MAX,
        ensures
            step@ == self@.next(outcome@),
            super::protocol::well_counted(step@.session),
    {
        proof {
            use_type_invariant(&self);
        }
        let ledger = self.ledger;
        let done = outcome.is_done();
        let step = match self.stage {
            Stage::AddingSeenColumn => ledger.to(Stage::ResettingSeen, Action::ResetSeen),
            Stage::ResettingSeen => ledger.to_if(
                done,
                Stage::PreparingLookup,
                Action::PrepareLookup,
            ),
            Stage::PreparingLookup => ledger.to_if(
                done,
                Stage::PreparingUpsert,
                Action::PrepareUpsert,
            ),
            Stage::PreparingUpsert => ledger.to_if(
                done,
                Stage::PreparingMarkSeen,
                Action::PrepareMarkSeen,
            ),
            Stage::PreparingMarkSeen => ledger.to_if(done, Stage::Connecting, Action::Connect),
            Stage::Connecting => {
                let action = ledger.request(None);
                ledger.to_if(done, Stage::Listing, action)
            },
            Stage::Listing => match outcome {
                Outcome::Page(page) => {
                    let notices: Vec<Notice> = Vec::new();
                    assert(notice_views(notices@) =~= seq![]);
                    ledger.advance(page.into_batch(), notices)
                },
                _ => ledger.abort(),
            },
            Stage::LookingUp { object, batch } => match outcome {
                Outcome::Found(None) => {
                    let row = object.to_row();
                    ledger.to(Stage::Inserting { object, batch }, Action::Upsert(row))
                },
                Outcome::Found(Some(previous)) => {
                    let key = object.key.clone();
                    ledger.to(
                        Stage::MarkingSeen { object, previous, batch },
                        Action::MarkSeen { key },
                    )
                },
                _ => ledger.object_failed(batch),
            },
            Stage::Inserting { object, batch } => if done {
                ledger.added(object, batch)
            } else {
                ledger.object_failed(batch)
            },
            Stage::MarkingSeen { object, previous, batch } => if done {
                ledger.compare(object, previous, batch)
            } else {
                ledger.object_failed(batch)
            },
            Stage::Updating { object, previous, batch } => if done {
                ledger.modified(object, previous, batch)
            } else {
                ledger.object_failed(batch)
            },
            Stage::Notifying { batch } => if done {
                ledger.object_done(batch)
            } else {
                ledger.object_failed(batch)
            },
            Stage::PreparingUnseen => ledger.to_if(
                done,
                Stage::SelectingUnseen,
                Action::SelectUnseen,
            ),
            Stage::SelectingUnseen => match outcome {
                Outcome::Unseen(rows) => {
                    let rows = queue(rows);
                    assert(rows@.len() == rows.len());
                    ledger.to(Stage::PreparingDelete { rows }, Action::PrepareDelete)
                },
                _ => ledger.abort(),
            },
            Stage::PreparingDelete { rows } => if done {
                ledger.advance_deletion(rows)
            } else {
                ledger.abort()
            },
            Stage::NotifyingDeleted { key, rows } => ledger.to_if(
                done,
                Stage::Deleting { rows },
                Action::Delete { key },
            ),
            Stage::Deleting { rows } => if done {
                ledger.advance_deletion(rows)
            } else {
                ledger.abort()
            },
            Stage::DroppingSeenColumn => {
                let mut notices: Vec<Notice> = Vec::new();
                if !done {
                    notices.push(Notice::SeenColumnKept);
                    assert(notice_views(notices@) =~= seq![NoticeView::SeenColumnKept]);
                } else {
                    assert(notice_views(notices@) =~= seq![]);
                }
                ledger.report_and(notices, Stage::ReadingClock, Action::ReadClock)
            },
            Stage::ReadingClock => match outcome {
                Outcome::Time(time) => ledger.to(
                    Stage::RecordingUpdate,
                    Action::RecordUpdate { time },
                ),
                _ => ledger.abort(),
            },
            Stage::RecordingUpdate => ledger.to_if(done, Stage::Committing, Action::Commit),
            Stage::Committing => {
                let stats = ledger.stats;
                ledger.to_if(done, Stage::Finished, Action::Finish(stats))
            },
            Stage::Finished => {
                let stats = ledger.stats;
                ledger.to(Stage::Finished, Action::Finish(stats))
            },
            Stage::Aborted => ledger.abort(),
        };
        proof {
            use_type_invariant(&step.session);
        }
        step
    }
}

/// What an action says is what its fields hold.
pub proof fn law_action_shows_its_fields(action: Action)
    ensures
        match action {
            Action::AddSeenColumn => action@ == ActionView::AddSeenColumn,
            Action::ResetSeen => action@ == ActionView::ResetSeen,
            Action::PrepareLookup => action@ == ActionView::PrepareLookup,
            Action::PrepareUpsert => action@ == ActionView::PrepareUpsert,
            Action::PrepareMarkSeen => action@ == ActionView::PrepareMarkSeen,
            Action::Connect => action@ == ActionView::Connect,
            Action::ListObjects(request) => action@ == ActionView::ListObjects(request@),
            Action::Lookup { key } => action@ == ActionView::Lookup(key@),
            Action::Upsert(row) => action@ == ActionView::Upsert(row@),
            Action::MarkSeen { key } => action@ == ActionView::MarkSeen(key@),
            Action::Notify(change) => action@ == ActionView::Notify(change@),
            Action::PrepareUnseen => action@ == ActionView::PrepareUnseen,
            Action::SelectUnseen => action@ == ActionView::SelectUnseen,
            Action::PrepareDelete => action@ == ActionView::PrepareDelete,
            Action::Delete { key } => action@ == ActionView::Delete(key@),
            Action::DropSeenColumn => action@ == ActionView::DropSeenColumn,
            Action::ReadClock => action@ == ActionView::ReadClock,
            Action::RecordUpdate { time } => action@ == ActionView::RecordUpdate(time as int),
            Action::Commit => action@ == ActionView::Commit,
            Action::Finish(stats) => action@ == ActionView::Finish(stats@),
            Action::Abort => action@ == ActionView::Abort,
        },
{
}

/// What an outcome says is what its fields hold.
pub proof fn law_outcome_shows_its_fields(outcome: Outcome)
    ensures
        match outcome {
            Outcome::Done => outcome@ == OutcomeView::Done,
            Outcome::Failed => outcome@ == OutcomeView::Failed,
            Outcome::Page(page) => outcome@ == OutcomeView::Page(page@),
            Outcome::Found(Some(state)) => outcome@ == OutcomeView::Found(Some(state@)),
            Outcome::Found(None) => outcome@ == OutcomeView::Found(None),
            Outcome::Unseen(rows) => {
                &&& outcome@ matches OutcomeView::Unseen(shown)
                &&& shown.len() == rows@.len()
                &&& forall|i: int| 0 <= i < rows@.len() ==> #[trigger] shown[i] == rows@[i]@
            },
            Outcome::Time(time) => outcome@ == OutcomeView::Time(time as int),
        },
{
}

/// What rows, notices and steps say is what their fields hold.
pub proof fn law_views_show_the_fields(
    row: StateRow,
    stored: StoredObject,
    notice: Notice,
    step: Step,
)
    ensures
        row@.key == row.key@,
        row@.state.etag == row.etag@,
        row@.state.size == row.size,
        row@.state.last_modified == row.last_modified,
        stored@.key == stored.key@,
        stored@.state.etag == stored.state.etag@,
        stored@.state.size == stored.state.size,
        stored@.state.last_modified == stored.state.last_modified,
        match notice {
            Notice::ObjectFailed => notice@ == NoticeView::ObjectFailed,
            Notice::Compared(stats) => notice@ == NoticeView::Compared(stats@),
            Notice::Listed(listed) => notice@ == NoticeView::Listed(listed as nat),
            Notice::ListedInTotal(listed) => notice@ == NoticeView::ListedInTotal(listed as nat),
            Notice::SeenColumnKept => notice@ == NoticeView::SeenColumnKept,
        },
        step@.session == step.session@,
        step@.action == step.action@,
        step@.notices.len() == step.notices@.len(),
        forall|i: int|
            0 <= i < step.notices@.len() ==> #[trigger] step@.notices[i] == step.notices@[i]@,
{
}

} // verus!
