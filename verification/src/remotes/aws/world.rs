//! What a session works on: a bucket that lists its objects, a state database, and a change handler.

use super::listing::{PageView, RequestView, PAGE_SIZE};
use super::object::{ChangeView, CompactView, ObjectView, Tally};
use super::protocol::{
    ActionView, NoticeView, OutcomeView, SessionView, StageView, StoredView,
};
use super::schema::LAST_UPDATED;
use vstd::prelude::*;

verus! {

/// The state table: what is remembered, by key.
pub type Table = Map<Seq<char>, CompactView>;

/// The metadata table: its values, by key.
pub type Metadata = Map<Seq<char>, Seq<char>>;

/// An integer in decimal notation, as a column of texts stores it.
pub open spec fn decimal(n: int) -> Seq<char>
    decreases (if n < 0 { 1 - n } else { n }),
{
    if n < 0 {
        seq!['-'] + decimal(-n)
    } else if n < 10 {
        seq![('0' as int + n) as char]
    } else {
        decimal(n / 10) + decimal(n % 10)
    }
}

/// What the state database holds: its two tables, and whether the state table has the column that
/// marks rows as seen.
pub struct Database {
    pub table: Table,
    pub metadata: Metadata,
    pub has_seen_column: bool,
}

/// The bucket's pages that are still to be read, the state database as the transaction sees it, the
/// keys of its rows that are marked as seen, the rows that were last read as not seen, the state
/// database as it was last committed, and what the change handler has been told.
pub struct World {
    pub pages: Seq<PageView>,
    pub table: Table,
    pub metadata: Metadata,
    pub has_seen_column: bool,
    pub seen: Set<Seq<char>>,
    pub gone: Seq<StoredView>,
    pub durable: Database,
    pub told: Seq<ChangeView>,
}

/// A session that waits for the outcome of an action, the world at that time, and the outcome that
/// it will get.
pub struct Scene {
    pub session: SessionView,
    pub action: ActionView,
    pub world: World,
    pub outcome: OutcomeView,
}

/// Whether the rows are those of the table that are not marked as seen, each once, in some order.
pub open spec fn are_unseen(rows: Seq<StoredView>, table: Table, seen: Set<Seq<char>>) -> bool {
    &&& forall|i: int|
        0 <= i < rows.len() ==> {
            &&& table.contains_key((#[trigger] rows[i]).key)
            &&& !seen.contains(rows[i].key)
            &&& rows[i].state == table[rows[i].key]
        }
    &&& forall|k: Seq<char>|
        table.contains_key(k) && !seen.contains(k) ==> #[trigger] has_row(rows, k)
    &&& forall|i: int, j: int|
        0 <= i < j < rows.len() ==> (#[trigger] rows[i]).key != (#[trigger] rows[j]).key
}

/// Whether every size in the table can be read back. The table stores signed sizes and they are
/// read as unsigned ones.
pub open spec fn readable(table: Table) -> bool {
    are_readable(table, Set::empty())
}

/// Whether the sizes of the rows that are not marked as seen can be read back.
pub open spec fn are_readable(table: Table, seen: Set<Seq<char>>) -> bool {
    forall|k: Seq<char>| #[trigger]
        table.contains_key(k) && !seen.contains(k) ==> table[k].size >= 0
}

impl World {
    /// The state database as the transaction sees it.
    pub open spec fn database(self) -> Database {
        Database {
            table: self.table,
            metadata: self.metadata,
            has_seen_column: self.has_seen_column,
        }
    }

    /// Whether, in a world in which nothing goes wrong, the action has the outcome and leaves the
    /// world as given. The column that marks rows as seen is only added where it is missing, and may
    /// be there to stay. The change handler may refuse what it is told of a listed object.
    pub open spec fn answers(self, action: ActionView, outcome: OutcomeView, after: World) -> bool {
        match action {
            ActionView::AddSeenColumn => {
                &&& outcome == if self.has_seen_column {
                    OutcomeView::Failed
                } else {
                    OutcomeView::Done
                }
                &&& after == World { has_seen_column: true, ..self }
            },
            ActionView::DropSeenColumn => {
                ||| outcome is Done && after == World { has_seen_column: false, ..self }
                ||| outcome is Failed && after == self
            },
            ActionView::ResetSeen => {
                &&& outcome is Done
                &&& after == World { seen: Set::empty(), ..self }
            },
            ActionView::PrepareLookup
            | ActionView::PrepareUpsert
            | ActionView::PrepareMarkSeen
            | ActionView::PrepareUnseen
            | ActionView::PrepareDelete
            | ActionView::Connect => {
                &&& outcome is Done
                &&& after == self
            },
            ActionView::ReadClock => {
                &&& outcome is Time
                &&& after == self
            },
            ActionView::RecordUpdate(time) => {
                &&& outcome is Done
                &&& after == World { metadata: self.metadata_at(time), ..self }
            },
            ActionView::ListObjects(_) => {
                &&& self.pages.len() > 0
                &&& outcome == OutcomeView::Page(self.pages[0])
                &&& after == World { pages: self.pages.drop_first(), ..self }
            },
            ActionView::Lookup(key) => {
                &&& outcome == if !self.table.contains_key(key) {
                    OutcomeView::Found(None)
                } else if self.table[key].size < 0 {
                    OutcomeView::Failed
                } else {
                    OutcomeView::Found(Some(self.table[key]))
                }
                &&& after == self
            },
            ActionView::Upsert(row) => {
                &&& outcome is Done
                &&& after == World {
                    table: self.table.insert(row.key, row.state),
                    seen: self.seen.insert(row.key),
                    ..self
                }
            },
            ActionView::MarkSeen(key) => {
                &&& outcome is Done
                &&& after == World {
                    seen: if self.table.contains_key(key) {
                        self.seen.insert(key)
                    } else {
                        self.seen
                    },
                    ..self
                }
            },
            ActionView::Notify(change) => {
                &&& outcome is Done || outcome is Failed && change !is Deleted
                &&& after == World { told: self.told.push(change), ..self }
            },
            ActionView::SelectUnseen => if are_readable(self.table, self.seen) {
                &&& outcome matches OutcomeView::Unseen(rows)
                &&& are_unseen(rows, self.table, self.seen)
                &&& after == World { gone: rows, ..self }
            } else {
                &&& outcome is Failed
                &&& after == self
            },
            ActionView::Delete(key) => {
                &&& outcome is Done
                &&& after == World { table: self.table.remove(key), ..self }
            },
            ActionView::Commit => {
                &&& outcome is Done
                &&& after == World { durable: self.database(), ..self }
            },
            ActionView::Finish(_) | ActionView::Abort => false,
        }
    }

    /// The metadata once the given time of an update has been recorded.
    pub open spec fn metadata_at(self, time: int) -> Metadata {
        self.metadata.insert(LAST_UPDATED@, decimal(time))
    }

    /// Whether, whatever goes wrong, the action with the outcome can leave the world as given: a page
    /// is read by a request that gets it, the metadata and the column that marks rows as seen are
    /// changed by the actions on them that succeed, and what is committed is changed by a commit that
    /// succeeds. The rows of the state table may come to anything.
    pub open spec fn allows(self, action: ActionView, outcome: OutcomeView, after: World) -> bool {
        let is_done = outcome is Done;
        &&& match outcome {
            OutcomeView::Page(page) if action is ListObjects => {
                &&& self.pages.len() > 0
                &&& page == self.pages[0]
                &&& after.pages == self.pages.drop_first()
            },
            _ => after.pages == self.pages,
        }
        &&& after.metadata == match action {
            ActionView::RecordUpdate(time) if is_done => self.metadata_at(time),
            _ => self.metadata,
        }
        &&& after.has_seen_column == if action is AddSeenColumn && is_done {
            true
        } else if action is DropSeenColumn && is_done {
            false
        } else {
            self.has_seen_column
        }
        &&& after.durable == if action is Commit && is_done {
            self.database()
        } else {
            self.durable
        }
    }
}

/// Whether the scene is the first of a session.
pub open spec fn begins(scene: Scene, bucket: Seq<char>) -> bool {
    let first = super::protocol::first_step(bucket);
    &&& scene.session == first.session
    &&& scene.action == first.action
    &&& scene.world.told == Seq::<ChangeView>::empty()
    &&& scene.world.durable == scene.world.database()
}

/// Whether the session of one scene, given the outcome of its action, is the session of the other.
pub open spec fn resumes(scene: Scene, after: Scene) -> bool {
    let step = scene.session.next(scene.outcome);
    &&& after.session == step.session
    &&& after.action == step.action
}

/// Whether nothing goes wrong from the scene of the given number to the one after it.
pub open spec fn steps_smoothly(run: Seq<Scene>, i: int) -> bool {
    &&& resumes(run[i], run[i + 1])
    &&& run[i].world.answers(run[i].action, run[i].outcome, run[i + 1].world)
}

/// Whether the scenes are those of a session on the given bucket in which nothing goes wrong, but for
/// additions and modifications that the change handler refuses.
pub open spec fn is_smooth_run(run: Seq<Scene>, bucket: Seq<char>) -> bool {
    &&& run.len() > 0
    &&& begins(run[0], bucket)
    &&& forall|i: int| 0 <= i < run.len() - 1 ==> #[trigger] steps_smoothly(run, i)
}

/// Whether the pages are a whole listing: each but the last says that it is truncated.
pub open spec fn is_whole(pages: Seq<PageView>) -> bool {
    &&& pages.len() > 0
    &&& forall|i: int|
        0 <= i < pages.len() ==> ((#[trigger] pages[i]).is_truncated == Some(true) <==> i
            < pages.len() - 1)
}

/// The objects of the pages, in their order.
pub open spec fn listing(pages: Seq<PageView>) -> Seq<ObjectView>
    decreases pages.len(),
{
    if pages.len() == 0 {
        seq![]
    } else {
        super::listing::complete_objects(pages[0].contents) + listing(pages.drop_first())
    }
}

/// Whether an object of the given key is listed.
pub open spec fn is_listed(objects: Seq<ObjectView>, key: Seq<char>) -> bool {
    exists|i: int| 0 <= i < objects.len() && (#[trigger] objects[i]).key == key
}

/// The keys of the listed objects.
pub open spec fn listed_keys(objects: Seq<ObjectView>) -> Set<Seq<char>> {
    Set::new(|k: Seq<char>| is_listed(objects, k))
}

/// Whether the table remembers the object as it is: it has a row of its key with its entity tag.
pub open spec fn remembers(table: Table, object: ObjectView) -> bool {
    table.contains_key(object.key) && table[object.key].etag == object.etag
}

/// What the change handler is to be told of a listed object, given what is remembered.
pub open spec fn change_of(table: Table, object: ObjectView) -> Option<ChangeView> {
    if !table.contains_key(object.key) {
        Some(ChangeView::Added(object))
    } else if !remembers(table, object) {
        Some(ChangeView::Modified { old: table[object.key].object(object.key), new: object })
    } else {
        None
    }
}

/// The table after the listed objects have been compared one after the other.
pub open spec fn table_after(table: Table, objects: Seq<ObjectView>) -> Table
    decreases objects.len(),
{
    if objects.len() == 0 {
        table
    } else {
        let before = table_after(table, objects.drop_last());
        let object = objects.last();
        if remembers(before, object) {
            before
        } else {
            before.insert(object.key, object.compact())
        }
    }
}

/// What the change handler is to be told of the listed objects, each compared with the table that
/// the ones before it left.
pub open spec fn changes_of(table: Table, objects: Seq<ObjectView>) -> Seq<ChangeView>
    decreases objects.len(),
{
    if objects.len() == 0 {
        seq![]
    } else {
        let before = changes_of(table, objects.drop_last());
        match change_of(table_after(table, objects.drop_last()), objects.last()) {
            Some(change) => before.push(change),
            None => before,
        }
    }
}

/// The counts after the listed objects have been compared one after the other.
pub open spec fn tally_of(table: Table, objects: Seq<ObjectView>) -> Tally
    decreases objects.len(),
{
    if objects.len() == 0 {
        Tally::zero()
    } else {
        let before = tally_of(table, objects.drop_last());
        match change_of(table_after(table, objects.drop_last()), objects.last()) {
            Some(ChangeView::Added(_)) => Tally { added: before.added + 1, ..before },
            Some(_) => Tally { modified: before.modified + 1, ..before },
            None => Tally { unchanged: before.unchanged + 1, ..before },
        }
    }
}

/// What the change handler is to be told of rows whose objects are gone.
pub open spec fn deletions_of(rows: Seq<StoredView>) -> Seq<ChangeView> {
    rows.map_values(|r: StoredView| ChangeView::Deleted(r.state.object(r.key)))
}

/// Whether one of the rows has the given key.
pub open spec fn has_row(rows: Seq<StoredView>, key: Seq<char>) -> bool {
    exists|i: int| 0 <= i < rows.len() && (#[trigger] rows[i]).key == key
}

/// The table without the given rows.
pub open spec fn without(table: Table, rows: Seq<StoredView>) -> Table {
    table.remove_keys(Set::new(|k: Seq<char>| has_row(rows, k)))
}

/// Whether the sizes of objects whose keys are listed again can be read back.
pub open spec fn can_be_relisted(objects: Seq<ObjectView>) -> bool {
    forall|i: int, j: int|
        0 <= i < j < objects.len() && (#[trigger] objects[i]).key == (#[trigger] objects[j]).key
            ==> objects[i].size >= 0
}

/// Whether a session can start on the world and read all of it: the pages are a whole listing, and no
/// size that has to be read back is negative. A negative size can be stored, but not be read back.
pub open spec fn is_usable(world: World) -> bool {
    &&& is_whole(world.pages)
    &&& readable(world.table)
    &&& can_be_relisted(listing(world.pages))
}

/// Whether the run came to its end and the counts were returned.
pub open spec fn is_finished(run: Seq<Scene>) -> bool {
    run.last().session.stage is Finished
}

/// Whether objects of the same key have the same entity tag.
pub open spec fn agree_on_etags(objects: Seq<ObjectView>) -> bool {
    forall|i: int, j: int|
        0 <= i < objects.len() && 0 <= j < objects.len() && (#[trigger] objects[i]).key == (
        #[trigger] objects[j]).key ==> objects[i].etag == objects[j].etag
}

/// Whether no two objects have the same key.
pub open spec fn have_own_keys(objects: Seq<ObjectView>) -> bool {
    forall|i: int, j: int|
        0 <= i < j < objects.len() ==> (#[trigger] objects[i]).key != (#[trigger] objects[j]).key
}

/// Whether the scene of the given number can lead to the one after it, whatever goes wrong.
pub open spec fn steps(run: Seq<Scene>, i: int) -> bool {
    &&& resumes(run[i], run[i + 1])
    &&& run[i].world.allows(run[i].action, run[i].outcome, run[i + 1].world)
}

/// Whether the scenes are those of a session on the given bucket, whatever goes wrong.
pub open spec fn is_run(run: Seq<Scene>, bucket: Seq<char>) -> bool {
    &&& run.len() > 0
    &&& begins(run[0], bucket)
    &&& forall|i: int| 0 <= i < run.len() - 1 ==> #[trigger] steps(run, i)
}

/// Whether the scenes are those of a session on the given bucket in which every action either goes as
/// it does where nothing goes wrong, or fails and leaves the rows of the state table and their marks as
/// they are.
pub open spec fn is_faithful_run(run: Seq<Scene>, bucket: Seq<char>) -> bool {
    &&& is_run(run, bucket)
    &&& forall|i: int| 0 <= i < run.len() - 1 ==> #[trigger] steps_faithfully(run, i)
}

/// Whether the action of the scene of the given number goes as it does where nothing goes wrong, or
/// fails and leaves the rows of the state table and their marks as they are.
pub open spec fn steps_faithfully(run: Seq<Scene>, i: int) -> bool {
    let (before, after) = (run[i].world, run[i + 1].world);
    ||| before.answers(run[i].action, run[i].outcome, after)
    ||| run[i].outcome is Failed && after.table == before.table && after.seen == before.seen
}

/// Whether the scene tells the change handler of an addition.
pub open spec fn tells_of_addition(s: Scene) -> bool {
    s.action matches ActionView::Notify(change) && change is Added
}

/// Whether the scene tells the change handler of a modification.
pub open spec fn tells_of_modification(s: Scene) -> bool {
    s.action matches ActionView::Notify(change) && change is Modified
}

/// Whether the scene tells the change handler of a deletion.
pub open spec fn tells_of_deletion(s: Scene) -> bool {
    s.action matches ActionView::Notify(change) && change is Deleted
}

/// What is reported in the course of the run.
pub open spec fn reports(run: Seq<Scene>) -> Seq<NoticeView>
    decreases run.len(),
{
    if run.len() <= 1 {
        seq![]
    } else {
        let before = run.drop_last();
        reports(before) + before.last().session.next(before.last().outcome).notices
    }
}

/// The objects that the session takes up in the course of the run, to look each of them up.
pub open spec fn taken_up(run: Seq<Scene>) -> Seq<ObjectView>
    decreases run.len(),
{
    if run.len() == 0 {
        seq![]
    } else {
        let before = taken_up(run.drop_last());
        match run.last().session.stage {
            StageView::LookingUp { object, .. } => before.push(object),
            _ => before,
        }
    }
}

/// Whether the session is done with the listing.
pub open spec fn is_past_the_listing(stage: StageView) -> bool {
    match stage {
        StageView::PreparingUnseen
        | StageView::SelectingUnseen
        | StageView::PreparingDelete { .. }
        | StageView::NotifyingDeleted { .. }
        | StageView::Deleting { .. }
        | StageView::DroppingSeenColumn
        | StageView::ReadingClock
        | StageView::RecordingUpdate
        | StageView::Committing
        | StageView::Finished => true,
        _ => false,
    }
}

/// Whether the session is at work on one listed object.
pub open spec fn is_at_an_object(stage: StageView) -> bool {
    match stage {
        StageView::LookingUp { .. }
        | StageView::Inserting { .. }
        | StageView::MarkingSeen { .. }
        | StageView::Updating { .. }
        | StageView::Notifying { .. } => true,
        _ => false,
    }
}

/// The objects of the page at hand that the session has not taken up yet.
pub open spec fn rest_of(stage: StageView) -> Seq<ObjectView> {
    match stage {
        StageView::LookingUp { batch, .. } => batch.rest,
        StageView::Inserting { batch, .. } => batch.rest,
        StageView::MarkingSeen { batch, .. } => batch.rest,
        StageView::Updating { batch, .. } => batch.rest,
        StageView::Notifying { batch } => batch.rest,
        _ => seq![],
    }
}

/// How many listed objects the session holds: the one at hand, and those of the page that follow.
pub open spec fn held(s: SessionView) -> nat {
    rest_of(s.stage).len() + if is_at_an_object(s.stage) && s.stage !is Notifying {
        1nat
    } else {
        0nat
    }
}

/// The request for the page that follows the first few.
pub open spec fn request_after(
    bucket: Seq<char>,
    pages: Seq<PageView>,
    read: int,
) -> RequestView {
    RequestView {
        bucket,
        max_keys: PAGE_SIZE as int,
        continuation_token: if read == 0 {
            None
        } else {
            pages[read - 1].next_continuation_token
        },
    }
}

} // verus!
