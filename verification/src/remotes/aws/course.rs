//! How a session on which nothing goes wrong runs its course.

use super::listing::BatchView;
use super::object::{ChangeView, ObjectView, Tally};
use super::protocol::{
    ActionView, LedgerView, NoticeView, OutcomeView, StageView, StoredView,
};
use super::world::{Scene, Table, World};
use vstd::prelude::*;

verus! {

/// Whether the world and the counts are as they are after exactly the given objects have been
/// compared with the table.
pub open spec fn is_settled(s: Scene, table: Table, done: Seq<ObjectView>) -> bool {
    &&& s.world.table == super::world::table_after(table, done)
    &&& s.world.seen == super::world::listed_keys(done)
    &&& s.world.told == super::world::changes_of(table, done)
    &&& s.session.ledger.tally == super::world::tally_of(table, done)
}

/// Whether the rows of the gone objects that are left are all but the first few, and the table and
/// the change handler are as they are after so many of them.
pub open spec fn is_deleting(
    s: Scene,
    table: Table,
    all: Seq<ObjectView>,
    rows: Seq<StoredView>,
    told: int,
    removed: int,
) -> bool {
    let gone = s.world.gone;
    let ledger = s.session.ledger;
    let scanned = super::world::table_after(table, all);
    &&& ledger.listed == all.len()
    &&& ledger.tally.deleted <= gone.len()
    &&& rows == gone.skip(ledger.tally.deleted as int)
    &&& super::world::are_unseen(gone, scanned, super::world::listed_keys(all))
    &&& ledger.tally == Tally {
        deleted: ledger.tally.deleted,
        ..super::world::tally_of(table, all)
    }
    &&& 0 <= told <= gone.len()
    &&& 0 <= removed <= gone.len()
    &&& s.world.told == super::world::changes_of(table, all) + super::world::deletions_of(
        gone.take(told),
    )
    &&& s.world.table == super::world::without(scanned, gone.take(removed))
}

/// What holds in every scene of a smooth run that began with the given table and a bucket that
/// lists the given objects.
pub open spec fn is_on_course(s: Scene, table: Table, all: Seq<ObjectView>) -> bool {
    let ledger = s.session.ledger;
    let n = ledger.listed as int;
    let done = all.take(n);
    let w = s.world;
    let fresh = {
        &&& n == 0
        &&& ledger.tally == Tally::zero()
        &&& w.table == table
        &&& w.told == Seq::<ChangeView>::empty()
        &&& super::world::is_whole(w.pages)
        &&& super::world::listing(w.pages) == all
    };
    let ready = fresh && w.seen == Set::<Seq<char>>::empty();
    &&& n <= all.len()
    &&& s.session.stage !is Finished ==> w.durable.table == table
    &&& match s.session.stage {
        StageView::AddingSeenColumn => fresh && s.action == ActionView::AddSeenColumn,
        StageView::ResettingSeen => fresh && s.action == ActionView::ResetSeen,
        StageView::PreparingLookup => ready && s.action == ActionView::PrepareLookup,
        StageView::PreparingUpsert => ready && s.action == ActionView::PrepareUpsert,
        StageView::PreparingMarkSeen => ready && s.action == ActionView::PrepareMarkSeen,
        StageView::Connecting => ready && s.action == ActionView::Connect,
        StageView::Listing => {
            &&& s.action is ListObjects
            &&& is_settled(s, table, done)
            &&& super::world::is_whole(w.pages)
            &&& all.skip(n) == super::world::listing(w.pages)
        },
        StageView::LookingUp { object, batch } => {
            &&& s.action == ActionView::Lookup(object.key)
            &&& is_settled(s, table, done)
            &&& n < all.len()
            &&& object == all[n]
            &&& super::order::is_left(all.skip(n + 1), batch, w.pages)
        },
        StageView::Inserting { object, batch } => {
            &&& s.action == ActionView::Upsert(object.stored())
            &&& n < all.len()
            &&& object == all[n]
            &&& super::order::is_left(all.skip(n + 1), batch, w.pages)
            &&& w.table == super::world::table_after(table, done)
            &&& w.seen == super::world::listed_keys(done)
            &&& w.told == super::world::changes_of(table, done)
            &&& !w.table.contains_key(object.key)
            &&& ledger.tally == super::world::tally_of(table, done)
        },
        StageView::MarkingSeen { object, previous, batch } => {
            &&& s.action == ActionView::MarkSeen(object.key)
            &&& is_settled(s, table, done)
            &&& n < all.len()
            &&& object == all[n]
            &&& super::order::is_left(all.skip(n + 1), batch, w.pages)
            &&& w.table.contains_key(object.key)
            &&& w.table[object.key] == previous
        },
        StageView::Updating { object, previous, batch } => {
            &&& s.action == ActionView::Upsert(object.stored())
            &&& n < all.len()
            &&& object == all[n]
            &&& super::order::is_left(all.skip(n + 1), batch, w.pages)
            &&& w.table == super::world::table_after(table, done)
            &&& w.seen == super::world::listed_keys(all.take(n + 1))
            &&& w.told == super::world::changes_of(table, done)
            &&& w.table.contains_key(object.key)
            &&& w.table[object.key] == previous
            &&& previous.etag != object.etag
            &&& ledger.tally == super::world::tally_of(table, done)
        },
        StageView::Notifying { batch } => {
            &&& s.action matches ActionView::Notify(change)
            &&& n < all.len()
            &&& super::order::is_left(all.skip(n + 1), batch, w.pages)
            &&& w.table == super::world::table_after(table, all.take(n + 1))
            &&& w.seen == super::world::listed_keys(all.take(n + 1))
            &&& w.told.push(change) == super::world::changes_of(table, all.take(n + 1))
            &&& ledger.tally == super::world::tally_of(table, all.take(n + 1))
        },
        StageView::PreparingUnseen => {
            &&& s.action == ActionView::PrepareUnseen
            &&& n == all.len()
            &&& is_settled(s, table, all)
        },
        StageView::SelectingUnseen => {
            &&& s.action == ActionView::SelectUnseen
            &&& n == all.len()
            &&& is_settled(s, table, all)
        },
        StageView::PreparingDelete { rows } => {
            &&& s.action == ActionView::PrepareDelete
            &&& ledger.tally.deleted == 0
            &&& is_deleting(s, table, all, rows, 0, 0)
        },
        StageView::NotifyingDeleted { key, rows } => {
            let d = ledger.tally.deleted as int;
            &&& d > 0
            &&& is_deleting(s, table, all, rows, d - 1, d - 1)
            &&& key == w.gone[d - 1].key
            &&& s.action == ActionView::Notify(
                ChangeView::Deleted(w.gone[d - 1].state.object(w.gone[d - 1].key)),
            )
        },
        StageView::Deleting { rows } => {
            let d = ledger.tally.deleted as int;
            &&& d > 0
            &&& is_deleting(s, table, all, rows, d, d - 1)
            &&& s.action == ActionView::Delete(w.gone[d - 1].key)
        },
        StageView::DroppingSeenColumn
        | StageView::ReadingClock
        | StageView::RecordingUpdate
        | StageView::Committing
        | StageView::Finished => {
            let d = w.gone.len() as int;
            &&& match s.session.stage {
                StageView::DroppingSeenColumn => s.action == ActionView::DropSeenColumn,
                StageView::ReadingClock => s.action == ActionView::ReadClock,
                StageView::RecordingUpdate => s.action is RecordUpdate,
                StageView::Committing => s.action == ActionView::Commit,
                _ => s.action == ActionView::Finish(ledger.tally),
            }
            &&& ledger.tally.deleted == d
            &&& is_deleting(s, table, all, seq![], d, d)
            &&& s.session.stage is Finished ==> w.durable.table == w.table
        },
        StageView::Aborted => false,
    }
}

/// The objects listed after one more are those before and that one.
proof fn lemma_one_more(all: Seq<ObjectView>, n: int)
    requires
        0 <= n < all.len(),
    ensures
        all.take(n + 1) == all.take(n).push(all[n]),
        all.take(n + 1).drop_last() == all.take(n),
        all.take(n + 1).last() == all[n],
        super::world::listed_keys(all.take(n + 1)) == super::world::listed_keys(all.take(n)).insert(
            all[n].key,
        ),
{
    assert(all.take(n + 1) =~= all.take(n).push(all[n]));
    assert(all.take(n + 1).drop_last() =~= all.take(n));
    let before = super::world::listed_keys(all.take(n));
    let after = super::world::listed_keys(all.take(n + 1));
    assert forall|k: Seq<char>| after.contains(k) == before.insert(all[n].key).contains(k) by {
        if super::world::is_listed(all.take(n), k) {
            let i = choose|i: int| 0 <= i < n && (#[trigger] all.take(n)[i]).key == k;
            assert(all.take(n + 1)[i].key == k);
        }
        if super::world::is_listed(all.take(n + 1), k) {
            let i = choose|i: int| 0 <= i < n + 1 && (#[trigger] all.take(n + 1)[i]).key == k;
            if i < n {
                assert(all.take(n)[i].key == k);
            }
        }
        assert(all.take(n + 1)[n].key == all[n].key);
    }
    assert(after =~= before.insert(all[n].key));
}

/// A session that turns to what is left after an object, or after a page came in, stays on course.
proof fn lemma_advance(
    ledger: LedgerView,
    batch: BatchView,
    notices: Seq<NoticeView>,
    b: Scene,
    table: Table,
    all: Seq<ObjectView>,
)
    requires
        ledger.listed <= all.len(),
        b.session == ledger.advance(batch, notices).session,
        b.action == ledger.advance(batch, notices).action,
        is_settled(b, table, all.take(ledger.listed as int)),
        super::order::is_left(all.skip(ledger.listed as int), batch, b.world.pages),
        b.world.durable.table == table,
    ensures
        is_on_course(b, table, all),
{
    let n = ledger.listed as int;
    if batch.rest.len() > 0 {
        assert(all.skip(n)[0] == batch.rest[0]);
        assert(all.skip(n + 1) =~= all.skip(n).drop_first());
        assert(all.skip(n + 1) =~= batch.rest.drop_first() + super::world::listing(b.world.pages));
    } else {
        assert(all.skip(n) =~= super::world::listing(b.world.pages));
        if batch.next is End {
            assert(all.skip(n).len() == 0);
            assert(all.take(n) =~= all);
        }
    }
}

/// A row of the table after objects have been compared is one of the table before, or remembers one of
/// the objects.
proof fn lemma_row_origin(table: Table, objects: Seq<ObjectView>, key: Seq<char>)
    requires
        super::world::table_after(table, objects).contains_key(key),
    ensures
        ({
            let row = super::world::table_after(table, objects)[key];
            ||| table.contains_key(key) && row == table[key]
            ||| exists|i: int|
                0 <= i < objects.len() && (#[trigger] objects[i]).key == key && row
                    == objects[i].compact()
        }),
    decreases objects.len(),
{
    if objects.len() > 0 {
        let before = objects.drop_last();
        let last = objects[objects.len() - 1];
        let row = super::world::table_after(table, objects)[key];
        if super::world::table_after(table, before).contains_key(key) && row
            == super::world::table_after(table, before)[key] {
            lemma_row_origin(table, before, key);
            if !(table.contains_key(key) && row == table[key]) {
                let i = choose|i: int|
                    0 <= i < before.len() && (#[trigger] before[i]).key == key && row
                        == before[i].compact();
                assert(objects[i].key == key);
            }
        } else {
            assert(last.key == key && row == last.compact());
        }
    }
}

/// Whether what the action of a scene reads can be read back.
pub open spec fn can_be_read(s: Scene) -> bool {
    match s.action {
        ActionView::Lookup(key) => s.world.table.contains_key(key) ==> s.world.table[key].size >= 0,
        ActionView::SelectUnseen => super::world::are_readable(s.world.table, s.world.seen),
        _ => true,
    }
}

/// What a session on course reads can be read back.
proof fn lemma_can_be_read(s: Scene, table: Table, all: Seq<ObjectView>)
    requires
        is_on_course(s, table, all),
        super::world::readable(table),
        super::world::can_be_relisted(all),
    ensures
        can_be_read(s),
{
    let n = s.session.ledger.listed as int;
    match s.action {
        ActionView::Lookup(key) => {
            let done = all.take(n);
            if s.world.table.contains_key(key) {
                lemma_row_origin(table, done, key);
                let row = s.world.table[key];
                if !(table.contains_key(key) && row == table[key]) {
                    let i = choose|i: int|
                        0 <= i < done.len() && (#[trigger] done[i]).key == key && row
                            == done[i].compact();
                    assert(all[i].key == all[n].key);
                }
            }
        },
        ActionView::SelectUnseen => {
            assert forall|k: Seq<char>| #[trigger]
                s.world.table.contains_key(k) && !s.world.seen.contains(
                    k,
                ) implies s.world.table[k].size >= 0 by {
                lemma_table_after(table, all, k);
                assert(table.contains_key(k));
            }
        },
        _ => {},
    }
}

/// Every step on which nothing goes wrong up to the end of the listing keeps the session on course.
proof fn lemma_listing_step(a: Scene, b: Scene, table: Table, all: Seq<ObjectView>)
    requires
        is_on_course(a, table, all),
        super::world::resumes(a, b),
        a.world.answers(a.action, a.outcome, b.world),
        can_be_read(a),
        match a.session.stage {
            StageView::AddingSeenColumn
            | StageView::ResettingSeen
            | StageView::PreparingLookup
            | StageView::PreparingUpsert
            | StageView::PreparingMarkSeen
            | StageView::Connecting
            | StageView::Listing
            | StageView::LookingUp { .. }
            | StageView::Inserting { .. }
            | StageView::MarkingSeen { .. }
            | StageView::Updating { .. }
            | StageView::Notifying { .. } => true,
            _ => false,
        },
    ensures
        is_on_course(b, table, all),
{
    let ledger = a.session.ledger;
    let n = ledger.listed as int;
    let done = all.take(n);
    if n < all.len() {
        lemma_one_more(all, n);
    }
    match a.session.stage {
        StageView::Connecting => {
            assert(all.take(0) =~= Seq::empty());
            assert(all.skip(0) =~= all);
            assert(super::world::listed_keys(all.take(0)) =~= Set::empty());
        },
        StageView::Listing => {
            super::order::lemma_first_page(a.world.pages);
            lemma_advance(ledger, a.world.pages[0].batch(), seq![], b, table, all);
        },
        StageView::LookingUp { object, batch } => {},
        StageView::Inserting { object, batch } => {
            assert(b.world.told.push(ChangeView::Added(object)) =~= super::world::changes_of(
                table,
                all.take(n + 1),
            ));
        },
        StageView::MarkingSeen { batch, .. } | StageView::Notifying { batch } => {
            super::order::lemma_turn(a, b);
            if let Some((after, notices)) = super::order::turn_of(a) {
                lemma_advance(after, batch, notices, b, table, all);
            }
        },
        StageView::Updating { object, previous, batch } => {
            assert(b.world.seen =~= super::world::listed_keys(all.take(n + 1)));
        },
        _ => {},
    }
}

/// A session that turns to the rows of gone objects that are left stays on course.
proof fn lemma_advance_deletion(
    a: Scene,
    b: Scene,
    table: Table,
    all: Seq<ObjectView>,
    rows: Seq<StoredView>,
)
    requires
        b.session == a.session.ledger.advance_deletion(rows).session,
        b.action == a.session.ledger.advance_deletion(rows).action,
        is_deleting(
            Scene { session: a.session, ..b },
            table,
            all,
            rows,
            a.session.ledger.tally.deleted as int,
            a.session.ledger.tally.deleted as int,
        ),
        b.world.durable.table == table,
    ensures
        is_on_course(b, table, all),
{
    let gone = b.world.gone;
    let d = a.session.ledger.tally.deleted as int;
    if rows.len() > 0 {
        assert(gone.skip(d)[0] == gone[d]);
        assert(gone.skip(d + 1) =~= gone.skip(d).drop_first());
    } else {
        assert(gone.skip(d).len() == 0);
        assert(rows =~= seq![]);
        assert(gone.skip(gone.len() as int) =~= seq![]);
    }
}

/// Every step on which nothing goes wrong after the end of the listing keeps the session on course.
proof fn lemma_deletion_step(a: Scene, b: Scene, table: Table, all: Seq<ObjectView>)
    requires
        is_on_course(a, table, all),
        super::world::resumes(a, b),
        a.world.answers(a.action, a.outcome, b.world),
        can_be_read(a),
        match a.session.stage {
            StageView::PreparingUnseen
            | StageView::SelectingUnseen
            | StageView::PreparingDelete { .. }
            | StageView::NotifyingDeleted { .. }
            | StageView::Deleting { .. }
            | StageView::DroppingSeenColumn
            | StageView::ReadingClock
            | StageView::RecordingUpdate
            | StageView::Committing => true,
            _ => false,
        },
    ensures
        is_on_course(b, table, all),
{
    let scanned = super::world::table_after(table, all);
    let d = a.session.ledger.tally.deleted as int;
    match a.session.stage {
        StageView::SelectingUnseen => {
            lemma_listed_tally(table, all);
            let gone = b.world.gone;
            assert(gone.skip(0) =~= gone);
            assert(super::world::deletions_of(gone.take(0)) =~= seq![]);
            assert(b.world.told =~= super::world::changes_of(table, all)
                + super::world::deletions_of(gone.take(0)));
            assert(super::world::without(scanned, gone.take(0)) =~= scanned);
        },
        StageView::PreparingDelete { rows } => {
            lemma_advance_deletion(a, b, table, all, rows);
        },
        StageView::NotifyingDeleted { key, rows } => {
            let gone = a.world.gone;
            assert(gone.take(d) =~= gone.take(d - 1).push(gone[d - 1]));
            assert(super::world::deletions_of(gone.take(d)) =~= super::world::deletions_of(
                gone.take(d - 1),
            ).push(ChangeView::Deleted(gone[d - 1].state.object(gone[d - 1].key))));
            assert(b.world.told =~= super::world::changes_of(table, all)
                + super::world::deletions_of(gone.take(d)));
        },
        StageView::Deleting { rows } => {
            let gone = a.world.gone;
            lemma_without_one_more(scanned, gone, d);
            lemma_advance_deletion(a, b, table, all, rows);
        },
        _ => {},
    }
}

/// Before the gone rows are dealt with, none is counted.
pub(crate) proof fn lemma_listed_tally(table: Table, objects: Seq<ObjectView>)
    ensures
        super::world::tally_of(table, objects).deleted == 0,
        super::world::tally_of(table, objects).compared() == objects.len(),
        super::world::changes_of(table, objects).len() == super::world::tally_of(
            table,
            objects,
        ).added + super::world::tally_of(table, objects).modified,
    decreases objects.len(),
{
    if objects.len() > 0 {
        lemma_listed_tally(table, objects.drop_last());
    }
}

/// Removing one more of the rows.
proof fn lemma_without_one_more(table: Table, rows: Seq<StoredView>, d: int)
    requires
        0 < d <= rows.len(),
    ensures
        super::world::without(table, rows.take(d)) == super::world::without(
            table,
            rows.take(d - 1),
        ).remove(rows[d - 1].key),
{
    let before = rows.take(d - 1);
    let after = rows.take(d);
    assert forall|k: Seq<char>|
        super::world::has_row(after, k) == (super::world::has_row(before, k) || k == rows[d
            - 1].key) by {
        if super::world::has_row(before, k) {
            let i = choose|i: int| 0 <= i < before.len() && (#[trigger] before[i]).key == k;
            assert(after[i].key == k);
        }
        if super::world::has_row(after, k) {
            let i = choose|i: int| 0 <= i < after.len() && (#[trigger] after[i]).key == k;
            if i < d - 1 {
                assert(before[i].key == k);
            }
        }
        assert(after[d - 1].key == rows[d - 1].key);
    }
    assert(super::world::without(table, after) =~= super::world::without(table, before).remove(
        rows[d - 1].key,
    ));
}

/// A smooth run stays on course.
pub(crate) proof fn lemma_smooth_run(run: Seq<Scene>, bucket: Seq<char>, i: int)
    requires
        super::world::is_smooth_run(run, bucket),
        super::world::is_usable(run[0].world),
        0 <= i < run.len(),
    ensures
        is_on_course(run[i], run[0].world.table, super::world::listing(run[0].world.pages)),
    decreases i,
{
    let table = run[0].world.table;
    let all = super::world::listing(run[0].world.pages);
    if i > 0 {
        lemma_smooth_run(run, bucket, i - 1);
        let a = run[i - 1];
        let b = run[i];
        assert(super::world::steps_smoothly(run, i - 1));
        lemma_can_be_read(a, table, all);
        match a.session.stage {
            StageView::PreparingUnseen
            | StageView::SelectingUnseen
            | StageView::PreparingDelete { .. }
            | StageView::NotifyingDeleted { .. }
            | StageView::Deleting { .. }
            | StageView::DroppingSeenColumn
            | StageView::ReadingClock
            | StageView::RecordingUpdate
            | StageView::Committing => {
                lemma_deletion_step(a, b, table, all);
            },
            StageView::Finished | StageView::Aborted => {},
            _ => {
                lemma_listing_step(a, b, table, all);
            },
        }
    }
}

/// Comparing objects leaves the rows of other keys alone, and leaves a row of each object's key.
pub(crate) proof fn lemma_table_after(table: Table, objects: Seq<ObjectView>, key: Seq<char>)
    ensures
        !super::world::is_listed(objects, key) ==> {
            &&& super::world::table_after(table, objects).contains_key(key) == table.contains_key(
                key,
            )
            &&& super::world::table_after(table, objects)[key] == table[key]
        },
        super::world::is_listed(objects, key) ==> super::world::table_after(
            table,
            objects,
        ).contains_key(key),
    decreases objects.len(),
{
    if objects.len() > 0 {
        let before = objects.drop_last();
        lemma_table_after(table, before, key);
        if super::world::is_listed(before, key) {
            let i = choose|i: int| 0 <= i < before.len() && (#[trigger] before[i]).key == key;
            assert(objects[i].key == key);
        }
        if super::world::is_listed(objects, key) {
            let i = choose|i: int| 0 <= i < objects.len() && (#[trigger] objects[i]).key == key;
            if i < before.len() {
                assert(before[i].key == key);
            }
        }
        assert(objects[objects.len() - 1] == objects.last());
    }
}

/// The keys of the rows that are not marked as seen.
pub open spec fn unseen_keys(s: Scene) -> Set<Seq<char>> {
    s.world.table.dom().difference(s.world.seen)
}

/// How many steps the objects and pages that are left and the rows that may be gone can take.
pub open spec fn work_left(s: Scene, rest: nat) -> nat {
    2 * s.world.pages.len() + 6 * (rest + super::world::listing(s.world.pages).len()) + 3
        * unseen_keys(s).len() + 13
}

/// How many steps there can be before the session is finished.
pub open spec fn steps_left(s: Scene) -> nat {
    let at_start = 2 * s.world.pages.len() + 6 * super::world::listing(s.world.pages).len() + 3
        * s.world.table.dom().len() + 13;
    match s.session.stage {
        StageView::AddingSeenColumn => at_start + 7,
        StageView::ResettingSeen => at_start + 6,
        StageView::PreparingLookup => at_start + 5,
        StageView::PreparingUpsert => at_start + 4,
        StageView::PreparingMarkSeen => at_start + 3,
        StageView::Connecting => at_start + 2,
        StageView::Listing => work_left(s, 0) + 1,
        StageView::LookingUp { object, batch } => work_left(s, batch.rest.len()) + 5,
        StageView::MarkingSeen { object, previous, batch } => work_left(s, batch.rest.len()) + 4,
        StageView::Inserting { object, batch } => work_left(s, batch.rest.len()) + 3,
        StageView::Updating { object, previous, batch } => work_left(s, batch.rest.len()) + 3,
        StageView::Notifying { batch } => work_left(s, batch.rest.len()) + 2,
        StageView::PreparingUnseen => 3 * unseen_keys(s).len() + 12,
        StageView::SelectingUnseen => 3 * unseen_keys(s).len() + 11,
        StageView::PreparingDelete { rows } => 3 * rows.len() + 10,
        StageView::NotifyingDeleted { key, rows } => 3 * rows.len() + 8,
        StageView::Deleting { rows } => 3 * rows.len() + 7,
        StageView::DroppingSeenColumn => 5,
        StageView::ReadingClock => 4,
        StageView::RecordingUpdate => 3,
        StageView::Committing => 2,
        StageView::Finished => 0,
        StageView::Aborted => 0,
    }
}

/// There are as many unseen rows as unseen keys.
proof fn lemma_unseen_rows(rows: Seq<StoredView>, table: Table, seen: Set<Seq<char>>)
    requires
        super::world::are_unseen(rows, table, seen),
    ensures
        rows.len() == table.dom().difference(seen).len(),
{
    let keys = rows.map_values(|r: StoredView| r.key);
    assert(keys.no_duplicates()) by {
        assert forall|i: int, j: int| 0 <= i < keys.len() && 0 <= j < keys.len() && i
            != j implies keys[i] != keys[j] by {
            if i < j {
                assert(rows[i].key != rows[j].key);
            } else {
                assert(rows[j].key != rows[i].key);
            }
        }
    }
    keys.unique_seq_to_set();
    assert forall|k: Seq<char>|
        #![trigger keys.to_set().contains(k)]
        keys.to_set().contains(k) == table.dom().difference(seen).contains(k) by {
        if keys.contains(k) {
            let i = choose|i: int| 0 <= i < keys.len() && keys[i] == k;
            assert(rows[i].key == k);
        }
        if table.contains_key(k) && !seen.contains(k) {
            assert(super::world::has_row(rows, k));
            let i = choose|i: int| 0 <= i < rows.len() && (#[trigger] rows[i]).key == k;
            assert(keys[i] == k);
        }
    }
    assert(keys.to_set() =~= table.dom().difference(seen));
}

/// A session that turns to what is left of a batch is nearer to its end than one that had that batch
/// and one more step before it.
proof fn lemma_advance_is_nearer(
    ledger: LedgerView,
    batch: BatchView,
    notices: Seq<NoticeView>,
    b: Scene,
)
    requires
        b.session == ledger.advance(batch, notices).session,
    ensures
        steps_left(b) < work_left(b, batch.rest.len()) + 2,
{
}

/// Every step on which nothing goes wrong brings the session nearer to its end.
proof fn lemma_step_is_nearer(a: Scene, b: Scene, table: Table, all: Seq<ObjectView>)
    requires
        is_on_course(a, table, all),
        is_on_course(b, table, all),
        super::world::resumes(a, b),
        a.world.answers(a.action, a.outcome, b.world),
        a.world.table.dom().finite(),
        can_be_read(a),
    ensures
        b.world.table.dom().finite(),
        steps_left(b) < steps_left(a),
{
    let ledger = a.session.ledger;
    vstd::set_lib::lemma_len_subset(unseen_keys(a), a.world.table.dom());
    if a.session.stage is Inserting || a.session.stage is Updating || a.session.stage
        is MarkingSeen {
        assert(unseen_keys(b).subset_of(unseen_keys(a)));
        vstd::set_lib::lemma_len_subset(unseen_keys(b), unseen_keys(a));
    }
    match a.session.stage {
        StageView::Listing => {
            let batch = a.world.pages[0].batch();
            lemma_advance_is_nearer(ledger, batch, seq![], b);
        },
        StageView::MarkingSeen { batch, .. } | StageView::Notifying { batch } => {
            super::order::lemma_turn(a, b);
            if let Some((after, notices)) = super::order::turn_of(a) {
                lemma_advance_is_nearer(after, batch, notices, b);
            }
        },
        StageView::SelectingUnseen => {
            lemma_unseen_rows(b.world.gone, a.world.table, a.world.seen);
        },
        _ => {},
    }
}

/// A smooth run comes nearer to its end with every step.
pub(crate) proof fn lemma_run_is_nearer(run: Seq<Scene>, bucket: Seq<char>, i: int)
    requires
        super::world::is_smooth_run(run, bucket),
        super::world::is_usable(run[0].world),
        run[0].world.table.dom().finite(),
        0 <= i < run.len(),
    ensures
        run[i].world.table.dom().finite(),
        steps_left(run[i]) + i <= steps_left(run[0]),
    decreases i,
{
    if i > 0 {
        let table = run[0].world.table;
        let all = super::world::listing(run[0].world.pages);
        lemma_run_is_nearer(run, bucket, i - 1);
        lemma_smooth_run(run, bucket, i - 1);
        lemma_smooth_run(run, bucket, i);
        assert(super::world::steps_smoothly(run, i - 1));
        lemma_can_be_read(run[i - 1], table, all);
        lemma_step_is_nearer(run[i - 1], run[i], table, all);
    }
}

/// The unseen rows of a finite table can be read in some order.
proof fn lemma_unseen_rows_exist(table: Table, seen: Set<Seq<char>>) -> (rows: Seq<StoredView>)
    requires
        table.dom().finite(),
    ensures
        super::world::are_unseen(rows, table, seen),
    decreases table.dom().difference(seen).len(),
{
    let unseen = table.dom().difference(seen);
    if unseen.len() == 0 {
        assert(unseen =~= Set::empty());
        assert forall|k: Seq<char>| table.contains_key(k) && !seen.contains(k) implies
            #[trigger] super::world::has_row(seq![], k) by {
            assert(unseen.contains(k));
        }
        seq![]
    } else {
        let key = unseen.choose();
        let row = StoredView { key, state: table[key] };
        assert(table.dom().difference(seen.insert(key)) =~= unseen.remove(key));
        let others = lemma_unseen_rows_exist(table, seen.insert(key));
        let rows = others.push(row);
        assert forall|k: Seq<char>| table.contains_key(k) && !seen.contains(k) implies
            #[trigger] super::world::has_row(rows, k) by {
            if k == key {
                assert(rows[others.len() as int].key == k);
            } else {
                assert(super::world::has_row(others, k));
                let i = choose|i: int| 0 <= i < others.len() && (#[trigger] others[i]).key == k;
                assert(rows[i].key == k);
            }
        }
        rows
    }
}

/// A session on course that is not finished has an action that can be answered.
pub(crate) proof fn lemma_can_be_answered(s: Scene, table: Table, all: Seq<ObjectView>) -> (answer: (
    OutcomeView,
    World,
))
    requires
        is_on_course(s, table, all),
        s.session.stage !is Finished,
        s.world.table.dom().finite(),
        super::world::readable(table),
        super::world::can_be_relisted(all),
    ensures
        s.world.answers(s.action, answer.0, answer.1),
{
    let w = s.world;
    lemma_can_be_read(s, table, all);
    match s.action {
        ActionView::AddSeenColumn => (
            if w.has_seen_column {
                OutcomeView::Failed
            } else {
                OutcomeView::Done
            },
            World { has_seen_column: true, ..w },
        ),
        ActionView::DropSeenColumn => (
            OutcomeView::Done,
            World { has_seen_column: false, ..w },
        ),
        ActionView::ReadClock => (OutcomeView::Time(0), w),
        ActionView::RecordUpdate(time) => (
            OutcomeView::Done,
            World { metadata: w.metadata_at(time), ..w },
        ),
        ActionView::ResetSeen => (OutcomeView::Done, World { seen: Set::empty(), ..w }),
        ActionView::ListObjects(_) => (
            OutcomeView::Page(w.pages[0]),
            World { pages: w.pages.drop_first(), ..w },
        ),
        ActionView::Lookup(key) => (
            OutcomeView::Found(
                if w.table.contains_key(key) {
                    Some(w.table[key])
                } else {
                    None
                },
            ),
            w,
        ),
        ActionView::Upsert(row) => (
            OutcomeView::Done,
            World {
                table: w.table.insert(row.key, row.state),
                seen: w.seen.insert(row.key),
                ..w
            },
        ),
        ActionView::MarkSeen(key) => (
            OutcomeView::Done,
            World { seen: w.seen.insert(key), ..w },
        ),
        ActionView::Notify(change) => (
            OutcomeView::Done,
            World { told: w.told.push(change), ..w },
        ),
        ActionView::SelectUnseen => {
            let rows = lemma_unseen_rows_exist(w.table, w.seen);
            (OutcomeView::Unseen(rows), World { gone: rows, ..w })
        },
        ActionView::Delete(key) => (
            OutcomeView::Done,
            World { table: w.table.remove(key), ..w },
        ),
        ActionView::Commit => (OutcomeView::Done, World { durable: w.database(), ..w }),
        _ => (OutcomeView::Done, w),
    }
}

} // verus!
