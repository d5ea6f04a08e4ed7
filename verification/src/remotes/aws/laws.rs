//! What holds of every diff session.

use super::listing::{BatchView, ListedView, NextView, PageView, RequestView};
use super::object::{ChangeView, CompactView, ObjectView, Tally};
use super::protocol::{
    ActionView, NoticeView, OutcomeView, SessionView, StageView, StoredView,
};
use super::schema::LAST_UPDATED;
use super::world::{Scene, Table};
use vstd::prelude::*;

verus! {

/// A diff on which nothing goes wrong tells the change handler of each listed object that the state
/// table did not remember as it is, in the order of the listing, and then of each row of the table
/// whose key is not listed, once. What it commits has a row of each listed key and no other, whether
/// or not the change handler accepts what it is told of a listed object. It returns how many objects
/// were added, modified and unchanged, which makes all that are listed, and how many are gone.
pub proof fn law_diff_is_exact(run: Seq<Scene>, bucket: Seq<char>)
    requires
        super::world::is_smooth_run(run, bucket),
        super::world::is_usable(run[0].world),
        super::world::is_finished(run),
    ensures
        ({
            let table = run[0].world.table;
            let objects = super::world::listing(run[0].world.pages);
            let end = run.last();
            let tally = end.session.ledger.tally;
            let gone = end.world.gone;
            &&& end.action == ActionView::Finish(tally)
            &&& super::world::are_unseen(gone, table, super::world::listed_keys(objects))
            &&& end.world.told == super::world::changes_of(table, objects)
                + super::world::deletions_of(gone)
            &&& end.world.durable.table == super::world::table_after(table, objects).restrict(
                super::world::listed_keys(objects),
            )
            &&& end.world.durable.table.dom() == super::world::listed_keys(objects)
            &&& tally == Tally { deleted: gone.len(), ..super::world::tally_of(table, objects) }
            &&& tally.compared() == objects.len()
            &&& end.world.told.len() == tally.added + tally.modified + tally.deleted
        }),
{
    super::course::lemma_smooth_run(run, bucket, run.len() - 1);
    let table = run[0].world.table;
    let objects = super::world::listing(run[0].world.pages);
    let scanned = super::world::table_after(table, objects);
    let keys = super::world::listed_keys(objects);
    let end = run.last();
    let gone = end.world.gone;
    super::course::lemma_listed_tally(table, objects);
    assert(gone.take(gone.len() as int) =~= gone);
    assert forall|i: int| 0 <= i < gone.len() implies {
        &&& table.contains_key((#[trigger] gone[i]).key)
        &&& !keys.contains(gone[i].key)
        &&& gone[i].state == table[gone[i].key]
    } by {
        super::course::lemma_table_after(table, objects, gone[i].key);
    }
    assert forall|k: Seq<char>| table.contains_key(k) && !keys.contains(k) implies
        #[trigger] super::world::has_row(gone, k) by {
        super::course::lemma_table_after(table, objects, k);
    }
    assert forall|k: Seq<char>|
        #![trigger end.world.durable.table.contains_key(k)]
        end.world.durable.table.contains_key(k) == keys.contains(k) by {
        super::course::lemma_table_after(table, objects, k);
        if super::world::has_row(gone, k) {
            let i = choose|i: int| 0 <= i < gone.len() && (#[trigger] gone[i]).key == k;
            assert(!keys.contains(gone[i].key));
        }
    }
    assert(end.world.durable.table.dom() =~= keys);
    assert(end.world.durable.table =~= scanned.restrict(keys));
}

/// The object of a complete entry is listed.
proof fn lemma_entry_is_listed(pages: Seq<PageView>, p: int, e: int) -> (i: int)
    requires
        0 <= p < pages.len(),
        0 <= e < pages[p].contents.len(),
        pages[p].contents[e].is_complete(),
    ensures
        0 <= i < super::world::listing(pages).len(),
        super::world::listing(pages)[i] == pages[p].contents[e].object(),
    decreases pages.len(),
{
    let first = super::listing::complete_objects(pages[0].contents);
    if p == 0 {
        let contents = pages[0].contents;
        let is_complete = |o: ListedView| o.is_complete();
        contents.lemma_filter_contains(is_complete, e);
        let kept = contents.filter(is_complete);
        let i = choose|i: int| 0 <= i < kept.len() && kept[i] == contents[e];
        assert(first[i] == contents[e].object());
        i
    } else {
        first.len() + lemma_entry_is_listed(pages.drop_first(), p - 1, e)
    }
}

/// A listed object is that of a complete entry.
proof fn lemma_listed_is_an_entry(pages: Seq<PageView>, i: int) -> (at: (int, int))
    requires
        0 <= i < super::world::listing(pages).len(),
    ensures
        0 <= at.0 < pages.len(),
        0 <= at.1 < pages[at.0].contents.len(),
        pages[at.0].contents[at.1].is_complete(),
        pages[at.0].contents[at.1].object() == super::world::listing(pages)[i],
    decreases pages.len(),
{
    let first = super::listing::complete_objects(pages[0].contents);
    if i < first.len() {
        let contents = pages[0].contents;
        let is_complete = |o: ListedView| o.is_complete();
        let kept = contents.filter(is_complete);
        contents.lemma_filter_pred(is_complete, i);
        assert(kept.contains(kept[i]));
        contents.lemma_filter_contains_rev(is_complete, kept[i]);
        let e = choose|e: int| 0 <= e < contents.len() && contents[e] == kept[i];
        (0, e)
    } else {
        let at = lemma_listed_is_an_entry(pages.drop_first(), i - first.len());
        (at.0 + 1, at.1)
    }
}

/// A diff on which nothing goes wrong tells of each remembered object that no complete entry of any page
/// lists, with what was remembered of it, and removes its row.
pub proof fn law_what_is_gone_is_reported(run: Seq<Scene>, bucket: Seq<char>, key: Seq<char>)
    requires
        super::world::is_smooth_run(run, bucket),
        super::world::is_usable(run[0].world),
        super::world::is_finished(run),
        run[0].world.table.contains_key(key),
        forall|p: int, e: int|
            0 <= p < run[0].world.pages.len() && 0 <= e < run[0].world.pages[p].contents.len() ==> {
                let entry = #[trigger] run[0].world.pages[p].contents[e];
                entry.key != Some(key) || entry.etag is None || entry.size is None
                    || entry.last_modified is None
            },
    ensures
        !run.last().world.durable.table.contains_key(key),
        exists|i: int|
            0 <= i < run.last().world.told.len() && {
                &&& #[trigger] run.last().world.told[i] matches ChangeView::Deleted(old)
                &&& old.key == key
                &&& old.etag == run[0].world.table[key].etag
                &&& run[0].world.table[key].size <= i64::MAX ==> old.size
                    == run[0].world.table[key].size
                &&& old == run[0].world.table[key].object(key)
            },
{
    law_diff_is_exact(run, bucket);
    let pages = run[0].world.pages;
    let table = run[0].world.table;
    let objects = super::world::listing(pages);
    let gone = run.last().world.gone;
    let told = run.last().world.told;
    if super::world::is_listed(objects, key) {
        let i = choose|i: int| 0 <= i < objects.len() && (#[trigger] objects[i]).key == key;
        let at = lemma_listed_is_an_entry(pages, i);
        assert(pages[at.0].contents[at.1].key == Some(key));
    }
    assert(!super::world::listed_keys(objects).contains(key));
    assert(!run.last().world.durable.table.dom().contains(key));
    assert(super::world::has_row(gone, key));
    let g = choose|g: int| 0 <= g < gone.len() && (#[trigger] gone[g]).key == key;
    let i = super::world::changes_of(table, objects).len() + g;
    assert(told[i] == ChangeView::Deleted(gone[g].state.object(gone[g].key)));
    assert(gone[g].state == table[key]);
}

/// What a diff on which nothing goes wrong tells of each complete entry, where no two entries have the
/// same key. It is told as added, as it is listed, where nothing was remembered under its key; as
/// modified, with what was remembered, where another entity tag was; and not at all where its entity tag
/// was. The committed row of its key has its entity tag, and its size and second unless it was unchanged.
/// It is not told as deleted.
pub proof fn law_what_is_listed_is_remembered(run: Seq<Scene>, bucket: Seq<char>, p: int, e: int)
    requires
        super::world::is_smooth_run(run, bucket),
        super::world::is_usable(run[0].world),
        super::world::is_finished(run),
        super::world::have_own_keys(super::world::listing(run[0].world.pages)),
        0 <= p < run[0].world.pages.len(),
        0 <= e < run[0].world.pages[p].contents.len(),
        run[0].world.pages[p].contents[e].key is Some,
        run[0].world.pages[p].contents[e].etag is Some,
        run[0].world.pages[p].contents[e].size is Some,
        run[0].world.pages[p].contents[e].last_modified is Some,
    ensures
        ({
            let entry = run[0].world.pages[p].contents[e];
            let key = entry.key->0;
            let table = run[0].world.table;
            let told = run.last().world.told;
            let row = run.last().world.durable.table[key];
            &&& run.last().world.durable.table.contains_key(key)
            &&& row.etag == entry.etag->0
            &&& !table.contains_key(key) ==> {
                &&& row.size == entry.size->0
                &&& exists|i: int|
                    0 <= i < told.len() && {
                        &&& #[trigger] told[i] matches ChangeView::Added(new)
                        &&& new.key == key
                        &&& new.etag == entry.etag->0
                        &&& new.size == entry.size->0
                    }
            }
            &&& table.contains_key(key) && table[key].etag != entry.etag->0 ==> {
                &&& row.size == entry.size->0
                &&& exists|i: int|
                    0 <= i < told.len() && {
                        &&& #[trigger] told[i] matches ChangeView::Modified { old, new }
                        &&& old.key == key
                        &&& old.etag == table[key].etag
                        &&& table[key].size <= i64::MAX ==> old.size == table[key].size
                        &&& new.key == key
                        &&& new.etag == entry.etag->0
                        &&& new.size == entry.size->0
                    }
            }
            &&& entry.last_modified matches Some((secs, nanos)) ==> {
                !(table.contains_key(key) && table[key].etag == entry.etag->0)
                    && -8_334_601_228_800 <= secs <= 8_210_266_876_799 && 0 <= nanos
                    < 1_000_000_000 ==> row.last_modified == secs
            }
            &&& table.contains_key(key) && table[key].etag == entry.etag->0 ==> {
                &&& row == table[key]
                &&& forall|i: int|
                    0 <= i < told.len() ==> match #[trigger] told[i] {
                        ChangeView::Added(new) => new.key != key,
                        ChangeView::Modified { new, .. } => new.key != key,
                        ChangeView::Deleted(_) => true,
                    }
            }
            &&& forall|i: int|
                0 <= i < told.len() ==> (#[trigger] told[i] matches ChangeView::Deleted(old)
                    ==> old.key != key)
        }),
{
    law_diff_is_exact(run, bucket);
    let pages = run[0].world.pages;
    let table = run[0].world.table;
    let objects = super::world::listing(pages);
    let changes = super::world::changes_of(table, objects);
    let gone = run.last().world.gone;
    let told = run.last().world.told;
    let keys = super::world::listed_keys(objects);
    let j = lemma_entry_is_listed(pages, p, e);
    let key = objects[j].key;
    law_etag_decides(table, objects);
    assert(super::world::is_listed(objects, key));
    assert(keys.contains(key));
    assert(run.last().world.durable.table.dom().contains(key));
    let differs = |o: ObjectView| super::world::change_of(table, o) is Some;
    let change = |o: ObjectView| super::world::change_of(table, o)->0;
    if differs(objects[j]) {
        objects.lemma_filter_contains(differs, j);
        let kept = objects.filter(differs);
        let i = choose|i: int| 0 <= i < kept.len() && kept[i] == objects[j];
        assert(changes[i] == change(objects[j]));
        assert(told[i] == changes[i]);
    }
    assert forall|i: int| 0 <= i < told.len() implies match #[trigger] told[i] {
        ChangeView::Added(new) => new.key == key ==> differs(objects[j]),
        ChangeView::Modified { new, .. } => new.key == key ==> differs(objects[j]),
        ChangeView::Deleted(old) => old.key != key,
    } by {
        if i < changes.len() {
            let kept = objects.filter(differs);
            objects.lemma_filter_pred(differs, i);
            assert(changes[i] == change(kept[i]));
            assert(kept.contains(kept[i]));
            objects.lemma_filter_contains_rev(differs, kept[i]);
            let k = choose|k: int| 0 <= k < objects.len() && objects[k] == kept[i];
            assert(k != j ==> objects[k].key != objects[j].key);
        } else {
            assert(told[i] == super::world::deletions_of(gone)[i - changes.len()]);
            assert(!keys.contains(gone[i - changes.len()].key));
        }
    }
}

/// A diff on which nothing goes wrong is never given up.
pub proof fn law_smooth_run_is_not_aborted(run: Seq<Scene>, bucket: Seq<char>, i: int)
    requires
        super::world::is_smooth_run(run, bucket),
        super::world::is_usable(run[0].world),
        0 <= i < run.len(),
    ensures
        run[i].session.stage !is Aborted,
        run[i].action !is Abort,
{
    super::course::lemma_smooth_run(run, bucket, i);
}

/// A diff on which nothing goes wrong goes through the bucket and the state table once: its steps are
/// bounded by the pages, the listed objects and the rows of the table.
pub proof fn law_smooth_run_is_bounded(run: Seq<Scene>, bucket: Seq<char>)
    requires
        super::world::is_smooth_run(run, bucket),
        super::world::is_usable(run[0].world),
        run[0].world.table.dom().finite(),
    ensures
        run.len() <= 2 * run[0].world.pages.len() + 6 * super::world::listing(
            run[0].world.pages,
        ).len() + 3 * run[0].world.table.dom().len() + 21,
{
    super::course::lemma_run_is_nearer(run, bucket, run.len() - 1);
}

/// A diff on which nothing goes wrong and that is not finished goes on, until it is.
pub proof fn law_smooth_run_goes_on(run: Seq<Scene>, bucket: Seq<char>) -> (longer: Seq<Scene>)
    requires
        super::world::is_smooth_run(run, bucket),
        super::world::is_usable(run[0].world),
        run[0].world.table.dom().finite(),
        !super::world::is_finished(run),
    ensures
        super::world::is_smooth_run(longer, bucket),
        longer.len() == run.len() + 1,
        longer.take(run.len() - 1) == run.take(run.len() - 1),
        longer[run.len() - 1] == (Scene {
            outcome: longer[run.len() - 1].outcome,
            ..run.last()
        }),
{
    let n = run.len() - 1;
    let last = run[n];
    let table = run[0].world.table;
    let all = super::world::listing(run[0].world.pages);
    super::course::lemma_smooth_run(run, bucket, n);
    super::course::lemma_run_is_nearer(run, bucket, n);
    let (outcome, world) = super::course::lemma_can_be_answered(last, table, all);
    let step = last.session.next(outcome);
    let answered = Scene { outcome, ..last };
    let next = Scene { session: step.session, action: step.action, world, outcome };
    let longer = run.update(n, answered).push(next);
    assert forall|i: int| 0 <= i < longer.len() - 1 implies #[trigger] super::world::steps_smoothly(
        longer,
        i,
    ) by {
        if i < n {
            assert(super::world::steps_smoothly(run, i));
        }
    }
    assert(longer.take(n) =~= run.take(n));
    longer
}

/// Where no two listed objects have the same key, each is compared with the table as it was before
/// the diff. The entity tag alone decides: an object that the table does not know is added, one that
/// it knows under another entity tag is modified, and one that it knows under the same is unchanged,
/// whatever its size and the time of its last change. Only the rows of added and modified objects
/// are written.
pub proof fn law_etag_decides(table: Table, objects: Seq<ObjectView>)
    requires
        super::world::have_own_keys(objects),
    ensures
        super::world::changes_of(table, objects) == objects.filter(
            |o: ObjectView| super::world::change_of(table, o) is Some,
        ).map_values(|o: ObjectView| super::world::change_of(table, o)->0),
        super::world::tally_of(table, objects) == (Tally {
            added: objects.filter(|o: ObjectView| !table.contains_key(o.key)).len(),
            modified: objects.filter(
                |o: ObjectView|
                    table.contains_key(o.key) && table[o.key].etag != o.etag,
            ).len(),
            deleted: 0,
            unchanged: objects.filter(
                |o: ObjectView|
                    table.contains_key(o.key) && table[o.key].etag == o.etag,
            ).len(),
        }),
        forall|i: int|
            0 <= i < objects.len() ==> super::world::table_after(
                table,
                objects,
            )[(#[trigger] objects[i]).key] == if super::world::remembers(table, objects[i]) {
                table[objects[i].key]
            } else {
                objects[i].compact()
            },
    decreases objects.len(),
{
    reveal(Seq::filter);
    if objects.len() > 0 {
        let before = objects.drop_last();
        let last = objects.last();
        assert forall|i: int, j: int| 0 <= i < j < before.len() implies (
        #[trigger] before[i]).key != (#[trigger] before[j]).key by {
            assert(objects[i].key != objects[j].key);
        }
        law_etag_decides(table, before);
        assert(!super::world::is_listed(before, last.key)) by {
            if super::world::is_listed(before, last.key) {
                let i = choose|i: int|
                    0 <= i < before.len() && (#[trigger] before[i]).key == last.key;
                assert(objects[i].key != objects[objects.len() - 1].key);
            }
        }
        super::course::lemma_table_after(table, before, last.key);
        let p = |o: ObjectView| super::world::change_of(table, o) is Some;
        let f = |o: ObjectView| super::world::change_of(table, o)->0;
        assert(objects.filter(p).map_values(f) =~= if p(last) {
            before.filter(p).map_values(f).push(f(last))
        } else {
            before.filter(p).map_values(f)
        });
        assert forall|i: int| 0 <= i < objects.len() implies super::world::table_after(
            table,
            objects,
        )[(#[trigger] objects[i]).key] == if super::world::remembers(table, objects[i]) {
            table[objects[i].key]
        } else {
            objects[i].compact()
        } by {
            if i < before.len() {
                assert(before[i].key != last.key) by {
                    assert(objects[i].key != objects[objects.len() - 1].key);
                }
                assert(objects[i] == before[i]);
            }
        }
    } else {
        assert(super::world::changes_of(table, objects) =~= objects.filter(
            |o: ObjectView| super::world::change_of(table, o) is Some,
        ).map_values(|o: ObjectView| super::world::change_of(table, o)->0));
    }
}

/// Where objects of the same key agree on the entity tag, the table remembers each of them once they
/// have been compared.
proof fn lemma_all_remembered(table: Table, objects: Seq<ObjectView>, i: int)
    requires
        super::world::agree_on_etags(objects),
        0 <= i < objects.len(),
    ensures
        super::world::remembers(super::world::table_after(table, objects), objects[i]),
    decreases objects.len(),
{
    let before = objects.drop_last();
    let last = objects.last();
    assert(last == objects[objects.len() - 1]);
    if objects[i].key != last.key {
        assert forall|j: int, k: int|
            0 <= j < before.len() && 0 <= k < before.len() && (#[trigger] before[j]).key == (
            #[trigger] before[k]).key implies before[j].etag == before[k].etag by {
            assert(objects[j].key == objects[k].key);
        }
        assert(before[i] == objects[i]);
        lemma_all_remembered(table, before, i);
    } else {
        assert(objects[i].etag == objects[objects.len() - 1].etag);
    }
}

/// Comparing objects that the table remembers as they are changes nothing.
proof fn lemma_nothing_new(table: Table, objects: Seq<ObjectView>)
    requires
        forall|i: int|
            0 <= i < objects.len() ==> super::world::remembers(table, #[trigger] objects[i]),
    ensures
        super::world::table_after(table, objects) == table,
        super::world::changes_of(table, objects) == Seq::<ChangeView>::empty(),
        super::world::tally_of(table, objects) == (Tally {
            unchanged: objects.len(),
            ..Tally::zero()
        }),
    decreases objects.len(),
{
    if objects.len() > 0 {
        let before = objects.drop_last();
        assert forall|i: int| 0 <= i < before.len() implies super::world::remembers(
            table,
            #[trigger] before[i],
        ) by {
            assert(before[i] == objects[i]);
        }
        lemma_nothing_new(table, before);
        assert(super::world::remembers(table, objects[objects.len() - 1]));
    }
}

/// A diff of a bucket that still lists what it listed at the diff before, in whatever order and pages,
/// has nothing to tell, counts every object as unchanged and leaves the state table as it is.
pub proof fn law_second_diff_is_quiet(first: Seq<Scene>, second: Seq<Scene>, bucket: Seq<char>)
    requires
        super::world::is_smooth_run(first, bucket),
        super::world::is_usable(first[0].world),
        super::world::is_finished(first),
        super::world::is_smooth_run(second, bucket),
        super::world::is_usable(second[0].world),
        super::world::is_finished(second),
        super::world::listing(second[0].world.pages).to_multiset() == super::world::listing(
            first[0].world.pages,
        ).to_multiset(),
        super::world::agree_on_etags(super::world::listing(first[0].world.pages)),
        second[0].world.table == first.last().world.durable.table,
    ensures
        second.last().world.told == Seq::<ChangeView>::empty(),
        second.last().session.ledger.tally == (Tally {
            unchanged: super::world::listing(second[0].world.pages).len(),
            ..Tally::zero()
        }),
        second.last().world.durable.table == first.last().world.durable.table,
{
    law_diff_is_exact(first, bucket);
    law_diff_is_exact(second, bucket);
    let table = second[0].world.table;
    let earlier = super::world::listing(first[0].world.pages);
    let objects = super::world::listing(second[0].world.pages);
    let keys = super::world::listed_keys(objects);
    let gone = second.last().world.gone;
    assert forall|i: int| 0 <= i < objects.len() implies super::world::remembers(
        table,
        #[trigger] objects[i],
    ) by {
        let j = lemma_listed_in_both(objects, earlier, i);
        lemma_all_remembered(first[0].world.table, earlier, j);
        assert(super::world::is_listed(earlier, objects[i].key));
        assert(super::world::listed_keys(earlier).contains(objects[i].key));
    }
    lemma_nothing_new(table, objects);
    assert forall|k: Seq<char>| table.contains_key(k) implies #[trigger] keys.contains(k) by {
        assert(super::world::listed_keys(earlier).contains(k));
        let i = choose|i: int| 0 <= i < earlier.len() && (#[trigger] earlier[i]).key == k;
        let j = lemma_listed_in_both(earlier, objects, i);
        assert(objects[j].key == k);
    }
    assert(gone.len() == 0) by {
        if gone.len() > 0 {
            assert(table.contains_key(gone[0].key));
            assert(keys.contains(gone[0].key));
        }
    }
    assert(second.last().world.told =~= Seq::<ChangeView>::empty());
    assert(second.last().world.durable.table =~= table);
}

/// An object of one listing is also in another that lists the same objects.
proof fn lemma_listed_in_both(objects: Seq<ObjectView>, others: Seq<ObjectView>, i: int) -> (j: int)
    requires
        objects.to_multiset() == others.to_multiset(),
        0 <= i < objects.len(),
    ensures
        0 <= j < others.len(),
        others[j] == objects[i],
{
    objects.to_multiset_ensures();
    others.to_multiset_ensures();
    assert(objects.contains(objects[i]));
    assert(objects.to_multiset().count(objects[i]) > 0);
    assert(others.contains(objects[i]));
    choose|j: int| 0 <= j < others.len() && others[j] == objects[i]
}

/// What holds whatever goes wrong also holds where nothing does.
pub proof fn law_smooth_run_is_a_run(run: Seq<Scene>, bucket: Seq<char>)
    requires
        super::world::is_smooth_run(run, bucket),
    ensures
        super::world::is_run(run, bucket),
        super::world::is_faithful_run(run, bucket),
{
    assert forall|i: int| 0 <= i < run.len() - 1 implies #[trigger] super::world::steps(run, i) by {
        assert(super::world::steps_smoothly(run, i));
    }
    assert forall|i: int| 0 <= i < run.len() - 1 implies
        #[trigger] super::world::steps_faithfully(run, i) by {
        assert(super::world::steps_smoothly(run, i));
    }
}

/// Whatever goes wrong, a diff is committed as a whole or not at all: until it is finished, and where
/// it is given up, the committed database is what it was, with its tables and its columns. When it is
/// finished the database is what the one successful commit wrote. The counts are returned exactly when
/// it is finished.
pub proof fn law_all_or_nothing(run: Seq<Scene>, bucket: Seq<char>, i: int)
    requires
        super::world::is_run(run, bucket),
        0 <= i < run.len(),
    ensures
        run[i].action is Commit <==> run[i].session.stage is Committing,
        run[i].action is Finish <==> run[i].session.stage is Finished,
        run[i].action is Abort <==> run[i].session.stage is Aborted,
        run[i].session.stage !is Finished ==> run[i].world.durable == run[0].world.durable,
        run[i].session.stage is Finished ==> exists|j: int|
            0 <= j < i && (#[trigger] run[j]).action is Commit && run[j].outcome is Done
                && run[i].world.durable == run[j].world.database(),
    decreases i,
{
    if i > 0 {
        law_all_or_nothing(run, bucket, i - 1);
        assert(super::world::steps(run, i - 1));
        if run[i - 1].session.stage is Finished {
            let j = choose|j: int|
                0 <= j < i - 1 && (#[trigger] run[j]).action is Commit && run[j].outcome is Done
                    && run[i - 1].world.durable == run[j].world.database();
            assert(run[j].action is Commit);
        }
    }
}

/// Whether a session has not got past a row that cannot be read: the row is there, is not marked as
/// seen once the marks have been reset, and is not about to be written, marked or removed.
spec fn is_stopped_by(s: Scene, key: Seq<char>) -> bool {
    let stage = s.session.stage;
    let w = s.world;
    stage !is Aborted ==> {
        &&& w.table.contains_key(key)
        &&& w.table[key].size < 0
        &&& stage !is AddingSeenColumn && stage !is ResettingSeen ==> !w.seen.contains(key)
        &&& s.action is ResetSeen <==> stage is ResettingSeen
        &&& s.action is SelectUnseen <==> stage is SelectingUnseen
        &&& match s.action {
            ActionView::Upsert(row) => row.key != key,
            ActionView::MarkSeen(k) => k != key,
            ActionView::Delete(_) => false,
            _ => true,
        }
        &&& match stage {
            StageView::LookingUp { object, .. } => s.action == ActionView::Lookup(object.key),
            StageView::MarkingSeen { object, .. } => object.key != key,
            StageView::PreparingUnseen | StageView::SelectingUnseen => true,
            _ => !super::world::is_past_the_listing(stage),
        }
    }
}

/// Every step of a faithful run stays before a row that cannot be read.
proof fn lemma_stopped_by(run: Seq<Scene>, bucket: Seq<char>, key: Seq<char>, i: int)
    requires
        super::world::is_faithful_run(run, bucket),
        run[0].world.table.contains_key(key),
        run[0].world.table[key].size < 0,
        0 <= i < run.len(),
    ensures
        is_stopped_by(run[i], key),
    decreases i,
{
    if i > 0 {
        lemma_stopped_by(run, bucket, key, i - 1);
        assert(super::world::steps(run, i - 1));
        assert(super::world::steps_faithfully(run, i - 1));
    }
}

/// A stored size that cannot be read back keeps a diff from finishing, whether its key is listed or
/// not and whatever else fails, and the committed database stays as it was.
pub proof fn law_unreadable_row_ends_the_diff(
    run: Seq<Scene>,
    bucket: Seq<char>,
    key: Seq<char>,
    i: int,
)
    requires
        super::world::is_faithful_run(run, bucket),
        run[0].world.table.contains_key(key),
        run[0].world.table[key].size < 0,
        0 <= i < run.len(),
    ensures
        run[i].session.stage !is Finished,
        run[i].action !is Finish,
        run[i].world.durable == run[0].world.durable,
{
    lemma_stopped_by(run, bucket, key, i);
    law_all_or_nothing(run, bucket, i);
}

/// What is counted is what the change handler is told: whatever goes wrong, as many objects are counted
/// as added, as modified and as deleted as the handler has been told of. An object whose row could not
/// be written is neither counted nor told of.
pub proof fn law_counts_are_what_is_told(run: Seq<Scene>, bucket: Seq<char>)
    requires
        super::world::is_run(run, bucket),
    ensures
        ({
            let tally = run.last().session.ledger.tally;
            &&& tally.added == run.filter(|s: Scene| super::world::tells_of_addition(s)).len()
            &&& tally.modified == run.filter(
                |s: Scene| super::world::tells_of_modification(s),
            ).len()
            &&& tally.deleted == run.filter(|s: Scene| super::world::tells_of_deletion(s)).len()
        }),
    decreases run.len(),
{
    reveal_with_fuel(Seq::filter, 2);
    if run.len() > 1 {
        let before = run.drop_last();
        super::order::lemma_shorter_run(run, bucket);
        law_counts_are_what_is_told(before, bucket);
        assert(super::world::steps(run, run.len() - 2));
        assert(before.last() == run[run.len() - 2]);
    }
}

/// Whether the scene is right about the time of the update and the column that marks rows as seen: the
/// column has been removed if it could be before the clock is read, and the time that the clock showed
/// has been recorded before the commit.
spec fn keeps_books(run: Seq<Scene>, i: int) -> bool {
    let s = run[i];
    let before = run[0].world.metadata;
    let is_cleaned_up_at = |j: int|
        {
            &&& j >= 0
            &&& run[j].action is DropSeenColumn
            &&& s.world.has_seen_column == (run[j].outcome !is Done
                && run[j].world.has_seen_column)
        };
    &&& s.action is DropSeenColumn <==> s.session.stage is DroppingSeenColumn
    &&& s.action is ReadClock <==> s.session.stage is ReadingClock
    &&& s.action is RecordUpdate <==> s.session.stage is RecordingUpdate
    &&& s.action is Commit <==> s.session.stage is Committing
    &&& s.session.stage is ReadingClock ==> is_cleaned_up_at(i - 1)
    &&& s.session.stage is RecordingUpdate ==> {
        &&& is_cleaned_up_at(i - 2)
        &&& run[i - 1].action is ReadClock
        &&& run[i - 1].outcome is Time
        &&& s.action == ActionView::RecordUpdate(run[i - 1].outcome->Time_0)
    }
    &&& s.session.stage is Committing ==> {
        &&& is_cleaned_up_at(i - 3)
        &&& run[i - 2].action is ReadClock
        &&& run[i - 2].outcome is Time
        &&& run[i - 1].action == ActionView::RecordUpdate(run[i - 2].outcome->Time_0)
        &&& run[i - 1].outcome is Done
        &&& s.world.metadata == run[0].world.metadata_at(run[i - 2].outcome->Time_0)
    }
    &&& s.session.stage !is Committing && s.session.stage !is Finished && s.session.stage
        !is Aborted ==> s.world.metadata == before
}

/// Every scene of a run is right about the time of the update and the column.
proof fn lemma_keeps_books(run: Seq<Scene>, bucket: Seq<char>, i: int)
    requires
        super::world::is_run(run, bucket),
        0 <= i < run.len(),
    ensures
        keeps_books(run, i),
    decreases i,
{
    if i > 0 {
        lemma_keeps_books(run, bucket, i - 1);
        assert(super::world::steps(run, i - 1));
    }
}

/// Whatever goes wrong, a diff is only committed once the clock has been read, and then the time that it
/// showed has been recorded, in the two steps right before the commit.
pub proof fn law_commit_records_the_update(run: Seq<Scene>, bucket: Seq<char>, i: int)
    requires
        super::world::is_run(run, bucket),
        0 <= i < run.len(),
        run[i].action is Commit,
    ensures
        i > 1,
        run[i - 2].action is ReadClock,
        run[i - 2].outcome matches OutcomeView::Time(time) && run[i - 1].action
            == ActionView::RecordUpdate(time) && run[i].world.metadata
            == run[0].world.metadata_at(time),
        run[i - 1].outcome is Done,
{
    lemma_keeps_books(run, bucket, i);
}

/// Whatever goes wrong, a diff is only committed once the column that marks rows as seen was to be
/// removed, three steps before the commit. Where that succeeded the column is gone, and where it failed
/// it is as it was.
pub proof fn law_commit_follows_the_cleanup(run: Seq<Scene>, bucket: Seq<char>, i: int)
    requires
        super::world::is_run(run, bucket),
        0 <= i < run.len(),
        run[i].action is Commit,
    ensures
        i > 2,
        run[i - 3].action is DropSeenColumn,
        run[i].world.has_seen_column == (run[i - 3].outcome !is Done && run[i
            - 3].world.has_seen_column),
{
    lemma_keeps_books(run, bucket, i);
}

/// Whatever went wrong on the way, a finished diff has left the time that the clock showed in the one
/// metadata row for it and every other as it was, and has left no column that marks rows as seen where
/// that could be removed.
pub proof fn law_finished_diff_keeps_books(run: Seq<Scene>, bucket: Seq<char>)
    requires
        super::world::is_run(run, bucket),
        super::world::is_finished(run),
    ensures
        ({
            let after = run.last().world.durable;
            &&& exists|j: int|
                0 <= j < run.len() && (#[trigger] run[j]).action is ReadClock
                    && run[j].outcome is Time && after.metadata
                    == run[0].world.durable.metadata.insert(
                    LAST_UPDATED@,
                    super::world::decimal(run[j].outcome->Time_0),
                )
            &&& exists|j: int|
                0 <= j < run.len() && (#[trigger] run[j]).action is DropSeenColumn
                    && after.has_seen_column == (run[j].outcome !is Done
                    && run[j].world.has_seen_column)
        }),
{
    let last = run.len() - 1;
    law_all_or_nothing(run, bucket, last);
    let j = choose|j: int|
        0 <= j < last && (#[trigger] run[j]).action is Commit && run[j].outcome is Done
            && run[last].world.durable == run[j].world.database();
    law_commit_records_the_update(run, bucket, j);
    law_commit_follows_the_cleanup(run, bucket, j);
    assert(run[j - 2].action is ReadClock);
    assert(run[j - 3].action is DropSeenColumn);
}

/// Objects are compared as they are listed: whatever goes wrong, a session never holds more of them
/// than one page has entries.
pub proof fn law_one_page_is_held(run: Seq<Scene>, bucket: Seq<char>, most: nat, i: int)
    requires
        super::world::is_run(run, bucket),
        forall|j: int|
            0 <= j < run.len() ==> ((#[trigger] run[j]).outcome matches OutcomeView::Page(page)
                ==> page.contents.len() <= most),
        0 <= i < run.len(),
    ensures
        super::world::held(run[i].session) <= most,
    decreases i,
{
    if i > 0 {
        law_one_page_is_held(run, bucket, most, i - 1);
        assert(super::world::steps(run, i - 1));
        if let OutcomeView::Page(page) = run[i - 1].outcome {
            page.contents.lemma_filter_len(|o: ListedView| o.is_complete());
        }
    }
}

/// A failure at one object is reported and costs that object alone: it counts as dealt with, the counts
/// stay, so that an object whose row could not be written is not counted as added or modified, and the
/// session goes on with the next object, page or row. A failure to add or to
/// remove the column that marks rows as seen is passed over. Every other failure ends the diff.
pub proof fn law_failures(s: SessionView)
    requires
        s.stage !is Finished,
        s.stage !is Aborted,
    ensures
        s.next(OutcomeView::Failed).action is Abort <==> !super::world::is_at_an_object(s.stage)
            && s.stage !is AddingSeenColumn && s.stage !is DroppingSeenColumn,
        super::world::is_at_an_object(s.stage) ==> {
            let step = s.next(OutcomeView::Failed);
            &&& step.notices.len() > 0
            &&& step.notices[0] == NoticeView::ObjectFailed
            &&& step.session.ledger == s.ledger.counted()
            &&& step.action is Lookup || step.action is ListObjects || step.action is PrepareUnseen
        },
{
}

/// The pages of a bucket are asked for one after the other, each of at most a thousand objects: the
/// first without a token, and each other with the token of the page before it, and only where that page
/// says that it is truncated. So it is whatever goes wrong.
pub proof fn law_pages_are_read_in_order(run: Seq<Scene>, bucket: Seq<char>, i: int)
    requires
        super::world::is_run(run, bucket),
        0 <= i < run.len(),
    ensures
        ({
            let pages = run[0].world.pages;
            let read = pages.len() - run[i].world.pages.len();
            &&& 0 <= read
            &&& run[i].world.pages == pages.skip(read)
            &&& run[i].action matches ActionView::ListObjects(request) ==> request
                == super::world::request_after(bucket, pages, read)
            &&& run[i].action is ListObjects && read > 0 ==> pages[read - 1].is_truncated == Some(
                true,
            )
        }),
{
    super::order::lemma_requests(run, bucket, i);
}

/// The listed objects are taken up in the order of the listing, each once, whatever goes wrong at any
/// of them or at a request, and however the listing is split into pages. The objects taken up and those
/// of the page at hand that are still to come are exactly the objects of the pages that have been read.
/// So, where no page is at hand, all objects of the pages that have been read have been taken up, and
/// nothing else. A session goes past the listing after the first page that does not say that it is
/// truncated; where the pages are a whole listing, it has then taken up all of it. All that it has taken
/// up, but for the one that it is at work on, it counts as listed.
pub proof fn law_objects_are_taken_up_in_order(run: Seq<Scene>, bucket: Seq<char>)
    requires
        super::world::is_run(run, bucket),
    ensures
        ({
            let taken = super::world::taken_up(run);
            let pages = run[0].world.pages;
            let read = pages.len() - run.last().world.pages.len();
            let end = run.last().session;
            let is_past = super::world::is_past_the_listing(end.stage);
            &&& 0 <= read
            &&& taken + super::world::rest_of(end.stage) == super::world::listing(pages.take(read))
            &&& !super::world::is_at_an_object(end.stage) ==> taken == super::world::listing(
                pages.take(read),
            )
            &&& taken.is_prefix_of(super::world::listing(pages))
            &&& is_past ==> read > 0 && pages[read - 1].is_truncated != Some(true)
            &&& is_past && super::world::is_whole(pages) ==> taken == super::world::listing(pages)
            &&& super::world::is_at_an_object(end.stage) ==> taken.len() == end.ledger.listed + 1
            &&& !super::world::is_at_an_object(end.stage) ==> taken.len() == end.ledger.listed
        }),
{
    let taken = super::world::taken_up(run);
    let pages = run[0].world.pages;
    let read = pages.len() - run.last().world.pages.len();
    let rest = super::world::rest_of(run.last().session.stage);
    super::order::lemma_taken_up(run, bucket);
    super::order::lemma_requests(run, bucket, run.len() - 1);
    super::order::lemma_listing_of_both(pages.take(read), pages.skip(read));
    assert(pages.take(read) + pages.skip(read) =~= pages);
    if !super::world::is_at_an_object(run.last().session.stage) {
        assert(taken + rest =~= taken);
    }
    if super::world::is_whole(pages) && super::world::is_past_the_listing(
        run.last().session.stage,
    ) {
        assert(pages[read - 1].is_truncated == Some(true) <==> read - 1 < pages.len() - 1);
        assert(pages.take(read) =~= pages);
    }
}

/// What is due to be reported after a step: the failure at an object, or the objects compared where
/// they come to a multiple of the interval; then the objects listed where one more has been dealt with
/// and they come to a multiple of the interval; then, at the end of the listing, their total. Where the
/// column that marks rows as seen is not removed, that is due.
pub open spec fn due_notices(s: SessionView, outcome: OutcomeView) -> Seq<NoticeView> {
    let step = s.next(outcome);
    let ledger = step.session.ledger;
    let dealt_with = ledger.listed == s.ledger.listed + 1;
    let compared = outcome is Done && (s.stage is MarkingSeen || s.stage is Notifying);
    let page_over = (dealt_with || s.stage is Listing && outcome is Page) && step.action !is Lookup;
    let of_object = if dealt_with && !compared {
        seq![NoticeView::ObjectFailed]
    } else if dealt_with && ledger.tally.compared() % 10_000 == 0 {
        seq![NoticeView::Compared(ledger.tally)]
    } else {
        seq![]
    };
    let of_count = if dealt_with && ledger.listed % 10_000 == 0 {
        seq![NoticeView::Listed(ledger.listed)]
    } else {
        seq![]
    };
    let of_listing = if page_over && step.action is PrepareUnseen {
        seq![NoticeView::ListedInTotal(ledger.listed)]
    } else {
        seq![]
    };
    let of_column = if s.stage is DroppingSeenColumn && outcome !is Done {
        seq![NoticeView::SeenColumnKept]
    } else {
        seq![]
    };
    of_object + of_count + of_listing + of_column
}

/// Progress is reported whenever one more object has been listed and the objects listed come to a
/// multiple of ten thousand, and whenever one more has been compared and those compared do, and at no
/// other time. The total is reported at the end of the
/// listing. Beside that, only failures are reported.
pub proof fn law_progress_is_reported(s: SessionView, outcome: OutcomeView)
    ensures
        s.next(outcome).notices == due_notices(s, outcome),
{
    assert(s.next(outcome).notices =~= due_notices(s, outcome));
}

/// The listed objects that one step reports.
proof fn lemma_listed_report(s: SessionView, outcome: OutcomeView)
    ensures
        s.next(outcome).session.ledger.listed == s.ledger.listed
            || s.next(outcome).session.ledger.listed == s.ledger.listed + 1,
        s.next(outcome).notices.filter(|n: NoticeView| n is Listed) == {
            let listed = s.next(outcome).session.ledger.listed;
            if listed == s.ledger.listed + 1 && listed % 10_000 == 0 {
                seq![NoticeView::Listed(listed)]
            } else {
                seq![]
            }
        },
{
    law_progress_is_reported(s, outcome);
    reveal_with_fuel(Seq::filter, 5);
}

/// The multiples of ten thousand up to the given number of listed objects, each reported once.
pub open spec fn progress_up_to(listed: nat) -> Seq<NoticeView> {
    Seq::new(listed / 10_000, |k: int| NoticeView::Listed(((k + 1) * 10_000) as nat))
}

/// One more listed object adds at most its own number to the multiples.
proof fn lemma_progress_of_one_more(listed: nat)
    ensures
        progress_up_to(listed + 1) == progress_up_to(listed) + if (listed + 1) % 10_000 == 0 {
            seq![NoticeView::Listed(listed + 1)]
        } else {
            seq![]
        },
{
    assert(progress_up_to(listed + 1) =~= progress_up_to(listed) + if (listed + 1) % 10_000 == 0 {
        seq![NoticeView::Listed(listed + 1)]
    } else {
        seq![]
    });
}

/// Progress is reported every ten thousand objects: whatever goes wrong, and however the listing is
/// split into pages, what is reported of the objects listed is ten thousand, twenty thousand and so on,
/// up to how many have been listed, each once and in this order.
pub proof fn law_progress_every_ten_thousand(run: Seq<Scene>, bucket: Seq<char>)
    requires
        super::world::is_run(run, bucket),
    ensures
        super::world::reports(run).filter(|n: NoticeView| n is Listed) == progress_up_to(
            run.last().session.ledger.listed,
        ),
    decreases run.len(),
{
    let pred = |n: NoticeView| n is Listed;
    if run.len() == 1 {
        assert(super::world::reports(run).filter(pred) =~= progress_up_to(0)) by {
            reveal(Seq::filter);
        }
    } else {
        let before = run.drop_last();
        let a = before.last();
        super::order::lemma_shorter_run(run, bucket);
        law_progress_every_ten_thousand(before, bucket);
        let i = run.len() - 2;
        assert(super::world::steps(run, i));
        lemma_listed_report(a.session, a.outcome);
        lemma_progress_of_one_more(a.session.ledger.listed);
        let earlier = super::world::reports(before);
        Seq::filter_distributes_over_add(earlier, a.session.next(a.outcome).notices, pred);
        assert(earlier.filter(pred) + Seq::<NoticeView>::empty() =~= earlier.filter(pred));
    }
}

/// What was remembered of an object describes it again: the same key, entity tag and size, and the
/// same time of its last change to the second.
pub proof fn law_remembered_object_reads_back(object: ObjectView)
    requires
        0 <= object.size <= i64::MAX,
        super::timestamp::representable(object.last_modified.secs, object.last_modified.nanos),
    ensures
        object.compact().object(object.key) == (ObjectView {
            last_modified: super::timestamp::Moment {
                secs: object.last_modified.secs,
                nanos: 0,
            },
            ..object
        }),
{
}

/// The bucket is only read: an action that is not a statement on the state database, the commit of its
/// transaction, a word to the change handler, a look at the clock or the end of the session creates a
/// client or lists objects.
pub proof fn law_bucket_is_only_listed(action: ActionView)
    requires
        super::schema::statement_of(action) is None,
        action !is Commit,
        action !is Notify,
        action !is ReadClock,
        action !is Finish,
        action !is Abort,
    ensures
        action is Connect || action is ListObjects,
{
}

/// A diff of a bucket begins with no counts, nothing to report, and the column that marks rows as seen to
/// be added.
pub proof fn law_beginning(bucket: Seq<char>)
    ensures
        ({
            let step = super::protocol::first_step(bucket);
            let ledger = step.session.ledger;
            &&& ledger.bucket == bucket
            &&& ledger.listed == 0
            &&& ledger.tally == (Tally { added: 0, modified: 0, deleted: 0, unchanged: 0 })
            &&& step.session.stage == StageView::AddingSeenColumn
            &&& step.action == ActionView::AddSeenColumn
            &&& step.notices.len() == 0
        }),
{
}

/// What one step counts. An object is counted as listed when it has been dealt with or has to be left,
/// as added or modified when its row has been written, and as unchanged when it has been marked as seen
/// and its entity tag is the one that was remembered. A row is counted as deleted when the session turns
/// to it. Nothing else is counted, and the bucket stays the same.
pub proof fn law_counts_of_a_step(s: SessionView, outcome: OutcomeView)
    ensures
        ({
            let before = s.ledger;
            let after = s.next(outcome).session.ledger;
            let is_done = outcome is Done;
            &&& after.bucket == before.bucket
            &&& after.listed == before.listed + match s.stage {
                StageView::LookingUp { .. } => if outcome is Found {
                    0int
                } else {
                    1
                },
                StageView::Inserting { .. } | StageView::Updating { .. } => if is_done {
                    0
                } else {
                    1
                },
                StageView::MarkingSeen { object, previous, .. } => if is_done && previous.etag
                    != object.etag {
                    0
                } else {
                    1
                },
                StageView::Notifying { .. } => 1,
                _ => 0,
            }
            &&& after.tally.added == before.tally.added + if is_done && s.stage is Inserting {
                1int
            } else {
                0
            }
            &&& after.tally.modified == before.tally.modified + if is_done && s.stage is Updating {
                1int
            } else {
                0
            }
            &&& after.tally.unchanged == before.tally.unchanged + match s.stage {
                StageView::MarkingSeen { object, previous, .. } => if is_done && previous.etag
                    == object.etag {
                    1int
                } else {
                    0
                },
                _ => 0,
            }
            &&& after.tally.deleted == before.tally.deleted + match s.stage {
                StageView::PreparingDelete { rows } => if is_done && rows.len() > 0 {
                    1int
                } else {
                    0
                },
                StageView::Deleting { rows } => if is_done && rows.len() > 0 {
                    1
                } else {
                    0
                },
                _ => 0,
            }
        }),
{
}

/// Up to the first page: the marks are added and reset, three statements are prepared, a client is
/// created, and then the first thousand objects of the bucket are asked for. Only the failure to add
/// the marks is passed over.
pub proof fn law_steps_before_the_listing(s: SessionView, outcome: OutcomeView)
    ensures
        ({
            let step = s.next(outcome);
            let after = (step.session.stage, step.action);
            let given_up = (StageView::Aborted, ActionView::Abort);
            let done_or_given_up = |next: (StageView, ActionView)|
                after == if outcome is Done {
                    next
                } else {
                    given_up
                };
            match s.stage {
                StageView::AddingSeenColumn => after == (
                    StageView::ResettingSeen,
                    ActionView::ResetSeen,
                ),
                StageView::ResettingSeen => done_or_given_up(
                    (StageView::PreparingLookup, ActionView::PrepareLookup),
                ),
                StageView::PreparingLookup => done_or_given_up(
                    (StageView::PreparingUpsert, ActionView::PrepareUpsert),
                ),
                StageView::PreparingUpsert => done_or_given_up(
                    (StageView::PreparingMarkSeen, ActionView::PrepareMarkSeen),
                ),
                StageView::PreparingMarkSeen => done_or_given_up(
                    (StageView::Connecting, ActionView::Connect),
                ),
                StageView::Connecting => done_or_given_up(
                    (
                        StageView::Listing,
                        ActionView::ListObjects(
                            RequestView {
                                bucket: s.ledger.bucket,
                                max_keys: 1000,
                                continuation_token: None,
                            },
                        ),
                    ),
                ),
                StageView::Listing => outcome !is Page ==> after == given_up,
                _ => true,
            }
        }),
{
}

/// How a listed object is compared. One that has no row gets one, and then the handler is told that it
/// was added. The row of any other is marked as seen; where it has another entity tag it is written
/// anew, and then the handler is told what was remembered and what is listed. What is written is the
/// object's own key, entity tag, size and second.
pub proof fn law_steps_of_an_object(s: SessionView, outcome: OutcomeView)
    ensures
        ({
            let step = s.next(outcome);
            let after = (step.session.stage, step.action);
            let row_of = |object: ObjectView|
                StoredView {
                    key: object.key,
                    state: CompactView {
                        etag: object.etag,
                        size: object.size,
                        last_modified: object.last_modified.secs,
                    },
                };
            match s.stage {
                StageView::LookingUp { object, batch } => match outcome {
                    OutcomeView::Found(None) => after == (
                        StageView::Inserting { object, batch },
                        ActionView::Upsert(row_of(object)),
                    ),
                    OutcomeView::Found(Some(previous)) => after == (
                        StageView::MarkingSeen { object, previous, batch },
                        ActionView::MarkSeen(object.key),
                    ),
                    _ => true,
                },
                StageView::Inserting { object, batch } => outcome is Done ==> after == (
                    StageView::Notifying { batch },
                    ActionView::Notify(ChangeView::Added(object)),
                ),
                StageView::MarkingSeen { object, previous, batch } => outcome is Done
                    && previous.etag != object.etag ==> after == (
                    StageView::Updating { object, previous, batch },
                    ActionView::Upsert(row_of(object)),
                ),
                StageView::Updating { object, previous, batch } => outcome is Done ==> {
                    &&& step.session.stage == (StageView::Notifying { batch })
                    &&& step.action matches ActionView::Notify(ChangeView::Modified { old, new })
                    &&& new == object
                    &&& old.key == object.key
                    &&& old.etag == previous.etag
                    &&& previous.size <= i64::MAX ==> old.size == previous.size
                    &&& old == previous.object(object.key)
                },
                _ => true,
            }
        }),
{
}

/// How a session goes on when a page has come in, or when it is done with an object or has to leave it:
/// with the next object of the page, or else with the next page, asked for with the token that the last
/// one gave, or else with the rows of objects that are gone. The others of the page stay in their order.
pub proof fn law_turn_to_what_is_next(s: SessionView, outcome: OutcomeView, batch: BatchView)
    requires
        match s.stage {
            StageView::Listing => outcome matches OutcomeView::Page(page) && batch.rest
                == super::listing::complete_objects(page.contents) && batch.next == (
            if page.is_truncated == Some(true) {
                NextView::Page(page.next_continuation_token)
            } else {
                NextView::End
            }),
            StageView::LookingUp { batch: b, .. } => batch == b && outcome !is Found,
            StageView::Inserting { batch: b, .. } => batch == b && outcome !is Done,
            StageView::Updating { batch: b, .. } => batch == b && outcome !is Done,
            StageView::MarkingSeen { object, previous, batch: b } => batch == b && (outcome !is Done
                || previous.etag == object.etag),
            StageView::Notifying { batch: b } => batch == b,
            _ => false,
        },
    ensures
        ({
            let step = s.next(outcome);
            let after = (step.session.stage, step.action);
            &&& batch.rest.len() > 0 ==> after == (
                StageView::LookingUp {
                    object: batch.rest[0],
                    batch: BatchView { rest: batch.rest.drop_first(), next: batch.next },
                },
                ActionView::Lookup(batch.rest[0].key),
            )
            &&& batch.rest.len() == 0 ==> match batch.next {
                NextView::Page(token) => after == (
                    StageView::Listing,
                    ActionView::ListObjects(
                        RequestView {
                            bucket: s.ledger.bucket,
                            max_keys: 1000,
                            continuation_token: token,
                        },
                    ),
                ),
                NextView::End => after == (StageView::PreparingUnseen, ActionView::PrepareUnseen),
            }
        }),
{
}

/// How the rows of objects that are gone are dealt with: all that were read, one after the other. The
/// handler is told what was remembered of the object, and then the row of that key is removed. Any
/// failure ends the diff.
pub proof fn law_steps_of_gone_rows(s: SessionView, outcome: OutcomeView)
    ensures
        ({
            let step = s.next(outcome);
            let after = (step.session.stage, step.action);
            let given_up = (StageView::Aborted, ActionView::Abort);
            let turns_to = |rows: Seq<StoredView>|
                if rows.len() > 0 {
                    after == (
                        StageView::NotifyingDeleted { key: rows[0].key, rows: rows.drop_first() },
                        ActionView::Notify(
                            ChangeView::Deleted(rows[0].state.object(rows[0].key)),
                        ),
                    )
                } else {
                    after == (StageView::DroppingSeenColumn, ActionView::DropSeenColumn)
                };
            match s.stage {
                StageView::PreparingUnseen => after == if outcome is Done {
                    (StageView::SelectingUnseen, ActionView::SelectUnseen)
                } else {
                    given_up
                },
                StageView::SelectingUnseen => after == match outcome {
                    OutcomeView::Unseen(rows) => (
                        StageView::PreparingDelete { rows },
                        ActionView::PrepareDelete,
                    ),
                    _ => given_up,
                },
                StageView::PreparingDelete { rows } => if outcome is Done {
                    turns_to(rows)
                } else {
                    after == given_up
                },
                StageView::NotifyingDeleted { key, rows } => after == if outcome is Done {
                    (StageView::Deleting { rows }, ActionView::Delete(key))
                } else {
                    given_up
                },
                StageView::Deleting { rows } => if outcome is Done {
                    turns_to(rows)
                } else {
                    after == given_up
                },
                _ => true,
            }
        }),
{
}

/// How a session ends: the marks are removed if they can be, the clock is read, the time that it shows is
/// recorded, the transaction is committed, and the counts are returned. A session that has ended stays
/// so.
pub proof fn law_steps_to_the_end(s: SessionView, outcome: OutcomeView)
    ensures
        ({
            let step = s.next(outcome);
            let after = (step.session.stage, step.action);
            let given_up = (StageView::Aborted, ActionView::Abort);
            let finished = (StageView::Finished, ActionView::Finish(s.ledger.tally));
            match s.stage {
                StageView::DroppingSeenColumn => after == (
                    StageView::ReadingClock,
                    ActionView::ReadClock,
                ),
                StageView::ReadingClock => after == match outcome {
                    OutcomeView::Time(time) => (
                        StageView::RecordingUpdate,
                        ActionView::RecordUpdate(time),
                    ),
                    _ => given_up,
                },
                StageView::RecordingUpdate => after == if outcome is Done {
                    (StageView::Committing, ActionView::Commit)
                } else {
                    given_up
                },
                StageView::Committing => after == if outcome is Done {
                    finished
                } else {
                    given_up
                },
                StageView::Finished => after == finished,
                StageView::Aborted => after == given_up,
                _ => true,
            }
        }),
{
}

/// What one step reports, and in what order: that an object had to be left, or, every ten thousand that
/// have been compared, the counts; every ten thousand that have been listed, their number; at the end of
/// the listing, their total; and that the marks could not be removed.
pub proof fn law_notices_of_a_step(s: SessionView, outcome: OutcomeView)
    ensures
        ({
            let step = s.next(outcome);
            let tally = step.session.ledger.tally;
            let listed = step.session.ledger.listed;
            let is_over = listed != s.ledger.listed;
            let is_left = match s.stage {
                StageView::LookingUp { .. } => outcome !is Found,
                StageView::Inserting { .. }
                | StageView::Updating { .. }
                | StageView::MarkingSeen { .. }
                | StageView::Notifying { .. } => outcome !is Done,
                _ => false,
            };
            let compared = tally.added + tally.modified + tally.unchanged;
            let none = Seq::<NoticeView>::empty();
            step.notices == (if is_left {
                seq![NoticeView::ObjectFailed]
            } else {
                none
            }) + (if is_over && !is_left && compared % 10_000 == 0 {
                seq![NoticeView::Compared(tally)]
            } else {
                none
            }) + (if is_over && listed % 10_000 == 0 {
                seq![NoticeView::Listed(listed)]
            } else {
                none
            }) + (if step.action is PrepareUnseen {
                seq![NoticeView::ListedInTotal(listed)]
            } else {
                none
            }) + (if s.stage is DroppingSeenColumn && outcome !is Done {
                seq![NoticeView::SeenColumnKept]
            } else {
                none
            })
        }),
{
    law_progress_is_reported(s, outcome);
}

/// The row that remembers an object has the object's own key, entity tag, size and second, so that two
/// objects share a row only if they share all of these.
pub proof fn law_row_is_of_its_object(object: ObjectView, other: ObjectView)
    ensures
        object.stored().key == object.key,
        object.stored().state.etag == object.etag,
        object.stored().state.size == object.size,
        object.stored().state.last_modified == object.last_modified.secs,
        object.stored() == other.stored() ==> object.key == other.key && object.etag == other.etag
            && object.size == other.size,
{
}

} // verus!
