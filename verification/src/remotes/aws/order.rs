//! The order in which a session goes through a listing, whatever goes wrong.

use super::listing::{BatchView, NextView, PageView};
use super::object::{ObjectView, Tally};
use super::protocol::{ActionView, LedgerView, NoticeView, StageView};
use super::world::Scene;
use vstd::prelude::*;

verus! {

/// The batch that a session is working on, if it is working on one.
pub open spec fn batch_of(stage: StageView) -> Option<BatchView> {
    match stage {
        StageView::LookingUp { batch, .. } => Some(batch),
        StageView::Inserting { batch, .. } => Some(batch),
        StageView::MarkingSeen { batch, .. } => Some(batch),
        StageView::Updating { batch, .. } => Some(batch),
        StageView::Notifying { batch } => Some(batch),
        _ => None,
    }
}

/// Whether, of the objects to be listed, those of the batch and of the pages to come are left.
pub open spec fn is_left(left: Seq<ObjectView>, batch: BatchView, pages: Seq<PageView>) -> bool {
    &&& left == batch.rest + super::world::listing(pages)
    &&& match batch.next {
        NextView::Page(_) => super::world::is_whole(pages),
        NextView::End => pages.len() == 0,
    }
}

/// A whole listing goes on with the rest of it exactly where its first page says so.
pub(crate) proof fn lemma_first_page(pages: Seq<PageView>)
    requires
        super::world::is_whole(pages),
    ensures
        is_left(super::world::listing(pages), pages[0].batch(), pages.drop_first()),
{
    let rest = pages.drop_first();
    assert(pages[0].is_truncated == Some(true) <==> 0 < pages.len() - 1);
    if rest.len() > 0 {
        assert forall|i: int| 0 <= i < rest.len() implies ((#[trigger] rest[i]).is_truncated
            == Some(true) <==> i < rest.len() - 1) by {
            assert(rest[i] == pages[i + 1]);
        }
    }
}

/// How a session that is done with an object, or has to leave it, goes on with the listing: the ledger
/// that turns to the rest of the batch, and what is reported. There is none where the session goes on
/// with the same object.
pub open spec fn turn_of(a: Scene) -> Option<(LedgerView, Seq<NoticeView>)> {
    let ledger = a.session.ledger;
    let failed = Some((ledger.counted(), ledger.notices_if_failed()));
    let is_done = a.outcome is Done;
    match a.session.stage {
        StageView::LookingUp { .. } => if a.outcome is Found {
            None
        } else {
            failed
        },
        StageView::Inserting { .. } | StageView::Updating { .. } => if is_done {
            None
        } else {
            failed
        },
        StageView::MarkingSeen { object, previous, .. } => if !is_done {
            failed
        } else if previous.etag != object.etag {
            None
        } else {
            let tally = Tally { unchanged: ledger.tally.unchanged + 1, ..ledger.tally };
            let after = LedgerView { tally, ..ledger };
            Some((after.counted(), after.notices_if_done()))
        },
        StageView::Notifying { .. } => if is_done {
            Some((ledger.counted(), ledger.notices_if_done()))
        } else {
            failed
        },
        _ => None,
    }
}

/// A session at work on an object stays with it, or turns to the rest of its batch.
pub(crate) proof fn lemma_turn(a: Scene, b: Scene)
    requires
        super::world::resumes(a, b),
        batch_of(a.session.stage) is Some,
    ensures
        match turn_of(a) {
            Some((ledger, notices)) => {
                let step = ledger.advance(batch_of(a.session.stage)->0, notices);
                &&& b.session == step.session
                &&& b.action == step.action
                &&& ledger.bucket == a.session.ledger.bucket
                &&& ledger.listed == a.session.ledger.listed + 1
            },
            None => {
                &&& batch_of(b.session.stage) == batch_of(a.session.stage)
                &&& b.session.stage !is LookingUp
                &&& b.action !is ListObjects
                &&& b.session.ledger.bucket == a.session.ledger.bucket
                &&& b.session.ledger.listed == a.session.ledger.listed
            },
        },
{
}

/// Whether, of the pages, the first few have been read, and the next is asked for as it should be: a
/// page that says that it is truncated is followed by a further one, and any other ends the listing.
pub open spec fn is_asking_in_order(s: Scene, pages: Seq<PageView>, bucket: Seq<char>) -> bool {
    let read = pages.len() - s.world.pages.len();
    &&& 0 <= read
    &&& s.world.pages == pages.skip(read)
    &&& s.session.ledger.bucket == bucket
    &&& s.action is ListObjects <==> s.session.stage is Listing
    &&& s.action matches ActionView::ListObjects(request) ==> request
        == super::world::request_after(bucket, pages, read)
    &&& match s.session.stage {
        StageView::AddingSeenColumn
        | StageView::ResettingSeen
        | StageView::PreparingLookup
        | StageView::PreparingUpsert
        | StageView::PreparingMarkSeen
        | StageView::Connecting => read == 0,
        _ => true,
    }
    &&& s.session.stage is Listing && read > 0 ==> pages[read - 1].next() is Page
    &&& super::world::is_past_the_listing(s.session.stage) ==> read > 0 && pages[read - 1].next()
        is End
    &&& batch_of(s.session.stage) matches Some(batch) ==> read > 0 && batch.next == pages[read
        - 1].next()
}

/// A session that turns to what is left of a batch asks for the page after it in order.
proof fn lemma_advance_asks_in_order(
    ledger: LedgerView,
    batch: BatchView,
    notices: Seq<NoticeView>,
    b: Scene,
    pages: Seq<PageView>,
)
    requires
        b.session == ledger.advance(batch, notices).session,
        b.action == ledger.advance(batch, notices).action,
        b.world.pages.len() < pages.len(),
        b.world.pages == pages.skip(pages.len() - b.world.pages.len()),
        batch.next == pages[pages.len() - b.world.pages.len() - 1].next(),
    ensures
        is_asking_in_order(b, pages, ledger.bucket),
{
}

/// Every step keeps the pages in order.
proof fn lemma_asks_in_order(a: Scene, b: Scene, pages: Seq<PageView>, bucket: Seq<char>)
    requires
        is_asking_in_order(a, pages, bucket),
        super::world::resumes(a, b),
        a.world.allows(a.action, a.outcome, b.world),
    ensures
        is_asking_in_order(b, pages, bucket),
{
    let read = pages.len() - a.world.pages.len();
    if batch_of(a.session.stage) is Some {
        lemma_turn(a, b);
        if let Some((ledger, notices)) = turn_of(a) {
            let batch = batch_of(a.session.stage)->0;
            lemma_advance_asks_in_order(ledger, batch, notices, b, pages);
        }
    } else if a.session.stage is Listing && a.outcome is Page {
        assert(a.world.pages[0] == pages[read]);
        assert(pages.skip(read).drop_first() =~= pages.skip(read + 1));
        let batch = a.world.pages[0].batch();
        lemma_advance_asks_in_order(a.session.ledger, batch, seq![], b, pages);
    }
}

/// A run keeps the pages in order.
pub(crate) proof fn lemma_requests(run: Seq<Scene>, bucket: Seq<char>, i: int)
    requires
        super::world::is_run(run, bucket),
        0 <= i < run.len(),
    ensures
        is_asking_in_order(run[i], run[0].world.pages, bucket),
    decreases i,
{
    let pages = run[0].world.pages;
    if i == 0 {
        assert(pages.skip(0) =~= pages);
    } else {
        lemma_requests(run, bucket, i - 1);
        assert(super::world::steps(run, i - 1));
        lemma_asks_in_order(run[i - 1], run[i], pages, bucket);
    }
}

/// The objects of some pages and of others that follow them.
pub(crate) proof fn lemma_listing_of_both(pages: Seq<PageView>, others: Seq<PageView>)
    ensures
        super::world::listing(pages + others) == super::world::listing(pages)
            + super::world::listing(others),
    decreases pages.len(),
{
    if pages.len() == 0 {
        assert(pages + others =~= others);
        assert(super::world::listing(pages) + super::world::listing(others)
            =~= super::world::listing(others));
    } else {
        lemma_listing_of_both(pages.drop_first(), others);
        assert((pages + others).drop_first() =~= pages.drop_first() + others);
        assert(super::world::listing(pages + others) =~= super::world::listing(pages)
            + super::world::listing(others));
    }
}

/// The objects of the first few pages and one more.
proof fn lemma_listing_of_one_more(pages: Seq<PageView>, read: int)
    requires
        0 <= read < pages.len(),
    ensures
        super::world::listing(pages.take(read + 1)) == super::world::listing(pages.take(read))
            + pages[read].batch().rest,
{
    let one = seq![pages[read]];
    assert(pages.take(read + 1) =~= pages.take(read) + one);
    lemma_listing_of_both(pages.take(read), one);
    assert(super::world::listing(one.drop_first()) =~= seq![]);
    assert(super::world::listing(one) =~= pages[read].batch().rest);
}

/// Whether the objects taken up so far and those of the batch that are left are the objects of the
/// pages that have been read.
pub open spec fn is_taking_in_order(
    s: Scene,
    taken: Seq<ObjectView>,
    pages: Seq<PageView>,
) -> bool {
    let read = pages.len() - s.world.pages.len();
    &&& super::world::listing(pages.take(read)) == taken + super::world::rest_of(s.session.stage)
    &&& taken.len() == s.session.ledger.listed + if super::world::is_at_an_object(
        s.session.stage,
    ) {
        1int
    } else {
        0int
    }
}

/// The objects taken up before a scene, and the one that it takes up.
pub open spec fn taken_at(before: Seq<ObjectView>, b: Scene) -> Seq<ObjectView> {
    match b.session.stage {
        StageView::LookingUp { object, .. } => before.push(object),
        _ => before,
    }
}

/// A session that turns to what is left of a batch takes up the first object of it.
proof fn lemma_advance_takes_in_order(
    ledger: LedgerView,
    batch: BatchView,
    notices: Seq<NoticeView>,
    b: Scene,
    before: Seq<ObjectView>,
    pages: Seq<PageView>,
)
    requires
        b.session == ledger.advance(batch, notices).session,
        before.len() == ledger.listed,
        super::world::listing(pages.take(pages.len() - b.world.pages.len())) == before + batch.rest,
    ensures
        is_taking_in_order(b, taken_at(before, b), pages),
{
    assert(before + batch.rest =~= taken_at(before, b) + super::world::rest_of(b.session.stage));
}

/// Every step takes the objects up in order.
proof fn lemma_takes_in_order(
    a: Scene,
    b: Scene,
    taken: Seq<ObjectView>,
    pages: Seq<PageView>,
    bucket: Seq<char>,
)
    requires
        is_asking_in_order(a, pages, bucket),
        is_taking_in_order(a, taken, pages),
        super::world::resumes(a, b),
        a.world.allows(a.action, a.outcome, b.world),
    ensures
        is_taking_in_order(b, taken_at(taken, b), pages),
{
    let read = pages.len() - a.world.pages.len();
    if batch_of(a.session.stage) is Some {
        lemma_turn(a, b);
        if let Some((ledger, notices)) = turn_of(a) {
            let batch = batch_of(a.session.stage)->0;
            lemma_advance_takes_in_order(ledger, batch, notices, b, taken, pages);
        }
    } else if a.session.stage is Listing && a.outcome is Page {
        assert(a.world.pages[0] == pages[read]);
        lemma_listing_of_one_more(pages, read);
        assert(taken + Seq::<ObjectView>::empty() =~= taken);
        let batch = a.world.pages[0].batch();
        lemma_advance_takes_in_order(a.session.ledger, batch, seq![], b, taken, pages);
    }
}

/// A run takes the objects up in order.
pub(crate) proof fn lemma_taken_up(run: Seq<Scene>, bucket: Seq<char>)
    requires
        super::world::is_run(run, bucket),
    ensures
        is_taking_in_order(run.last(), super::world::taken_up(run), run[0].world.pages),
    decreases run.len(),
{
    let pages = run[0].world.pages;
    let before = run.drop_last();
    if before.len() == 0 {
        assert(super::world::taken_up(before) =~= seq![]);
        assert(pages.take(0) =~= seq![]);
        assert(super::world::listing(pages.take(0)) =~= seq![]);
        assert(super::world::taken_up(run) + super::world::rest_of(run.last().session.stage)
            =~= seq![]);
    } else {
        lemma_shorter_run(run, bucket);
        lemma_taken_up(before, bucket);
        let i = run.len() - 2;
        assert(super::world::steps(run, i));
        lemma_requests(run, bucket, i);
        let taken = super::world::taken_up(before);
        lemma_takes_in_order(before.last(), run.last(), taken, pages, bucket);
    }
}

/// A run without its last scene is a run.
pub(crate) proof fn lemma_shorter_run(run: Seq<Scene>, bucket: Seq<char>)
    requires
        super::world::is_run(run, bucket),
        run.len() > 1,
    ensures
        super::world::is_run(run.drop_last(), bucket),
{
    let before = run.drop_last();
    assert forall|i: int| 0 <= i < before.len() - 1 implies #[trigger] super::world::steps(
        before,
        i,
    ) by {
        assert(super::world::steps(run, i));
    }
}

} // verus!
