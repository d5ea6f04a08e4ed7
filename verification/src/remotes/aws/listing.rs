//! The pages in which a bucket lists its objects.

use super::object::{ObjectView, S3Object};
use super::timestamp::Timestamp;
use std::collections::VecDeque;
use vstd::prelude::*;

verus! {

/// How many objects a page is asked to hold at most.
pub const PAGE_SIZE: i32 = 1000;

/// What a [`ListRequest`] says.
pub struct RequestView {
    pub bucket: Seq<char>,
    pub max_keys: int,
    pub continuation_token: Option<Seq<char>>,
}

/// What a [`ListedObject`] says.
pub struct ListedView {
    pub key: Option<Seq<char>>,
    pub etag: Option<Seq<char>>,
    pub size: Option<int>,
    pub last_modified: Option<(int, int)>,
}

/// What a [`ListPage`] says.
pub struct PageView {
    pub contents: Seq<ListedView>,
    pub is_truncated: Option<bool>,
    pub next_continuation_token: Option<Seq<char>>,
}

/// What a [`NextPage`] says.
pub enum NextView {
    Page(Option<Seq<char>>),
    End,
}

/// What a [`Batch`] says.
pub struct BatchView {
    pub rest: Seq<ObjectView>,
    pub next: NextView,
}

/// The text that an optional string holds.
pub open spec fn text(s: Option<String>) -> Option<Seq<char>> {
    match s {
        Some(s) => Some(s@),
        None => None,
    }
}

/// What each of a sequence of objects says.
pub open spec fn object_views(objects: Seq<S3Object>) -> Seq<ObjectView> {
    objects.map_values(|o: S3Object| o@)
}

/// What each of a sequence of listed objects says.
pub open spec fn listed_views(contents: Seq<ListedObject>) -> Seq<ListedView> {
    contents.map_values(|o: ListedObject| o@)
}

impl ListedView {
    /// Whether the listing gives every attribute that a diff needs.
    pub open spec fn is_complete(self) -> bool {
        &&& self.key is Some
        &&& self.etag is Some
        &&& self.size is Some
        &&& self.last_modified is Some
    }

    /// The object that a complete entry describes.
    pub open spec fn object(self) -> ObjectView {
        let (secs, nanos) = self.last_modified->0;
        ObjectView {
            key: self.key->0,
            etag: self.etag->0,
            size: self.size->0,
            last_modified: super::timestamp::moment_at(secs, nanos),
        }
    }
}

/// The objects that the complete entries describe, in the order of the entries. Incomplete entries
/// are passed over.
pub open spec fn complete_objects(contents: Seq<ListedView>) -> Seq<ObjectView> {
    contents.filter(|o: ListedView| o.is_complete()).map_values(|o: ListedView| o.object())
}

impl PageView {
    /// Where the listing goes on after this page. Only a page that says that it is truncated has a
    /// successor.
    pub open spec fn next(self) -> NextView {
        if self.is_truncated == Some(true) {
            NextView::Page(self.next_continuation_token)
        } else {
            NextView::End
        }
    }

    /// The objects of the page, and where the listing goes on.
    pub open spec fn batch(self) -> BatchView {
        BatchView { rest: complete_objects(self.contents), next: self.next() }
    }
}

/// A request for one page of a bucket's listing.
pub struct ListRequest {
    pub bucket: String,
    pub max_keys: i32,
    pub continuation_token: Option<String>,
}

impl View for ListRequest {
    type V = RequestView;

    open spec fn view(&self) -> RequestView {
        RequestView {
            bucket: self.bucket@,
            max_keys: self.max_keys as int,
            continuation_token: text(self.continuation_token),
        }
    }
}

/// One entry of a page. The service may leave any attribute out. The time of the last change is
/// given in Unix seconds and the nanoseconds into that second.
pub struct ListedObject {
    pub key: Option<String>,
    pub etag: Option<String>,
    pub size: Option<i64>,
    pub last_modified: Option<(i64, u32)>,
}

impl View for ListedObject {
    type V = ListedView;

    open spec fn view(&self) -> ListedView {
        ListedView {
            key: text(self.key),
            etag: text(self.etag),
            size: match self.size {
                Some(size) => Some(size as int),
                None => None,
            },
            last_modified: match self.last_modified {
                Some((secs, nanos)) => Some((secs as int, nanos as int)),
                None => None,
            },
        }
    }
}

impl ListedObject {
    /// The object that the entry describes, if the entry is complete.
    pub fn into_object(self) -> (object: Option<S3Object>)
        ensures
            object is Some <==> self@.is_complete(),
            object matches Some(object) ==> object@ == self@.object(),
            object is Some <==> self.key is Some && self.etag is Some && self.size is Some
                && self.last_modified is Some,
            object matches Some(object) ==> {
                &&& self.key == Some(object.key)
                &&& self.etag == Some(object.etag)
                &&& self.size == Some(object.size)
                &&& self.last_modified matches Some((secs, nanos))
                    && object.last_modified@ == super::timestamp::moment_at(
                    secs as int,
                    nanos as int,
                )
            },
    {
        match (self.key, self.etag, self.size, self.last_modified) {
            (Some(key), Some(etag), Some(size), Some((secs, nanos))) => Some(
                S3Object { key, etag, size, last_modified: Timestamp::from_timestamp(secs, nanos) },
            ),
            _ => None,
        }
    }
}

/// One page of a bucket's listing.
pub struct ListPage {
    pub contents: Vec<ListedObject>,
    pub is_truncated: Option<bool>,
    pub next_continuation_token: Option<String>,
}

impl View for ListPage {
    type V = PageView;

    open spec fn view(&self) -> PageView {
        PageView {
            contents: listed_views(self.contents@),
            is_truncated: self.is_truncated,
            next_continuation_token: text(self.next_continuation_token),
        }
    }
}

/// Where a listing goes on: with one more page, asked for with the token that the last page gave,
/// or nowhere.
pub enum NextPage {
    Page(Option<String>),
    End,
}

impl View for NextPage {
    type V = NextView;

    open spec fn view(&self) -> NextView {
        match self {
            NextPage::Page(token) => NextView::Page(text(*token)),
            NextPage::End => NextView::End,
        }
    }
}

/// The objects of a page that are still to be compared, and where the listing goes on after them.
pub struct Batch {
    pub rest: VecDeque<S3Object>,
    pub next: NextPage,
}

impl View for Batch {
    type V = BatchView;

    open spec fn view(&self) -> BatchView {
        BatchView { rest: object_views(self.rest@), next: self.next@ }
    }
}

/// Putting an entry in front of others puts its object, if it is complete, in front of theirs.
proof fn lemma_complete_objects_cons(first: ListedView, others: Seq<ListedView>)
    ensures
        complete_objects(seq![first] + others) == if first.is_complete() {
            seq![first.object()] + complete_objects(others)
        } else {
            complete_objects(others)
        },
{
    let pred = |o: ListedView| o.is_complete();
    let alone = seq![first];
    Seq::filter_distributes_over_add(alone, others, pred);
    assert(alone.drop_last() =~= Seq::<ListedView>::empty());
    reveal_with_fuel(Seq::filter, 2);
    assert(alone.filter(pred) =~= if first.is_complete() {
        alone
    } else {
        Seq::empty()
    });
    assert(complete_objects(alone + others) =~= if first.is_complete() {
        seq![first.object()] + complete_objects(others)
    } else {
        complete_objects(others)
    });
}

impl ListPage {
    /// The objects of the page, and where the listing goes on.
    pub fn into_batch(self) -> (batch: Batch)
        ensures
            batch@ == self@.batch(),
            self.is_truncated == Some(true) ==> batch.next == NextPage::Page(
                self.next_continuation_token,
            ),
            self.is_truncated != Some(true) ==> batch.next == NextPage::End,
    {
        let ghost all = listed_views(self.contents@);
        let mut contents = self.contents;
        let mut rest: VecDeque<S3Object> = VecDeque::new();
        assert(all.skip(contents.len() as int) =~= Seq::empty());
        assert(object_views(rest@) =~= complete_objects(all.skip(contents.len() as int))) by {
            reveal(Seq::filter);
        }
        while contents.len() > 0
            invariant
                contents.len() <= all.len(),
                listed_views(contents@) == all.take(contents.len() as int),
                object_views(rest@) == complete_objects(all.skip(contents.len() as int)),
            decreases contents.len(),
        {
            let ghost n = contents.len() as int;
            let ghost before = contents@;
            let ghost rest_before = rest@;
            let last = contents.pop();
            if let Some(entry) = last {
                let ghost entry_view = entry@;
                proof {
                    assert(listed_views(before)[n - 1] == entry_view);
                    assert(all.take(n)[n - 1] == all[n - 1]);
                    assert(all.skip(n - 1) =~= seq![entry_view] + all.skip(n));
                    lemma_complete_objects_cons(entry_view, all.skip(n));
                    assert(listed_views(contents@) =~= all.take(n - 1)) by {
                        assert forall|i: int| 0 <= i < n - 1 implies listed_views(contents@)[i]
                            == all[i] by {
                            assert(listed_views(before)[i] == all.take(n)[i]);
                        }
                    }
                }
                if let Some(object) = entry.into_object() {
                    rest.push_front(object);
                    assert(object_views(rest@) =~= seq![object@] + object_views(rest_before));
                }
            }
        }
        assert(all.skip(0) =~= all);
        let next = match self.is_truncated {
            Some(true) => NextPage::Page(self.next_continuation_token),
            _ => NextPage::End,
        };
        Batch { rest, next }
    }
}

/// An entry is complete exactly if its key, its entity tag, its size and the time of its last change are
/// all given, whatever they are. The object of such an entry has the key, the entity tag and the size
/// that are given, and the time that is given where `chrono` can hold it.
pub proof fn law_object_is_what_is_listed(
    key: Option<Seq<char>>,
    etag: Option<Seq<char>>,
    size: Option<int>,
    last_modified: Option<(int, int)>,
)
    ensures
        ({
            let entry = ListedView { key, etag, size, last_modified };
            &&& entry.is_complete() <==> key is Some && etag is Some && size is Some
                && last_modified is Some
            &&& key is Some ==> entry.object().key == key->0
            &&& etag is Some ==> entry.object().etag == etag->0
            &&& size is Some ==> entry.object().size == size->0
            &&& last_modified matches Some((secs, nanos)) ==> {
                &&& entry.object().last_modified == super::timestamp::moment_at(secs, nanos)
                &&& -8_334_601_228_800 <= secs <= 8_210_266_876_799 && 0 <= nanos < 1_000_000_000
                    ==> entry.object().last_modified.secs == secs
                    && entry.object().last_modified.nanos == nanos
                &&& secs < -8_334_601_228_800 || secs > 8_210_266_876_799
                    ==> entry.object().last_modified.secs == 0
                    && entry.object().last_modified.nanos == 0
            }
        }),
{
}

/// No entry describes nothing, and one more entry describes one more object, at the end, if its key, its
/// entity tag, its size and the time of its last change are all given, and none otherwise.
pub proof fn law_each_complete_entry_is_an_object(contents: Seq<ListedView>, entry: ListedView)
    ensures
        complete_objects(Seq::<ListedView>::empty()).len() == 0,
        entry.key is Some && entry.etag is Some && entry.size is Some && entry.last_modified is Some
            ==> {
            let objects = complete_objects(contents.push(entry));
            &&& objects.len() == complete_objects(contents).len() + 1
            &&& objects.drop_last() == complete_objects(contents)
            &&& objects.last().key == entry.key->0
            &&& objects.last().etag == entry.etag->0
            &&& objects.last().size == entry.size->0
            &&& objects.last() == entry.object()
        },
        entry.key is None || entry.etag is None || entry.size is None || entry.last_modified is None
            ==> complete_objects(contents.push(entry)) == complete_objects(contents),
{
    reveal(Seq::filter);
    assert(contents.push(entry).drop_last() =~= contents);
    let is_complete = entry.is_complete();
    assert(complete_objects(contents.push(entry)) =~= if is_complete {
        complete_objects(contents).push(entry.object())
    } else {
        complete_objects(contents)
    });
    assert(complete_objects(contents).push(entry.object()).drop_last() =~= complete_objects(contents));
}

/// A page holds the objects of its complete entries, and is followed by another one exactly if it says
/// that it is truncated, which is asked for with the token that it gives, if it gives one.
pub proof fn law_page_says_how_it_goes_on(page: PageView)
    ensures
        page.batch().rest == complete_objects(page.contents),
        page.is_truncated == Some(true) ==> page.batch().next == NextView::Page(
            page.next_continuation_token,
        ),
        page.is_truncated == Some(false) || page.is_truncated is None ==> page.batch().next
            == NextView::End,
        page.next() == page.batch().next,
{
}

/// What the types of this module say is what their fields hold.
pub proof fn law_views_show_the_fields(
    request: ListRequest,
    entry: ListedObject,
    page: ListPage,
    batch: Batch,
    token: Option<String>,
)
    ensures
        token matches Some(t) ==> text(token) == Some(t@),
        token is None ==> text(token) is None,
        request@.bucket == request.bucket@,
        request@.max_keys == request.max_keys,
        request.continuation_token matches Some(t) ==> request@.continuation_token == Some(t@),
        request.continuation_token is None ==> request@.continuation_token is None,
        entry.key matches Some(key) ==> entry@.key == Some(key@),
        entry.key is None ==> entry@.key is None,
        entry.etag matches Some(etag) ==> entry@.etag == Some(etag@),
        entry.etag is None ==> entry@.etag is None,
        entry.size matches Some(size) ==> entry@.size == Some(size as int),
        entry.size is None ==> entry@.size is None,
        entry.last_modified matches Some((secs, nanos)) ==> entry@.last_modified == Some(
            (secs as int, nanos as int),
        ),
        entry.last_modified is None ==> entry@.last_modified is None,
        page@.contents.len() == page.contents@.len(),
        forall|i: int|
            0 <= i < page.contents@.len() ==> #[trigger] page@.contents[i] == page.contents@[i]@,
        page@.is_truncated == page.is_truncated,
        page.next_continuation_token matches Some(t) ==> page@.next_continuation_token == Some(t@),
        page.next_continuation_token is None ==> page@.next_continuation_token is None,
        batch@.rest.len() == batch.rest@.len(),
        forall|i: int| 0 <= i < batch.rest@.len() ==> #[trigger] batch@.rest[i] == batch.rest@[i]@,
        batch.next matches NextPage::Page(Some(t)) ==> batch@.next == NextView::Page(Some(t@)),
        batch.next matches NextPage::Page(None) ==> batch@.next == NextView::Page(None),
        batch.next is End ==> batch@.next is End,
{
}

} // verus!
