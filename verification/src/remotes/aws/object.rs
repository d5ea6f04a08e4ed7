//! The objects of a bucket, what is remembered of them, and how they change.

use super::timestamp::{Moment, Timestamp};
use vstd::prelude::*;

verus! {

/// What an [`S3Object`] says.
pub struct ObjectView {
    pub key: Seq<char>,
    pub etag: Seq<char>,
    pub size: int,
    pub last_modified: Moment,
}

/// What a [`CompactS3Object`] says, and what a row of the state table says beside its key.
pub struct CompactView {
    pub etag: Seq<char>,
    pub size: int,
    pub last_modified: int,
}

/// What a [`Change`] says.
pub enum ChangeView {
    Added(ObjectView),
    Modified { old: ObjectView, new: ObjectView },
    Deleted(ObjectView),
}

/// What [`DiffStats`] counts.
pub struct Tally {
    pub added: nat,
    pub modified: nat,
    pub deleted: nat,
    pub unchanged: nat,
}

/// The 64-bit pattern of an unsigned size, read as a signed one.
pub open spec fn signed_size(size: int) -> int {
    if size <= i64::MAX {
        size
    } else {
        size - 0x1_0000_0000_0000_0000
    }
}

impl CompactView {
    /// The object of the given key that this state describes. The state holds whole seconds only.
    pub open spec fn object(self, key: Seq<char>) -> ObjectView {
        ObjectView {
            key,
            etag: self.etag,
            size: signed_size(self.size),
            last_modified: super::timestamp::moment_at(self.last_modified, 0),
        }
    }
}

impl ObjectView {
    /// What is remembered of the object.
    pub open spec fn compact(self) -> CompactView {
        CompactView { etag: self.etag, size: self.size, last_modified: self.last_modified.secs }
    }
}

impl Tally {
    pub open spec fn zero() -> Tally {
        Tally { added: 0, modified: 0, deleted: 0, unchanged: 0 }
    }

    /// How many listed objects have been compared.
    pub open spec fn compared(self) -> nat {
        self.added + self.modified + self.unchanged
    }
}

/// An object as the bucket lists it.
#[derive(Debug, PartialEq)]
pub struct S3Object {
    pub key: String,
    pub etag: String,
    pub size: i64,
    pub last_modified: Timestamp,
}

impl View for S3Object {
    type V = ObjectView;

    open spec fn view(&self) -> ObjectView {
        ObjectView {
            key: self.key@,
            etag: self.etag@,
            size: self.size as int,
            last_modified: self.last_modified@,
        }
    }
}

impl Clone for S3Object {
    fn clone(&self) -> (copy: S3Object)
        ensures
            copy == *self,
    {
        S3Object {
            key: self.key.clone(),
            etag: self.etag.clone(),
            size: self.size,
            last_modified: self.last_modified,
        }
    }
}

/// What the state database remembers of an object, beside its key.
pub struct CompactS3Object {
    pub etag: String,
    pub size: u64,
    pub last_modified: i64,
}

impl View for CompactS3Object {
    type V = CompactView;

    open spec fn view(&self) -> CompactView {
        CompactView {
            etag: self.etag@,
            size: self.size as int,
            last_modified: self.last_modified as int,
        }
    }
}

impl Clone for CompactS3Object {
    fn clone(&self) -> (copy: CompactS3Object)
        ensures
            copy == *self,
    {
        CompactS3Object {
            etag: self.etag.clone(),
            size: self.size,
            last_modified: self.last_modified,
        }
    }
}

impl CompactS3Object {
    /// The object of the given key that this state describes.
    pub(crate) fn into_object(self, key: String) -> (object: S3Object)
        ensures
            object@ == self@.object(key@),
            object.key@ == key@,
            object.etag@ == self.etag@,
            self.size <= i64::MAX ==> object.size == self.size,
            self.size > i64::MAX ==> object.size == self.size - 0x1_0000_0000_0000_0000,
            object.last_modified@ == super::timestamp::moment_at(self.last_modified as int, 0),
    {
        let size: u64 = self.size;
        assert(size as i64 == if size <= 0x7fff_ffff_ffff_ffff { size as int } else {
            size - 0x1_0000_0000_0000_0000
        }) by (bit_vector);
        S3Object {
            key,
            etag: self.etag,
            size: size as i64,
            last_modified: Timestamp::from_timestamp(self.last_modified, 0),
        }
    }
}

/// One difference between the bucket and what was remembered of it.
#[derive(Debug, PartialEq)]
pub enum Change {
    Added(S3Object),
    Modified { old: S3Object, new: S3Object },
    Deleted(S3Object),
}

impl View for Change {
    type V = ChangeView;

    open spec fn view(&self) -> ChangeView {
        match self {
            Change::Added(object) => ChangeView::Added(object@),
            Change::Modified { old, new } => ChangeView::Modified { old: old@, new: new@ },
            Change::Deleted(object) => ChangeView::Deleted(object@),
        }
    }
}

/// How many objects were found in which state.
#[derive(Clone, Copy, Debug, PartialEq)]
pub struct DiffStats {
    pub added: u64,
    pub modified: u64,
    pub deleted: u64,
    pub unchanged: u64,
}

impl View for DiffStats {
    type V = Tally;

    open spec fn view(&self) -> Tally {
        Tally {
            added: self.added as nat,
            modified: self.modified as nat,
            deleted: self.deleted as nat,
            unchanged: self.unchanged as nat,
        }
    }
}

impl Default for DiffStats {
    fn default() -> (stats: DiffStats)
        ensures
            stats@ == Tally::zero(),
            stats.added == 0,
            stats.modified == 0,
            stats.deleted == 0,
            stats.unchanged == 0,
    {
        DiffStats { added: 0, modified: 0, deleted: 0, unchanged: 0 }
    }
}

/// The object that a remembered state describes has the given key, the entity tag of the state, the size
/// whose 64-bit pattern is the stored one, which is the stored size itself up to the largest signed one,
/// and the stored second, where `chrono` can hold it.
pub proof fn law_state_describes_its_object(state: CompactView, key: Seq<char>)
    requires
        0 <= state.size <= u64::MAX,
    ensures
        ({
            let object = state.object(key);
            &&& object.key == key
            &&& object.etag == state.etag
            &&& state.size <= 0x7fff_ffff_ffff_ffff ==> object.size == state.size
            &&& state.size > 0x7fff_ffff_ffff_ffff ==> object.size + 0x1_0000_0000_0000_0000
                == state.size
            &&& i64::MIN <= object.size <= i64::MAX
            &&& -8_334_601_228_800 <= state.last_modified <= 8_210_266_876_799
                ==> object.last_modified == (Moment { secs: state.last_modified, nanos: 0 })
            &&& state.last_modified < -8_334_601_228_800 || state.last_modified
                > 8_210_266_876_799 ==> object.last_modified == (Moment { secs: 0, nanos: 0 })
        }),
{
}

/// What is remembered of an object is its own entity tag, its own size and the second of its last
/// change, whatever they are.
pub proof fn law_state_holds_its_object(object: ObjectView)
    ensures
        object.compact().etag == object.etag,
        object.compact().size == object.size,
        object.compact().last_modified == object.last_modified.secs,
{
}

/// Two states that describe the same object under the same key have the same entity tag and the same
/// size, and two objects of which the same is remembered have the same entity tag, size and second.
pub proof fn law_nothing_is_mixed_up(
    states: (CompactView, CompactView),
    objects: (ObjectView, ObjectView),
    key: Seq<char>,
)
    requires
        0 <= states.0.size <= u64::MAX,
        0 <= states.1.size <= u64::MAX,
    ensures
        states.0.object(key) == states.1.object(key) ==> states.0.etag == states.1.etag
            && states.0.size == states.1.size,
        objects.0.compact() == objects.1.compact() ==> objects.0.etag == objects.1.etag
            && objects.0.size == objects.1.size && objects.0.last_modified.secs
            == objects.1.last_modified.secs,
{
}

/// What the types of this module say is what their fields hold.
pub proof fn law_views_show_the_fields(
    object: S3Object,
    state: CompactS3Object,
    change: Change,
    stats: DiffStats,
)
    ensures
        object@.key == object.key@,
        object@.etag == object.etag@,
        object@.size == object.size,
        object@.last_modified == object.last_modified@,
        state@.etag == state.etag@,
        state@.size == state.size,
        state@.last_modified == state.last_modified,
        change matches Change::Added(new) ==> change@ == ChangeView::Added(new@),
        change matches Change::Modified { old, new } ==> change@ == (ChangeView::Modified {
            old: old@,
            new: new@,
        }),
        change matches Change::Deleted(old) ==> change@ == ChangeView::Deleted(old@),
        stats@.added == stats.added,
        stats@.modified == stats.modified,
        stats@.deleted == stats.deleted,
        stats@.unchanged == stats.unchanged,
{
}

/// What has been compared is what was added, modified or left unchanged, and it begins with nothing.
pub proof fn law_compared_is_the_sum(tally: Tally)
    ensures
        tally.compared() == tally.added + tally.modified + tally.unchanged,
        Tally::zero().added == 0,
        Tally::zero().modified == 0,
        Tally::zero().deleted == 0,
        Tally::zero().unchanged == 0,
{
}

} // verus!
