//! An in-memory persistent-object store: the key-value byte substrate the
//! capability engine allocates key-backing objects from.  The store hands
//! out fresh identifiers and maps each live identifier to the object's
//! byte content; its logical value is that map.

use vstd::prelude::*;
use vstd::slice::slice_to_vec;
use vstd::slice::slice_subrange;
use crate::abi::LifetimeType;
use crate::abi::ObjectCreateSpec;
use crate::abi::ObjectId;
use crate::abi::Protections;

verus! {

broadcast use vstd::seq::group_seq_axioms, vstd::map::group_map_axioms;

/// A failure of the storage substrate.
#[derive(Clone, Copy, Debug, PartialEq, Eq, Structural)]
pub enum StoreError {
    /// No object with the given identifier is live in this store.
    NoSuchObject,
    /// The store's identifier space is exhausted.
    Exhausted,
    /// The addressed byte range lies outside the object's content.
    OutOfBounds,
}

/// One live object: its identifier, the creation parameters it was made
/// with, and its byte content.
struct StoredObject {
    id: u128,
    lifetime: LifetimeType,
    prot: Protections,
    data: Vec<u8>,
}

/// The map from live identifiers to object contents described by a row
/// sequence; rows later in the sequence take precedence, though a
/// well-formed store never holds one identifier twice.
spec fn map_of_rows(rows: Seq<StoredObject>) -> Map<u128, Seq<u8>>
    decreases rows.len(),
{
    if rows.len() == 0 {
        Map::empty()
    } else {
        map_of_rows(rows.drop_last()).insert(rows.last().id, rows.last().data@)
    }
}

/// No identifier occurs on two rows.
spec fn rows_unique(rows: Seq<StoredObject>) -> bool {
    forall|i: int, j: int| 0 <= i < j < rows.len() ==> rows[i].id != rows[j].id
}

proof fn lemma_map_of_rows_characterize(rows: Seq<StoredObject>)
    requires
        rows_unique(rows),
    ensures
        forall|k: u128|
            map_of_rows(rows).contains_key(k) <==> exists|i: int|
                0 <= i < rows.len() && rows[i].id == k,
        forall|i: int|
            0 <= i < rows.len() ==> map_of_rows(rows).contains_key(rows[i].id) && map_of_rows(
                rows,
            )[rows[i].id] == rows[i].data@,
    decreases rows.len(),
{
    if rows.len() > 0 {
        let prefix = rows.drop_last();
        lemma_map_of_rows_characterize(prefix);
        assert forall|k: u128| map_of_rows(rows).contains_key(k) implies exists|i: int|
            0 <= i < rows.len() && rows[i].id == k by {
            assert(map_of_rows(rows) == map_of_rows(prefix).insert(rows.last().id,
                rows.last().data@));
            if k != rows.last().id {
                assert(map_of_rows(prefix).contains_key(k));
                let i = choose|i: int| 0 <= i < prefix.len() && prefix[i].id == k;
                assert(prefix[i] == rows[i]);
                assert(0 <= i < rows.len() && rows[i].id == k);
            } else {
                let j = rows.len() - 1;
                assert(0 <= j < rows.len() && rows[j].id == k);
            }
        }
        assert forall|i: int| 0 <= i < rows.len() implies map_of_rows(rows).contains_key(
            rows[i].id,
        ) && map_of_rows(rows)[rows[i].id] == rows[i].data@ by {
            if i < rows.len() - 1 {
                assert(prefix[i].id == rows[i].id && prefix[i].data@ == rows[i].data@);
                assert(rows[i].id != rows.last().id);
            }
        }
    }
}

/// Replacing the content of one row updates its entry and nothing else.
proof fn lemma_map_of_rows_update(rows: Seq<StoredObject>, i: int, row: StoredObject)
    requires
        rows_unique(rows),
        0 <= i < rows.len(),
        row.id == rows[i].id,
    ensures
        map_of_rows(rows.update(i, row)) == map_of_rows(rows).insert(row.id, row.data@),
    decreases rows.len(),
{
    let updated = rows.update(i, row);
    if i == rows.len() - 1 {
        assert(updated.drop_last() =~= rows.drop_last());
        assert(updated.last() == row);
        assert(map_of_rows(rows).insert(row.id, row.data@) =~= map_of_rows(
            rows.drop_last(),
        ).insert(rows.last().id, rows.last().data@).insert(row.id, row.data@));
    } else {
        assert(updated.drop_last() =~= rows.drop_last().update(i, row));
        assert(updated.last() == rows.last());
        lemma_map_of_rows_update(rows.drop_last(), i, row);
        assert(rows.drop_last()[i] == rows[i]);
        assert(row.id != rows.last().id);
        assert(map_of_rows(rows.drop_last()).insert(row.id, row.data@).insert(
            rows.last().id,
            rows.last().data@,
        ) =~= map_of_rows(rows.drop_last()).insert(rows.last().id, rows.last().data@).insert(
            row.id,
            row.data@,
        ));
    }
}

/// Deleting one row deletes its entry and nothing else.
proof fn lemma_map_of_rows_remove(rows: Seq<StoredObject>, i: int)
    requires
        rows_unique(rows),
        0 <= i < rows.len(),
    ensures
        map_of_rows(rows.remove(i)) == map_of_rows(rows).remove(rows[i].id),
    decreases rows.len(),
{
    let shrunk = rows.remove(i);
    if i == rows.len() - 1 {
        assert(shrunk =~= rows.drop_last());
        lemma_map_of_rows_characterize(rows.drop_last());
        assert(!map_of_rows(rows.drop_last()).contains_key(rows.last().id));
        assert(map_of_rows(rows.drop_last()) =~= map_of_rows(rows.drop_last()).insert(
            rows.last().id,
            rows.last().data@,
        ).remove(rows.last().id));
    } else {
        assert(shrunk.drop_last() =~= rows.drop_last().remove(i));
        assert(shrunk.last() == rows.last());
        lemma_map_of_rows_remove(rows.drop_last(), i);
        assert(rows.drop_last()[i] == rows[i]);
        assert(rows[i].id != rows.last().id);
        assert(map_of_rows(rows.drop_last()).remove(rows[i].id).insert(
            rows.last().id,
            rows.last().data@,
        ) =~= map_of_rows(rows.drop_last()).insert(rows.last().id, rows.last().data@).remove(
            rows[i].id,
        ));
    }
}

/// A byte sequence with the range at `offset` overwritten by `data`; the
/// bytes before and after the range are untouched.
pub open spec fn spec_splice(prior: Seq<u8>, offset: int, data: Seq<u8>) -> Seq<u8>
    recommends
        0 <= offset,
        offset + data.len() <= prior.len(),
{
    prior.subrange(0, offset) + data + prior.subrange(offset + data.len(), prior.len() as int)
}

/// The in-memory object store.  Identifiers are handed out from a
/// monotonic counter, so no identifier is ever reused.
pub struct ObjectStore {
    next_raw: u128,
    rows: Vec<StoredObject>,
}

impl ObjectStore {
    /// The store's logical value: the map from live object identifiers to
    /// their byte contents.
    pub closed spec fn contents(&self) -> Map<u128, Seq<u8>> {
        map_of_rows(self.rows@)
    }

    /// Well-formedness: no identifier is held twice, and every live
    /// identifier is below the allocation counter.
    pub closed spec fn wf(&self) -> bool {
        &&& rows_unique(self.rows@)
        &&& forall|i: int| 0 <= i < self.rows@.len() ==> self.rows@[i].id < self.next_raw
    }

    /// Whether the identifier space is exhausted, so that no further
    /// object can be created.
    pub closed spec fn spec_full(&self) -> bool {
        self.next_raw == u128::MAX
    }

    /// A fresh, empty store.
    pub fn new() -> (r: ObjectStore)
        ensures
            r.wf(),
            r.contents() == Map::<u128, Seq<u8>>::empty(),
            !r.spec_full(),
    {
        ObjectStore { next_raw: 0, rows: Vec::new() }
    }

    /// Allocate a fresh object with empty content.  Succeeds exactly while
    /// the identifier space is not exhausted; on failure the store is
    /// unchanged.
    pub fn create(&mut self, create_spec: &ObjectCreateSpec) -> (r: Result<ObjectId, StoreError>)
        requires
            old(self).wf(),
        ensures
            final(self).wf(),
            r is Ok <==> !old(self).spec_full(),
            r matches Ok(id) ==> !old(self).contents().contains_key(id.raw)
                && final(self).contents() == old(self).contents().insert(id.raw, Seq::<u8>::empty()),
            r is Err ==> *final(self) == *old(self) && r == Err::<ObjectId, StoreError>(
                StoreError::Exhausted,
            ),
    {
        if self.next_raw == u128::MAX {
            return Err(StoreError::Exhausted);
        }
        let id: u128 = self.next_raw;
        proof {
            lemma_map_of_rows_characterize(self.rows@);
        }
        let row = StoredObject {
            id,
            lifetime: create_spec.lifetime,
            prot: create_spec.prot,
            data: Vec::new(),
        };
        self.rows.push(row);
        self.next_raw = self.next_raw + 1;
        proof {
            assert(self.rows@.drop_last() =~= old(self).rows@);
        }
        Ok(ObjectId { raw: id })
    }

    /// Replace the content of a live object.  Succeeds exactly when the
    /// identifier is live; on failure the store is unchanged.
    pub fn write(&mut self, id: ObjectId, data: &Vec<u8>) -> (r: Result<(), StoreError>)
        requires
            old(self).wf(),
        ensures
            final(self).wf(),
            r is Ok <==> old(self).contents().contains_key(id.raw),
            r is Ok ==> final(self).contents() == old(self).contents().insert(id.raw, data@),
            r is Err ==> *final(self) == *old(self) && r == Err::<(), StoreError>(
                StoreError::NoSuchObject,
            ),
            final(self).spec_full() == old(self).spec_full(),
    {
        let n = self.rows.len();
        let mut i: usize = 0;
        while i < n
            invariant
                old(self).wf(),
                *self == *old(self),
                n == self.rows@.len(),
                i <= n,
                forall|j: int| 0 <= j < i ==> self.rows@[j].id != id.raw,
            decreases n - i,
        {
            if self.rows[i].id == id.raw {
                proof {
                    lemma_map_of_rows_characterize(self.rows@);
                }
                let ghost old_rows = self.rows@;
                let row = StoredObject {
                    id: id.raw,
                    lifetime: self.rows[i].lifetime,
                    prot: self.rows[i].prot,
                    data: slice_to_vec(data.as_slice()),
                };
                self.rows[i] = row;
                proof {
                    lemma_map_of_rows_update(old_rows, i as int, self.rows@[i as int]);
                }
                return Ok(());
            }
            i = i + 1;
        }
        proof {
            lemma_map_of_rows_characterize(self.rows@);
        }
        Err(StoreError::NoSuchObject)
    }

    /// Read a copy of the content of a live object, or `None` when the
    /// identifier is not live.
    pub fn read(&self, id: ObjectId) -> (r: Option<Vec<u8>>)
        requires
            self.wf(),
        ensures
            r is Some <==> self.contents().contains_key(id.raw),
            r matches Some(v) ==> v@ == self.contents()[id.raw],
    {
        let n = self.rows.len();
        let mut i: usize = 0;
        while i < n
            invariant
                self.wf(),
                n == self.rows@.len(),
                i <= n,
                forall|j: int| 0 <= j < i ==> self.rows@[j].id != id.raw,
            decreases n - i,
        {
            if self.rows[i].id == id.raw {
                proof {
                    lemma_map_of_rows_characterize(self.rows@);
                }
                return Some(slice_to_vec(self.rows[i].data.as_slice()));
            }
            i = i + 1;
        }
        proof {
            lemma_map_of_rows_characterize(self.rows@);
        }
        None
    }

    /// Read a copy of `len` bytes at `offset` within a live object;
    /// `None` when the identifier is not live or the range runs past the
    /// object's content.
    pub fn read_at(&self, id: ObjectId, offset: usize, len: usize) -> (r: Option<Vec<u8>>)
        requires
            self.wf(),
        ensures
            r is Some <==> self.contents().contains_key(id.raw) && offset + len
                <= self.contents()[id.raw].len(),
            r matches Some(v) ==> v@ == self.contents()[id.raw].subrange(
                offset as int,
                offset + len,
            ),
    {
        let n = self.rows.len();
        let mut i: usize = 0;
        while i < n
            invariant
                self.wf(),
                n == self.rows@.len(),
                i <= n,
                forall|j: int| 0 <= j < i ==> self.rows@[j].id != id.raw,
            decreases n - i,
        {
            if self.rows[i].id == id.raw {
                proof {
                    lemma_map_of_rows_characterize(self.rows@);
                }
                let data_len = self.rows[i].data.len();
                if offset > data_len || len > data_len - offset {
                    return None;
                }
                return Some(slice_to_vec(slice_subrange(
                    self.rows[i].data.as_slice(),
                    offset,
                    offset + len,
                )));
            }
            i = i + 1;
        }
        proof {
            lemma_map_of_rows_characterize(self.rows@);
        }
        None
    }

    /// Overwrite the bytes at `offset` within a live object with `data`,
    /// leaving the rest of its content as it was.  The range must lie
    /// inside the object's current content; on any failure the store is
    /// unchanged.
    pub fn write_at(&mut self, id: ObjectId, offset: usize, data: &Vec<u8>) -> (r: Result<
        (),
        StoreError,
    >)
        requires
            old(self).wf(),
        ensures
            final(self).wf(),
            r is Ok <==> old(self).contents().contains_key(id.raw) && offset + data@.len()
                <= old(self).contents()[id.raw].len(),
            r is Ok ==> final(self).contents() == old(self).contents().insert(
                id.raw,
                spec_splice(old(self).contents()[id.raw], offset as int, data@),
            ),
            r is Err ==> *final(self) == *old(self),
            r == Err::<(), StoreError>(StoreError::NoSuchObject) <==> !old(
                self,
            ).contents().contains_key(id.raw),
            r == Err::<(), StoreError>(StoreError::OutOfBounds) <==> old(
                self,
            ).contents().contains_key(id.raw) && offset + data@.len() > old(
                self,
            ).contents()[id.raw].len(),
            final(self).spec_full() == old(self).spec_full(),
    {
        let n = self.rows.len();
        let mut i: usize = 0;
        while i < n
            invariant
                old(self).wf(),
                *self == *old(self),
                n == self.rows@.len(),
                i <= n,
                forall|j: int| 0 <= j < i ==> self.rows@[j].id != id.raw,
            decreases n - i,
        {
            if self.rows[i].id == id.raw {
                proof {
                    lemma_map_of_rows_characterize(self.rows@);
                }
                let data_len = self.rows[i].data.len();
                if offset > data_len || data.len() > data_len - offset {
                    return Err(StoreError::OutOfBounds);
                }
                let ghost old_rows = self.rows@;
                let ghost prior = self.rows@[i as int].data@;
                let mut spliced = slice_to_vec(slice_subrange(
                    self.rows[i].data.as_slice(),
                    0,
                    offset,
                ));
                let mut k: usize = 0;
                while k < data.len()
                    invariant
                        k <= data@.len(),
                        spliced@ == prior.subrange(0, offset as int) + data@.take(k as int),
                    decreases data@.len() - k,
                {
                    spliced.push(data[k]);
                    proof {
                        assert(data@.take(k + 1 as int) =~= data@.take(k as int).push(
                            data@[k as int],
                        ));
                        assert(spliced@ =~= prior.subrange(0, offset as int) + data@.take(k
                            + 1 as int));
                    }
                    k = k + 1;
                }
                let mut k2: usize = offset + data.len();
                while k2 < data_len
                    invariant
                        offset + data@.len() <= k2 <= prior.len(),
                        data_len == prior.len(),
                        i < self.rows@.len(),
                        *self == *old(self),
                        prior == self.rows@[i as int].data@,
                        spliced@ == prior.subrange(0, offset as int) + data@ + prior.subrange(
                            offset + data@.len(),
                            k2 as int,
                        ),
                    decreases data_len - k2,
                {
                    spliced.push(self.rows[i].data[k2]);
                    proof {
                        assert(prior.subrange(offset + data@.len(), k2 + 1 as int)
                            =~= prior.subrange(offset + data@.len(), k2 as int).push(
                            prior[k2 as int],
                        ));
                        assert(spliced@ =~= prior.subrange(0, offset as int) + data@
                            + prior.subrange(offset + data@.len(), k2 + 1 as int));
                    }
                    k2 = k2 + 1;
                }
                proof {
                    assert(data@.take(data@.len() as int) =~= data@);
                }
                let row = StoredObject {
                    id: id.raw,
                    lifetime: self.rows[i].lifetime,
                    prot: self.rows[i].prot,
                    data: spliced,
                };
                self.rows[i] = row;
                proof {
                    lemma_map_of_rows_update(old_rows, i as int, self.rows@[i as int]);
                }
                return Ok(());
            }
            i = i + 1;
        }
        proof {
            lemma_map_of_rows_characterize(self.rows@);
        }
        Err(StoreError::NoSuchObject)
    }

    /// Delete a live object, reporting whether anything was deleted; the
    /// rest of the store is untouched.
    pub fn delete(&mut self, id: ObjectId) -> (r: bool)
        requires
            old(self).wf(),
        ensures
            final(self).wf(),
            r == old(self).contents().contains_key(id.raw),
            final(self).contents() == old(self).contents().remove(id.raw),
            final(self).spec_full() == old(self).spec_full(),
    {
        let n = self.rows.len();
        let mut i: usize = 0;
        while i < n
            invariant
                old(self).wf(),
                *self == *old(self),
                n == self.rows@.len(),
                i <= n,
                forall|j: int| 0 <= j < i ==> self.rows@[j].id != id.raw,
            decreases n - i,
        {
            if self.rows[i].id == id.raw {
                proof {
                    lemma_map_of_rows_characterize(self.rows@);
                    lemma_map_of_rows_remove(self.rows@, i as int);
                }
                let ghost old_rows = self.rows@;
                self.rows.remove(i);
                proof {
                    assert(self.rows@ =~= old_rows.remove(i as int));
                    assert forall|a: int, b: int|
                        0 <= a < b < self.rows@.len() implies self.rows@[a].id
                        != self.rows@[b].id by {
                        if b < i {
                            assert(self.rows@[a] == old_rows[a] && self.rows@[b] == old_rows[b]);
                        } else if a >= i {
                            assert(self.rows@[a] == old_rows[a + 1] && self.rows@[b] == old_rows[b
                                + 1]);
                        } else {
                            assert(self.rows@[a] == old_rows[a] && self.rows@[b] == old_rows[b
                                + 1]);
                        }
                    }
                }
                return true;
            }
            i = i + 1;
        }
        proof {
            lemma_map_of_rows_characterize(self.rows@);
            assert(!self.contents().contains_key(id.raw));
            assert(self.contents() =~= self.contents().remove(id.raw));
        }
        false
    }
}

} // verus!
