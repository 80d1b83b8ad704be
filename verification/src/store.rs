//! An executable model of the durable blob store: a mapping from keys to
//! stored records — object bytes and their declared content type — with
//! put, copy, delete and get. The upload and download
//! pipelines are specified and proved over its view, and tests drive them
//! against it in place of a remote store.

use vstd::prelude::*;

verus! {

/// One stored object: its bytes and the content type it was written with.
#[derive(Debug, Clone, PartialEq, Eq)]
pub struct ObjectRecord {
    pub bytes: Vec<u8>,
    pub content_type: Vec<u8>,
}

impl View for ObjectRecord {
    type V = (Seq<u8>, Seq<u8>);

    open spec fn view(&self) -> (Seq<u8>, Seq<u8>) {
        (self.bytes@, self.content_type@)
    }
}

/// The objects an entry list holds: a later entry with the same key wins.
pub open spec fn entries_map(s: Seq<(Vec<u8>, ObjectRecord)>) -> Map<Seq<u8>, (Seq<u8>, Seq<u8>)>
    decreases s.len(),
{
    if s.len() == 0 {
        Map::<Seq<u8>, (Seq<u8>, Seq<u8>)>::empty()
    } else {
        entries_map(s.drop_last()).insert(s.last().0@, s.last().1@)
    }
}

/// Compare two byte strings by content.
pub fn bytes_eq(a: &Vec<u8>, b: &Vec<u8>) -> (r: bool)
    ensures
        r == (a@ == b@),
{
    if a.len() != b.len() {
        return false;
    }
    let mut i: usize = 0;
    while i < a.len()
        invariant
            a@.len() == b@.len(),
            i <= a@.len(),
            forall|j: int| 0 <= j < i ==> a@[j] == b@[j],
        decreases a@.len() - i,
    {
        if a[i] != b[i] {
            return false;
        }
        i += 1;
    }
    assert(a@ =~= b@);
    true
}

/// Copy of a byte string.
pub fn copy_bytes(src: &Vec<u8>) -> (r: Vec<u8>)
    ensures
        r@ == src@,
{
    let mut r: Vec<u8> = Vec::new();
    let mut i: usize = 0;
    while i < src.len()
        invariant
            i <= src@.len(),
            r@ == src@.take(i as int),
        decreases src@.len() - i,
    {
        r.push(src[i]);
        assert(r@ =~= src@.take(i as int + 1));
        i += 1;
    }
    assert(r@ =~= src@);
    r
}

/// The store model. Its view is the map from keys to stored records.
pub struct StoreModel {
    entries: Vec<(Vec<u8>, ObjectRecord)>,
}

impl View for StoreModel {
    type V = Map<Seq<u8>, (Seq<u8>, Seq<u8>)>;

    closed spec fn view(&self) -> Map<Seq<u8>, (Seq<u8>, Seq<u8>)> {
        entries_map(self.entries@)
    }
}

impl StoreModel {
    /// A store holding nothing.
    pub fn empty() -> (s: StoreModel)
        ensures
            s@ == Map::<Seq<u8>, (Seq<u8>, Seq<u8>)>::empty(),
    {
        StoreModel { entries: Vec::new() }
    }

    /// Write an object: the store then maps `key` to the record, and holds
    /// everything else unchanged.
    pub fn put_object(&mut self, key: &Vec<u8>, value: ObjectRecord)
        ensures
            final(self)@ == old(self)@.insert(key@, value@),
    {
        let k = copy_bytes(key);
        let ghost prev = self.entries@;
        self.entries.push((k, value));
        proof {
            assert(self.entries@.drop_last() =~= prev);
        }
    }

    /// Read an object: the stored record when the key is present.
    pub fn get_object(&self, key: &Vec<u8>) -> (r: Option<ObjectRecord>)
        ensures
            match r {
                Option::Some(v) => self@.contains_key(key@) && v@ == self@[key@],
                Option::None => !self@.contains_key(key@),
            },
    {
        let mut i: usize = self.entries.len();
        assert(self.entries@.take(i as int) =~= self.entries@);
        while i > 0
            invariant
                i <= self.entries@.len(),
                self@.contains_key(key@) == entries_map(self.entries@.take(i as int)).contains_key(
                    key@,
                ),
                self@.contains_key(key@) ==> self@[key@] == entries_map(
                    self.entries@.take(i as int),
                )[key@],
            decreases i,
        {
            proof {
                assert(self.entries@.take(i as int).drop_last() =~= self.entries@.take(
                    i as int - 1,
                ));
                assert(self.entries@.take(i as int).last() == self.entries@[i as int - 1]);
            }
            if bytes_eq(&self.entries[i - 1].0, key) {
                let v = ObjectRecord {
                    bytes: copy_bytes(&self.entries[i - 1].1.bytes),
                    content_type: copy_bytes(&self.entries[i - 1].1.content_type),
                };
                return Some(v);
            }
            i -= 1;
        }
        None
    }

    /// Copy an object to another key. Reports whether the source existed;
    /// when it did, the store then maps `dst` to the source's record,
    /// content type included.
    pub fn copy_object(&mut self, src: &Vec<u8>, dst: &Vec<u8>) -> (ok: bool)
        ensures
            ok == old(self)@.contains_key(src@),
            ok ==> final(self)@ == old(self)@.insert(dst@, old(self)@[src@]),
            !ok ==> final(self)@ == old(self)@,
    {
        match self.get_object(src) {
            Some(v) => {
                self.put_object(dst, v);
                true
            },
            None => false,
        }
    }

    /// Delete an object: the store no longer holds the key; everything else
    /// is unchanged.
    pub fn delete_object(&mut self, key: &Vec<u8>)
        ensures
            final(self)@ == old(self)@.remove(key@),
    {
        let mut kept: Vec<(Vec<u8>, ObjectRecord)> = Vec::new();
        let mut i: usize = 0;
        assert(entries_map(kept@) =~= entries_map(self.entries@.take(0)).remove(key@));
        while i < self.entries.len()
            invariant
                i <= self.entries@.len(),
                self.entries@ == old(self).entries@,
                entries_map(kept@) == entries_map(self.entries@.take(i as int)).remove(key@),
            decreases self.entries@.len() - i,
        {
            proof {
                assert(self.entries@.take(i as int + 1).drop_last() =~= self.entries@.take(
                    i as int,
                ));
                assert(self.entries@.take(i as int + 1).last() == self.entries@[i as int]);
            }
            if !bytes_eq(&self.entries[i].0, key) {
                let ck = copy_bytes(&self.entries[i].0);
                let cv = ObjectRecord {
                    bytes: copy_bytes(&self.entries[i].1.bytes),
                    content_type: copy_bytes(&self.entries[i].1.content_type),
                };
                let ghost prev_kept = kept@;
                kept.push((ck, cv));
                proof {
                    assert(kept@.drop_last() =~= prev_kept);
                    assert(entries_map(kept@) =~= entries_map(
                        self.entries@.take(i as int + 1),
                    ).remove(key@));
                }
            } else {
                proof {
                    assert(entries_map(kept@) =~= entries_map(
                        self.entries@.take(i as int + 1),
                    ).remove(key@));
                }
            }
            i += 1;
        }
        proof {
            assert(self.entries@.take(self.entries@.len() as int) =~= self.entries@);
        }
        self.entries = kept;
    }
}

} // verus!
