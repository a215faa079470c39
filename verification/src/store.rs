//! The content-addressed blob store: write-once records keyed by the digest
//! of their bytes.

use vstd::prelude::*;
use crate::encoding::{hex_encode, hex_string};
use crate::error::Error;
use crate::hash::digest;
use crate::structs::{DataBlob, MAX_BLOB_LEN};

verus! {

/// The key under which a blob with the given bytes is stored: its digest in
/// lower-case hexadecimal.
pub open spec fn blob_key(bytes: Seq<u8>) -> Seq<char> {
    hex_string(digest(bytes))
}

/// The records of a store after a blob with the given bytes was put into it.
/// A key that is taken keeps its record.
pub open spec fn put_contents(before: Map<Seq<char>, Seq<u8>>, bytes: Seq<u8>) -> Map<
    Seq<char>,
    Seq<u8>,
> {
    if before.contains_key(blob_key(bytes)) {
        before
    } else {
        before.insert(blob_key(bytes), bytes)
    }
}

/// Putting the same bytes a second time changes nothing: the store holds one
/// record for them, and where the key was free before the first put, one
/// record more than before.
pub proof fn lemma_put_idempotent(before: Map<Seq<char>, Seq<u8>>, bytes: Seq<u8>)
    ensures
        put_contents(put_contents(before, bytes), bytes) == put_contents(before, bytes),
        put_contents(before, bytes).contains_key(blob_key(bytes)),
        before.dom().finite() && !before.contains_key(blob_key(bytes)) ==> {
            &&& put_contents(put_contents(before, bytes), bytes).dom().finite()
            &&& put_contents(put_contents(before, bytes), bytes).dom().len() == before.dom().len()
                + 1
        },
        before.contains_key(blob_key(bytes)) ==> put_contents(before, bytes) == before,
{
}

/// A store of blobs by key, with no update and no delete.
pub trait BlobStore {
    /// The bytes of each stored blob, by key.
    spec fn contents(&self) -> Map<Seq<char>, Seq<u8>>;

    /// The blob stored under `key`, if there is one.
    fn get(&self, key: &str) -> (found: Option<DataBlob>)
        ensures
            match found {
                Some(blob) => {
                    &&& self.contents().contains_key(key@)
                    &&& blob@ == self.contents()[key@]
                    &&& blob.wf()
                },
                None => !self.contents().contains_key(key@),
            },
    ;

    /// Stores `blob` under its key and returns the key. Where the key is
    /// taken the store stays as it is. On a failure nothing is stored.
    fn put(&mut self, blob: DataBlob) -> (stored: Result<String, Error>)
        ensures
            match stored {
                Ok(key) => {
                    &&& blob.wf()
                    &&& key@ == blob_key(blob@)
                    &&& final(self).contents() == put_contents(old(self).contents(), blob@)
                },
                Err(_) => final(self).contents() == old(self).contents(),
            },
    ;
}

/// A blob store held in memory.
pub struct MemoryStore {
    keys: Vec<String>,
    blobs: Vec<DataBlob>,
}

impl MemoryStore {
    /// Each record stands under the key of its blob, no blob is too long,
    /// and no key stands twice.
    #[verifier::type_invariant]
    spec fn inv(self) -> bool {
        &&& self.keys@.len() == self.blobs@.len()
        &&& forall|i: int|
            0 <= i < self.keys@.len() ==> (#[trigger] self.keys@[i])@ == blob_key(
                self.blobs@[i]@,
            )
        &&& forall|i: int| 0 <= i < self.blobs@.len() ==> (#[trigger] self.blobs@[i]).wf()
        &&& forall|i: int, j: int|
            0 <= i < j < self.keys@.len() ==> (#[trigger] self.keys@[i])@ != (
            #[trigger] self.keys@[j])@
    }

    /// The keys in the order in which they were stored.
    spec fn key_list(&self) -> Seq<Seq<char>> {
        Seq::new(self.keys@.len(), |i: int| self.keys@[i]@)
    }

    /// `key` is the key of the record at position `i`.
    spec fn is_at(&self, key: Seq<char>, i: int) -> bool {
        0 <= i < self.keys@.len() && self.keys@[i]@ == key
    }

    /// A store without records.
    pub fn new() -> (store: MemoryStore)
        ensures
            store.contents() == Map::<Seq<char>, Seq<u8>>::empty(),
    {
        let store = MemoryStore { keys: Vec::new(), blobs: Vec::new() };
        assert(store.contents() =~= Map::<Seq<char>, Seq<u8>>::empty());
        store
    }

    /// Number of stored records.
    pub fn len(&self) -> (n: usize)
        ensures
            self.contents().dom().finite(),
            n == self.contents().dom().len(),
    {
        proof {
            use_type_invariant(self);
            let keys = self.key_list();
            let held = self.contents().dom();
            assert(keys.no_duplicates());
            keys.unique_seq_to_set();
            assert(held =~= keys.to_set()) by {
                assert forall|k: Seq<char>| keys.to_set().contains(k) implies held.contains(k) by {
                    let i = choose|i: int| 0 <= i < keys.len() && keys[i] == k;
                    assert(self.is_at(k, i));
                }
                assert forall|k: Seq<char>| held.contains(k) implies keys.to_set().contains(k) by {
                    let i = choose|i: int| self.is_at(k, i);
                    assert(keys[i] == k);
                }
            }
        }
        self.keys.len()
    }

    /// Position of `key` among the stored keys.
    fn position(&self, key: &String) -> (at: Option<usize>)
        ensures
            match at {
                Some(i) => self.is_at(key@, i as int),
                None => forall|i: int| !self.is_at(key@, i),
            },
    {
        let mut i: usize = 0;
        while i < self.keys.len()
            invariant
                i <= self.keys@.len(),
                forall|j: int| 0 <= j < i ==> self.keys@[j]@ != key@,
            decreases self.keys@.len() - i,
        {
            if self.keys[i] == *key {
                return Some(i);
            }
            i += 1;
        }
        None
    }
}

impl BlobStore for MemoryStore {
    closed spec fn contents(&self) -> Map<Seq<char>, Seq<u8>> {
        Map::new(
            |k: Seq<char>| exists|i: int| self.is_at(k, i),
            |k: Seq<char>| self.blobs@[choose|i: int| self.is_at(k, i)]@,
        )
    }

    fn get(&self, key: &str) -> (found: Option<DataBlob>)
        ensures
            found matches Some(blob) ==> key@ == blob_key(blob@),
    {
        proof {
            use_type_invariant(self);
        }
        let wanted = key.to_owned();
        match self.position(&wanted) {
            Some(i) => {
                assert(self.is_at(key@, i as int));
                Some(self.blobs[i].clone())
            },
            None => None,
        }
    }

    fn put(&mut self, blob: DataBlob) -> (stored: Result<String, Error>)
        ensures
            stored is Ok <==> blob.wf(),
            stored matches Err(e) ==> e == Error::MaxVectorSize(1000),
    {
        proof {
            use_type_invariant(&*self);
        }
        if blob.data.len() > MAX_BLOB_LEN {
            return Err(Error::MaxVectorSize(1000));
        }
        let key = hex_encode(blob.hash().as_slice());
        match self.position(&key) {
            Some(i) => {
                assert(self.is_at(key@, i as int));
            },
            None => {
                let ghost before = *self;
                proof {
                    assert forall|i: int| 0 <= i < before.keys@.len() implies before.keys@[i]@
                        != key@ by {
                        assert(!before.is_at(key@, i));
                    }
                }
                let mut taken = MemoryStore { keys: Vec::new(), blobs: Vec::new() };
                core::mem::swap(self, &mut taken);
                let MemoryStore { mut keys, mut blobs } = taken;
                keys.push(key.clone());
                blobs.push(blob);
                *self = MemoryStore { keys, blobs };
                proof {
                    let after = put_contents(before.contents(), blob@);
                    let last = before.keys@.len() as int;
                    let now = self.contents();
                    assert forall|k: Seq<char>| now.contains_key(k) implies after.contains_key(
                        k,
                    ) by {
                        let i = choose|i: int| self.is_at(k, i);
                        if i < last {
                            assert(before.is_at(k, i));
                        }
                    }
                    assert forall|k: Seq<char>| after.contains_key(k) implies now.contains_key(
                        k,
                    ) by {
                        if k == key@ {
                            assert(self.is_at(k, last));
                        } else {
                            let i = choose|i: int| before.is_at(k, i);
                            assert(self.is_at(k, i));
                        }
                    }
                    assert forall|k: Seq<char>| now.contains_key(k) implies now[k] == after[k] by {
                        let i = choose|i: int| self.is_at(k, i);
                        if i < last {
                            assert(before.is_at(k, i));
                            let j = choose|j: int| before.is_at(k, j);
                            assert(self.is_at(k, j));
                        }
                    }
                    assert(now =~= after);
                }
            },
        }
        Ok(key)
    }
}

} // verus!
