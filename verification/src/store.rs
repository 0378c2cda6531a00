use vstd::prelude::*;

verus! {

use crate::bytes::{lex_lt, lex_le};
use crate::codec::{decode_s, encode_s, decode, encode, opt_model};
use crate::response::{Response, ResponseKind, ResponseModel, kind_of};

/// The underlying ordered key-value store.
#[verifier::external_type_specification]
#[verifier::external_body]
pub struct ExDb(sled::Db);

/// The contents of the underlying store: each stored key mapped to its
/// stored value, both as byte strings.
pub uninterp spec fn db_contents(db: sled::Db) -> Map<Seq<u8>, Seq<u8>>;

/// A storage-layer failure (I/O or corruption inside the store itself).
#[derive(PartialEq, Eq, Structural, Clone, Copy, Debug)]
pub struct StoreError;

/// An error from a trigger-store operation.
#[derive(PartialEq, Eq, Structural, Clone, Copy, Debug)]
pub enum TriggerError {
    /// The storage layer failed.
    Store,
    /// A stored value does not deserialize.
    MalformedStorage,
}

/// Ordered trigger persistence: trigger key to serialized `Response`.
pub struct TriggerStore {
    pub db: sled::Db,
}

impl View for TriggerStore {
    type V = Map<Seq<u8>, Seq<u8>>;

    open spec fn view(&self) -> Map<Seq<u8>, Seq<u8>> {
        db_contents(self.db)
    }
}

impl TriggerStore {
    /// Wrap an opened store handle.
    pub fn new(db: sled::Db) -> (s: TriggerStore) {
        TriggerStore { db }
    }

    /// Relies on sled::Tree::get: point lookup of the value stored under a
    /// key, `Ok(None)` when the key is absent.
    #[verifier::external_body]
    pub fn get_raw(&self, key: &Vec<u8>) -> (r: Result<Option<Vec<u8>>, StoreError>)
        ensures
            r matches Ok(o) ==> (o is Some <==> db_contents(self.db).contains_key(key@)),
            r matches Ok(o) ==> (o matches Some(v) ==> v@ == db_contents(self.db)[key@]),
    {
        match self.db.get(key.as_slice()) {
            Ok(Some(v)) => Ok(Some(v.to_vec())),
            Ok(None) => Ok(None),
            Err(_) => Err(StoreError),
        }
    }

    /// Relies on sled::Tree::get_lt: the entry with the greatest key
    /// strictly below the argument in byte-lexicographic order, `Ok(None)`
    /// when no stored key is below it.
    #[verifier::external_body]
    pub fn floor_below_raw(&self, key: &Vec<u8>) -> (r: Result<
        Option<(Vec<u8>, Vec<u8>)>,
        StoreError,
    >)
        ensures
            r matches Ok(Some(kv)) ==> {
                &&& self@.contains_key(kv.0@)
                &&& kv.1@ == self@[kv.0@]
                &&& lex_lt(kv.0@, key@)
                &&& forall|k2: Seq<u8>|
                    self@.contains_key(k2) && lex_lt(k2, key@) ==> lex_le(k2, kv.0@)
            },
            r matches Ok(o) ==> (o is None ==> forall|k2: Seq<u8>|
                self@.contains_key(k2) ==> !lex_lt(k2, key@)),
    {
        match self.db.get_lt(key.as_slice()) {
            Ok(Some((k, v))) => Ok(Some((k.to_vec(), v.to_vec()))),
            Ok(None) => Ok(None),
            Err(_) => Err(StoreError),
        }
    }

    /// Relies on sled::Tree::insert: on success the store maps `key` to
    /// `value` and every other key is unchanged. A single-key write is
    /// atomic, so a failed call has either left the tree unchanged or
    /// applied this one update in full — never a torn state.
    #[verifier::external_body]
    pub fn put_raw(&mut self, key: &Vec<u8>, value: &Vec<u8>) -> (r: Result<(), StoreError>)
        ensures
            r is Ok ==> final(self)@ == old(self)@.insert(key@, value@),
            r is Err ==> final(self)@ == old(self)@ || final(self)@ == old(self)@.insert(
                key@,
                value@,
            ),
    {
        match self.db.insert(key.as_slice(), value.as_slice()) {
            Ok(_) => Ok(()),
            Err(_) => Err(StoreError),
        }
    }

    /// Relies on sled::Tree::remove: on success reports whether the key was
    /// present, removes it, and leaves every other key unchanged. A
    /// single-key removal is atomic, so a failed call has either left the
    /// tree unchanged or removed this one key in full.
    #[verifier::external_body]
    pub fn remove_raw(&mut self, key: &Vec<u8>) -> (r: Result<bool, StoreError>)
        ensures
            r matches Ok(existed) ==> {
                &&& existed == old(self)@.contains_key(key@)
                &&& final(self)@ == old(self)@.remove(key@)
            },
            r is Err ==> final(self)@ == old(self)@ || final(self)@ == old(self)@.remove(key@),
    {
        match self.db.remove(key.as_slice()) {
            Ok(o) => Ok(o.is_some()),
            Err(_) => Err(StoreError),
        }
    }

    /// Relies on sled::Tree::iter: all entries, in ascending
    /// byte-lexicographic key order, each key present exactly once.
    #[verifier::external_body]
    pub fn entries_raw(&self) -> (r: Result<Vec<(Vec<u8>, Vec<u8>)>, StoreError>)
        ensures
            r matches Ok(es) ==> {
                &&& forall|i: int|
                    0 <= i < es@.len() ==> self@.contains_key(#[trigger] es@[i].0@)
                        && es@[i].1@ == self@[es@[i].0@]
                &&& forall|i: int, j: int|
                    0 <= i < j < es@.len() ==> lex_lt(#[trigger] es@[i].0@, #[trigger] es@[j].0@)
                &&& forall|k: Seq<u8>|
                    self@.contains_key(k) ==> exists|i: int|
                        0 <= i < es@.len() && (#[trigger] es@[i].0@) == k
            },
    {
        let mut out: Vec<(Vec<u8>, Vec<u8>)> = Vec::new();
        for item in self.db.iter() {
            match item {
                Ok((k, v)) => out.push((k.to_vec(), v.to_vec())),
                Err(_) => {
                    return Err(StoreError);
                },
            }
        }
        Ok(out)
    }

    /// `k` is the greatest stored key at or below `q` in byte order.
    pub open spec fn is_floor_le(m: Map<Seq<u8>, Seq<u8>>, q: Seq<u8>, k: Seq<u8>) -> bool {
        &&& m.contains_key(k)
        &&& lex_le(k, q)
        &&& forall|k2: Seq<u8>| m.contains_key(k2) && lex_le(k2, q) ==> lex_le(k2, k)
    }

    /// The greatest stored entry whose key is at or below `key` in byte
    /// order: the key itself when stored, otherwise the entry strictly
    /// below it.
    pub fn get_floor(&self, key: &Vec<u8>) -> (r: Result<Option<(Vec<u8>, Vec<u8>)>, StoreError>)
        ensures
            r matches Ok(Some(kv)) ==> Self::is_floor_le(self@, key@, kv.0@) && kv.1@
                == self@[kv.0@],
            r matches Ok(o) ==> (o is None ==> forall|k2: Seq<u8>|
                self@.contains_key(k2) ==> !lex_le(k2, key@)),
    {
        match self.get_raw(key) {
            Err(e) => Err(e),
            Ok(Some(v)) => {
                let k = crate::bytes::subvec(key, 0, key.len());
                proof {
                    assert(k@ =~= key@);
                }
                Ok(Some((k, v)))
            },
            Ok(None) => {
                match self.floor_below_raw(key) {
                    Err(e) => Err(e),
                    Ok(Some((k, v))) => {
                        proof {
                            assert forall|k2: Seq<u8>|
                                self@.contains_key(k2) && lex_le(k2, key@) implies lex_le(
                                k2,
                                k@,
                            ) by {
                                if k2 == key@ {
                                    assert(self@.contains_key(key@));
                                }
                            }
                        }
                        Ok(Some((k, v)))
                    },
                    Ok(None) => Ok(None),
                }
            },
        }
    }

    /// What `get` returns when the storage layer itself does not fail.
    pub open spec fn get_spec(m: Map<Seq<u8>, Seq<u8>>, k: Seq<u8>) -> Result<
        Option<ResponseModel>,
        TriggerError,
    > {
        if m.contains_key(k) {
            match decode_s(m[k]) {
                Option::Some(rm) => Ok(Some(rm)),
                Option::None => Err(TriggerError::MalformedStorage),
            }
        } else {
            Ok(None)
        }
    }

    /// Look a trigger up and deserialize it. A value that does not
    /// deserialize is reported as `MalformedStorage`, never silently
    /// dropped.
    pub fn get(&self, key: &Vec<u8>) -> (r: Result<Option<Response>, TriggerError>)
        ensures
            r matches Ok(o) ==> Self::get_spec(self@, key@) == Ok::<_, TriggerError>(opt_model(o)),
            r matches Err(e) && e == TriggerError::MalformedStorage ==> Self::get_spec(self@, key@)
                == Err::<Option<ResponseModel>, _>(TriggerError::MalformedStorage),
    {
        match self.get_raw(key) {
            Err(_) => Err(TriggerError::Store),
            Ok(None) => Ok(None),
            Ok(Some(v)) => match decode(&v) {
                Option::Some(resp) => Ok(Some(resp)),
                Option::None => Err(TriggerError::MalformedStorage),
            },
        }
    }

    /// Store a trigger: serialize and write. Re-adding an existing key
    /// overwrites its whole response; last write wins.
    pub fn put(&mut self, key: &Vec<u8>, resp: &Response) -> (r: Result<(), TriggerError>)
        ensures
            r is Ok ==> final(self)@ == old(self)@.insert(key@, encode_s(resp@)),
            r matches Err(e) ==> e == TriggerError::Store,
            r is Err ==> final(self)@ == old(self)@ || final(self)@ == old(self)@.insert(
                key@,
                encode_s(resp@),
            ),
    {
        let v = encode(resp);
        match self.put_raw(key, &v) {
            Ok(_) => Ok(()),
            Err(_) => Err(TriggerError::Store),
        }
    }

    /// Delete a trigger; reports whether it existed.
    pub fn delete(&mut self, key: &Vec<u8>) -> (r: Result<bool, TriggerError>)
        ensures
            r matches Ok(existed) ==> {
                &&& existed == old(self)@.contains_key(key@)
                &&& final(self)@ == old(self)@.remove(key@)
            },
            r matches Err(e) ==> e == TriggerError::Store,
            r is Err ==> final(self)@ == old(self)@ || final(self)@ == old(self)@.remove(key@),
    {
        match self.remove_raw(key) {
            Ok(existed) => Ok(existed),
            Err(_) => Err(TriggerError::Store),
        }
    }
}

/// One line of a trigger listing: the key and its response kind, or `None`
/// for an entry whose stored value is corrupt.
pub struct TriggerListing {
    pub key: Vec<u8>,
    pub kind: Option<ResponseKind>,
}

/// The kind reported for one stored value.
pub open spec fn listed_kind(v: Seq<u8>) -> Option<ResponseKind> {
    match decode_s(v) {
        Option::Some(rm) => Some(kind_of(rm)),
        Option::None => None,
    }
}

/// A correct listing of `m`: every line reports a stored key with the kind
/// its own value decodes to (`None` for a corrupt value), and every stored
/// key is reported. Each line depends on its own entry alone.
pub open spec fn listing_ok(m: Map<Seq<u8>, Seq<u8>>, ls: Seq<TriggerListing>) -> bool {
    &&& forall|i: int|
        0 <= i < ls.len() ==> m.contains_key(#[trigger] ls[i].key@) && ls[i].kind == listed_kind(
            m[ls[i].key@],
        )
    &&& forall|k: Seq<u8>|
        m.contains_key(k) ==> exists|i: int| 0 <= i < ls.len() && (#[trigger] ls[i].key@) == k
}

/// Enumerate all triggers with their kinds. Entries are processed
/// independently: a corrupt value yields `kind == None` for that entry and
/// never prevents the other entries from being reported.
pub fn list_triggers(store: &TriggerStore) -> (r: Result<Vec<TriggerListing>, TriggerError>)
    ensures
        r matches Ok(ls) ==> {
            &&& listing_ok(store@, ls@)
            &&& forall|i: int, j: int|
                0 <= i < j < ls@.len() ==> lex_lt(#[trigger] ls@[i].key@, #[trigger] ls@[j].key@)
        },
        r matches Err(e) ==> e == TriggerError::Store,
{
    let es = match store.entries_raw() {
        Ok(es) => es,
        Err(_) => {
            return Err(TriggerError::Store);
        },
    };
    let mut ls: Vec<TriggerListing> = Vec::new();
    let mut i: usize = 0;
    while i < es.len()
        invariant
            0 <= i <= es@.len(),
            ls@.len() == i,
            forall|t: int| 0 <= t < i ==> (#[trigger] ls@[t].key@) == es@[t].0@,
            forall|t: int| 0 <= t < i ==> (#[trigger] ls@[t].kind) == listed_kind(es@[t].1@),
            forall|t: int|
                0 <= t < es@.len() ==> store@.contains_key(#[trigger] es@[t].0@) && es@[t].1@
                    == store@[es@[t].0@],
            forall|t: int, u: int|
                0 <= t < u < es@.len() ==> lex_lt(#[trigger] es@[t].0@, #[trigger] es@[u].0@),
            forall|k: Seq<u8>|
                store@.contains_key(k) ==> exists|t: int|
                    0 <= t < es@.len() && (#[trigger] es@[t].0@) == k,
        decreases es@.len() - i,
    {
        let key = crate::bytes::subvec(&es[i].0, 0, es[i].0.len());
        let kind = match decode(&es[i].1) {
            Option::Some(resp) => Some(resp.kind()),
            Option::None => None,
        };
        proof {
            let e0 = es@[i as int].0@;
            assert(e0.subrange(0, e0.len() as int) =~= e0);
        }
        ls.push(TriggerListing { key, kind });
        i += 1;
    }
    proof {
        assert forall|k: Seq<u8>| store@.contains_key(k) implies exists|t: int|
            0 <= t < ls@.len() && (#[trigger] ls@[t].key@) == k by {
            let t = choose|t: int| 0 <= t < es@.len() && (#[trigger] es@[t].0@) == k;
            assert(ls@[t].key@ == k);
        }
    }
    Ok(ls)
}

} // verus!
