use vstd::prelude::*;

verus! {

use crate::bytes::{
    lex_lt,
    lex_le,
    starts_with_s,
    contains_s,
    lemma_lex_le_antisym,
    starts_with_bytes,
    contains_bytes,
    subvec,
};
use crate::store::{TriggerStore, StoreError};

/// The reserved command prefix, as bytes: `sakamoto!`.
pub open spec fn cmd_prefix() -> Seq<u8> {
    seq![115u8, 97u8, 107u8, 97u8, 109u8, 111u8, 116u8, 111u8, 33u8]
}

pub fn cmd_prefix_vec() -> (v: Vec<u8>)
    ensures
        v@ == cmd_prefix(),
{
    let v: Vec<u8> = vec![115u8, 97u8, 107u8, 97u8, 109u8, 111u8, 116u8, 111u8, 33u8];
    proof {
        assert(v@ =~= cmd_prefix());
    }
    v
}

/// `k` is the greatest stored key strictly below `q` in byte order.
pub open spec fn is_floor(m: Map<Seq<u8>, Seq<u8>>, q: Seq<u8>, k: Seq<u8>) -> bool {
    &&& m.contains_key(k)
    &&& lex_lt(k, q)
    &&& forall|k2: Seq<u8>| m.contains_key(k2) && lex_lt(k2, q) ==> lex_le(k2, k)
}

/// The filter applied to a floor candidate: the message must not carry the
/// command prefix and must contain the candidate key as a substring.
pub open spec fn floor_fires(q: Seq<u8>, k: Seq<u8>) -> bool {
    !starts_with_s(q, cmd_prefix()) && contains_s(q, k)
}

/// The resolution policy: an exact hit wins; otherwise the single floor
/// candidate is tried against the substring filter; otherwise no match.
/// Only the lexicographically nearest-below key is ever considered.
pub open spec fn match_spec(m: Map<Seq<u8>, Seq<u8>>, q: Seq<u8>) -> Option<(Seq<u8>, Seq<u8>)> {
    if m.contains_key(q) {
        Some((q, m[q]))
    } else if exists|k: Seq<u8>| is_floor(m, q, k) {
        let k = choose|k: Seq<u8>| is_floor(m, q, k);
        if floor_fires(q, k) {
            Some((k, m[k]))
        } else {
            None
        }
    } else {
        None
    }
}

pub proof fn lemma_floor_unique(m: Map<Seq<u8>, Seq<u8>>, q: Seq<u8>, a: Seq<u8>, b: Seq<u8>)
    requires
        is_floor(m, q, a),
        is_floor(m, q, b),
    ensures
        a == b,
{
    lemma_lex_le_antisym(a, b);
}

pub open spec fn pair_view(o: Option<(Vec<u8>, Vec<u8>)>) -> Option<(Seq<u8>, Seq<u8>)> {
    match o {
        Option::Some(kv) => Some((kv.0@, kv.1@)),
        Option::None => None,
    }
}

/// Resolve a normalized message against the store: exact lookup first, then
/// the floor candidate with the substring filter.
pub fn resolve(store: &TriggerStore, normalized: &Vec<u8>) -> (r: Result<
    Option<(Vec<u8>, Vec<u8>)>,
    StoreError,
>)
    ensures
        r matches Ok(o) ==> pair_view(o) == match_spec(store@, normalized@),
{
    match store.get_raw(normalized) {
        Err(e) => Err(e),
        Ok(Some(v)) => {
            let k = subvec(normalized, 0, normalized.len());
            proof {
                assert(k@ =~= normalized@);
            }
            Ok(Some((k, v)))
        },
        Ok(None) => {
            match store.floor_below_raw(normalized) {
                Err(e) => Err(e),
                Ok(None) => {
                    proof {
                        assert(forall|k: Seq<u8>| !is_floor(store@, normalized@, k));
                    }
                    Ok(None)
                },
                Ok(Some((k, v))) => {
                    proof {
                        assert(is_floor(store@, normalized@, k@));
                        let kc = choose|k2: Seq<u8>| is_floor(store@, normalized@, k2);
                        lemma_floor_unique(store@, normalized@, k@, kc);
                    }
                    let prefix = cmd_prefix_vec();
                    if !starts_with_bytes(normalized, &prefix) && contains_bytes(normalized, &k) {
                        Ok(Some((k, v)))
                    } else {
                        Ok(None)
                    }
                },
            }
        },
    }
}

} // verus!
