use vstd::prelude::*;

verus! {

use crate::bytes::subvec;
use crate::response::{Response, ResponseModel};

// ---------------------------------------------------------------------------
// The stored form of a Response: a single kind-tag byte, then the payload.
// Variable-length fields that are not last carry a little-endian 8-byte
// length prefix. There is no schema version field; format changes are
// breaking.
// ---------------------------------------------------------------------------

/// `k` little-endian base-256 digits of `n`.
pub open spec fn rep_le(n: nat, k: nat) -> Seq<u8>
    decreases k,
{
    if k == 0 {
        seq![]
    } else {
        seq![(n % 256) as u8] + rep_le(n / 256, (k - 1) as nat)
    }
}

/// The value of the `k` base-256 digits of `s` starting at `i`.
pub open spec fn val_at(s: Seq<u8>, i: int, k: nat) -> nat
    decreases k,
{
    if k == 0 || i < 0 || i >= s.len() {
        0
    } else {
        (s[i] + 256 * val_at(s, i + 1, (k - 1) as nat)) as nat
    }
}

pub open spec fn p256(k: nat) -> nat
    decreases k,
{
    if k == 0 {
        1
    } else {
        256 * p256((k - 1) as nat)
    }
}

pub proof fn lemma_p256_pos(k: nat)
    ensures
        p256(k) >= 1,
    decreases k,
{
    if k != 0 {
        lemma_p256_pos((k - 1) as nat);
    }
}

pub proof fn lemma_p256_le(a: nat, b: nat)
    requires
        a <= b,
    ensures
        p256(a) <= p256(b),
    decreases b,
{
    if a < b {
        lemma_p256_le(a, (b - 1) as nat);
        lemma_p256_pos((b - 1) as nat);
    }
}

pub proof fn lemma_val_at_bound(s: Seq<u8>, i: int, k: nat)
    ensures
        val_at(s, i, k) < p256(k),
        p256(k) >= 1,
    decreases k,
{
    if k != 0 {
        lemma_val_at_bound(s, i + 1, (k - 1) as nat);
    }
}

/// Reading back the digits written for `n` yields `n`.
pub proof fn lemma_val_rep(s: Seq<u8>, i: int, n: nat, k: nat)
    requires
        n < p256(k),
        0 <= i,
        i + k <= s.len(),
        forall|j: int| 0 <= j < k ==> s[i + j] == rep_le(n, k)[j],
    ensures
        val_at(s, i, k) == n,
    decreases k,
{
    if k == 0 {
    } else {
        assert(rep_le(n, k) == seq![(n % 256) as u8] + rep_le(n / 256, (k - 1) as nat));
        assert(s[i + 0] == rep_le(n, k)[0]);
        assert(s[i] == (n % 256) as u8);
        assert forall|j: int| 0 <= j < k - 1 implies s[i + 1 + j] == #[trigger] rep_le(
            n / 256,
            (k - 1) as nat,
        )[j] by {
            assert(s[i + (j + 1)] == rep_le(n, k)[j + 1]);
            lemma_rep_len(n / 256, (k - 1) as nat);
            assert((seq![(n % 256) as u8] + rep_le(n / 256, (k - 1) as nat))[j + 1] == rep_le(
                n / 256,
                (k - 1) as nat,
            )[j]);
        }
        assert(n / 256 < p256((k - 1) as nat)) by {
            vstd::arithmetic::div_mod::lemma_fundamental_div_mod(n as int, 256);
            assert(n == 256 * (n / 256) + n % 256);
        }
        lemma_val_rep(s, i + 1, n / 256, (k - 1) as nat);
        assert(val_at(s, i, k) == (s[i] + 256 * val_at(s, i + 1, (k - 1) as nat)) as nat);
        vstd::arithmetic::div_mod::lemma_fundamental_div_mod(n as int, 256);
    }
}

// ---------------------------------------------------------------------------
// Encoding.
// ---------------------------------------------------------------------------

/// One length-prefixed item.
pub open spec fn enc_item(t: Seq<u8>) -> Seq<u8> {
    rep_le(t.len() as nat, 8) + t
}

/// A sequence of length-prefixed items, in order.
pub open spec fn enc_items(ts: Seq<Seq<u8>>) -> Seq<u8>
    decreases ts.len(),
{
    if ts.len() == 0 {
        seq![]
    } else {
        enc_item(ts[0]) + enc_items(ts.skip(1))
    }
}

pub proof fn lemma_enc_items_app(a: Seq<Seq<u8>>, b: Seq<Seq<u8>>)
    ensures
        enc_items(a + b) == enc_items(a) + enc_items(b),
    decreases a.len(),
{
    if a.len() == 0 {
        assert(a + b =~= b);
        assert(enc_items(a) + enc_items(b) =~= enc_items(b));
    } else {
        assert((a + b)[0] == a[0]);
        assert((a + b).skip(1) =~= a.skip(1) + b);
        lemma_enc_items_app(a.skip(1), b);
        assert(enc_items(a + b) =~= enc_items(a) + enc_items(b));
    }
}

/// The serialized form of a response model.
pub open spec fn encode_s(r: ResponseModel) -> Seq<u8> {
    match r {
        ResponseModel::React(ts) => seq![82u8] + enc_items(ts),
        ResponseModel::SimpleMessage(c) => seq![77u8] + c,
        ResponseModel::Embed(d) => seq![69u8] + d,
        ResponseModel::Templated(b, t) => seq![84u8] + rep_le(b.len() as nat, 8) + b + t,
    }
}

// ---------------------------------------------------------------------------
// Decoding.
// ---------------------------------------------------------------------------

/// Parse length-prefixed items from position `i` to the end of `s`.
pub open spec fn items_at(s: Seq<u8>, i: int) -> Option<Seq<Seq<u8>>>
    decreases s.len() - i,
{
    if i == s.len() {
        Some(seq![])
    } else if i < 0 || i + 8 > s.len() {
        None
    } else {
        let n = val_at(s, i, 8) as int;
        if i + 8 + n > s.len() {
            None
        } else {
            match items_at(s, i + 8 + n) {
                Option::None => None,
                Option::Some(rest) => Some(seq![s.subrange(i + 8, i + 8 + n)] + rest),
            }
        }
    }
}

/// Deserialization; `None` is a corrupt stored value.
pub open spec fn decode_s(s: Seq<u8>) -> Option<ResponseModel> {
    if s.len() == 0 {
        None
    } else if s[0] == 82 {
        match items_at(s, 1) {
            Option::None => None,
            Option::Some(ts) => Some(ResponseModel::React(ts)),
        }
    } else if s[0] == 77 {
        Some(ResponseModel::SimpleMessage(s.subrange(1, s.len() as int)))
    } else if s[0] == 69 {
        Some(ResponseModel::Embed(s.subrange(1, s.len() as int)))
    } else if s[0] == 84 {
        if s.len() < 9 {
            None
        } else {
            let n = val_at(s, 1, 8) as int;
            if 9 + n > s.len() {
                None
            } else {
                Some(
                    ResponseModel::Templated(
                        s.subrange(9, 9 + n),
                        s.subrange(9 + n, s.len() as int),
                    ),
                )
            }
        }
    } else {
        None
    }
}

/// Field lengths small enough for an 8-byte length prefix; every value built
/// from vectors satisfies this.
pub open spec fn len_ok(r: ResponseModel) -> bool {
    match r {
        ResponseModel::React(ts) => forall|j: int| 0 <= j < ts.len() ==> #[trigger] ts[j].len()
            < p256(8),
        ResponseModel::Templated(b, _) => b.len() < p256(8),
        _ => true,
    }
}

pub proof fn lemma_items_round(s: Seq<u8>, i: int, ts: Seq<Seq<u8>>)
    requires
        0 <= i <= s.len(),
        s.subrange(i, s.len() as int) == enc_items(ts),
        forall|j: int| 0 <= j < ts.len() ==> #[trigger] ts[j].len() < p256(8),
    ensures
        items_at(s, i) == Some(ts),
    decreases ts.len(),
{
    let region = s.subrange(i, s.len() as int);
    if ts.len() == 0 {
        assert(region.len() == 0);
        assert(items_at(s, i) == Some(Seq::<Seq<u8>>::empty()));
        assert(ts =~= Seq::<Seq<u8>>::empty());
    } else {
        let t0 = ts[0];
        let n: nat = t0.len() as nat;
        assert(enc_items(ts) == enc_item(t0) + enc_items(ts.skip(1)));
        lemma_rep_len(n, 8);
        assert(region.len() == 8 + t0.len() + enc_items(ts.skip(1)).len());
        assert(i + 8 <= s.len());
        assert forall|j: int| 0 <= j < 8 implies s[i + j] == rep_le(n, 8)[j] by {
            assert(region[j] == s[i + j]);
            assert(enc_item(t0)[j] == rep_le(n, 8)[j]);
        }
        lemma_val_rep(s, i, n, 8);
        assert(val_at(s, i, 8) == n);
        assert(i + 8 + n <= s.len());
        assert(s.subrange(i + 8, i + 8 + n) =~= t0) by {
            assert forall|j: int| 0 <= j < n implies s.subrange(i + 8, i + 8 + n)[j] == t0[j] by {
                assert(region[8 + j] == s[i + 8 + j]);
                assert(enc_item(t0)[8 + j] == t0[j]);
            }
        }
        assert(s.subrange(i + 8 + n, s.len() as int) =~= enc_items(ts.skip(1))) by {
            assert forall|j: int|
                0 <= j < s.len() - (i + 8 + n) implies s.subrange(i + 8 + n, s.len() as int)[j]
                == enc_items(ts.skip(1))[j] by {
                assert(region[8 + n + j] == s[i + 8 + n + j]);
                assert((enc_item(t0) + enc_items(ts.skip(1)))[8 + n + j] == enc_items(
                    ts.skip(1),
                )[j]);
            }
        }
        assert forall|j: int| 0 <= j < ts.skip(1).len() implies #[trigger] ts.skip(1)[j].len()
            < p256(8) by {
            assert(ts.skip(1)[j] == ts[j + 1]);
        }
        lemma_items_round(s, i + 8 + n, ts.skip(1));
        assert(seq![s.subrange(i + 8, i + 8 + n)] + ts.skip(1) =~= ts);
    }
}

/// Round trip: decoding an encoded response yields the response back.
pub proof fn lemma_decode_encode(r: ResponseModel)
    requires
        len_ok(r),
    ensures
        decode_s(encode_s(r)) == Some(r),
{
    let s = encode_s(r);
    match r {
        ResponseModel::React(ts) => {
            assert(s[0] == 82);
            assert(s.subrange(1, s.len() as int) =~= enc_items(ts));
            lemma_items_round(s, 1, ts);
        },
        ResponseModel::SimpleMessage(c) => {
            assert(s[0] == 77);
            assert(s.subrange(1, s.len() as int) =~= c);
        },
        ResponseModel::Embed(d) => {
            assert(s[0] == 69);
            assert(s.subrange(1, s.len() as int) =~= d);
        },
        ResponseModel::Templated(b, t) => {
            assert(s[0] == 84);
            let n: nat = b.len() as nat;
            assert(rep_le(n, 8).len() == 8) by {
                assert(rep_le(n, 8) == seq![(n % 256) as u8] + rep_le(n / 256, 7));
                assert(rep_le(n / 256, 7).len() == 7) by {
                    lemma_rep_len(n / 256, 7);
                }
            }
            assert(s.len() == 9 + b.len() + t.len());
            assert forall|j: int| 0 <= j < 8 implies s[1 + j] == rep_le(n, 8)[j] by {
                assert(s[1 + j] == (seq![84u8] + rep_le(n, 8) + b + t)[1 + j]);
            }
            lemma_val_rep(s, 1, n, 8);
            assert(s.subrange(9, 9 + n as int) =~= b);
            assert(s.subrange(9 + n as int, s.len() as int) =~= t);
        },
    }
}

pub proof fn lemma_rep_len(n: nat, k: nat)
    ensures
        rep_le(n, k).len() == k,
    decreases k,
{
    if k != 0 {
        lemma_rep_len(n / 256, (k - 1) as nat);
    }
}

// ---------------------------------------------------------------------------
// Executable encoder and decoder.
// ---------------------------------------------------------------------------

/// Append `src` to `out`.
pub fn extend_from(out: &mut Vec<u8>, src: &Vec<u8>)
    ensures
        final(out)@ == old(out)@ + src@,
{
    let mut j: usize = 0;
    proof {
        assert(out@ =~= old(out)@ + src@.subrange(0, 0));
    }
    while j < src.len()
        invariant
            0 <= j <= src@.len(),
            out@ == old(out)@ + src@.subrange(0, j as int),
        decreases src@.len() - j,
    {
        out.push(src[j]);
        proof {
            assert(old(out)@ + src@.subrange(0, j + 1) =~= (old(out)@ + src@.subrange(
                0,
                j as int,
            )).push(src@[j as int]));
        }
        j += 1;
    }
    proof {
        assert(src@.subrange(0, src@.len() as int) =~= src@);
    }
}

/// The 8 little-endian digits of `n`, by recursion mirroring `rep_le`.
fn le_rec(n: u64, k: usize) -> (r: Vec<u8>)
    requires
        k <= 8,
    ensures
        r@ == rep_le(n as nat, k as nat),
    decreases k,
{
    if k == 0 {
        let r: Vec<u8> = Vec::new();
        proof {
            assert(r@ =~= rep_le(n as nat, 0));
        }
        r
    } else {
        let mut rest = le_rec(n / 256, k - 1);
        rest.insert(0, (n % 256) as u8);
        proof {
            assert(rest@ =~= seq![((n as nat) % 256) as u8] + rep_le((n as nat) / 256, (k
                - 1) as nat));
        }
        rest
    }
}

/// The base-256 value of `s[i..i+k]`, by recursion mirroring `val_at`.
fn val_rec(s: &Vec<u8>, i: usize, k: usize) -> (r: u64)
    requires
        i + k <= s@.len(),
        k <= 8,
        s@.len() <= usize::MAX,
    ensures
        r as nat == val_at(s@, i as int, k as nat),
    decreases k,
{
    if k == 0 {
        0
    } else {
        let rest = val_rec(s, i + 1, k - 1);
        proof {
            lemma_val_at_bound(s@, i + 1, (k - 1) as nat);
            lemma_p256_le((k - 1) as nat, 7);
            assert(p256(7) == 0x100000000000000) by {
                assert(p256(0) == 1);
                assert(p256(1) == 256);
                assert(p256(2) == 0x10000);
                assert(p256(3) == 0x1000000);
                assert(p256(4) == 0x100000000);
                assert(p256(5) == 0x10000000000);
                assert(p256(6) == 0x1000000000000);
            }
        }
        s[i] as u64 + 256 * rest
    }
}

/// Serialize a response. The result is exactly `encode_s` of the model.
pub fn encode(r: &Response) -> (out: Vec<u8>)
    ensures
        out@ == encode_s(r@),
{
    match r {
        Response::React(ts) => {
            let mut out: Vec<u8> = Vec::new();
            out.push(82);
            proof {
                assert(ts.deep_view().subrange(0, 0) =~= Seq::<Seq<u8>>::empty());
                assert(out@ =~= seq![82u8] + enc_items(ts.deep_view().subrange(0, 0)));
            }
            let mut i: usize = 0;
            while i < ts.len()
                invariant
                    0 <= i <= ts@.len(),
                    ts@.len() == ts.deep_view().len(),
                    out@ == seq![82u8] + enc_items(ts.deep_view().subrange(0, i as int)),
                decreases ts@.len() - i,
            {
                let ghost pre = out@;
                let ghost dv = ts.deep_view();
                let len8 = le_rec(ts[i].len() as u64, 8);
                extend_from(&mut out, &len8);
                extend_from(&mut out, &ts[i]);
                proof {
                    assert(ts[i as int]@ == dv[i as int]);
                    assert(out@ =~= pre + enc_item(dv[i as int]));
                    assert(dv.subrange(0, i + 1) =~= dv.subrange(0, i as int) + seq![
                        dv[i as int],
                    ]);
                    lemma_enc_items_app(dv.subrange(0, i as int), seq![dv[i as int]]);
                    assert(enc_items(seq![dv[i as int]]) =~= enc_item(dv[i as int]) + enc_items(
                        seq![dv[i as int]].skip(1),
                    ));
                    assert(seq![dv[i as int]].skip(1) =~= Seq::<Seq<u8>>::empty());
                    assert(enc_items(Seq::<Seq<u8>>::empty()) =~= Seq::<u8>::empty());
                    assert(out@ =~= seq![82u8] + enc_items(dv.subrange(0, i + 1)));
                }
                i += 1;
            }
            proof {
                assert(ts.deep_view().subrange(0, ts.deep_view().len() as int) =~= ts.deep_view());
            }
            out
        },
        Response::SimpleMessage(c) => {
            let mut out: Vec<u8> = Vec::new();
            out.push(77);
            let ghost pre = out@;
            extend_from(&mut out, c);
            proof {
                assert(out@ =~= seq![77u8] + c@);
            }
            out
        },
        Response::Embed(d) => {
            let mut out: Vec<u8> = Vec::new();
            out.push(69);
            extend_from(&mut out, d);
            proof {
                assert(out@ =~= seq![69u8] + d@);
            }
            out
        },
        Response::Templated(b, t) => {
            let mut out: Vec<u8> = Vec::new();
            out.push(84);
            let len8 = le_rec(b.len() as u64, 8);
            extend_from(&mut out, &len8);
            extend_from(&mut out, b);
            extend_from(&mut out, t);
            proof {
                assert(out@ =~= seq![84u8] + rep_le(b@.len() as nat, 8) + b@ + t@);
            }
            out
        },
    }
}

pub open spec fn opt_model(r: Option<Response>) -> Option<ResponseModel> {
    match r {
        Option::Some(x) => Some(x@),
        Option::None => None,
    }
}

/// Parse length-prefixed items from `i` to the end, mirroring `items_at`.
fn decode_items(s: &Vec<u8>, i: usize) -> (r: Option<Vec<Vec<u8>>>)
    requires
        i <= s@.len(),
        s@.len() <= usize::MAX,
    ensures
        match r {
            Option::Some(ts) => items_at(s@, i as int) == Some(ts.deep_view()),
            Option::None => items_at(s@, i as int) is None,
        },
    decreases s@.len() - i,
{
    if i == s.len() {
        let ts: Vec<Vec<u8>> = Vec::new();
        proof {
            assert(ts.deep_view() =~~= Seq::<Seq<u8>>::empty());
        }
        return Some(ts);
    }
    if s.len() - i < 8 {
        return None;
    }
    let n64 = val_rec(s, i, 8);
    if n64 > (s.len() - i - 8) as u64 {
        return None;
    }
    let n = n64 as usize;
    let item = subvec(s, i + 8, i + 8 + n);
    match decode_items(s, i + 8 + n) {
        Option::None => None,
        Option::Some(mut rest) => {
            let ghost pre = rest.deep_view();
            rest.insert(0, item);
            proof {
                assert(rest.deep_view() =~~= seq![s@.subrange(i as int + 8, i + 8 + n as int)]
                    + pre);
            }
            Some(rest)
        },
    }
}

/// Deserialize a stored value; `None` means the value is corrupt.
pub fn decode(s: &Vec<u8>) -> (r: Option<Response>)
    ensures
        opt_model(r) == decode_s(s@),
{
    let slen = s.len();
    if slen == 0 {
        return None;
    }
    let tag = s[0];
    if tag == 82 {
        match decode_items(s, 1) {
            Option::None => None,
            Option::Some(ts) => Some(Response::React(ts)),
        }
    } else if tag == 77 {
        let c = subvec(s, 1, slen);
        Some(Response::SimpleMessage(c))
    } else if tag == 69 {
        let d = subvec(s, 1, slen);
        Some(Response::Embed(d))
    } else if tag == 84 {
        if slen < 9 {
            return None;
        }
        let n64 = val_rec(s, 1, 8);
        if n64 > (slen - 9) as u64 {
            return None;
        }
        let n = n64 as usize;
        let b = subvec(s, 9, 9 + n);
        let t = subvec(s, 9 + n, slen);
        Some(Response::Templated(b, t))
    } else {
        None
    }
}

} // verus!
