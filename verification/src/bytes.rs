use vstd::prelude::*;

verus! {

use crate::is_ws;

// ---------------------------------------------------------------------------
// Specifications over byte strings: prefix, substring, lexicographic order.
// ---------------------------------------------------------------------------

/// `a` begins with `p`.
pub open spec fn starts_with_s(a: Seq<u8>, p: Seq<u8>) -> bool {
    p.len() <= a.len() && a.subrange(0, p.len() as int) == p
}

/// `sub` occurs in `a` at position `i`.
pub open spec fn matches_at(a: Seq<u8>, sub: Seq<u8>, i: int) -> bool {
    0 <= i && i + sub.len() <= a.len() && a.subrange(i, i + sub.len()) == sub
}

/// `sub` occurs somewhere in `a`.
pub open spec fn contains_s(a: Seq<u8>, sub: Seq<u8>) -> bool {
    exists|i: int| matches_at(a, sub, i)
}

/// Strict lexicographic byte order, the order the trigger store keeps its
/// keys in.
pub open spec fn lex_lt(a: Seq<u8>, b: Seq<u8>) -> bool
    decreases a.len(),
{
    if b.len() == 0 {
        false
    } else if a.len() == 0 {
        true
    } else if a[0] < b[0] {
        true
    } else if a[0] > b[0] {
        false
    } else {
        lex_lt(a.skip(1), b.skip(1))
    }
}

pub open spec fn lex_le(a: Seq<u8>, b: Seq<u8>) -> bool {
    lex_lt(a, b) || a == b
}

pub proof fn lemma_lex_irrefl(a: Seq<u8>)
    ensures
        !lex_lt(a, a),
    decreases a.len(),
{
    if a.len() > 0 {
        lemma_lex_irrefl(a.skip(1));
    }
}

pub proof fn lemma_lex_asym(a: Seq<u8>, b: Seq<u8>)
    requires
        lex_lt(a, b),
    ensures
        !lex_lt(b, a),
    decreases a.len(),
{
    if b.len() == 0 {
    } else if a.len() == 0 {
    } else if a[0] == b[0] {
        lemma_lex_asym(a.skip(1), b.skip(1));
    }
}

/// Two keys that each bound the other from below are the same key.
pub proof fn lemma_lex_le_antisym(a: Seq<u8>, b: Seq<u8>)
    requires
        lex_le(a, b),
        lex_le(b, a),
    ensures
        a == b,
{
    if a != b {
        lemma_lex_asym(a, b);
    }
}

// ---------------------------------------------------------------------------
// Executable primitives, each proved against the specification above.
// ---------------------------------------------------------------------------

/// Does `sub` occur in `a` at position `i`?
pub fn match_at(a: &Vec<u8>, sub: &Vec<u8>, i: usize) -> (r: bool)
    requires
        i + sub@.len() <= a@.len(),
    ensures
        r == matches_at(a@, sub@, i as int),
{
    // the call records that the length fits in usize, which the loop's
    // index arithmetic needs
    let _alen = a.len();
    let mut j: usize = 0;
    while j < sub.len()
        invariant
            i + sub@.len() <= a@.len(),
            a@.len() <= usize::MAX,
            0 <= j <= sub@.len(),
            forall|t: int| 0 <= t < j ==> a@[i + t] == sub@[t],
        decreases sub@.len() - j,
    {
        if a[i + j] != sub[j] {
            proof {
                if matches_at(a@, sub@, i as int) {
                    assert(a@.subrange(i as int, i + sub@.len())[j as int] == a@[i + j]);
                }
            }
            return false;
        }
        j += 1;
    }
    proof {
        assert(a@.subrange(i as int, i + sub@.len()) =~= sub@);
    }
    true
}

pub fn starts_with_bytes(a: &Vec<u8>, p: &Vec<u8>) -> (r: bool)
    ensures
        r == starts_with_s(a@, p@),
{
    if p.len() > a.len() {
        return false;
    }
    match_at(a, p, 0)
}

pub fn bytes_eq(a: &Vec<u8>, b: &Vec<u8>) -> (r: bool)
    ensures
        r == (a@ == b@),
{
    if a.len() != b.len() {
        return false;
    }
    let r = match_at(a, b, 0);
    proof {
        assert(a@.subrange(0, b@.len() as int) =~= a@);
    }
    r
}

pub fn contains_bytes(a: &Vec<u8>, sub: &Vec<u8>) -> (r: bool)
    ensures
        r == contains_s(a@, sub@),
{
    if sub.len() > a.len() {
        proof {
            assert(forall|i: int| !matches_at(a@, sub@, i));
        }
        return false;
    }
    if sub.len() == 0 {
        proof {
            assert(a@.subrange(0, 0) =~= sub@);
            assert(matches_at(a@, sub@, 0));
        }
        return true;
    }
    let bound = a.len() - sub.len();
    let mut i: usize = 0;
    while i <= bound
        invariant
            0 < sub@.len() <= a@.len(),
            a@.len() <= usize::MAX,
            bound == a@.len() - sub@.len(),
            0 <= i <= bound + 1,
            forall|t: int| 0 <= t < i ==> !matches_at(a@, sub@, t),
        decreases bound + 1 - i,
    {
        if match_at(a, sub, i) {
            return true;
        }
        i += 1;
    }
    proof {
        assert(forall|t: int| t >= i ==> !matches_at(a@, sub@, t));
    }
    false
}

/// Copy of `a[start..end]`.
pub fn subvec(a: &Vec<u8>, start: usize, end: usize) -> (r: Vec<u8>)
    requires
        start <= end <= a@.len(),
    ensures
        r@ == a@.subrange(start as int, end as int),
{
    let mut r: Vec<u8> = Vec::new();
    let mut i: usize = start;
    while i < end
        invariant
            start <= i <= end <= a@.len(),
            r@ == a@.subrange(start as int, i as int),
        decreases end - i,
    {
        r.push(a[i]);
        proof {
            assert(a@.subrange(start as int, i + 1) =~= a@.subrange(start as int, i as int).push(
                a@[i as int],
            ));
        }
        i += 1;
    }
    r
}

// ---------------------------------------------------------------------------
// ASCII whitespace trimming.
// ---------------------------------------------------------------------------

pub open spec fn trim_start_s(s: Seq<u8>) -> Seq<u8>
    decreases s.len(),
{
    if s.len() > 0 && is_ws(s[0]) {
        trim_start_s(s.skip(1))
    } else {
        s
    }
}

pub open spec fn trim_end_s(s: Seq<u8>) -> Seq<u8>
    decreases s.len(),
{
    if s.len() > 0 && is_ws(s[s.len() - 1]) {
        trim_end_s(s.drop_last())
    } else {
        s
    }
}

/// Both ends trimmed of ASCII whitespace.
pub open spec fn trim_s(s: Seq<u8>) -> Seq<u8> {
    trim_end_s(trim_start_s(s))
}

pub fn trim_bytes(s: &Vec<u8>) -> (r: Vec<u8>)
    ensures
        r@ == trim_s(s@),
{
    proof {
        assert(s@.subrange(0, s@.len() as int) =~= s@);
    }
    let mut a: usize = 0;
    while a < s.len() && (s[a] == 32 || s[a] == 9 || s[a] == 10 || s[a] == 13 || s[a] == 11 || s[a]
        == 12)
        invariant
            0 <= a <= s@.len(),
            trim_start_s(s@) == trim_start_s(s@.subrange(a as int, s@.len() as int)),
        decreases s@.len() - a,
    {
        proof {
            let t = s@.subrange(a as int, s@.len() as int);
            assert(t.len() > 0 && is_ws(t[0]));
            assert(t.skip(1) =~= s@.subrange(a + 1, s@.len() as int));
        }
        a += 1;
    }
    proof {
        let t = s@.subrange(a as int, s@.len() as int);
        assert(trim_start_s(t) == t);
    }
    let mut b: usize = s.len();
    while b > a && (s[b - 1] == 32 || s[b - 1] == 9 || s[b - 1] == 10 || s[b - 1] == 13 || s[b - 1]
        == 11 || s[b - 1] == 12)
        invariant
            0 <= a <= b <= s@.len(),
            trim_start_s(s@) == s@.subrange(a as int, s@.len() as int),
            trim_end_s(s@.subrange(a as int, s@.len() as int)) == trim_end_s(
                s@.subrange(a as int, b as int),
            ),
        decreases b,
    {
        proof {
            let t = s@.subrange(a as int, b as int);
            assert(t.len() > 0 && is_ws(t[t.len() - 1]));
            assert(t.drop_last() =~= s@.subrange(a as int, b - 1));
        }
        b -= 1;
    }
    proof {
        let t = s@.subrange(a as int, b as int);
        assert(trim_end_s(t) == t);
    }
    subvec(s, a, b)
}

// ---------------------------------------------------------------------------
// Whitespace splitting (argument tokens, emoji descriptor lists).
// ---------------------------------------------------------------------------

/// One step of the splitting loop, written as a recursive specification over
/// the position `i`, the token being accumulated and the tokens so far.
pub open spec fn split_ws_rec(s: Seq<u8>, i: int, cur: Seq<u8>, acc: Seq<Seq<u8>>) -> Seq<Seq<u8>>
    decreases s.len() - i,
{
    if i < 0 || i >= s.len() {
        if cur.len() > 0 {
            acc.push(cur)
        } else {
            acc
        }
    } else if is_ws(s[i]) {
        if cur.len() > 0 {
            split_ws_rec(s, i + 1, seq![], acc.push(cur))
        } else {
            split_ws_rec(s, i + 1, seq![], acc)
        }
    } else {
        split_ws_rec(s, i + 1, cur.push(s[i]), acc)
    }
}

/// The maximal whitespace-free tokens of `s`, in order. Only the ASCII
/// whitespace class separates tokens; a non-ASCII space stays inside its
/// token.
pub open spec fn split_ws_s(s: Seq<u8>) -> Seq<Seq<u8>> {
    split_ws_rec(s, 0, seq![], seq![])
}

pub fn split_ws(s: &Vec<u8>) -> (r: Vec<Vec<u8>>)
    ensures
        r.deep_view() == split_ws_s(s@),
{
    let mut acc: Vec<Vec<u8>> = Vec::new();
    let mut cur: Vec<u8> = Vec::new();
    let mut i: usize = 0;
    proof {
        assert(acc.deep_view() =~~= Seq::<Seq<u8>>::empty());
        assert(split_ws_s(s@) == split_ws_rec(s@, 0, cur@, acc.deep_view()));
    }
    while i < s.len()
        invariant
            0 <= i <= s@.len(),
            split_ws_s(s@) == split_ws_rec(s@, i as int, cur@, acc.deep_view()),
        decreases s@.len() - i,
    {
        let ghost pre_acc = acc.deep_view();
        let ghost pre_cur = cur@;
        if s[i] == 32 || s[i] == 9 || s[i] == 10 || s[i] == 13 || s[i] == 11 || s[i] == 12 {
            if cur.len() > 0 {
                acc.push(cur);
                cur = Vec::new();
                proof {
                    assert(acc.deep_view() =~~= pre_acc.push(pre_cur));
                    assert(split_ws_rec(s@, i as int, pre_cur, pre_acc) == split_ws_rec(
                        s@,
                        i + 1,
                        seq![],
                        pre_acc.push(pre_cur),
                    ));
                    assert(cur@ =~= Seq::<u8>::empty());
                }
            } else {
                proof {
                    assert(split_ws_rec(s@, i as int, pre_cur, pre_acc) == split_ws_rec(
                        s@,
                        i + 1,
                        seq![],
                        pre_acc,
                    ));
                    assert(cur@ =~= Seq::<u8>::empty());
                }
            }
        } else {
            cur.push(s[i]);
            proof {
                assert(split_ws_rec(s@, i as int, pre_cur, pre_acc) == split_ws_rec(
                    s@,
                    i + 1,
                    pre_cur.push(s@[i as int]),
                    pre_acc,
                ));
            }
        }
        i += 1;
    }
    if cur.len() > 0 {
        let ghost pre_acc = acc.deep_view();
        let ghost pre_cur = cur@;
        acc.push(cur);
        proof {
            assert(acc.deep_view() =~~= pre_acc.push(pre_cur));
        }
    }
    acc
}

// ---------------------------------------------------------------------------
// Stripping repeated occurrences of a pattern from either end (code fences).
// ---------------------------------------------------------------------------

pub open spec fn strip_prefix_reps(s: Seq<u8>, p: Seq<u8>) -> Seq<u8>
    decreases s.len(),
{
    if p.len() > 0 && starts_with_s(s, p) {
        strip_prefix_reps(s.skip(p.len() as int), p)
    } else {
        s
    }
}

pub open spec fn ends_with_s(s: Seq<u8>, p: Seq<u8>) -> bool {
    p.len() <= s.len() && s.subrange(s.len() - p.len(), s.len() as int) == p
}

pub open spec fn strip_suffix_reps(s: Seq<u8>, p: Seq<u8>) -> Seq<u8>
    decreases s.len(),
{
    if p.len() > 0 && ends_with_s(s, p) {
        strip_suffix_reps(s.subrange(0, s.len() - p.len()), p)
    } else {
        s
    }
}

/// All leading then all trailing repetitions of `p` removed, the way the
/// authoring workflow peels code fences off a follow-up message.
pub open spec fn strip_reps_s(s: Seq<u8>, p: Seq<u8>) -> Seq<u8> {
    strip_suffix_reps(strip_prefix_reps(s, p), p)
}

pub fn strip_reps(s: &Vec<u8>, p: &Vec<u8>) -> (r: Vec<u8>)
    requires
        p@.len() > 0,
    ensures
        r@ == strip_reps_s(s@, p@),
{
    proof {
        assert(s@.subrange(0, s@.len() as int) =~= s@);
    }
    let mut a: usize = 0;
    let mut go = true;
    while go
        invariant
            0 <= a <= s@.len(),
            p@.len() > 0,
            strip_prefix_reps(s@, p@) == strip_prefix_reps(
                s@.subrange(a as int, s@.len() as int),
                p@,
            ),
            !go ==> !starts_with_s(s@.subrange(a as int, s@.len() as int), p@),
        decreases s@.len() - a + (if go { 1int } else { 0int }),
    {
        if s.len() - a < p.len() {
            proof {
                assert(!starts_with_s(s@.subrange(a as int, s@.len() as int), p@));
            }
            go = false;
        } else {
            let t = subvec(s, a, s.len());
            if match_at(&t, p, 0) {
                proof {
                    let tt = s@.subrange(a as int, s@.len() as int);
                    assert(starts_with_s(tt, p@));
                    assert(tt.skip(p@.len() as int) =~= s@.subrange(
                        a + p@.len(),
                        s@.len() as int,
                    ));
                }
                a += p.len();
            } else {
                proof {
                    let tt = s@.subrange(a as int, s@.len() as int);
                    assert(tt.subrange(0, p@.len() as int) =~= s@.subrange(a as int, a + p@.len()));
                    assert(!starts_with_s(tt, p@));
                }
                go = false;
            }
        }
    }
    proof {
        let tt = s@.subrange(a as int, s@.len() as int);
        assert(strip_prefix_reps(tt, p@) == tt);
    }
    let mut b: usize = s.len();
    let mut go2 = true;
    while go2
        invariant
            0 <= a <= b <= s@.len(),
            p@.len() > 0,
            strip_prefix_reps(s@, p@) == s@.subrange(a as int, s@.len() as int),
            strip_suffix_reps(s@.subrange(a as int, s@.len() as int), p@) == strip_suffix_reps(
                s@.subrange(a as int, b as int),
                p@,
            ),
            !go2 ==> !ends_with_s(s@.subrange(a as int, b as int), p@),
        decreases b + (if go2 { 1int } else { 0int }),
    {
        if b - a < p.len() {
            proof {
                assert(!ends_with_s(s@.subrange(a as int, b as int), p@));
            }
            go2 = false;
        } else {
            let t = subvec(s, a, b);
            if match_at(&t, p, b - a - p.len()) {
                proof {
                    let tt = s@.subrange(a as int, b as int);
                    assert(tt.subrange(tt.len() - p@.len(), tt.len() as int) =~= s@.subrange(
                        a as int,
                        b as int,
                    ).subrange(b - a - p@.len(), b - a));
                    assert(ends_with_s(tt, p@));
                    assert(tt.subrange(0, tt.len() - p@.len()) =~= s@.subrange(
                        a as int,
                        b - p@.len(),
                    ));
                }
                b -= p.len();
            } else {
                proof {
                    let tt = s@.subrange(a as int, b as int);
                    assert(tt.subrange(tt.len() - p@.len(), tt.len() as int) =~= s@.subrange(
                        a as int,
                        b as int,
                    ).subrange(b - a - p@.len(), b - a));
                    assert(!ends_with_s(tt, p@));
                }
                go2 = false;
            }
        }
    }
    proof {
        let tt = s@.subrange(a as int, b as int);
        assert(strip_suffix_reps(tt, p@) == tt);
    }
    subvec(s, a, b)
}

// ---------------------------------------------------------------------------
// Decimal parsing of unsigned identifiers (custom emoji ids).
// ---------------------------------------------------------------------------

/// Operational specification of parsing a decimal number: consume digits,
/// rejecting any non-digit and any value that leaves the `u64` range.
pub open spec fn parse_u64_rec(s: Seq<u8>, i: int, acc: nat) -> Option<u64>
    decreases s.len() - i,
{
    if acc > u64::MAX {
        None
    } else if i < 0 || i >= s.len() {
        Some(acc as u64)
    } else if 48 <= s[i] <= 57 {
        parse_u64_rec(s, i + 1, acc * 10 + (s[i] - 48) as nat)
    } else {
        None
    }
}

/// A non-empty all-digit string parsed as a `u64`; `None` on a malformed
/// string or overflow.
pub open spec fn parse_u64_s(s: Seq<u8>) -> Option<u64> {
    if s.len() == 0 {
        None
    } else {
        parse_u64_rec(s, 0, 0)
    }
}

pub fn parse_u64(s: &Vec<u8>) -> (r: Option<u64>)
    ensures
        r == parse_u64_s(s@),
{
    if s.len() == 0 {
        return None;
    }
    let mut acc: u64 = 0;
    let mut i: usize = 0;
    while i < s.len()
        invariant
            0 <= i <= s@.len(),
            parse_u64_s(s@) == parse_u64_rec(s@, i as int, acc as nat),
        decreases s@.len() - i,
    {
        let b = s[i];
        if b < 48 || b > 57 {
            proof {
                assert(parse_u64_rec(s@, i as int, acc as nat) == None::<u64>);
            }
            return None;
        }
        let d = b - 48;
        proof {
            assert(parse_u64_rec(s@, i as int, acc as nat) == parse_u64_rec(
                s@,
                i + 1,
                acc as nat * 10 + (s@[i as int] - 48) as nat,
            ));
        }
        let m = acc.checked_mul(10);
        if m.is_none() {
            proof {
                assert(acc as nat * 10 + d as nat > u64::MAX);
                assert(parse_u64_rec(s@, i + 1, acc as nat * 10 + (s@[i as int] - 48) as nat)
                    == None::<u64>);
            }
            return None;
        }
        let a2 = m.unwrap().checked_add(d as u64);
        if a2.is_none() {
            proof {
                assert(parse_u64_rec(s@, i + 1, acc as nat * 10 + (s@[i as int] - 48) as nat)
                    == None::<u64>);
            }
            return None;
        }
        acc = a2.unwrap();
        i += 1;
    }
    proof {
        assert(parse_u64_rec(s@, i as int, acc as nat) == Some(acc));
    }
    Some(acc)
}

} // verus!
