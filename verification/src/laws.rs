use vstd::prelude::*;

verus! {

use crate::authoring::{
    DEADLINE_SECS,
    SessionModel,
    accepts_s,
    built_s,
    expired_s,
    fence,
};
use crate::bytes::{ends_with_s, lemma_lex_irrefl, starts_with_s, strip_prefix_reps, strip_reps_s, strip_suffix_reps};
use crate::codec::{decode_s, encode_s, lemma_decode_encode, len_ok};
use crate::handler::{handle_spec, OutcomeModel};
use crate::matcher::match_spec;
use crate::render::{ActionModel, RespondError, respond_spec};
use crate::response::{ResponseKind, ResponseModel, kind_of};
use crate::store::{TriggerListing, TriggerStore, TriggerError, listed_kind, listing_ok};

// ---------------------------------------------------------------------------
// The library's laws, stated once over the specification functions the
// executable contracts are written in.
// ---------------------------------------------------------------------------

/// A stored key always matches itself exactly, and when it holds a plain
/// text response, feeding the key yields exactly that text, whatever the
/// original message text was.
pub proof fn lemma_exact_match(m: Map<Seq<u8>, Seq<u8>>, msg: Seq<u8>, k: Seq<u8>, c: Seq<u8>)
    requires
        m.contains_key(k),
        decode_s(m[k]) == Some(ResponseModel::SimpleMessage(c)),
    ensures
        match_spec(m, k) == Some((k, m[k])),
        respond_spec(msg, k, k, k, m[k]) == Ok::<ActionModel, RespondError>(
            ActionModel::SendText(c),
        ),
{
}

/// The exact-match behavior seen from the message handler: a message equal
/// to a stored key with a plain text response is answered with exactly that
/// text, whoever sent it.
pub proof fn lemma_exact_match_handled(
    m: Map<Seq<u8>, Seq<u8>>,
    raw_full: Seq<u8>,
    k: Seq<u8>,
    c: Seq<u8>,
    privileged: bool,
)
    requires
        m.contains_key(k),
        decode_s(m[k]) == Some(ResponseModel::SimpleMessage(c)),
    ensures
        handle_spec(m, raw_full, k, k, privileged) == OutcomeModel::Respond(
            ActionModel::SendText(c),
        ),
{
    lemma_exact_match(m, raw_full, k, c);
}

/// A message that is not itself a stored key never produces an exact match:
/// whatever the matcher returns for it was found by floor lookup and is a
/// different key.
pub proof fn lemma_no_exact_for_absent(m: Map<Seq<u8>, Seq<u8>>, q: Seq<u8>)
    requires
        !m.contains_key(q),
    ensures
        match_spec(m, q) matches Some(kv) ==> kv.0 != q,
{
    if match_spec(m, q) matches Some(kv) {
        lemma_lex_irrefl(q);
    }
}

/// A `React` response never fires for a non-exact match, even when the
/// substring test that found the key holds.
pub proof fn lemma_react_only_exact(
    message: Seq<u8>,
    raw: Seq<u8>,
    norm: Seq<u8>,
    key: Seq<u8>,
    stored: Seq<u8>,
    ts: Seq<Seq<u8>>,
)
    requires
        decode_s(stored) == Some(ResponseModel::React(ts)),
        norm != key,
    ensures
        respond_spec(message, raw, norm, key, stored) == Ok::<ActionModel, RespondError>(
            ActionModel::Nothing,
        ),
{
}

/// Storing a response and reading the same key back yields exactly that
/// response, whatever was stored there before: an overwrite replaces the
/// old response entirely, with no merge across kinds.
pub proof fn lemma_overwrite(
    m: Map<Seq<u8>, Seq<u8>>,
    k: Seq<u8>,
    r1: ResponseModel,
    r2: ResponseModel,
)
    requires
        len_ok(r2),
    ensures
        m.insert(k, encode_s(r1)).insert(k, encode_s(r2)) == m.insert(k, encode_s(r2)),
        TriggerStore::get_spec(m.insert(k, encode_s(r2)), k) == Ok::<
            Option<ResponseModel>,
            TriggerError,
        >(Some(r2)),
{
    assert(m.insert(k, encode_s(r1)).insert(k, encode_s(r2)) =~= m.insert(k, encode_s(r2)));
    lemma_decode_encode(r2);
}

/// Deleting an absent key leaves the store unchanged.
pub proof fn lemma_delete_absent(m: Map<Seq<u8>, Seq<u8>>, k: Seq<u8>)
    requires
        !m.contains_key(k),
    ensures
        m.remove(k) == m,
{
    assert(m.remove(k) =~= m);
}

/// After a key is deleted, looking it up finds nothing.
pub proof fn lemma_delete_then_get(m: Map<Seq<u8>, Seq<u8>>, k: Seq<u8>)
    ensures
        TriggerStore::get_spec(m.remove(k), k) == Ok::<Option<ResponseModel>, TriggerError>(None),
{
}

/// Corruption isolation: in any correct listing, every key whose stored
/// value decodes is reported with its kind, whatever other entries hold —
/// one corrupt value cannot suppress the valid entries.
pub proof fn lemma_corruption_isolated(
    m: Map<Seq<u8>, Seq<u8>>,
    ls: Seq<TriggerListing>,
    good: Seq<u8>,
    rm: ResponseModel,
)
    requires
        listing_ok(m, ls),
        m.contains_key(good),
        decode_s(m[good]) == Some(rm),
    ensures
        exists|i: int|
            0 <= i < ls.len() && (#[trigger] ls[i].key@) == good && ls[i].kind == Some(kind_of(rm)),
{
    let i = choose|i: int| 0 <= i < ls.len() && (#[trigger] ls[i].key@) == good;
    assert(ls[i].kind == listed_kind(m[good]));
}

/// Stripping the fences off a fenced body recovers the body, provided the
/// body does not itself begin or end with a backtick.
pub proof fn lemma_strip_fenced(body: Seq<u8>)
    requires
        body.len() > 0 ==> body[0] != 96,
        body.len() > 0 ==> body[body.len() - 1] != 96,
    ensures
        strip_reps_s(fence() + body + fence(), fence()) == body,
{
    let f = fence();
    let s = f + body + f;
    if body.len() == 0 {
        assert(s =~= f + f);
        assert(starts_with_s(s, f)) by {
            assert(s.subrange(0, 3) =~= f);
        }
        assert(starts_with_s(f, f)) by {
            assert(f.subrange(0, 3) =~= f);
        }
        assert(strip_prefix_reps(s, f) == strip_prefix_reps(f, f)) by {
            assert(s.skip(f.len() as int) =~= f);
        }
        assert(strip_prefix_reps(f, f) == strip_prefix_reps(Seq::<u8>::empty(), f)) by {
            assert(f.skip(f.len() as int) =~= Seq::<u8>::empty());
        }
        assert(!starts_with_s(Seq::<u8>::empty(), f));
        assert(strip_prefix_reps(Seq::<u8>::empty(), f) == Seq::<u8>::empty());
        assert(!ends_with_s(Seq::<u8>::empty(), f));
        assert(strip_suffix_reps(Seq::<u8>::empty(), f) =~= body);
    } else {
        assert(starts_with_s(s, f)) by {
            assert(s.subrange(0, 3) =~= f);
        }
        assert(!starts_with_s(body + f, f)) by {
            if starts_with_s(body + f, f) {
                assert((body + f).subrange(0, 3)[0] == (body + f)[0]);
                assert((body + f)[0] == body[0]);
                assert(f[0] == 96);
            }
        }
        assert(strip_prefix_reps(s, f) == strip_prefix_reps(body + f, f)) by {
            assert(s.skip(f.len() as int) =~= body + f);
        }
        assert(strip_prefix_reps(body + f, f) == body + f);
        assert(ends_with_s(body + f, f)) by {
            assert((body + f).subrange((body + f).len() - 3, (body + f).len() as int) =~= f);
        }
        assert(!ends_with_s(body, f)) by {
            if ends_with_s(body, f) {
                assert(body.subrange(body.len() - 3, body.len() as int)[2] == body[body.len() - 1]);
                assert(f[2] == 96);
            }
        }
        assert(strip_suffix_reps(body + f, f) == strip_suffix_reps(body, f)) by {
            assert((body + f).subrange(0, (body + f).len() - f.len()) =~= body);
        }
        assert(strip_suffix_reps(body, f) == body);
    }
}

/// The authoring round trip: a session opened for `add_message` with key
/// `key` accepts a fenced follow-up from the same author in the same scope
/// sent before the deadline, and committing it stores exactly
/// `SimpleMessage(body)` under `key` — reading the key back yields it.
pub proof fn lemma_authoring_round_trip(
    m: Map<Seq<u8>, Seq<u8>>,
    key: Seq<u8>,
    body: Seq<u8>,
    author_id: u64,
    scope_id: u64,
    channel_id: u64,
    now: u64,
    later: u64,
)
    requires
        body.len() > 0 ==> body[0] != 96,
        body.len() > 0 ==> body[body.len() - 1] != 96,
        later < now + DEADLINE_SECS,
    ensures
        ({
            let s = SessionModel {
                kind: ResponseKind::SimpleMessage,
                key,
                author_id,
                scope_id,
                channel_id,
                created_at: now,
            };
            &&& accepts_s(s, author_id, scope_id, fence() + body + fence(), false)
            &&& !expired_s(s, later)
            &&& built_s(ResponseKind::SimpleMessage, key, fence() + body + fence(), None) == Some(
                ResponseModel::SimpleMessage(body),
            )
            &&& TriggerStore::get_spec(
                m.insert(key, encode_s(ResponseModel::SimpleMessage(body))),
                key,
            ) == Ok::<Option<ResponseModel>, TriggerError>(Some(ResponseModel::SimpleMessage(body)))
        }),
{
    let f = fence();
    let s = f + body + f;
    assert(starts_with_s(s, f)) by {
        assert(s.subrange(0, 3) =~= f);
    }
    lemma_strip_fenced(body);
    lemma_decode_encode(ResponseModel::SimpleMessage(body));
}

} // verus!
