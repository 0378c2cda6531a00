use vstd::prelude::*;

verus! {

use crate::bytes::{starts_with_s, starts_with_bytes, strip_reps_s, strip_reps, split_ws_s, split_ws, subvec};
use crate::command::{Command, CommandModel};
use crate::response::{Response, ResponseKind, ResponseModel};
use crate::store::{TriggerStore, TriggerError};
use crate::codec::encode_s;

// ---------------------------------------------------------------------------
// The interactive authoring workflow: a privileged command opens a session
// that waits, with a deadline, for a correlated follow-up message from the
// same author in the same scope; the follow-up is turned into a Response
// and committed. A session that times out commits nothing.
// ---------------------------------------------------------------------------

/// Seconds a session waits for its follow-up before timing out.
pub const DEADLINE_SECS: u64 = 600;

/// One in-flight authoring session. Ephemeral: never persisted.
pub struct AuthoringSession {
    pub kind: ResponseKind,
    pub key: Vec<u8>,
    pub author_id: u64,
    pub scope_id: u64,
    pub channel_id: u64,
    pub created_at: u64,
}

pub struct SessionModel {
    pub kind: ResponseKind,
    pub key: Seq<u8>,
    pub author_id: u64,
    pub scope_id: u64,
    pub channel_id: u64,
    pub created_at: u64,
}

impl View for AuthoringSession {
    type V = SessionModel;

    open spec fn view(&self) -> SessionModel {
        SessionModel {
            kind: self.kind,
            key: self.key@,
            author_id: self.author_id,
            scope_id: self.scope_id,
            channel_id: self.channel_id,
            created_at: self.created_at,
        }
    }
}

impl DeepView for AuthoringSession {
    type V = SessionModel;

    open spec fn deep_view(&self) -> SessionModel {
        self.view()
    }
}

impl AuthoringSession {
    /// A field-for-field copy.
    pub fn duplicate(&self) -> (s: AuthoringSession)
        ensures
            s@ == self@,
    {
        let key = subvec(&self.key, 0, self.key.len());
        proof {
            assert(key@ =~= self.key@);
        }
        AuthoringSession {
            kind: self.kind,
            key,
            author_id: self.author_id,
            scope_id: self.scope_id,
            channel_id: self.channel_id,
            created_at: self.created_at,
        }
    }
}

/// The code-fence marker.
pub open spec fn fence() -> Seq<u8> {
    seq![96u8, 96u8, 96u8]
}

pub fn fence_vec() -> (v: Vec<u8>)
    ensures
        v@ == fence(),
{
    let v: Vec<u8> = vec![96u8, 96u8, 96u8];
    proof {
        assert(v@ =~= fence());
    }
    v
}

/// Open a session for an authoring command; any other command opens none.
pub fn begin_authoring(cmd: &Command, author_id: u64, scope_id: u64, channel_id: u64, now: u64) -> (o:
    Option<AuthoringSession>)
    ensures
        match cmd@ {
            CommandModel::AddReact(k) => o matches Some(s) && s@ == (SessionModel {
                kind: ResponseKind::React,
                key: k,
                author_id,
                scope_id,
                channel_id,
                created_at: now,
            }),
            CommandModel::AddMessage(k) => o matches Some(s) && s@ == (SessionModel {
                kind: ResponseKind::SimpleMessage,
                key: k,
                author_id,
                scope_id,
                channel_id,
                created_at: now,
            }),
            CommandModel::AddEmbed(k) => o matches Some(s) && s@ == (SessionModel {
                kind: ResponseKind::Embed,
                key: k,
                author_id,
                scope_id,
                channel_id,
                created_at: now,
            }),
            CommandModel::AddTemplate(k) => o matches Some(s) && s@ == (SessionModel {
                kind: ResponseKind::Templated,
                key: k,
                author_id,
                scope_id,
                channel_id,
                created_at: now,
            }),
            _ => o is None,
        },
{
    let kind = match cmd {
        Command::AddReact(_) => ResponseKind::React,
        Command::AddMessage(_) => ResponseKind::SimpleMessage,
        Command::AddEmbed(_) => ResponseKind::Embed,
        Command::AddTemplate(_) => ResponseKind::Templated,
        _ => {
            return None;
        },
    };
    let key = match cmd {
        Command::AddReact(k) => subvec(k, 0, k.len()),
        Command::AddMessage(k) => subvec(k, 0, k.len()),
        Command::AddEmbed(k) => subvec(k, 0, k.len()),
        Command::AddTemplate(k) => subvec(k, 0, k.len()),
        _ => {
            return None;
        },
    };
    proof {
        match cmd@ {
            CommandModel::AddReact(k) => assert(key@ =~= k),
            CommandModel::AddMessage(k) => assert(key@ =~= k),
            CommandModel::AddEmbed(k) => assert(key@ =~= k),
            CommandModel::AddTemplate(k) => assert(key@ =~= k),
            _ => (),
        }
    }
    Some(AuthoringSession { kind, key, author_id, scope_id, channel_id, created_at: now })
}

/// The per-kind shape a follow-up message must have: any message for a
/// reaction list; a fenced message for text; a fenced message or an
/// attachment for an embed or a template.
pub open spec fn shape_s(kind: ResponseKind, content: Seq<u8>, has_attachment: bool) -> bool {
    match kind {
        ResponseKind::React => true,
        ResponseKind::SimpleMessage => starts_with_s(content, fence()),
        ResponseKind::Embed => starts_with_s(content, fence()) || has_attachment,
        ResponseKind::Templated => starts_with_s(content, fence()) || has_attachment,
    }
}

/// The correlation predicate: same author, same scope, right shape.
pub open spec fn accepts_s(
    s: SessionModel,
    author_id: u64,
    scope_id: u64,
    content: Seq<u8>,
    has_attachment: bool,
) -> bool {
    author_id == s.author_id && scope_id == s.scope_id && shape_s(s.kind, content, has_attachment)
}

/// Does this follow-up event satisfy the session's correlation predicate?
pub fn accepts_followup(
    s: &AuthoringSession,
    author_id: u64,
    scope_id: u64,
    content: &Vec<u8>,
    has_attachment: bool,
) -> (b: bool)
    ensures
        b == accepts_s(s@, author_id, scope_id, content@, has_attachment),
{
    if author_id != s.author_id || scope_id != s.scope_id {
        return false;
    }
    match s.kind {
        ResponseKind::React => true,
        ResponseKind::SimpleMessage => {
            let f = fence_vec();
            starts_with_bytes(content, &f)
        },
        ResponseKind::Embed => {
            let f = fence_vec();
            starts_with_bytes(content, &f) || has_attachment
        },
        ResponseKind::Templated => {
            let f = fence_vec();
            starts_with_bytes(content, &f) || has_attachment
        },
    }
}

/// Whether the session's deadline has elapsed at time `now` (seconds).
pub open spec fn expired_s(s: SessionModel, now: u64) -> bool {
    now >= s.created_at + DEADLINE_SECS
}

pub fn expired(s: &AuthoringSession, now: u64) -> (b: bool)
    ensures
        b == expired_s(s@, now),
{
    now >= s.created_at && now - s.created_at >= DEADLINE_SECS
}

/// An authoring payload that fails to parse; the workflow aborts with no
/// store mutation.
#[derive(PartialEq, Eq, Structural, Clone, Copy, Debug)]
pub struct ParseError;

/// What `embed_canon_of` names: the payload parsed as a structured rich
/// document with the given field forced to the given string value, then
/// validated and re-serialized; `None` when the payload does not parse as
/// such a document.
pub uninterp spec fn embed_canon_of(payload: Seq<u8>, field: Seq<char>, value: Seq<char>) -> Option<
    Seq<u8>,
>;

/// Relies on serde_json (from_slice, to_vec) and on the platform model's
/// Embed deserialization: parses the payload as a JSON object, overwrites
/// `field` with the string `value`, validates the result as an embed
/// document and re-serializes it. All of these are pure functions of the
/// arguments. `None` when parsing or validation fails.
#[verifier::external_body]
fn embed_canonical(payload: &Vec<u8>, field: &str, value: &str) -> (r: Option<Vec<u8>>)
    ensures
        r is Some <==> embed_canon_of(payload@, field@, value@) is Some,
        r matches Some(v) ==> embed_canon_of(payload@, field@, value@) == Some(v@),
{
    let mut doc: serde_json::Value = match serde_json::from_slice(payload) {
        Ok(v) => v,
        Err(_) => return None,
    };
    doc.as_object_mut()?.insert(field.to_string(), serde_json::Value::String(value.to_string()));
    let embed: twilight_model::channel::message::embed::Embed = match serde_json::from_value(doc) {
        Ok(e) => e,
        Err(_) => return None,
    };
    serde_json::to_vec(&embed).ok()
}

/// The payload a follow-up supplies: the fetched attachment when one was
/// attached, otherwise the message content with its code fences stripped.
pub open spec fn payload_s(content: Seq<u8>, attachment: Option<Seq<u8>>) -> Seq<u8> {
    match attachment {
        Option::Some(a) => a,
        Option::None => strip_reps_s(content, fence()),
    }
}

pub open spec fn opt_bytes(a: Option<Vec<u8>>) -> Option<Seq<u8>> {
    match a {
        Option::Some(v) => Some(v@),
        Option::None => None,
    }
}

/// What committing a session stores, per kind, when it succeeds.
pub open spec fn built_s(
    kind: ResponseKind,
    key: Seq<u8>,
    content: Seq<u8>,
    attachment: Option<Seq<u8>>,
) -> Option<ResponseModel> {
    match kind {
        ResponseKind::React => Some(ResponseModel::React(split_ws_s(content))),
        ResponseKind::SimpleMessage => Some(
            ResponseModel::SimpleMessage(strip_reps_s(content, fence())),
        ),
        ResponseKind::Embed => match embed_canon_of(
            payload_s(content, attachment),
            "type"@,
            "rich"@,
        ) {
            Option::Some(d) => Some(ResponseModel::Embed(d)),
            Option::None => None,
        },
        ResponseKind::Templated => Some(
            ResponseModel::Templated(key, payload_s(content, attachment)),
        ),
    }
}

/// Build the response a satisfied session commits. Reaction lists are the
/// whitespace-split descriptors; text is the fence-stripped content; an
/// embed is the canonicalized document (a payload that fails to parse is a
/// `ParseError` and nothing is stored); a template stores the key copy and
/// the raw payload.
pub fn build_response(
    s: &AuthoringSession,
    content: &Vec<u8>,
    attachment: &Option<Vec<u8>>,
) -> (r: Result<Response, ParseError>)
    ensures
        match built_s(s@.kind, s@.key, content@, opt_bytes(*attachment)) {
            Option::Some(rm) => r matches Ok(resp) && resp@ == rm,
            Option::None => r is Err,
        },
{
    match s.kind {
        ResponseKind::React => {
            let toks = split_ws(content);
            Ok(Response::React(toks))
        },
        ResponseKind::SimpleMessage => {
            let f = fence_vec();
            let body = strip_reps(content, &f);
            Ok(Response::SimpleMessage(body))
        },
        ResponseKind::Embed => {
            let payload = match attachment {
                Option::Some(a) => subvec(a, 0, a.len()),
                Option::None => {
                    let f = fence_vec();
                    strip_reps(content, &f)
                },
            };
            proof {
                assert(payload@ =~= payload_s(content@, opt_bytes(*attachment)));
            }
            match embed_canonical(&payload, "type", "rich") {
                Option::Some(d) => Ok(Response::Embed(d)),
                Option::None => Err(ParseError),
            }
        },
        ResponseKind::Templated => {
            let payload = match attachment {
                Option::Some(a) => subvec(a, 0, a.len()),
                Option::None => {
                    let f = fence_vec();
                    strip_reps(content, &f)
                },
            };
            proof {
                assert(payload@ =~= payload_s(content@, opt_bytes(*attachment)));
            }
            let key = subvec(&s.key, 0, s.key.len());
            proof {
                assert(key@ =~= s@.key);
            }
            Ok(Response::Templated(key, payload))
        },
    }
}

/// Commit a satisfied session: build the response and store it under the
/// session's key. On success the store maps the key to the built response
/// and every other key is unchanged. A payload that fails to parse is
/// reported as `MalformedStorage`, if and only if, and the store is left
/// untouched; a storage failure leaves the key either unchanged or fully
/// written — never a partial trigger.
pub fn commit_followup(
    store: &mut TriggerStore,
    s: &AuthoringSession,
    content: &Vec<u8>,
    attachment: &Option<Vec<u8>>,
) -> (r: Result<(), TriggerError>)
    ensures
        r is Ok ==> match built_s(s@.kind, s@.key, content@, opt_bytes(*attachment)) {
            Option::Some(rm) => final(store)@ == old(store)@.insert(s@.key, encode_s(rm)),
            Option::None => false,
        },
        (r matches Err(e) && e == TriggerError::MalformedStorage) <==> built_s(
            s@.kind,
            s@.key,
            content@,
            opt_bytes(*attachment),
        ) is None,
        built_s(s@.kind, s@.key, content@, opt_bytes(*attachment)) is None ==> final(store)@
            == old(store)@,
        r is Err ==> final(store)@ == old(store)@ || match built_s(
            s@.kind,
            s@.key,
            content@,
            opt_bytes(*attachment),
        ) {
            Option::Some(rm) => final(store)@ == old(store)@.insert(s@.key, encode_s(rm)),
            Option::None => false,
        },
{
    let resp = match build_response(s, content, attachment) {
        Ok(resp) => resp,
        Err(_) => {
            return Err(TriggerError::MalformedStorage);
        },
    };
    store.put(&s.key, &resp)
}

// ---------------------------------------------------------------------------
// The waiter registry: the explicit structure the event loop checks every
// inbound event against. A satisfied or expired entry is removed at once;
// each session consumes at most one follow-up event.
// ---------------------------------------------------------------------------

pub struct WaiterRegistry {
    pub waiters: Vec<AuthoringSession>,
}

impl WaiterRegistry {
    pub fn new() -> (r: WaiterRegistry)
        ensures
            r.waiters.deep_view() == Seq::<SessionModel>::empty(),
    {
        let r = WaiterRegistry { waiters: Vec::new() };
        proof {
            assert(r.waiters.deep_view() =~= Seq::<SessionModel>::empty());
        }
        r
    }

    /// Add a session to wait for its follow-up.
    pub fn register(&mut self, s: AuthoringSession)
        ensures
            final(self).waiters.deep_view() == old(self).waiters.deep_view().push(s@),
    {
        let ghost pre = self.waiters.deep_view();
        let ghost sm = s@;
        self.waiters.push(s);
        proof {
            assert(self.waiters.deep_view() =~= pre.push(sm));
        }
    }

    /// Deliver an inbound event: every session whose predicate the event
    /// satisfies is removed and returned (in registration order); the rest
    /// stay, in order. First arrival wins: a removed session can never
    /// consume a second event.
    pub fn take_matching(
        &mut self,
        author_id: u64,
        scope_id: u64,
        content: &Vec<u8>,
        has_attachment: bool,
    ) -> (done: Vec<AuthoringSession>)
        ensures
            done.deep_view() == old(self).waiters.deep_view().filter(
                |w: SessionModel| accepts_s(w, author_id, scope_id, content@, has_attachment),
            ),
            final(self).waiters.deep_view() == old(self).waiters.deep_view().filter(
                |w: SessionModel| !accepts_s(w, author_id, scope_id, content@, has_attachment),
            ),
    {
        let ghost all = self.waiters.deep_view();
        let ghost yes = |w: SessionModel| accepts_s(w, author_id, scope_id, content@, has_attachment);
        let ghost no = |w: SessionModel| !accepts_s(w, author_id, scope_id, content@, has_attachment);
        let mut done: Vec<AuthoringSession> = Vec::new();
        let mut kept: Vec<AuthoringSession> = Vec::new();
        let mut i: usize = 0;
        proof {
            reveal_with_fuel(Seq::filter, 1);
            assert(all.subrange(0, 0) =~= Seq::<SessionModel>::empty());
            assert(done.deep_view() =~= all.subrange(0, 0).filter(yes));
            assert(kept.deep_view() =~= all.subrange(0, 0).filter(no));
        }
        while i < self.waiters.len()
            invariant
                0 <= i <= self.waiters@.len(),
                all == self.waiters.deep_view(),
                all.len() == self.waiters@.len(),
                done.deep_view() == all.subrange(0, i as int).filter(yes),
                kept.deep_view() == all.subrange(0, i as int).filter(no),
                yes == (|w: SessionModel| accepts_s(
                    w,
                    author_id,
                    scope_id,
                    content@,
                    has_attachment,
                )),
                no == (|w: SessionModel| !accepts_s(
                    w,
                    author_id,
                    scope_id,
                    content@,
                    has_attachment,
                )),
            decreases self.waiters@.len() - i,
        {
            let w = &self.waiters[i];
            let ghost pre_done = done.deep_view();
            let ghost pre_kept = kept.deep_view();
            let hit = accepts_followup(w, author_id, scope_id, content, has_attachment);
            if hit {
                done.push(w.duplicate());
            } else {
                kept.push(w.duplicate());
            }
            proof {
                assert(self.waiters[i as int]@ == all[i as int]);
                reveal_with_fuel(Seq::filter, 1);
                assert(all.subrange(0, i + 1).drop_last() =~= all.subrange(0, i as int));
                assert(all.subrange(0, i + 1).last() == all[i as int]);
                if hit {
                    assert(done.deep_view() =~= pre_done.push(all[i as int]));
                    assert(kept.deep_view() == pre_kept);
                } else {
                    assert(kept.deep_view() =~= pre_kept.push(all[i as int]));
                    assert(done.deep_view() == pre_done);
                }
                assert(done.deep_view() =~= all.subrange(0, i + 1).filter(yes));
                assert(kept.deep_view() =~= all.subrange(0, i + 1).filter(no));
            }
            i += 1;
        }
        proof {
            assert(all.subrange(0, all.len() as int) =~= all);
        }
        self.waiters = kept;
        done
    }

    /// Remove and return every session past its deadline at `now`. No store
    /// mutation happens here or anywhere on the timeout path: a timed-out
    /// session never persists a partial trigger.
    pub fn expire_due(&mut self, now: u64) -> (done: Vec<AuthoringSession>)
        ensures
            done.deep_view() == old(self).waiters.deep_view().filter(
                |w: SessionModel| expired_s(w, now),
            ),
            final(self).waiters.deep_view() == old(self).waiters.deep_view().filter(
                |w: SessionModel| !expired_s(w, now),
            ),
    {
        let ghost all = self.waiters.deep_view();
        let ghost yes = |w: SessionModel| expired_s(w, now);
        let ghost no = |w: SessionModel| !expired_s(w, now);
        let mut done: Vec<AuthoringSession> = Vec::new();
        let mut kept: Vec<AuthoringSession> = Vec::new();
        let mut i: usize = 0;
        proof {
            reveal_with_fuel(Seq::filter, 1);
            assert(all.subrange(0, 0) =~= Seq::<SessionModel>::empty());
            assert(done.deep_view() =~= all.subrange(0, 0).filter(yes));
            assert(kept.deep_view() =~= all.subrange(0, 0).filter(no));
        }
        while i < self.waiters.len()
            invariant
                0 <= i <= self.waiters@.len(),
                all == self.waiters.deep_view(),
                all.len() == self.waiters@.len(),
                done.deep_view() == all.subrange(0, i as int).filter(yes),
                kept.deep_view() == all.subrange(0, i as int).filter(no),
                yes == (|w: SessionModel| expired_s(w, now)),
                no == (|w: SessionModel| !expired_s(w, now)),
            decreases self.waiters@.len() - i,
        {
            let w = &self.waiters[i];
            let ghost pre_done = done.deep_view();
            let ghost pre_kept = kept.deep_view();
            let hit = expired(w, now);
            if hit {
                done.push(w.duplicate());
            } else {
                kept.push(w.duplicate());
            }
            proof {
                assert(self.waiters[i as int]@ == all[i as int]);
                reveal_with_fuel(Seq::filter, 1);
                assert(all.subrange(0, i + 1).drop_last() =~= all.subrange(0, i as int));
                assert(all.subrange(0, i + 1).last() == all[i as int]);
                if hit {
                    assert(done.deep_view() =~= pre_done.push(all[i as int]));
                    assert(kept.deep_view() == pre_kept);
                } else {
                    assert(kept.deep_view() =~= pre_kept.push(all[i as int]));
                    assert(done.deep_view() == pre_done);
                }
                assert(done.deep_view() =~= all.subrange(0, i + 1).filter(yes));
                assert(kept.deep_view() =~= all.subrange(0, i + 1).filter(no));
            }
            i += 1;
        }
        proof {
            assert(all.subrange(0, all.len() as int) =~= all);
        }
        self.waiters = kept;
        done
    }
}

} // verus!
