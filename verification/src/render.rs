use vstd::prelude::*;

verus! {

use crate::bytes::{starts_with_s, starts_with_bytes, parse_u64_s, parse_u64, split_ws_s, split_ws, subvec};
use crate::codec::{decode_s, decode};
use crate::response::{Response, ResponseModel};

// ---------------------------------------------------------------------------
// Turning a matched (key, stored value) pair and the inbound message into
// the action to perform. Nothing here sends anything; the caller performs
// the returned action.
// ---------------------------------------------------------------------------

/// One reaction to emit: a platform custom-emoji id, or a literal glyph.
pub enum EmojiRef {
    Custom(u64),
    Unicode(Vec<u8>),
}

pub enum EmojiRefModel {
    Custom(u64),
    Unicode(Seq<u8>),
}

impl View for EmojiRef {
    type V = EmojiRefModel;

    open spec fn view(&self) -> EmojiRefModel {
        match self {
            EmojiRef::Custom(id) => EmojiRefModel::Custom(*id),
            EmojiRef::Unicode(g) => EmojiRefModel::Unicode(g@),
        }
    }
}

impl DeepView for EmojiRef {
    type V = EmojiRefModel;

    open spec fn deep_view(&self) -> EmojiRefModel {
        self.view()
    }
}

/// The custom-emoji marker `:custom:`.
pub open spec fn custom_marker() -> Seq<u8> {
    seq![58u8, 99u8, 117u8, 115u8, 116u8, 111u8, 109u8, 58u8]
}

/// How one stored emoji descriptor resolves: a descriptor carrying the
/// custom marker and a well-formed nonzero decimal id is a custom emoji;
/// anything else is a literal unicode glyph.
pub open spec fn emoji_of(t: Seq<u8>) -> EmojiRefModel {
    if starts_with_s(t, custom_marker()) {
        match parse_u64_s(t.skip(8)) {
            Option::Some(id) => if id != 0 {
                EmojiRefModel::Custom(id)
            } else {
                EmojiRefModel::Unicode(t)
            },
            Option::None => EmojiRefModel::Unicode(t),
        }
    } else {
        EmojiRefModel::Unicode(t)
    }
}

pub open spec fn emojis_of(ts: Seq<Seq<u8>>) -> Seq<EmojiRefModel> {
    Seq::new(ts.len(), |i: int| emoji_of(ts[i]))
}

fn descriptor_to_emoji(t: &Vec<u8>) -> (e: EmojiRef)
    ensures
        e@ == emoji_of(t@),
{
    let marker: Vec<u8> = vec![58u8, 99u8, 117u8, 115u8, 116u8, 111u8, 109u8, 58u8];
    proof {
        assert(marker@ =~= custom_marker());
    }
    if starts_with_bytes(t, &marker) {
        let digits = subvec(t, 8, t.len());
        proof {
            assert(digits@ =~= t@.skip(8));
        }
        match parse_u64(&digits) {
            Option::Some(id) => {
                if id != 0 {
                    return EmojiRef::Custom(id);
                }
            },
            Option::None => {},
        }
    }
    let g = subvec(t, 0, t.len());
    proof {
        assert(g@ =~= t@);
    }
    EmojiRef::Unicode(g)
}

/// The action a fired trigger asks for.
pub enum ResponseAction {
    React(Vec<EmojiRef>),
    SendText(Vec<u8>),
    SendEmbed(Vec<u8>),
    Nothing,
}

pub enum ActionModel {
    React(Seq<EmojiRefModel>),
    SendText(Seq<u8>),
    SendEmbed(Seq<u8>),
    Nothing,
}

impl View for ResponseAction {
    type V = ActionModel;

    open spec fn view(&self) -> ActionModel {
        match self {
            ResponseAction::React(es) => ActionModel::React(es.deep_view()),
            ResponseAction::SendText(c) => ActionModel::SendText(c@),
            ResponseAction::SendEmbed(d) => ActionModel::SendEmbed(d@),
            ResponseAction::Nothing => ActionModel::Nothing,
        }
    }
}

#[derive(PartialEq, Eq, Structural, Clone, Copy, Debug)]
pub enum RespondError {
    /// The stored value does not deserialize.
    MalformedStorage,
    /// Template rendering failed; no message is sent.
    RenderFailed,
}

/// What `rendered_of` names: the output of rendering `template` with the
/// message, the raw remainder string and the argument tokens in context, or
/// `None` when the template does not render.
pub uninterp spec fn rendered_of(
    template: Seq<u8>,
    message: Seq<u8>,
    remainder: Seq<u8>,
    args: Seq<Seq<u8>>,
) -> Option<Seq<u8>>;

/// Relies on minijinja (Environment::add_template, Template::render): the
/// template rendered with variables `message`, `args` and `arg_list`; the
/// default environment is pure, so the result depends on the arguments
/// alone. `None` on a syntax or rendering error.
#[verifier::external_body]
fn render_template(
    template: &Vec<u8>,
    message: &Vec<u8>,
    remainder: &Vec<u8>,
    args: &Vec<Vec<u8>>,
) -> (r: Option<Vec<u8>>)
    ensures
        r is Some <==> rendered_of(template@, message@, remainder@, args.deep_view()) is Some,
        r matches Some(v) ==> rendered_of(template@, message@, remainder@, args.deep_view())
            == Some(v@),
{
    let ctx = std::collections::BTreeMap::from([
        ("message", serde_json::Value::String(String::from_utf8_lossy(message).into_owned())),
        ("args", serde_json::Value::String(String::from_utf8_lossy(remainder).into_owned())),
        ("arg_list", serde_json::Value::Array(args.iter().map(|a| serde_json::Value::String(String::from_utf8_lossy(a).into_owned())).collect())),
    ]);
    let env = minijinja::Environment::new();
    match env.render_str(&String::from_utf8_lossy(template), ctx) {
        Ok(out) => Some(out.into_bytes()),
        Err(_) => None,
    }
}

/// The per-kind firing rule. `React`, `SimpleMessage` and `Embed` fire only
/// on an exact (normalized) match; `Templated` fires when the raw trimmed
/// message starts with the stored key, and renders over the remainder, with
/// the full original message in the template context.
pub open spec fn respond_spec(
    message: Seq<u8>,
    raw: Seq<u8>,
    norm: Seq<u8>,
    key: Seq<u8>,
    stored: Seq<u8>,
) -> Result<ActionModel, RespondError> {
    match decode_s(stored) {
        Option::None => Err(RespondError::MalformedStorage),
        Option::Some(rm) => match rm {
            ResponseModel::React(ts) => if norm == key {
                Ok(ActionModel::React(emojis_of(ts)))
            } else {
                Ok(ActionModel::Nothing)
            },
            ResponseModel::SimpleMessage(c) => if norm == key {
                Ok(ActionModel::SendText(c))
            } else {
                Ok(ActionModel::Nothing)
            },
            ResponseModel::Embed(d) => if norm == key {
                Ok(ActionModel::SendEmbed(d))
            } else {
                Ok(ActionModel::Nothing)
            },
            ResponseModel::Templated(b, t) => if starts_with_s(raw, b) {
                let rem = raw.skip(b.len() as int);
                match rendered_of(t, message, rem, split_ws_s(rem)) {
                    Option::Some(out) => Ok(ActionModel::SendText(out)),
                    Option::None => Err(RespondError::RenderFailed),
                }
            } else {
                Ok(ActionModel::Nothing)
            },
        },
    }
}

pub open spec fn action_result_view(r: Result<ResponseAction, RespondError>) -> Result<
    ActionModel,
    RespondError,
> {
    match r {
        Result::Ok(a) => Ok(a@),
        Result::Err(e) => Err(e),
    }
}

/// Decide the action for a matched trigger. `message` is the full original
/// content, exposed unmodified to the template context; `raw` is the
/// trimmed, non-folded message the prefix rule is checked against;
/// `normalized` is the trimmed lowercased message used for lookup; `key` is
/// the matched key and `stored` its stored value.
pub fn respond(
    message: &Vec<u8>,
    raw: &Vec<u8>,
    normalized: &Vec<u8>,
    key: &Vec<u8>,
    stored: &Vec<u8>,
) -> (r: Result<ResponseAction, RespondError>)
    ensures
        action_result_view(r) == respond_spec(message@, raw@, normalized@, key@, stored@),
{
    let resp = match decode(stored) {
        Option::None => {
            return Err(RespondError::MalformedStorage);
        },
        Option::Some(resp) => resp,
    };
    let exact = crate::bytes::bytes_eq(normalized, key);
    match resp {
        Response::React(ts) => {
            if exact {
                let mut es: Vec<EmojiRef> = Vec::new();
                let mut i: usize = 0;
                proof {
                    assert(es.deep_view() =~= Seq::<EmojiRefModel>::empty());
                }
                while i < ts.len()
                    invariant
                        0 <= i <= ts@.len(),
                        ts@.len() == ts.deep_view().len(),
                        es.deep_view().len() == i,
                        forall|j: int|
                            0 <= j < i ==> (#[trigger] es.deep_view()[j]) == emoji_of(
                                ts.deep_view()[j],
                            ),
                    decreases ts@.len() - i,
                {
                    let ghost pre = es.deep_view();
                    let e = descriptor_to_emoji(&ts[i]);
                    es.push(e);
                    proof {
                        assert(es.deep_view() =~= pre.push(e@));
                        assert(ts[i as int]@ == ts.deep_view()[i as int]);
                    }
                    i += 1;
                }
                proof {
                    assert(es.deep_view() =~= emojis_of(ts.deep_view()));
                }
                Ok(ResponseAction::React(es))
            } else {
                Ok(ResponseAction::Nothing)
            }
        },
        Response::SimpleMessage(c) => {
            if exact {
                Ok(ResponseAction::SendText(c))
            } else {
                Ok(ResponseAction::Nothing)
            }
        },
        Response::Embed(d) => {
            if exact {
                Ok(ResponseAction::SendEmbed(d))
            } else {
                Ok(ResponseAction::Nothing)
            }
        },
        Response::Templated(b, t) => {
            if starts_with_bytes(raw, &b) {
                let rem = subvec(raw, b.len(), raw.len());
                proof {
                    assert(rem@ =~= raw@.skip(b@.len() as int));
                }
                let toks = split_ws(&rem);
                match render_template(&t, message, &rem, &toks) {
                    Option::Some(out) => Ok(ResponseAction::SendText(out)),
                    Option::None => Err(RespondError::RenderFailed),
                }
            } else {
                Ok(ResponseAction::Nothing)
            }
        },
    }
}

} // verus!
