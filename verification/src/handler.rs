use vstd::prelude::*;

verus! {

use crate::bytes::starts_with_s;
use crate::command::{Command, CommandModel, parse_command, parse_command_s};
use crate::matcher::{cmd_prefix, cmd_prefix_vec, match_spec, resolve};
use crate::norm::{bytes_of, lower_of, trim_of, content_bytes, normalize_content};
use crate::render::{ActionModel, RespondError, ResponseAction, respond, respond_spec};
use crate::store::{StoreError, TriggerStore};

// ---------------------------------------------------------------------------
// The decision for one inbound message: normalize, offer it to the matcher,
// and otherwise route a privileged prefixed message to the command parser.
// The caller performs the returned action or dispatches the command.
// ---------------------------------------------------------------------------

/// What one inbound message asks the caller to do.
pub enum MessageOutcome {
    /// A trigger fired: perform this action.
    Respond(ResponseAction),
    /// A trigger matched but could not be rendered or read.
    RespondFailed(RespondError),
    /// A privileged command to dispatch.
    Dispatch(Command),
    /// Nothing to do.
    Ignore,
}

pub enum OutcomeModel {
    Respond(ActionModel),
    RespondFailed(RespondError),
    Dispatch(CommandModel),
    Ignore,
}

impl View for MessageOutcome {
    type V = OutcomeModel;

    open spec fn view(&self) -> OutcomeModel {
        match self {
            MessageOutcome::Respond(a) => OutcomeModel::Respond(a@),
            MessageOutcome::RespondFailed(e) => OutcomeModel::RespondFailed(*e),
            MessageOutcome::Dispatch(c) => OutcomeModel::Dispatch(c@),
            MessageOutcome::Ignore => OutcomeModel::Ignore,
        }
    }
}

/// Does the sender hold any permitted role?
pub open spec fn has_any(roles: Seq<u64>, allowed: Seq<u64>) -> bool {
    exists|i: int, j: int|
        0 <= i < roles.len() && 0 <= j < allowed.len() && roles[i] == allowed[j]
}

pub fn has_permitted_role(roles: &Vec<u64>, allowed: &Vec<u64>) -> (b: bool)
    ensures
        b == has_any(roles@, allowed@),
{
    let mut i: usize = 0;
    while i < roles.len()
        invariant
            0 <= i <= roles@.len(),
            forall|t: int, j: int|
                0 <= t < i && 0 <= j < allowed@.len() ==> roles@[t] != allowed@[j],
        decreases roles@.len() - i,
    {
        let mut j: usize = 0;
        while j < allowed.len()
            invariant
                0 <= i < roles@.len(),
                0 <= j <= allowed@.len(),
                forall|t: int| 0 <= t < j ==> roles@[i as int] != allowed@[t],
            decreases allowed@.len() - j,
        {
            if roles[i] == allowed[j] {
                return true;
            }
            j += 1;
        }
        i += 1;
    }
    false
}

/// The decision for one inbound message, over the store contents, the raw
/// and normalized message bytes, and the sender's privilege.
pub open spec fn handle_spec(
    m: Map<Seq<u8>, Seq<u8>>,
    raw_full: Seq<u8>,
    raw: Seq<u8>,
    norm: Seq<u8>,
    privileged: bool,
) -> OutcomeModel {
    match match_spec(m, norm) {
        Option::Some(kv) => match respond_spec(raw_full, raw, norm, kv.0, kv.1) {
            Result::Ok(a) => OutcomeModel::Respond(a),
            Result::Err(e) => OutcomeModel::RespondFailed(e),
        },
        Option::None => if privileged && starts_with_s(raw_full, cmd_prefix()) {
            OutcomeModel::Dispatch(parse_command_s(raw_full.skip(cmd_prefix().len() as int)))
        } else {
            OutcomeModel::Ignore
        },
    }
}

/// Handle one inbound message: normalize it (trim, then lowercase, for
/// lookup), offer it to the matcher, and if nothing matched and the sender
/// is privileged and the raw content carries the command prefix, parse the
/// command after the prefix.
pub fn handle_message(
    store: &TriggerStore,
    content: &str,
    sender_roles: &Vec<u64>,
    allowed_roles: &Vec<u64>,
) -> (r: Result<MessageOutcome, StoreError>)
    ensures
        r matches Ok(o) ==> o@ == handle_spec(
            store@,
            bytes_of(content@),
            bytes_of(trim_of(content@)),
            bytes_of(lower_of(trim_of(content@))),
            has_any(sender_roles@, allowed_roles@),
        ),
{
    let raw_full = content_bytes(content);
    let (raw, norm) = normalize_content(content);
    let privileged = has_permitted_role(sender_roles, allowed_roles);
    match resolve(store, &norm) {
        Err(e) => Err(e),
        Ok(Some((k, v))) => match respond(&raw_full, &raw, &norm, &k, &v) {
            Ok(a) => Ok(MessageOutcome::Respond(a)),
            Err(e) => Ok(MessageOutcome::RespondFailed(e)),
        },
        Ok(None) => {
            let prefix = cmd_prefix_vec();
            if privileged && crate::bytes::starts_with_bytes(&raw_full, &prefix) {
                let rest = crate::bytes::subvec(&raw_full, prefix.len(), raw_full.len());
                proof {
                    assert(rest@ =~= bytes_of(content@).skip(cmd_prefix().len() as int));
                }
                Ok(MessageOutcome::Dispatch(parse_command(&rest)))
            } else {
                Ok(MessageOutcome::Ignore)
            }
        },
    }
}

} // verus!
