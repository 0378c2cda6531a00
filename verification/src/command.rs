use vstd::prelude::*;

verus! {

use crate::is_ws;
use crate::bytes::{trim_s, trim_bytes, bytes_eq, subvec};

// ---------------------------------------------------------------------------
// Parsing the privileged command line (the text after the command prefix)
// into a verb and the unsplit remainder key.
// ---------------------------------------------------------------------------

/// The verbs that require a key argument.
#[derive(PartialEq, Eq, Structural, Clone, Copy, Debug)]
pub enum CommandVerb {
    AddReact,
    AddMessage,
    AddEmbed,
    AddTemplate,
    RemoveTrigger,
}

/// A parsed privileged command. `Usage` is a recognized verb missing its
/// required key argument; `Unknown` verbs are silently ignored.
pub enum Command {
    AddReact(Vec<u8>),
    AddMessage(Vec<u8>),
    AddEmbed(Vec<u8>),
    AddTemplate(Vec<u8>),
    ListTriggers,
    RemoveTrigger(Vec<u8>),
    Help,
    Usage(CommandVerb),
    Unknown,
}

pub enum CommandModel {
    AddReact(Seq<u8>),
    AddMessage(Seq<u8>),
    AddEmbed(Seq<u8>),
    AddTemplate(Seq<u8>),
    ListTriggers,
    RemoveTrigger(Seq<u8>),
    Help,
    Usage(CommandVerb),
    Unknown,
}

impl View for Command {
    type V = CommandModel;

    open spec fn view(&self) -> CommandModel {
        match self {
            Command::AddReact(k) => CommandModel::AddReact(k@),
            Command::AddMessage(k) => CommandModel::AddMessage(k@),
            Command::AddEmbed(k) => CommandModel::AddEmbed(k@),
            Command::AddTemplate(k) => CommandModel::AddTemplate(k@),
            Command::ListTriggers => CommandModel::ListTriggers,
            Command::RemoveTrigger(k) => CommandModel::RemoveTrigger(k@),
            Command::Help => CommandModel::Help,
            Command::Usage(v) => CommandModel::Usage(*v),
            Command::Unknown => CommandModel::Unknown,
        }
    }
}

pub open spec fn verb_add_react() -> Seq<u8> {
    seq![97u8, 100u8, 100u8, 95u8, 114u8, 101u8, 97u8, 99u8, 116u8]
}

pub open spec fn verb_add_message() -> Seq<u8> {
    seq![97u8, 100u8, 100u8, 95u8, 109u8, 101u8, 115u8, 115u8, 97u8, 103u8, 101u8]
}

pub open spec fn verb_add_embed() -> Seq<u8> {
    seq![97u8, 100u8, 100u8, 95u8, 101u8, 109u8, 98u8, 101u8, 100u8]
}

pub open spec fn verb_add_template() -> Seq<u8> {
    seq![97u8, 100u8, 100u8, 95u8, 116u8, 101u8, 109u8, 112u8, 108u8, 97u8, 116u8, 101u8]
}

pub open spec fn verb_list_triggers() -> Seq<u8> {
    seq![108u8, 105u8, 115u8, 116u8, 95u8, 116u8, 114u8, 105u8, 103u8, 103u8, 101u8, 114u8, 115u8]
}

pub open spec fn verb_remove_trigger() -> Seq<u8> {
    seq![114u8, 101u8, 109u8, 111u8, 118u8, 101u8, 95u8, 116u8, 114u8, 105u8, 103u8, 103u8, 101u8, 114u8]
}

pub open spec fn verb_help() -> Seq<u8> {
    seq![104u8, 101u8, 108u8, 112u8]
}

/// The first whitespace position at or after `i`, or the length.
pub open spec fn first_ws(s: Seq<u8>, i: int) -> int
    decreases s.len() - i,
{
    if i < 0 || i >= s.len() {
        s.len() as int
    } else if is_ws(s[i]) {
        i
    } else {
        first_ws(s, i + 1)
    }
}

/// The first non-whitespace position at or after `i`, or the length.
pub open spec fn first_non_ws(s: Seq<u8>, i: int) -> int
    decreases s.len() - i,
{
    if i < 0 || i >= s.len() {
        s.len() as int
    } else if !is_ws(s[i]) {
        i
    } else {
        first_non_ws(s, i + 1)
    }
}

/// Split the trimmed command line on its first whitespace run: the verb,
/// then the entire unsplit remainder as the key text (spaces allowed in
/// keys). Trimming and splitting here use the ASCII whitespace class. A
/// recognized authoring or removal verb without a key is a usage error and
/// performs no state change; unknown verbs are ignored.
pub open spec fn parse_command_s(line: Seq<u8>) -> CommandModel {
    let t = trim_s(line);
    let ve = first_ws(t, 0);
    let rs = first_non_ws(t, ve);
    let verb = t.subrange(0, ve);
    let rest = t.subrange(rs, t.len() as int);
    if verb == verb_add_react() {
        if rest.len() > 0 {
            CommandModel::AddReact(rest)
        } else {
            CommandModel::Usage(CommandVerb::AddReact)
        }
    } else if verb == verb_add_message() {
        if rest.len() > 0 {
            CommandModel::AddMessage(rest)
        } else {
            CommandModel::Usage(CommandVerb::AddMessage)
        }
    } else if verb == verb_add_embed() {
        if rest.len() > 0 {
            CommandModel::AddEmbed(rest)
        } else {
            CommandModel::Usage(CommandVerb::AddEmbed)
        }
    } else if verb == verb_add_template() {
        if rest.len() > 0 {
            CommandModel::AddTemplate(rest)
        } else {
            CommandModel::Usage(CommandVerb::AddTemplate)
        }
    } else if verb == verb_list_triggers() {
        CommandModel::ListTriggers
    } else if verb == verb_remove_trigger() {
        if rest.len() > 0 {
            CommandModel::RemoveTrigger(rest)
        } else {
            CommandModel::Usage(CommandVerb::RemoveTrigger)
        }
    } else if verb == verb_help() {
        CommandModel::Help
    } else {
        CommandModel::Unknown
    }
}

/// Parse a privileged command line.
pub fn parse_command(line: &Vec<u8>) -> (c: Command)
    ensures
        c@ == parse_command_s(line@),
{
    let t = trim_bytes(line);
    let mut ve: usize = 0;
    while ve < t.len() && !(t[ve] == 32 || t[ve] == 9 || t[ve] == 10 || t[ve] == 13 || t[ve] == 11
        || t[ve] == 12)
        invariant
            0 <= ve <= t@.len(),
            first_ws(t@, 0) == first_ws(t@, ve as int),
        decreases t@.len() - ve,
    {
        ve += 1;
    }
    proof {
        assert(first_ws(t@, ve as int) == ve);
    }
    let mut rs: usize = ve;
    while rs < t.len() && (t[rs] == 32 || t[rs] == 9 || t[rs] == 10 || t[rs] == 13 || t[rs] == 11
        || t[rs] == 12)
        invariant
            ve <= rs <= t@.len(),
            first_non_ws(t@, ve as int) == first_non_ws(t@, rs as int),
        decreases t@.len() - rs,
    {
        rs += 1;
    }
    proof {
        assert(first_non_ws(t@, rs as int) == rs);
    }
    let verb = subvec(&t, 0, ve);
    let rest = subvec(&t, rs, t.len());
    let v_ar: Vec<u8> = vec![97u8, 100u8, 100u8, 95u8, 114u8, 101u8, 97u8, 99u8, 116u8];
    let v_am: Vec<u8> = vec![97u8, 100u8, 100u8, 95u8, 109u8, 101u8, 115u8, 115u8, 97u8, 103u8, 101u8];
    let v_ae: Vec<u8> = vec![97u8, 100u8, 100u8, 95u8, 101u8, 109u8, 98u8, 101u8, 100u8];
    let v_at: Vec<u8> = vec![97u8, 100u8, 100u8, 95u8, 116u8, 101u8, 109u8, 112u8, 108u8, 97u8, 116u8, 101u8];
    let v_lt: Vec<u8> = vec![108u8, 105u8, 115u8, 116u8, 95u8, 116u8, 114u8, 105u8, 103u8, 103u8, 101u8, 114u8, 115u8];
    let v_rt: Vec<u8> = vec![114u8, 101u8, 109u8, 111u8, 118u8, 101u8, 95u8, 116u8, 114u8, 105u8, 103u8, 103u8, 101u8, 114u8];
    let v_h: Vec<u8> = vec![104u8, 101u8, 108u8, 112u8];
    proof {
        assert(v_ar@ =~= verb_add_react());
        assert(v_am@ =~= verb_add_message());
        assert(v_ae@ =~= verb_add_embed());
        assert(v_at@ =~= verb_add_template());
        assert(v_lt@ =~= verb_list_triggers());
        assert(v_rt@ =~= verb_remove_trigger());
        assert(v_h@ =~= verb_help());
    }
    if bytes_eq(&verb, &v_ar) {
        if rest.len() > 0 {
            Command::AddReact(rest)
        } else {
            Command::Usage(CommandVerb::AddReact)
        }
    } else if bytes_eq(&verb, &v_am) {
        if rest.len() > 0 {
            Command::AddMessage(rest)
        } else {
            Command::Usage(CommandVerb::AddMessage)
        }
    } else if bytes_eq(&verb, &v_ae) {
        if rest.len() > 0 {
            Command::AddEmbed(rest)
        } else {
            Command::Usage(CommandVerb::AddEmbed)
        }
    } else if bytes_eq(&verb, &v_at) {
        if rest.len() > 0 {
            Command::AddTemplate(rest)
        } else {
            Command::Usage(CommandVerb::AddTemplate)
        }
    } else if bytes_eq(&verb, &v_lt) {
        Command::ListTriggers
    } else if bytes_eq(&verb, &v_rt) {
        if rest.len() > 0 {
            Command::RemoveTrigger(rest)
        } else {
            Command::Usage(CommandVerb::RemoveTrigger)
        }
    } else if bytes_eq(&verb, &v_h) {
        Command::Help
    } else {
        Command::Unknown
    }
}

} // verus!
