use sakamoto::authoring::{begin_authoring, commit_followup, WaiterRegistry};
use sakamoto::codec::{decode, encode};
use sakamoto::command::{parse_command, Command, CommandVerb};
use sakamoto::handler::{handle_message, MessageOutcome};
use sakamoto::render::{EmojiRef, RespondError, ResponseAction};
use sakamoto::response::{Response, ResponseKind};
use sakamoto::store::{list_triggers, TriggerStore};

fn fresh_store() -> TriggerStore {
    let db = sled::Config::new().temporary(true).open().unwrap();
    TriggerStore::new(db)
}

fn bytes(s: &str) -> Vec<u8> {
    s.as_bytes().to_vec()
}

const MOD_ROLE: u64 = 77;

fn handle(store: &TriggerStore, content: &str, privileged: bool) -> MessageOutcome {
    let roles: Vec<u64> = if privileged { vec![MOD_ROLE] } else { vec![5] };
    let allowed: Vec<u64> = vec![MOD_ROLE];
    handle_message(store, content, &roles, &allowed).unwrap()
}

#[test]
fn exact_match_fires_simple_message() {
    let mut store = fresh_store();
    store.put(&bytes("hello"), &Response::SimpleMessage(bytes("world"))).unwrap();
    match handle(&store, "hello", false) {
        MessageOutcome::Respond(ResponseAction::SendText(t)) => assert_eq!(t, bytes("world")),
        _ => panic!("expected the stored text"),
    }
}

#[test]
fn extended_key_yields_no_exact_match() {
    let mut store = fresh_store();
    store.put(&bytes("hello"), &Response::SimpleMessage(bytes("world"))).unwrap();
    // "hellox" is found only by floor lookup; a SimpleMessage does not fire
    // for a non-exact match.
    match handle(&store, "hellox", false) {
        MessageOutcome::Respond(ResponseAction::Nothing) => (),
        _ => panic!("expected no response"),
    }
}

#[test]
fn normalization_trims_and_lowercases() {
    let mut store = fresh_store();
    store.put(&bytes("hello"), &Response::SimpleMessage(bytes("world"))).unwrap();
    match handle(&store, "  HeLLo  ", false) {
        MessageOutcome::Respond(ResponseAction::SendText(t)) => assert_eq!(t, bytes("world")),
        _ => panic!("expected the stored text"),
    }
}

#[test]
fn floor_substring_match_renders_template() {
    let mut store = fresh_store();
    store
        .put(&bytes("lo"), &Response::Templated(bytes("lo"), bytes("hi {{arg_list[0]}}")))
        .unwrap();
    match handle(&store, "lo world", false) {
        MessageOutcome::Respond(ResponseAction::SendText(t)) => assert_eq!(t, bytes("hi world")),
        _ => panic!("expected a rendered template"),
    }
}

#[test]
fn template_args_is_raw_remainder() {
    let mut store = fresh_store();
    store.put(&bytes("lo"), &Response::Templated(bytes("lo"), bytes("hi{{args}}"))).unwrap();
    // The remainder after the key, whitespace included, is exposed as `args`.
    match handle(&store, "lo world", false) {
        MessageOutcome::Respond(ResponseAction::SendText(t)) => assert_eq!(t, bytes("hi world")),
        _ => panic!("expected a rendered template"),
    }
}

#[test]
fn template_render_failure_sends_nothing() {
    let mut store = fresh_store();
    store.put(&bytes("lo"), &Response::Templated(bytes("lo"), bytes("{{ broken"))).unwrap();
    match handle(&store, "lo x", false) {
        MessageOutcome::RespondFailed(RespondError::RenderFailed) => (),
        _ => panic!("expected a render failure"),
    }
}

#[test]
fn react_never_fires_on_substring_match() {
    let mut store = fresh_store();
    store.put(&bytes("ra"), &Response::React(vec![bytes("x")])).unwrap();
    match handle(&store, "ra!", false) {
        MessageOutcome::Respond(ResponseAction::Nothing) => (),
        _ => panic!("a reaction must not fire on a non-exact match"),
    }
}

#[test]
fn react_fires_on_exact_match_in_order() {
    let mut store = fresh_store();
    store
        .put(
            &bytes("ra"),
            &Response::React(vec![bytes(":custom:123"), bytes("a"), bytes(":custom:0")]),
        )
        .unwrap();
    match handle(&store, "ra", false) {
        MessageOutcome::Respond(ResponseAction::React(es)) => {
            assert_eq!(es.len(), 3);
            assert!(matches!(es[0], EmojiRef::Custom(123)));
            match &es[1] {
                EmojiRef::Unicode(g) => assert_eq!(*g, bytes("a")),
                _ => panic!("expected a literal glyph"),
            }
            // an id of zero is not a valid custom id: it stays a glyph
            match &es[2] {
                EmojiRef::Unicode(g) => assert_eq!(*g, bytes(":custom:0")),
                _ => panic!("expected a literal glyph"),
            }
        }
        _ => panic!("expected reactions"),
    }
}

#[test]
fn command_prefix_suppresses_floor_match() {
    let mut store = fresh_store();
    store.put(&bytes("sak"), &Response::SimpleMessage(bytes("hit"))).unwrap();
    // "sakamoto! sak" contains the stored key but carries the command
    // prefix, so the floor match is filtered out; the sender is not
    // privileged, so nothing happens.
    match handle(&store, "sakamoto! sak", false) {
        MessageOutcome::Ignore => (),
        _ => panic!("expected no match"),
    }
}

#[test]
fn unprivileged_sender_cannot_command() {
    let store = fresh_store();
    match handle(&store, "sakamoto!help", false) {
        MessageOutcome::Ignore => (),
        _ => panic!("expected the command to be ignored"),
    }
}

#[test]
fn privileged_command_is_dispatched() {
    let store = fresh_store();
    match handle(&store, "sakamoto!remove_trigger foo bar", true) {
        MessageOutcome::Dispatch(Command::RemoveTrigger(k)) => assert_eq!(k, bytes("foo bar")),
        _ => panic!("expected a remove command"),
    }
}

#[test]
fn parse_command_verbs_and_usage() {
    assert!(matches!(parse_command(&bytes("help")), Command::Help));
    assert!(matches!(parse_command(&bytes("list_triggers")), Command::ListTriggers));
    assert!(matches!(parse_command(&bytes("add_react")), Command::Usage(CommandVerb::AddReact)));
    assert!(matches!(
        parse_command(&bytes(" add_message  ")),
        Command::Usage(CommandVerb::AddMessage)
    ));
    assert!(matches!(parse_command(&bytes("frobnicate all")), Command::Unknown));
    assert!(matches!(parse_command(&bytes("")), Command::Unknown));
    match parse_command(&bytes("add_template  spaced  key ")) {
        Command::AddTemplate(k) => assert_eq!(k, bytes("spaced  key")),
        _ => panic!("expected add_template"),
    }
    match parse_command(&bytes("add_embed e")) {
        Command::AddEmbed(k) => assert_eq!(k, bytes("e")),
        _ => panic!("expected add_embed"),
    }
}

#[test]
fn authoring_round_trip_commits_fenced_message() {
    let mut store = fresh_store();
    let mut reg = WaiterRegistry::new();
    let cmd = parse_command(&bytes("add_message foo"));
    let session = begin_authoring(&cmd, 1, 2, 3, 1000).unwrap();
    assert!(matches!(session.kind, ResponseKind::SimpleMessage));
    reg.register(session);
    // an unrelated author's message satisfies nothing
    let none = reg.take_matching(9, 2, &bytes("```nope```"), false);
    assert_eq!(none.len(), 0);
    // an unfenced message from the right author satisfies nothing
    let none = reg.take_matching(1, 2, &bytes("bar"), false);
    assert_eq!(none.len(), 0);
    // the fenced follow-up from the same author and scope commits
    let done = reg.take_matching(1, 2, &bytes("```bar```"), false);
    assert_eq!(done.len(), 1);
    commit_followup(&mut store, &done[0], &bytes("```bar```"), &None).unwrap();
    match store.get(&bytes("foo")).unwrap() {
        Some(Response::SimpleMessage(c)) => assert_eq!(c, bytes("bar")),
        _ => panic!("expected the committed text"),
    }
    // the waiter was torn down: a second fenced message commits nothing
    let done = reg.take_matching(1, 2, &bytes("```baz```"), false);
    assert_eq!(done.len(), 0);
}

#[test]
fn authoring_timeout_commits_nothing() {
    let store = fresh_store();
    let mut reg = WaiterRegistry::new();
    let cmd = parse_command(&bytes("add_message foo"));
    let session = begin_authoring(&cmd, 1, 2, 3, 1000).unwrap();
    reg.register(session);
    // just before the deadline nothing expires
    let due = reg.expire_due(1599);
    assert_eq!(due.len(), 0);
    // at the deadline the session is removed with no side effect
    let due = reg.expire_due(1600);
    assert_eq!(due.len(), 1);
    assert!(store.get(&bytes("foo")).unwrap().is_none());
    let due = reg.expire_due(1600);
    assert_eq!(due.len(), 0);
}

#[test]
fn authoring_react_splits_descriptors() {
    let mut store = fresh_store();
    let cmd = parse_command(&bytes("add_react wave"));
    let session = begin_authoring(&cmd, 1, 2, 3, 0).unwrap();
    commit_followup(&mut store, &session, &bytes("  a  :custom:9  b "), &None).unwrap();
    match store.get(&bytes("wave")).unwrap() {
        Some(Response::React(ts)) => {
            assert_eq!(ts, vec![bytes("a"), bytes(":custom:9"), bytes("b")]);
        }
        _ => panic!("expected a reaction list"),
    }
}

#[test]
fn authoring_template_keeps_key_copy() {
    let mut store = fresh_store();
    let cmd = parse_command(&bytes("add_template lo"));
    let session = begin_authoring(&cmd, 1, 2, 3, 0).unwrap();
    commit_followup(&mut store, &session, &bytes("```hi {{args}}```"), &None).unwrap();
    match store.get(&bytes("lo")).unwrap() {
        Some(Response::Templated(base, tpl)) => {
            assert_eq!(base, bytes("lo"));
            assert_eq!(tpl, bytes("hi {{args}}"));
        }
        _ => panic!("expected a template"),
    }
}

#[test]
fn authoring_embed_forces_rich_type() {
    let mut store = fresh_store();
    let cmd = parse_command(&bytes("add_embed e"));
    let session = begin_authoring(&cmd, 1, 2, 3, 0).unwrap();
    commit_followup(&mut store, &session, &bytes("```{\"title\":\"t\",\"type\":\"x\"}```"), &None)
        .unwrap();
    match store.get(&bytes("e")).unwrap() {
        Some(Response::Embed(doc)) => {
            let v: serde_json::Value = serde_json::from_slice(&doc).unwrap();
            assert_eq!(v["type"], serde_json::Value::String("rich".to_string()));
            assert_eq!(v["title"], serde_json::Value::String("t".to_string()));
        }
        _ => panic!("expected an embed"),
    }
}

#[test]
fn authoring_embed_rejects_bad_payload() {
    let mut store = fresh_store();
    let cmd = parse_command(&bytes("add_embed e"));
    let session = begin_authoring(&cmd, 1, 2, 3, 0).unwrap();
    assert!(commit_followup(&mut store, &session, &bytes("```not json```"), &None).is_err());
    assert!(store.get(&bytes("e")).unwrap().is_none());
}

#[test]
fn authoring_embed_from_attachment() {
    let mut store = fresh_store();
    let cmd = parse_command(&bytes("add_embed e"));
    let session = begin_authoring(&cmd, 1, 2, 3, 0).unwrap();
    let fetched = Some(bytes("{\"description\":\"d\"}"));
    commit_followup(&mut store, &session, &bytes("anything"), &fetched).unwrap();
    match store.get(&bytes("e")).unwrap() {
        Some(Response::Embed(doc)) => {
            let v: serde_json::Value = serde_json::from_slice(&doc).unwrap();
            assert_eq!(v["type"], serde_json::Value::String("rich".to_string()));
        }
        _ => panic!("expected an embed"),
    }
}

#[test]
fn overwrite_replaces_response_entirely() {
    let mut store = fresh_store();
    let k = bytes("k");
    store.put(&k, &Response::SimpleMessage(bytes("old"))).unwrap();
    store.put(&k, &Response::React(vec![bytes("r")])).unwrap();
    match store.get(&k).unwrap() {
        Some(Response::React(ts)) => assert_eq!(ts, vec![bytes("r")]),
        _ => panic!("the overwrite must fully replace the old response"),
    }
}

#[test]
fn delete_reports_presence_and_removes() {
    let mut store = fresh_store();
    let k = bytes("k");
    assert_eq!(store.delete(&k).unwrap(), false);
    store.put(&k, &Response::SimpleMessage(bytes("v"))).unwrap();
    assert_eq!(store.delete(&k).unwrap(), true);
    assert!(store.get(&k).unwrap().is_none());
}

#[test]
fn delete_absent_leaves_store_unchanged() {
    let mut store = fresh_store();
    store.put(&bytes("a"), &Response::SimpleMessage(bytes("1"))).unwrap();
    assert_eq!(store.delete(&bytes("zzz")).unwrap(), false);
    let ls = list_triggers(&store).unwrap();
    assert_eq!(ls.len(), 1);
    assert_eq!(ls[0].key, bytes("a"));
}

#[test]
fn corrupt_entry_does_not_hide_valid_entries() {
    let mut store = fresh_store();
    store.put(&bytes("good"), &Response::SimpleMessage(bytes("v"))).unwrap();
    // write garbage straight into the storage layer
    store.put_raw(&bytes("bad"), &vec![0xFFu8, 1, 2]).unwrap();
    store.put(&bytes("zeta"), &Response::React(vec![bytes("r")])).unwrap();
    let ls = list_triggers(&store).unwrap();
    assert_eq!(ls.len(), 3);
    // ascending byte order
    assert_eq!(ls[0].key, bytes("bad"));
    assert!(ls[0].kind.is_none());
    assert_eq!(ls[1].key, bytes("good"));
    assert!(matches!(ls[1].kind, Some(ResponseKind::SimpleMessage)));
    assert_eq!(ls[2].key, bytes("zeta"));
    assert!(matches!(ls[2].kind, Some(ResponseKind::React)));
}

#[test]
fn codec_round_trips_every_kind() {
    let samples = vec![
        Response::React(vec![bytes("a"), bytes(":custom:1")]),
        Response::React(vec![]),
        Response::SimpleMessage(bytes("")),
        Response::SimpleMessage(bytes("text with\nnewlines")),
        Response::Embed(bytes("{\"a\":1}")),
        Response::Templated(bytes("base key"), bytes("{{args}}")),
        Response::Templated(bytes(""), bytes("")),
    ];
    for r in samples {
        let enc = encode(&r);
        let back = decode(&enc).expect("an encoded response must decode");
        match (&r, &back) {
            (Response::React(a), Response::React(b)) => assert_eq!(a, b),
            (Response::SimpleMessage(a), Response::SimpleMessage(b)) => assert_eq!(a, b),
            (Response::Embed(a), Response::Embed(b)) => assert_eq!(a, b),
            (Response::Templated(a1, a2), Response::Templated(b1, b2)) => {
                assert_eq!(a1, b1);
                assert_eq!(a2, b2);
            }
            _ => panic!("the decoded kind differs"),
        }
    }
}

#[test]
fn codec_rejects_corrupt_values() {
    assert!(decode(&vec![]).is_none());
    assert!(decode(&vec![0xFFu8, 0, 0]).is_none());
    // a Templated value whose length prefix overruns the value
    let mut v = vec![84u8];
    v.extend_from_slice(&[200, 0, 0, 0, 0, 0, 0, 0]);
    v.push(1);
    assert!(decode(&v).is_none());
    // a React item whose length prefix overruns the value
    let mut v = vec![82u8];
    v.extend_from_slice(&[9, 0, 0, 0, 0, 0, 0, 0]);
    v.push(1);
    assert!(decode(&v).is_none());
}

#[test]
fn empty_store_matches_nothing() {
    let store = fresh_store();
    match handle(&store, "anything", false) {
        MessageOutcome::Ignore => (),
        _ => panic!("expected no match"),
    }
}

#[test]
fn only_the_nearest_below_key_is_considered() {
    let mut store = fresh_store();
    store.put(&bytes("aa"), &Response::Templated(bytes("aa"), bytes("A"))).unwrap();
    store.put(&bytes("ab"), &Response::Templated(bytes("ab"), bytes("B"))).unwrap();
    // Both stored keys are substrings of the message, but floor lookup
    // tries only the greatest key below it: "aa".
    match handle(&store, "aa ab", false) {
        MessageOutcome::Respond(ResponseAction::SendText(t)) => assert_eq!(t, bytes("A")),
        _ => panic!("expected the floor key's template"),
    }
}

#[test]
fn floor_candidate_failing_substring_test_means_no_match() {
    let mut store = fresh_store();
    store.put(&bytes("az"), &Response::SimpleMessage(bytes("v"))).unwrap();
    // "b" is above "az" in byte order, so "az" is the floor candidate, but
    // it is not a substring of the message.
    match handle(&store, "b", false) {
        MessageOutcome::Ignore => (),
        _ => panic!("expected no match"),
    }
}

#[test]
fn embed_fires_only_on_exact_match() {
    let mut store = fresh_store();
    store.put(&bytes("pic"), &Response::Embed(bytes("{\"title\":\"t\"}"))).unwrap();
    match handle(&store, "pic", false) {
        MessageOutcome::Respond(ResponseAction::SendEmbed(d)) => {
            assert_eq!(d, bytes("{\"title\":\"t\"}"));
        }
        _ => panic!("expected the embed document"),
    }
    match handle(&store, "pics", false) {
        MessageOutcome::Respond(ResponseAction::Nothing) => (),
        _ => panic!("an embed must not fire on a non-exact match"),
    }
}

#[test]
fn corrupt_stored_value_is_reported_not_crashed() {
    let mut store = fresh_store();
    store.put_raw(&bytes("bad"), &bytes("Xnot a response")).unwrap();
    match handle(&store, "bad", false) {
        MessageOutcome::RespondFailed(RespondError::MalformedStorage) => (),
        _ => panic!("expected a malformed-storage report"),
    }
}

#[test]
fn floor_lookup_prefers_exact_key() {
    let mut store = fresh_store();
    store.put(&bytes("aa"), &Response::SimpleMessage(bytes("1"))).unwrap();
    store.put(&bytes("ab"), &Response::SimpleMessage(bytes("2"))).unwrap();
    let (k, _) = store.get_floor(&bytes("ab")).unwrap().unwrap();
    assert_eq!(k, bytes("ab"));
    let (k, _) = store.get_floor(&bytes("abc")).unwrap().unwrap();
    assert_eq!(k, bytes("ab"));
    assert!(store.get_floor(&bytes("a")).unwrap().is_none());
}

#[test]
fn template_message_is_full_original_content() {
    let mut store = fresh_store();
    store.put(&bytes("lo"), &Response::Templated(bytes("lo"), bytes("{{message}}"))).unwrap();
    // the template context exposes the original message text, untrimmed
    match handle(&store, "lo x ", false) {
        MessageOutcome::Respond(ResponseAction::SendText(t)) => assert_eq!(t, bytes("lo x ")),
        _ => panic!("expected the rendered message"),
    }
}

#[test]
fn embed_parse_failure_leaves_other_triggers_intact() {
    let mut store = fresh_store();
    store.put(&bytes("keep"), &Response::SimpleMessage(bytes("v"))).unwrap();
    let cmd = parse_command(&bytes("add_embed e"));
    let session = begin_authoring(&cmd, 1, 2, 3, 0).unwrap();
    assert!(commit_followup(&mut store, &session, &bytes("```{broken```"), &None).is_err());
    // nothing was stored and nothing else was touched
    assert!(store.get(&bytes("e")).unwrap().is_none());
    let ls = list_triggers(&store).unwrap();
    assert_eq!(ls.len(), 1);
    assert_eq!(ls[0].key, bytes("keep"));
}
