use bentham::buffer::MsgEvent;
use bentham::config::{ClaudeCfg, Config, DiscordCfg, McpCfg};
use bentham::consent::opt_in;
use bentham::persona::RespondTo;
use bentham::post::{ChannelInfo, ChannelKind};
use bentham::scope::Scope;
use bentham::state::{SessState, Shared, TurnCtx};
use bentham::tools::{
    add_reaction, bad_emoji, dispatch, get_behavior, get_consent, get_persona, history,
    ignore_channel, lenient_u64, list_channels, own_channel, own_server, parse_args, parse_id, persona_saved, poll_messages,
    reacted, react_with, read_messages, send_message, sent, set_behavior, set_persona, tool_named,
    wait_for_messages, wait_timed_out, AddReactionArgs, Error, HistoryMessage, ReadMessagesArgs,
    SendMessageArgs, SetBehaviorArgs, SetPersonaArgs, Tool, WaitForMessagesArgs,
};
use serde_json::Value;

fn shared() -> Shared {
    Shared::new(Config {
        data_dir: "data".into(),
        discord: DiscordCfg::default(),
        mcp: McpCfg::default(),
        claude: ClaudeCfg::with_binary("cli".into()),
    })
}

fn ctx() -> TurnCtx {
    TurnCtx { channel_id: "10".into(), scope: Scope::Guild(1), is_dm: false, maintenance: false }
}

fn dm() -> TurnCtx {
    TurnCtx { channel_id: "30".into(), scope: Scope::Dm(30), is_dm: true, maintenance: false }
}

fn parse(text: &str) -> Value {
    serde_json::from_str(text).unwrap()
}

fn ev(ch: &str, author: &str, content: &str) -> MsgEvent {
    MsgEvent {
        seq: 0,
        message_id: "m1".into(),
        channel_id: ch.into(),
        channel_name: Some("general".into()),
        guild_name: None,
        is_dm: false,
        author_id: author.into(),
        author_name: "ada".into(),
        author_is_bot: false,
        content: content.into(),
        timestamp: "2024-01-01T00:00:00Z".into(),
        mentions_me: true,
        reply_to_message_id: Some("m0".into()),
        scope: Scope::Guild(1),
    }
}

fn failed(e: Error) -> String {
    match e {
        Error::Failed(m) => m,
        Error::UnknownTool => panic!("unknown tool"),
    }
}

#[test]
fn calls_need_a_live_token() {
    let mut s = shared();
    let token = s.new_token(ctx(), &vec![1, 2]);
    assert_eq!(token, "0102");
    let missing = "missing 'token' — your session token is in your wake prompt";
    for args in ["{}", "null", "[]", "{\"token\": 5}", "\"0102\""] {
        assert_eq!(failed(dispatch(&s, "get_persona", &parse(args)).err().unwrap()), missing);
    }
    let wrong = parse("{\"token\": \"0103\"}");
    assert_eq!(
        failed(dispatch(&s, "get_persona", &wrong).err().unwrap()),
        "invalid or expired session token"
    );
    // A token is looked at before the tool's name is.
    assert_eq!(
        failed(dispatch(&s, "no_such_tool", &wrong).err().unwrap()),
        "invalid or expired session token"
    );
    let right = parse("{\"token\": \"0102\", \"channel_id\": \"11\"}");
    assert!(matches!(dispatch(&s, "no_such_tool", &right), Err(Error::UnknownTool)));
    let (tool, turn) = dispatch(&s, "send_message", &right).ok().unwrap();
    assert_eq!(tool, Tool::SendMessage);
    assert_eq!(turn.channel_id, "10");
    assert_eq!(turn.scope, Scope::Guild(1));
    s.drop_token(&token);
    assert!(dispatch(&s, "send_message", &right).is_err());
}

#[test]
fn every_tool_has_its_name() {
    let names = [
        ("wait_for_messages", Tool::WaitForMessages),
        ("read_messages", Tool::ReadMessages),
        ("send_message", Tool::SendMessage),
        ("add_reaction", Tool::AddReaction),
        ("list_channels", Tool::ListChannels),
        ("get_persona", Tool::GetPersona),
        ("set_persona", Tool::SetPersona),
        ("get_behavior", Tool::GetBehavior),
        ("set_behavior", Tool::SetBehavior),
        ("get_consent", Tool::GetConsent),
        ("ignore_channel", Tool::IgnoreChannel),
    ];
    for (name, tool) in names {
        assert_eq!(tool_named(name), Some(tool));
    }
    assert_eq!(tool_named("forget"), None);
    assert_eq!(tool_named(""), None);
}

#[test]
fn errors_are_made_of_texts() {
    assert_eq!(failed(Error::from("a")), "a");
    assert_eq!(failed(Error::from("b".to_string())), "b");
}

#[test]
fn bad_arguments_name_the_tool() {
    let bad: Result<u64, String> = parse_args("read_messages", Err("oops".into()));
    assert_eq!(bad, Err("bad read_messages arguments: oops".to_string()));
    assert_eq!(parse_args("read_messages", Ok::<u64, String>(3)), Ok(3));
}

#[test]
fn lenient_numbers() {
    assert_eq!(lenient_u64(&parse("240"), None), Some(240));
    assert_eq!(lenient_u64(&parse("240"), Some(1)), Some(240));
    assert_eq!(lenient_u64(&parse("18446744073709551615"), None), Some(u64::MAX));
    // No unsigned integer: what it is as a whole float decides.
    assert_eq!(lenient_u64(&parse("240.0"), Some(240)), Some(240));
    assert_eq!(lenient_u64(&parse("-5"), None), None);
    assert_eq!(lenient_u64(&parse("1e20"), Some(7)), Some(7));
    assert_eq!(lenient_u64(&parse("\"240\""), None), Some(240));
    assert_eq!(lenient_u64(&parse("\" 240 \""), Some(9)), Some(240));
    assert_eq!(lenient_u64(&parse("\"240.0\""), Some(9)), None);
    assert_eq!(lenient_u64(&parse("true"), Some(9)), None);
    assert_eq!(lenient_u64(&parse("null"), Some(9)), None);
    assert_eq!(lenient_u64(&parse("[1]"), Some(9)), None);
}

#[test]
fn ids_are_positive_numbers() {
    assert_eq!(parse_id("42"), Ok(42));
    assert_eq!(parse_id(" 42\n"), Ok(42));
    assert_eq!(parse_id("0"), Err("bad Discord id: \"0\"".to_string()));
    assert_eq!(parse_id("x\"y\n"), Err("bad Discord id: \"x\\\"y\\n\"".to_string()));
    assert_eq!(parse_id(""), Err("bad Discord id: \"\"".to_string()));
    assert_eq!(own_channel(&ctx()), Ok(10));
}

#[test]
fn waiting_is_bounded() {
    let mut s = shared();
    let secs = |s: &mut Shared, t| {
        wait_for_messages(s, &ctx(), Ok(WaitForMessagesArgs { timeout_seconds: t })).unwrap()
    };
    assert_eq!(secs(&mut s, None), 240);
    assert_eq!(secs(&mut s, Some(0)), 5);
    assert_eq!(secs(&mut s, Some(5)), 5);
    assert_eq!(secs(&mut s, Some(100)), 100);
    assert_eq!(secs(&mut s, Some(481)), 480);
    assert!(s.typing_waiting.contains(&"10".to_string()));
    let mut t = shared();
    assert_eq!(
        wait_for_messages(&mut t, &ctx(), Err("e".into())),
        Err("bad wait_for_messages arguments: e".to_string())
    );
    assert!(!t.typing_waiting.contains(&"10".to_string()));
}

#[test]
fn messages_are_handed_out_once() {
    let mut s = shared();
    assert!(poll_messages(&mut s, &ctx()).is_none());
    s.push_event(ev("10", "7", "hi"));
    s.push_event(ev("11", "7", "elsewhere"));
    let v = poll_messages(&mut s, &ctx()).unwrap();
    assert_eq!(
        v,
        parse(
            "{\"messages\": [{\"seq\": 1, \"message_id\": \"m1\", \"channel_id\": \"10\", \
             \"channel_name\": \"general\", \"guild_name\": null, \"is_dm\": false, \
             \"author_id\": \"7\", \"author_name\": \"ada\", \"author_is_bot\": false, \
             \"content\": \"hi\", \"timestamp\": \"2024-01-01T00:00:00Z\", \
             \"mentions_me\": true, \"reply_to_message_id\": \"m0\"}]}"
        )
    );
    assert!(poll_messages(&mut s, &ctx()).is_none());
    assert_eq!(
        wait_timed_out(),
        parse(
            "{\"messages\": [], \"note\": \"timed out with no new messages — a good moment \
             to end your turn\"}"
        )
    );
}

#[test]
fn history_requests_are_bounded() {
    let ask = |limit, before: Option<&str>| {
        read_messages(
            &ctx(),
            Ok(ReadMessagesArgs { limit, before_message_id: before.map(|b| b.to_string()) }),
        )
    };
    let r = ask(None, None).ok().unwrap();
    assert_eq!((r.channel, r.limit, r.before), (10, 20, None));
    let r = ask(Some(0), Some("77")).ok().unwrap();
    assert_eq!((r.channel, r.limit, r.before), (10, 1, Some(77)));
    let r = ask(Some(1000), None).ok().unwrap();
    assert_eq!(r.limit, 50);
    assert_eq!(ask(None, Some("x")).err().unwrap(), "bad Discord id: \"x\"");
    assert_eq!(
        read_messages(&ctx(), Err("e".into())).err().unwrap(),
        "bad read_messages arguments: e"
    );
    let mut nowhere = ctx();
    nowhere.channel_id = "".into();
    let args = ReadMessagesArgs { limit: None, before_message_id: None };
    assert_eq!(read_messages(&nowhere, Ok(args)).err().unwrap(), "bad Discord id: \"\"");
}

fn said(id: u64, author_id: u64, bot: bool) -> HistoryMessage {
    HistoryMessage {
        id,
        author_id,
        author_name: format!("u{author_id}"),
        author_is_bot: bot,
        content: format!("m{id}"),
        timestamp: "t".into(),
        reply_to: if id == 1 { Some(5) } else { None },
    }
}

fn ids(v: &Value) -> Vec<String> {
    let items = v["messages"].as_array().unwrap();
    items.iter().map(|m| m["message_id"].as_str().unwrap().to_string()).collect()
}

#[test]
fn history_shows_only_who_consented() {
    let mut s = shared();
    s.bot_id = Some(99);
    opt_in(&mut s, 1, "7", "ada");
    opt_in(&mut s, 2, "8", "bob");
    // Newest first, as Discord lists them.
    let fetched = || vec![said(4, 99, true), said(3, 6, true), said(2, 8, false), said(1, 7, false)];
    let v = history(&s, &ctx(), Ok(fetched())).unwrap();
    assert_eq!(ids(&v), vec!["1", "3", "4"]);
    assert_eq!(
        v["messages"][0],
        parse(
            "{\"message_id\": \"1\", \"author_name\": \"u7\", \"author_id\": \"7\", \
             \"author_is_bot\": false, \"is_me\": false, \"content\": \"m1\", \
             \"timestamp\": \"t\", \"reply_to_message_id\": \"5\"}"
        )
    );
    assert_eq!(v["messages"][2]["is_me"], Value::Bool(true));
    assert_eq!(v["messages"][2]["reply_to_message_id"], Value::Null);
    let v = history(&s, &dm(), Ok(fetched())).unwrap();
    assert_eq!(ids(&v), vec!["1", "2", "3", "4"]);
    assert_eq!(history(&s, &ctx(), Err("503".into())), Err("fetching messages: 503".to_string()));
}

fn say(content: &str, reply: Option<&str>) -> Result<SendMessageArgs, String> {
    Ok(SendMessageArgs {
        content: content.into(),
        reply_to_message_id: reply.map(|r| r.to_string()),
    })
}

#[test]
fn messages_go_out_in_chunks() {
    let o = send_message(&ctx(), say("hello", None)).ok().unwrap();
    assert_eq!(o.channel, 10);
    assert_eq!(o.payloads, vec![parse("{\"content\": \"hello\"}")]);
    let long = "x".repeat(2500);
    let o = send_message(&ctx(), say(&long, Some("55"))).ok().unwrap();
    assert_eq!(o.payloads.len(), 2);
    assert_eq!(
        o.payloads[0]["message_reference"],
        parse("{\"channel_id\": \"10\", \"message_id\": \"55\"}")
    );
    assert!(o.payloads[1].get("message_reference").is_none());
    let whole: String =
        o.payloads.iter().map(|p| p["content"].as_str().unwrap().to_string()).collect();
    assert_eq!(whole, long);
}

#[test]
fn messages_that_are_refused() {
    assert_eq!(send_message(&ctx(), say(" \n", None)).err().unwrap(), "missing or empty 'content'");
    assert_eq!(
        send_message(&ctx(), Err("e".into())).err().unwrap(),
        "bad send_message arguments: e"
    );
    let mut mute = ctx();
    mute.maintenance = true;
    let disabled = "this is a maintenance turn — messaging is disabled";
    assert_eq!(send_message(&mute, say("hello", None)).err().unwrap(), disabled);
    let react = AddReactionArgs { message_id: "5".into(), emoji: "🔥".into() };
    assert_eq!(add_reaction(&mute, Ok(react)).err().unwrap(), disabled);
}

#[test]
fn sent_messages_are_listed() {
    assert_eq!(sent(Ok(vec![5, 6])), Ok(parse("{\"sent_message_ids\": [\"5\", \"6\"]}")));
    assert_eq!(sent(Err("403".into())), Err("sending: 403".to_string()));
}

#[test]
fn reactions_take_emoji() {
    let react = |id: &str, emoji: &str| {
        add_reaction(&ctx(), Ok(AddReactionArgs { message_id: id.into(), emoji: emoji.into() }))
    };
    let r = react("5", "🔥").ok().unwrap();
    assert_eq!((r.channel, r.message, r.emoji.as_str()), (10, 5, "🔥"));
    assert!(react("5", "party:600404340292059257").is_ok());
    assert!(react("5", "<:party:600404340292059257>").is_ok());
    let reason = "failed to convert from a string to ReactionType";
    assert_eq!(react("5", "").err().unwrap(), format!("bad emoji \"\": {reason}"));
    assert_eq!(react("5", "<party").err().unwrap(), format!("bad emoji \"<party\": {reason}"));
    for taken in ["<a:party:5>", "<::5>", "<<:x:+7:y>>", "<x:y:1>", "a<", ">"] {
        assert!(react("5", taken).is_ok(), "{taken}");
    }
    for refused in ["<", "<>", "<:party:5", "<:party:0>", "<:party:>", "<:party>", "<party:5>", "<:p:-1>"] {
        assert!(react("5", refused).is_err(), "{refused}");
    }
    assert_eq!(react("0", "<party").err().unwrap(), "bad Discord id: \"0\"");
    assert_eq!(
        add_reaction(&ctx(), Err("e".into())).err().unwrap(),
        "bad add_reaction arguments: e"
    );
    assert_eq!(bad_emoji("'q'", "why"), "bad emoji 'q': why");
    let args = AddReactionArgs { message_id: "5".into(), emoji: "a".into() };
    assert_eq!(
        react_with(&ctx(), Ok(args), Some("no".into())).err().unwrap(),
        "bad emoji \"a\": no"
    );
    assert_eq!(reacted(Ok(())), Ok(parse("{\"ok\": true}")));
    assert_eq!(reacted(Err("403".into())), Err("reacting: 403".to_string()));
}

#[test]
fn channels_of_the_server_are_listed() {
    let chan = |id, name: &str, kind| ChannelInfo { id, name: name.into(), kind };
    let fetched = || {
        vec![
            chan(5, "general", ChannelKind::Text),
            chan(6, "voice", ChannelKind::Other),
            chan(4, "news", ChannelKind::News),
        ]
    };
    assert_eq!(
        list_channels(&ctx(), Ok(fetched())),
        Ok(parse(
            "{\"channels\": [{\"id\": \"5\", \"name\": \"general\"}, \
             {\"id\": \"4\", \"name\": \"news\"}]}"
        ))
    );
    assert_eq!(
        list_channels(&ctx(), Err("403".into())),
        Err("listing channels: 403".to_string())
    );
    let dm_only = Err("a DM has no other channels".to_string());
    assert_eq!(list_channels(&dm(), Ok(fetched())), dm_only);
    assert_eq!(own_server(&ctx()), Ok(1));
    assert_eq!(own_server(&dm()), Err("a DM has no other channels".to_string()));
}

#[test]
fn persona_is_shown_and_replaced() {
    assert_eq!(get_persona("me"), parse("{\"persona\": \"me\"}"));
    let set = |ctx: &TurnCtx, c: &str| set_persona(ctx, Ok(SetPersonaArgs { content: c.into() }));
    let edit = set(&ctx(), " new me\n").ok().unwrap();
    assert_eq!((edit.file.as_str(), edit.content.as_str()), ("1.md", " new me\n"));
    assert_eq!(set(&dm(), "x").ok().unwrap().file, "dm-30.md");
    assert_eq!(
        set(&ctx(), "  ").err().unwrap(),
        "missing or empty 'content' — set_persona replaces the whole file"
    );
    assert_eq!(
        set_persona(&ctx(), Err("e".into())).err().unwrap(),
        "bad set_persona arguments: e"
    );

    let mut s = shared();
    s.consent.add_channel(1, "10");
    s.sessions.insert(
        "10".into(),
        SessState { session_id: Some("a".into()), wakes: 1, failures: 0 },
    );
    assert_eq!(
        persona_saved(&mut s, &ctx(), Err("disk full".into())),
        Err("writing persona: disk full".to_string())
    );
    assert!(s.sessions.contains_key(&"10".to_string()));
    let v = persona_saved(&mut s, &ctx(), Ok(())).unwrap();
    assert_eq!(v["ok"], Value::Bool(true));
    assert!(v["note"].as_str().unwrap().starts_with(
        "persona saved. All sessions in this scope (including this one) reset: next wake starts"
    ));
    assert!(!s.sessions.contains_key(&"10".to_string()));
    assert_eq!(s.scrub_gen, 1);
}

#[test]
fn behavior_changes_at_once() {
    let mut s = shared();
    assert_eq!(
        get_behavior(&s, &ctx()),
        parse("{\"watched_channels\": [], \"respond_to\": \"all\", \"idle_wake_minutes\": 0}")
    );
    let args = SetBehaviorArgs {
        watched_channels: Some(vec!["10".into()]),
        respond_to: Some("mentions".into()),
        idle_wake_minutes: None,
    };
    let v = set_behavior(&mut s, &ctx(), Ok(args)).unwrap();
    assert_eq!(
        v,
        parse(
            "{\"ok\": true, \"behavior\": {\"watched_channels\": [\"10\"], \
             \"respond_to\": \"mentions\", \"idle_wake_minutes\": 0}, \
             \"note\": \"in effect immediately, this scope only\"}"
        )
    );
    assert_eq!(s.behavior_for(Scope::Guild(1)).respond_to, RespondTo::Mentions);
    assert_eq!(s.behavior_for(Scope::Guild(2)).respond_to, RespondTo::All);
    let args = SetBehaviorArgs {
        watched_channels: None,
        respond_to: None,
        idle_wake_minutes: Some(30),
    };
    set_behavior(&mut s, &ctx(), Ok(args)).unwrap();
    let b = s.behavior_for(Scope::Guild(1));
    assert_eq!(b.idle_wake_minutes, 30);
    assert_eq!(b.respond_to, RespondTo::Mentions);
    assert_eq!(b.watched_channels, vec!["10".to_string()]);
    let args = SetBehaviorArgs {
        watched_channels: Some(vec![]),
        respond_to: Some("nobody".into()),
        idle_wake_minutes: None,
    };
    assert_eq!(
        set_behavior(&mut s, &ctx(), Ok(args)),
        Err("respond_to must be \"mentions\" or \"all\"".to_string())
    );
    assert_eq!(s.behavior_for(Scope::Guild(1)).watched_channels.len(), 1);
    assert_eq!(
        set_behavior(&mut s, &ctx(), Err("e".into())),
        Err("bad set_behavior arguments: e".to_string())
    );
}

#[test]
fn consent_is_shown_per_server() {
    let mut s = shared();
    assert_eq!(
        get_consent(&s, &dm()),
        parse("{\"note\": \"DMs are consent by definition; no registry here\"}")
    );
    opt_in(&mut s, 1, "7", "ada");
    s.consent.add_channel(1, "10");
    bentham::post::record_post(&mut s, 1, 20, 200);
    assert_eq!(
        get_consent(&s, &ctx()),
        parse(
            "{\"active_channels\": [\"10\"], \"opted_users\": {\"7\": \"ada\"}, \
             \"consent_post\": {\"channel_id\": \"20\", \"message_id\": \"200\"}, \
             \"grandfathered\": []}"
        )
    );
    let mut elsewhere = ctx();
    elsewhere.scope = Scope::Guild(2);
    assert_eq!(get_consent(&s, &elsewhere)["consent_post"], Value::Null);
}

#[test]
fn ignored_channel_is_dormant() {
    let mut s = shared();
    s.consent.add_channel(1, "10");
    s.consent.add_channel(1, "11");
    s.sessions.insert(
        "10".into(),
        SessState { session_id: Some("a".into()), wakes: 1, failures: 0 },
    );
    s.push_event(ev("10", "7", "hi"));
    s.push_event(ev("11", "7", "hi"));
    let (v, dropped) = ignore_channel(&mut s, &ctx()).unwrap();
    assert_eq!(dropped, Some("a".to_string()));
    assert_eq!(v["ok"], Value::Bool(true));
    assert!(v["note"].as_str().unwrap().ends_with("end your turn now."));
    let g = s.consent.guild(1);
    assert!(!g.active_channels.contains(&"10".to_string()));
    assert!(g.active_channels.contains(&"11".to_string()));
    assert!(s.take_undelivered("10").is_empty());
    assert_eq!(s.take_undelivered("11").len(), 1);
    assert!(!s.sessions.contains_key(&"10".to_string()));
    assert_eq!(s.scrub_gen, 1);
    assert_eq!(
        ignore_channel(&mut s, &dm()).err().unwrap(),
        "DMs can't be ignored — the person can simply stop writing"
    );
}
