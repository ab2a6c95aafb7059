use bentham::buffer::{MsgEvent, WakeTarget};
use bentham::config::{ClaudeCfg, Config, DiscordCfg, McpCfg};
use bentham::consent::{opt_in, opt_out};
use bentham::persona::{Behavior, RespondTo};
use bentham::prompts;
use bentham::scope::Scope;
use bentham::state::{SessState, Shared};
use bentham::supervisor::{
    backoff, begin_turn, command_args, compose_scrub, compose_turn, debounce, finish_scrub,
    finish_turn, mcp_config, mcp_config_text, read_report, report, settle_turn, turn_body,
    turn_timeout, Begun, Dispatcher, TurnReport, WakeKind,
};
use serde_json::Value;

fn parse(text: &str) -> Value {
    serde_json::from_str(text).unwrap()
}

fn shared() -> Shared {
    Shared::new(Config {
        data_dir: "data".into(),
        discord: DiscordCfg::default(),
        mcp: McpCfg::default(),
        claude: ClaudeCfg::with_binary("cli".into()),
    })
}

fn ev(ch: &str) -> MsgEvent {
    MsgEvent {
        seq: 0,
        message_id: "m".into(),
        channel_id: ch.into(),
        channel_name: Some(format!("c{ch}")),
        guild_name: None,
        is_dm: false,
        author_id: "7".into(),
        author_name: "ada".into(),
        author_is_bot: false,
        content: "hi".into(),
        timestamp: "t".into(),
        mentions_me: false,
        reply_to_message_id: None,
        scope: Scope::Guild(1),
    }
}

fn target(ch: &str, is_dm: bool) -> WakeTarget {
    WakeTarget {
        channel_id: ch.into(),
        name: "#general".into(),
        is_dm,
        scope: if is_dm { Scope::Dm(30) } else { Scope::Guild(1) },
    }
}

fn channels(v: &[WakeTarget]) -> Vec<String> {
    v.iter().map(|t| t.channel_id.clone()).collect()
}

#[test]
fn one_turn_per_channel_at_a_time() {
    let mut s = shared();
    let mut d = Dispatcher::new();
    assert!(d.wake(&s).is_empty());
    s.push_event(ev("10"));
    s.push_event(ev("11"));
    assert_eq!(channels(&d.wake(&s)), vec!["10", "11"]);
    assert_eq!(d.last_active.as_ref().unwrap().channel_id, "11");
    assert!(d.wake(&s).is_empty());
    s.push_event(ev("12"));
    assert_eq!(channels(&d.wake(&s)), vec!["12"]);
    d.turn_ended("11");
    assert_eq!(channels(&d.wake(&s)), vec!["11"]);
    s.take_undelivered("10");
    d.turn_ended("10");
    assert!(d.wake(&s).is_empty());
}

#[test]
fn idle_timer_wakes_the_last_channel() {
    let mut s = shared();
    let mut d = Dispatcher::new();
    assert_eq!(d.idle_deadline_from(&s), 365 * 24 * 3600);
    assert!(d.idle_fired(&s).is_none());
    s.push_event(ev("10"));
    d.wake(&s);
    d.turn_ended("10");
    assert!(d.idle_fired(&s).is_none());
    s.behaviors.insert(
        Scope::Guild(1),
        Behavior { watched_channels: vec![], respond_to: RespondTo::All, idle_wake_minutes: 30 },
    );
    assert_eq!(d.idle_deadline_from(&s), 1800);
    assert_eq!(d.idle_fired(&s).unwrap().channel_id, "10");
    // It has a turn running now.
    assert!(d.idle_fired(&s).is_none());
    d.turn_ended("10");
    assert!(d.idle_fired(&s).is_some());
}

#[test]
fn scrubs_run_one_at_a_time() {
    let mut s = shared();
    let mut d = Dispatcher::new();
    assert!(d.next_scrub(&mut s).is_none());
    opt_in(&mut s, 1, "7", "ada");
    opt_in(&mut s, 1, "8", "bob");
    opt_out(&mut s, 1, "7");
    opt_out(&mut s, 1, "8");
    let job = d.next_scrub(&mut s).unwrap();
    assert_eq!(job.user_id, "7");
    assert!(d.next_scrub(&mut s).is_none());
    d.scrub_ended(&mut s, job, false);
    let job = d.next_scrub(&mut s).unwrap();
    assert_eq!(job.user_id, "8");
    d.scrub_ended(&mut s, job, true);
    assert_eq!(d.next_scrub(&mut s).unwrap().user_id, "7");
    assert!(s.pending_scrubs.is_empty());
}

#[test]
fn turn_starts_from_the_channels_session() {
    let mut s = shared();
    s.scrub_gen = 4;
    let b = begin_turn(&s, "10");
    assert!(b.first_time && b.fresh && b.session_id.is_none());
    assert_eq!(b.gen_at_start, 4);
    let mut with = |wakes, id: Option<&str>| {
        s.sessions.insert(
            "10".into(),
            SessState { session_id: id.map(|i| i.to_string()), wakes, failures: 0 },
        );
        begin_turn(&s, "10")
    };
    let b = with(49, Some("a"));
    assert!(!b.first_time && !b.fresh);
    assert_eq!(b.session_id, Some("a".to_string()));
    assert!(with(50, Some("a")).fresh);
    let b = with(0, None);
    assert!(!b.first_time && b.fresh);
}

fn begun(first_time: bool, fresh: bool) -> Begun {
    Begun { gen_at_start: 0, session_id: Some("a".into()), first_time, fresh }
}

#[test]
fn wake_prompt_fits_the_occasion() {
    let place = "#general (channel_id 10)";
    let t = target("10", false);
    assert_eq!(turn_body(&t, &begun(true, true), WakeKind::Activity), prompts::first_summon(place));
    assert_eq!(turn_body(&t, &begun(false, true), WakeKind::Idle), prompts::fresh(place));
    assert_eq!(turn_body(&t, &begun(false, false), WakeKind::Idle), prompts::idle(place));
    assert_eq!(turn_body(&t, &begun(false, false), WakeKind::Activity), prompts::activity(place));
    let dm = target("10", true);
    assert_eq!(turn_body(&dm, &begun(true, true), WakeKind::Activity), prompts::fresh(place));
}

#[test]
fn command_line_is_spelled_out() {
    let mut cfg = ClaudeCfg::with_binary("cli".into());
    cfg.disallowed_tools = vec!["Bash".into(), "Edit".into()];
    cfg.extra_args = vec!["--verbose".into()];
    let args = command_args(&cfg, "P", "mcp.json", "S", &Some("id".into()));
    assert_eq!(
        args,
        vec![
            "-p",
            "P",
            "--output-format",
            "json",
            "--model",
            "sonnet",
            "--mcp-config",
            "mcp.json",
            "--strict-mcp-config",
            "--allowed-tools",
            "mcp__discord",
            "--append-system-prompt",
            "S",
            "--disallowed-tools",
            "Bash",
            "Edit",
            "--resume",
            "id",
            "--verbose",
        ]
    );
    cfg.disallowed_tools = vec![];
    cfg.extra_args = vec![];
    let args = command_args(&cfg, "P", "mcp.json", "S", &None);
    assert_eq!(args.len(), 13);
    assert_eq!(args[12], "S");
}

#[test]
fn composed_turn_is_bound_to_its_channel() {
    let mut s = shared();
    let b = begun(false, false);
    let t = compose_turn(
        &mut s,
        &target("10", false),
        WakeKind::Activity,
        &b,
        "me",
        "mcp.json",
        &vec![0x0a, 0xff],
    );
    assert_eq!(t.token, "0aff");
    let ctx = s.resolve_token("0aff").unwrap();
    assert_eq!(ctx.channel_id, "10");
    assert_eq!(ctx.scope, Scope::Guild(1));
    assert!(!ctx.is_dm && !ctx.maintenance);
    assert_eq!(s.channels_inferring(), vec!["10".to_string()]);
    assert!(t.args[1].ends_with(": 0aff"));
    assert_eq!(t.args[12], prompts::system("me"));
    assert!(t.args.contains(&"--resume".to_string()));
    let fresh = compose_turn(
        &mut s,
        &target("10", false),
        WakeKind::Activity,
        &begun(false, true),
        "me",
        "mcp.json",
        &vec![1],
    );
    assert!(!fresh.args.contains(&"--resume".to_string()));
}

#[test]
fn scrub_turn_may_not_speak() {
    let mut s = shared();
    opt_in(&mut s, 1, "7", "ada");
    opt_out(&mut s, 1, "7");
    let mut d = Dispatcher::new();
    let job = d.next_scrub(&mut s).unwrap();
    let t = compose_scrub(&mut s, &job, "me", "mcp.json", &vec![9]);
    let ctx = s.resolve_token("09").unwrap();
    assert!(ctx.maintenance);
    assert_eq!(ctx.scope, Scope::Guild(1));
    assert_eq!(ctx.channel_id, "");
    assert_eq!(t.args[1], prompts::with_token(&prompts::scrub("ada", "7"), "09"));
    assert!(finish_scrub(&mut s, "09", &Some("{\"is_error\": false}".into())));
    assert!(s.resolve_token("09").is_none());
    assert!(!finish_scrub(&mut s, "09", &Some("{\"is_error\": true}".into())));
    assert!(!finish_scrub(&mut s, "09", &Some("garbage".into())));
    assert!(!finish_scrub(&mut s, "09", &None));
}

#[test]
fn tools_are_found_on_localhost() {
    assert_eq!(
        mcp_config(43117),
        parse(
            "{\"mcpServers\": {\"discord\": {\"type\": \"http\", \
             \"url\": \"http://127.0.0.1:43117/mcp\"}}}"
        )
    );
    assert_eq!(parse(&mcp_config_text(80)), mcp_config(80));
    assert_eq!(
        mcp_config_text(80),
        "{\"mcpServers\":{\"discord\":{\"type\":\"http\",\"url\":\"http://127.0.0.1:80/mcp\"}}}"
    );
}

#[test]
fn reports_are_read_leniently() {
    let r = report(&parse("{\"is_error\": true, \"session_id\": \"x\"}"));
    assert!(r.is_error);
    assert_eq!(r.session_id, Some("x".to_string()));
    let r = report(&parse("{\"is_error\": \"yes\", \"session_id\": 5}"));
    assert!(!r.is_error);
    assert_eq!(r.session_id, None);
    let r = read_report("\n {\"session_id\": \"y\"} \n").unwrap();
    assert_eq!(r.session_id, Some("y".to_string()));
    assert!(read_report("").is_none());
    assert!(read_report("{} {}").is_none());
}

#[test]
fn good_turn_is_recorded() {
    let mut s = shared();
    let b = begin_turn(&s, "10");
    s.typing_active.insert("10".into());
    let f = finish_turn(&mut s, "10", &b, "t", &Some("{\"session_id\": \"a\"}".into()));
    assert!(f.ok && f.save);
    assert_eq!(f.rest, 0);
    let st = s.sessions.get(&"10".to_string()).unwrap();
    assert_eq!((st.session_id.as_deref(), st.wakes, st.failures), (Some("a"), 1, 0));
    assert!(s.channels_inferring().is_empty());
    let b = begin_turn(&s, "10");
    assert!(!b.fresh);
    finish_turn(&mut s, "10", &b, "t", &Some("{\"session_id\": \"b\"}".into()));
    let st = s.sessions.get(&"10".to_string()).unwrap();
    assert_eq!((st.session_id.as_deref(), st.wakes), (Some("b"), 2));
}

#[test]
fn session_rotates_after_enough_wakes() {
    let mut s = shared();
    s.cfg.claude.session_max_wakes = 2;
    let mut fresh = Vec::new();
    for _ in 0..5 {
        let b = begin_turn(&s, "10");
        fresh.push(b.fresh);
        finish_turn(&mut s, "10", &b, "t", &Some("{\"session_id\": \"a\"}".into()));
    }
    assert_eq!(fresh, vec![true, false, true, false, true]);
}

#[test]
fn three_failures_drop_a_session() {
    let mut s = shared();
    s.sessions.insert(
        "10".into(),
        SessState { session_id: Some("a".into()), wakes: 5, failures: 0 },
    );
    let mut rests = Vec::new();
    for i in 0..3 {
        let b = begin_turn(&s, "10");
        assert!(!b.fresh, "{i}");
        let f = finish_turn(&mut s, "10", &b, "t", &None);
        assert!(!f.ok && f.save);
        rests.push(f.rest);
    }
    assert_eq!(rests, vec![4, 8, 16]);
    let st = s.sessions.get(&"10".to_string()).unwrap();
    assert_eq!((st.session_id.clone(), st.wakes, st.failures), (None, 0, 0));
    assert!(begin_turn(&s, "10").fresh);
}

#[test]
fn a_good_turn_ends_a_row_of_failures() {
    let mut s = shared();
    for ok in [false, false, true, false, false] {
        let b = begin_turn(&s, "10");
        let r = TurnReport { is_error: !ok, session_id: Some("a".into()) };
        settle_turn(&mut s, "10", &b, "t", &Some(r));
    }
    let st = s.sessions.get(&"10".to_string()).unwrap();
    assert_eq!(st.session_id, Some("a".to_string()));
    assert_eq!(st.failures, 2);
}

#[test]
fn dropped_session_does_not_come_back() {
    let mut s = shared();
    s.consent.add_channel(1, "10");
    s.sessions.insert(
        "10".into(),
        SessState { session_id: Some("a".into()), wakes: 5, failures: 0 },
    );
    let b = begin_turn(&s, "10");
    s.drop_scope_sessions(Scope::Guild(1));
    let f = finish_turn(&mut s, "10", &b, "t", &Some("{\"session_id\": \"a\"}".into()));
    assert!(f.ok && !f.save);
    assert!(s.sessions.get(&"10".to_string()).unwrap().session_id.is_none());
    assert!(begin_turn(&s, "10").fresh);
}

#[test]
fn turn_ends_its_token_and_no_other() {
    let mut s = shared();
    let b = begin_turn(&s, "10");
    let t = compose_turn(
        &mut s,
        &target("10", false),
        WakeKind::Activity,
        &b,
        "me",
        "m",
        &vec![1],
    );
    let other = compose_turn(
        &mut s,
        &target("11", false),
        WakeKind::Activity,
        &b,
        "me",
        "m",
        &vec![2],
    );
    finish_turn(&mut s, "10", &b, &t.token, &None);
    assert!(s.resolve_token(&t.token).is_none());
    assert!(s.resolve_token(&other.token).is_some());
    assert!(!s.sessions.contains_key(&"11".to_string()));
}

#[test]
fn rests_and_limits() {
    let rests: Vec<u64> = [0, 1, 2, 3, 4, 5, 6, 1000].iter().map(|f| backoff(*f)).collect();
    assert_eq!(rests, vec![2, 4, 8, 16, 32, 60, 60, 60]);
    let cfg = ClaudeCfg::with_binary("cli".into());
    assert_eq!(debounce(&cfg, WakeKind::Activity), 3);
    assert_eq!(debounce(&cfg, WakeKind::Idle), 0);
    assert_eq!(turn_timeout(&cfg), 1800);
}
