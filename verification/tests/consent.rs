use bentham::buffer::MsgEvent;
use bentham::config::{ClaudeCfg, Config, DiscordCfg, McpCfg};
use bentham::consent::{opt_in, opt_out};
use bentham::reconcile::{posts, reconcile, Reactors};
use bentham::scan::{scan_step, Reactor, Scan, ScanAction, ScanEvent};
use bentham::scope::Scope;
use bentham::state::{SessState, Shared, TurnCtx};

fn shared() -> Shared {
    Shared::new(Config {
        data_dir: "data".into(),
        discord: DiscordCfg::default(),
        mcp: McpCfg::default(),
        claude: ClaudeCfg::with_binary("cli".into()),
    })
}

fn ev(ch: &str, author: &str, scope: Scope) -> MsgEvent {
    MsgEvent {
        seq: 0,
        message_id: "m".into(),
        channel_id: ch.into(),
        channel_name: None,
        guild_name: None,
        is_dm: false,
        author_id: author.into(),
        author_name: author.into(),
        author_is_bot: false,
        content: "hi".into(),
        timestamp: "t".into(),
        mentions_me: false,
        reply_to_message_id: None,
        scope,
    }
}

fn session(id: &str) -> SessState {
    SessState { session_id: Some(id.into()), wakes: 2, failures: 0 }
}

fn user(id: u64, name: &str, is_bot: bool) -> Reactor {
    Reactor { id, name: name.into(), is_bot }
}

fn has_user(s: &Shared, gid: u64, user: &str) -> bool {
    s.consent.guild(gid).opted_users.contains_key(&user.to_string())
}

#[test]
fn opting_in_is_idempotent_and_per_server() {
    let mut s = shared();
    assert!(opt_in(&mut s, 1, "7", "ada"));
    assert!(!opt_in(&mut s, 1, "7", "ada"));
    assert!(has_user(&s, 1, "7"));
    assert!(!has_user(&s, 2, "7"));
    assert_eq!(s.consent.guild(1).opted_users.len(), 1);
}

#[test]
fn opting_out_forgets() {
    let mut s = shared();
    opt_in(&mut s, 1, "7", "ada");
    s.consent.add_channel(1, "10");
    s.consent.add_channel(2, "20");
    s.sessions.insert("10".into(), session("a"));
    s.sessions.insert("20".into(), session("b"));
    s.push_event(ev("10", "7", Scope::Guild(1)));
    s.push_event(ev("10", "8", Scope::Guild(1)));
    s.push_event(ev("20", "7", Scope::Guild(2)));
    let before = s.scrub_gen;

    assert_eq!(opt_out(&mut s, 1, "7"), Some("ada".to_string()));
    assert!(!has_user(&s, 1, "7"));
    assert!(!s.sessions.contains_key(&"10".to_string()));
    assert!(s.sessions.contains_key(&"20".to_string()));
    assert_ne!(s.scrub_gen, before);
    let left = s.take_undelivered("10");
    assert_eq!(left.len(), 1);
    assert_eq!(left[0].author_id, "8");
    assert_eq!(s.take_undelivered("20").len(), 1);
    assert_eq!(s.pending_scrubs.len(), 1);
    assert_eq!(s.pending_scrubs[0].scope, Scope::Guild(1));
    assert_eq!(s.pending_scrubs[0].user_id, "7");
    assert_eq!(s.pending_scrubs[0].user_name, "ada");
}

#[test]
fn opting_out_twice_queues_one_scrub() {
    let mut s = shared();
    opt_in(&mut s, 1, "7", "ada");
    assert!(opt_out(&mut s, 1, "7").is_some());
    let generation = s.scrub_gen;
    assert_eq!(opt_out(&mut s, 1, "7"), None);
    assert_eq!(s.scrub_gen, generation);
    opt_in(&mut s, 1, "7", "ada");
    assert!(opt_out(&mut s, 1, "7").is_some());
    assert_eq!(s.pending_scrubs.len(), 1);
    opt_in(&mut s, 1, "7", "lovelace");
    assert!(opt_out(&mut s, 1, "7").is_some());
    assert_eq!(s.pending_scrubs.len(), 2);
}

#[test]
fn scope_sessions_of_a_dm_are_its_own() {
    let mut s = shared();
    s.sessions.insert("30".into(), session("dm"));
    s.sessions.insert("31".into(), session("other"));
    s.drop_scope_sessions(Scope::Dm(30));
    assert!(!s.sessions.contains_key(&"30".to_string()));
    assert!(s.sessions.contains_key(&"31".to_string()));
    assert_eq!(s.scrub_gen, 1);
    assert_eq!(s.drop_channel("31"), Some("other".to_string()));
    assert_eq!(s.drop_channel("31"), None);
    assert_eq!(s.scrub_gen, 3);
}

#[test]
fn generation_wraps() {
    let mut s = shared();
    s.scrub_gen = u64::MAX;
    s.drop_scope_sessions(Scope::Guild(1));
    assert_eq!(s.scrub_gen, 0);
}

#[test]
fn tokens_live_for_their_turn() {
    let mut s = shared();
    let ctx = |ch: &str| TurnCtx {
        channel_id: ch.into(),
        scope: Scope::Guild(1),
        is_dm: false,
        maintenance: false,
    };
    let a = s.new_token(ctx("10"), &vec![0xab; 16]);
    let b = s.new_token(ctx("11"), &vec![0x0c; 16]);
    assert_eq!(a, "abababababababababababababababab");
    assert_eq!(b, "0c0c0c0c0c0c0c0c0c0c0c0c0c0c0c0c");
    assert_eq!(s.resolve_token(&a).unwrap().channel_id, "10");
    assert_eq!(s.resolve_token(&b).unwrap().channel_id, "11");
    s.drop_token(&a);
    assert!(s.resolve_token(&a).is_none());
    assert!(s.resolve_token(&b).is_some());
    assert!(s.resolve_token("").is_none());
}

#[test]
fn inferring_is_active_and_not_waiting() {
    let mut s = shared();
    s.typing_active.insert("1".into());
    s.typing_active.insert("2".into());
    s.wait_started("2");
    s.wait_started("3");
    assert_eq!(s.channels_inferring(), vec!["1".to_string()]);
    s.wait_ended("2");
    assert_eq!(s.channels_inferring().len(), 2);
}

#[test]
fn reconcile_follows_the_reactions() {
    let mut s = shared();
    s.bot_id = Some(99);
    opt_in(&mut s, 1, "7", "ada");
    opt_in(&mut s, 1, "8", "bob");
    opt_in(&mut s, 1, "9", "carl");
    opt_in(&mut s, 2, "8", "bob");
    let mut g = s.consent.guild(1);
    g.grandfathered.insert("9".into());
    s.consent.guilds.insert(1, g);

    let mut scan = Scan::new();
    scan_step(&s, &mut scan, ScanEvent::Post(Some(1)));
    let users = vec![
        user(7, "ada", false),
        user(11, "dora", false),
        user(12, "robot", true),
        user(99, "bentham", false),
    ];
    scan_step(&s, &mut scan, ScanEvent::Page(Some(users)));
    let reacted = scan.outcome().unwrap();
    assert_eq!(reacted.len(), 2);

    let out = reconcile(&mut s, 1, &Some(reacted));
    assert_eq!(out.joined, vec!["11".to_string()]);
    assert_eq!(out.left, vec!["8".to_string()]);
    assert!(has_user(&s, 1, "7") && has_user(&s, 1, "9") && has_user(&s, 1, "11"));
    assert!(!has_user(&s, 1, "8"));
    assert!(has_user(&s, 2, "8"));
    assert_eq!(s.pending_scrubs.len(), 1);
}

#[test]
fn unreadable_post_changes_nothing() {
    let mut s = shared();
    opt_in(&mut s, 1, "7", "ada");
    let out = reconcile(&mut s, 1, &None);
    assert!(out.joined.is_empty() && out.left.is_empty());
    assert!(has_user(&s, 1, "7"));
    // A post that could be read and that nobody reacted to is another matter.
    let out = reconcile(&mut s, 1, &Some(Reactors::new()));
    assert_eq!(out.left, vec!["7".to_string()]);
    assert!(!has_user(&s, 1, "7"));
}

#[test]
fn posts_lists_the_servers_that_have_one() {
    let mut s = shared();
    opt_in(&mut s, 1, "7", "ada");
    bentham::post::record_post(&mut s, 2, 20, 200);
    bentham::post::record_post(&mut s, 3, 30, 300);
    let mut found: Vec<(u64, String)> =
        posts(&s).into_iter().map(|(g, p)| (g, p.message_id)).collect();
    found.sort();
    assert_eq!(found, vec![(2, "200".to_string()), (3, "300".to_string())]);
}

#[test]
fn every_page_of_every_reaction_is_read() {
    let s = shared();
    let mut scan = Scan::new();
    let read = |reaction, after| ScanAction::Read { reaction, after };
    assert_eq!(scan_step(&s, &mut scan, ScanEvent::Post(Some(2))), read(0, None));
    let full: Vec<Reactor> = (1..=100).map(|id| user(id, "u", id == 50)).collect();
    assert_eq!(scan_step(&s, &mut scan, ScanEvent::Page(Some(full))), read(0, Some(100)));
    let short = vec![user(101, "v", false)];
    assert_eq!(scan_step(&s, &mut scan, ScanEvent::Page(Some(short))), read(1, None));
    let last = vec![user(1, "renamed", false)];
    assert_eq!(scan_step(&s, &mut scan, ScanEvent::Page(Some(last))), ScanAction::Done);
    let reacted = scan.outcome().unwrap();
    assert_eq!(reacted.len(), 100);
    assert!(!reacted.contains_key(&"50".to_string()));
    assert_eq!(reacted.get(&"1".to_string()), Some(&"renamed".to_string()));
    assert_eq!(reacted.get(&"101".to_string()), Some(&"v".to_string()));
}

#[test]
fn failed_fetch_leaves_nothing() {
    let s = shared();
    let mut scan = Scan::new();
    assert_eq!(scan_step(&s, &mut scan, ScanEvent::Post(None)), ScanAction::Done);
    assert!(scan.outcome().is_none());
    let mut scan = Scan::new();
    scan_step(&s, &mut scan, ScanEvent::Post(Some(2)));
    scan_step(&s, &mut scan, ScanEvent::Page(Some(vec![user(7, "ada", false)])));
    assert_eq!(scan_step(&s, &mut scan, ScanEvent::Page(None)), ScanAction::Done);
    assert!(scan.outcome().is_none());
    // Given up half way.
    let mut scan = Scan::new();
    scan_step(&s, &mut scan, ScanEvent::Post(Some(2)));
    scan_step(&s, &mut scan, ScanEvent::Page(Some(vec![])));
    assert!(scan.outcome().is_none());
    // A post that nobody reacted to was read all the same.
    let mut scan = Scan::new();
    assert_eq!(scan_step(&s, &mut scan, ScanEvent::Post(Some(0))), ScanAction::Done);
    assert_eq!(scan.outcome().unwrap().len(), 0);
}
