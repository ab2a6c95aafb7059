use bentham::config::{ClaudeCfg, Config, DiscordCfg, McpCfg};
use bentham::consent::ConsentPost;
use bentham::post::{
    ensure_post, is_post, pick_channel, post_of, post_text, record_post, refresh_post, ChannelInfo,
    ChannelKind, EnsureAction, EnsureEvent, GuildInfo, PostedMessage, RefreshAction, RefreshEvent,
};
use bentham::state::Shared;

fn shared() -> Shared {
    Shared::new(Config {
        data_dir: "data".into(),
        discord: DiscordCfg::default(),
        mcp: McpCfg::default(),
        claude: ClaudeCfg::with_binary("cli".into()),
    })
}

fn channel(id: u64, name: &str, kind: ChannelKind) -> ChannelInfo {
    ChannelInfo { id, name: name.into(), kind }
}

fn guild(channels: Vec<ChannelInfo>, system: Option<u64>) -> GuildInfo {
    GuildInfo { id: 1, channels, system_channel_id: system }
}

#[test]
fn post_has_its_marker_and_footer() {
    let text = post_text(1700000000);
    assert!(text.starts_with("\u{1F44B} I'm bentham, an AI presence on this server."));
    assert!(text.ends_with(
        "What I learn on this server stays on this server.\n\n-# last restart: <t:1700000000:f>"
    ));
}

#[test]
fn post_goes_to_general_then_system_then_first() {
    let all = || vec![channel(1, "voice", ChannelKind::Other), channel(2, "random", ChannelKind::Text), channel(3, "general", ChannelKind::News)];
    assert_eq!(pick_channel(&guild(all(), Some(9))), Some(3));
    let no_general = || vec![channel(1, "general", ChannelKind::Other), channel(2, "random", ChannelKind::Text), channel(4, "b", ChannelKind::Text)];
    assert_eq!(pick_channel(&guild(no_general(), Some(9))), Some(9));
    assert_eq!(pick_channel(&guild(no_general(), None)), Some(2));
    assert_eq!(pick_channel(&guild(vec![channel(1, "voice", ChannelKind::Other)], None)), None);
}

#[test]
fn known_post_is_edited_in_place() {
    let mut s = shared();
    let g = guild(vec![channel(2, "general", ChannelKind::Text)], None);
    assert_eq!(
        refresh_post(&s, &g, RefreshEvent::Start),
        RefreshAction::Ensure { fallback: 2 }
    );
    record_post(&mut s, 1, 20, 200);
    assert_eq!(
        refresh_post(&s, &g, RefreshEvent::Start),
        RefreshAction::Edit { channel: 20, message: 200 }
    );
    assert_eq!(refresh_post(&s, &g, RefreshEvent::Edited), RefreshAction::Done);
    assert_eq!(
        refresh_post(&s, &g, RefreshEvent::EditFailed),
        RefreshAction::Ensure { fallback: 2 }
    );
    assert_eq!(
        refresh_post(&s, &guild(vec![], None), RefreshEvent::EditFailed),
        RefreshAction::NoChannel
    );
    s.consent.set_post(1, ConsentPost { channel_id: "x".into(), message_id: "200".into() });
    assert_eq!(refresh_post(&s, &g, RefreshEvent::Start), RefreshAction::Done);
}

#[test]
fn recorded_post_is_recognised() {
    let mut s = shared();
    assert!(post_of(&s, 1).is_none());
    assert!(!is_post(&s, 1, 200));
    record_post(&mut s, 1, 20, 200);
    assert!(is_post(&s, 1, 200));
    assert!(!is_post(&s, 1, 201));
    assert!(!is_post(&s, 2, 200));
    assert_eq!(post_of(&s, 1).unwrap().ids(), Some((20, 200)));
    assert_eq!(s.consent.guild(1).active_channels.len(), 0);
}

#[test]
fn lost_post_is_found_again_by_its_marker() {
    let mut s = shared();
    s.bot_id = Some(99);
    assert_eq!(ensure_post(&mut s, 1, &None, 5, EnsureEvent::Start), EnsureAction::ListChannels);
    let chans = vec![channel(2, "random", ChannelKind::Text), channel(3, "general", ChannelKind::Text)];
    assert_eq!(
        ensure_post(&mut s, 1, &None, 5, EnsureEvent::Listed(Some(chans))),
        EnsureAction::ReadHistory { target: 3 }
    );
    assert_eq!(
        ensure_post(&mut s, 1, &None, 5, EnsureEvent::Listed(None)),
        EnsureAction::ReadHistory { target: 5 }
    );
    let message = |id: u64, author_id: u64, content: &str| PostedMessage {
        id,
        author_id,
        content: content.into(),
    };
    let history = vec![
        message(10, 7, "\u{1F44B} I'm bentham too"),
        message(11, 99, "hello"),
        message(12, 99, "\u{1F44B} I'm bentham, an older text"),
    ];
    assert_eq!(
        ensure_post(&mut s, 1, &None, 5, EnsureEvent::History { target: 3, messages: Some(history) }),
        EnsureAction::Adopt { target: 3, message: 12 }
    );
    assert_eq!(
        ensure_post(&mut s, 1, &None, 5, EnsureEvent::Adopted { target: 3, message: 12 }),
        EnsureAction::Done
    );
    assert!(is_post(&s, 1, 12));
    // It is on record now, so it is not looked for again.
    assert_eq!(ensure_post(&mut s, 1, &None, 5, EnsureEvent::Start), EnsureAction::Done);
}

#[test]
fn post_is_sent_as_a_last_resort() {
    let mut s = shared();
    s.bot_id = Some(99);
    assert_eq!(
        ensure_post(&mut s, 1, &None, 5, EnsureEvent::History { target: 3, messages: None }),
        EnsureAction::Send { target: 3 }
    );
    assert_eq!(
        ensure_post(&mut s, 1, &None, 5, EnsureEvent::Sent { target: 3, posted: None }),
        EnsureAction::Done
    );
    assert!(post_of(&s, 1).is_none());
    ensure_post(&mut s, 1, &None, 5, EnsureEvent::Sent { target: 3, posted: Some(44) });
    assert!(is_post(&s, 1, 44));
}

#[test]
fn post_that_is_gone_is_looked_for() {
    let mut s = shared();
    record_post(&mut s, 1, 20, 200);
    let gone = post_of(&s, 1);
    assert_eq!(ensure_post(&mut s, 1, &gone, 5, EnsureEvent::Start), EnsureAction::ListChannels);
    record_post(&mut s, 1, 20, 201);
    assert_eq!(ensure_post(&mut s, 1, &gone, 5, EnsureEvent::Start), EnsureAction::Done);
}

#[test]
fn searches_run_one_at_a_time() {
    let mut s = shared();
    let start = |s: &mut Shared, gid| ensure_post(s, gid, &None, 5, EnsureEvent::Start);
    assert_eq!(start(&mut s, 1), EnsureAction::ListChannels);
    assert_eq!(start(&mut s, 1), EnsureAction::Wait);
    assert_eq!(start(&mut s, 2), EnsureAction::Wait);
    ensure_post(&mut s, 1, &None, 5, EnsureEvent::Sent { target: 5, posted: Some(44) });
    // The first search has posted: the second one finds the post on record.
    assert_eq!(start(&mut s, 1), EnsureAction::Done);
    assert_eq!(start(&mut s, 2), EnsureAction::ListChannels);
    assert_eq!(
        ensure_post(&mut s, 2, &None, 5, EnsureEvent::Abandoned),
        EnsureAction::Done
    );
    assert!(post_of(&s, 2).is_none());
    assert_eq!(start(&mut s, 2), EnsureAction::ListChannels);
}
