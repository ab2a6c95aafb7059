use bentham::config::{ClaudeCfg, Config, DiscordCfg, McpCfg};
use bentham::consent::opt_in;
use bentham::discord::{
    display_name, ingest, me, message, reaction_add, reaction_counts, reaction_remove, ready,
    IncomingMessage, ReactionEvent,
};
use bentham::post::record_post;
use bentham::scope::Scope;
use bentham::state::Shared;

fn shared() -> Shared {
    let mut s = Shared::new(Config {
        data_dir: "data".into(),
        discord: DiscordCfg::default(),
        mcp: McpCfg::default(),
        claude: ClaudeCfg::with_binary("cli".into()),
    });
    s.bot_id = Some(99);
    s
}

fn incoming(guild_id: Option<u64>, author_id: u64, mentioned: Vec<u64>) -> IncomingMessage {
    IncomingMessage {
        id: 500,
        channel_id: 10,
        guild_id,
        author_id,
        author_name: "ada".into(),
        author_is_bot: false,
        content: "hello".into(),
        attachment_urls: vec![],
        mentioned,
        timestamp: "2024-01-01T00:00:00Z".into(),
        referenced_message: None,
        message_reference: None,
    }
}

fn inhabits(s: &Shared, gid: u64, ch: &str) -> bool {
    s.consent.guild(gid).active_channels.contains(&ch.to_string())
}

#[test]
fn dormant_channel_is_not_heard() {
    let mut s = shared();
    opt_in(&mut s, 1, "7", "ada");
    // Opted in, but no mention.
    let a = message(&mut s, &incoming(Some(1), 7, vec![]));
    assert!(a.post.is_none() && !a.summoned && a.draft.is_none());
    // A mention, but not opted in.
    let a = message(&mut s, &incoming(Some(1), 8, vec![99]));
    assert!(a.post.is_none() && !a.summoned && a.draft.is_none());
    // Opted in elsewhere.
    let a = message(&mut s, &incoming(Some(2), 7, vec![99]));
    assert!(a.draft.is_none());
    assert!(!inhabits(&s, 1, "10") && !inhabits(&s, 2, "10"));
}

#[test]
fn summons_wakes_a_channel() {
    let mut s = shared();
    opt_in(&mut s, 1, "7", "ada");
    let a = message(&mut s, &incoming(Some(1), 7, vec![5, 99]));
    assert_eq!(a.post, Some(1));
    assert!(a.summoned && a.draft.is_some());
    assert!(inhabits(&s, 1, "10"));
    // From now on the channel is inhabited: no mention is needed.
    let a = message(&mut s, &incoming(Some(1), 7, vec![]));
    assert!(!a.summoned && a.draft.is_some());
    // Who did not opt in is still not heard.
    let a = message(&mut s, &incoming(Some(1), 8, vec![99]));
    assert_eq!(a.post, Some(1));
    assert!(!a.summoned && a.draft.is_none());
    // Another bot is.
    let mut bot = incoming(Some(1), 8, vec![]);
    bot.author_is_bot = true;
    assert!(message(&mut s, &bot).draft.is_some());
}

#[test]
fn own_messages_are_not_heard() {
    let mut s = shared();
    let a = message(&mut s, &incoming(None, 99, vec![99]));
    assert!(a.draft.is_none());
    s.bot_id = None;
    assert_eq!(me(&s), 0);
    opt_in(&mut s, 1, "7", "ada");
    // Before the bot knows itself nothing mentions it.
    assert!(message(&mut s, &incoming(Some(1), 7, vec![0, 99])).draft.is_none());
}

#[test]
fn dm_is_consent() {
    let mut s = shared();
    let a = message(&mut s, &incoming(None, 7, vec![]));
    assert!(a.post.is_none() && !a.summoned);
    ingest(&mut s, a.draft.unwrap(), None, None);
    let got = s.take_undelivered("10");
    assert_eq!(got.len(), 1);
    assert!(got[0].is_dm);
    assert_eq!(got[0].scope, Scope::Dm(10));
}

#[test]
fn ingested_message_shows_what_came_in() {
    let mut s = shared();
    opt_in(&mut s, 1, "7", "ada");
    let mut m = incoming(Some(1), 7, vec![99]);
    m.attachment_urls = vec!["http://a".into(), "http://b".into()];
    m.message_reference = Some(40);
    let a = message(&mut s, &m);
    ingest(&mut s, a.draft.unwrap(), Some("general".into()), Some("server".into()));
    m.referenced_message = Some(41);
    m.mentioned = vec![];
    let a = message(&mut s, &m);
    ingest(&mut s, a.draft.unwrap(), None, None);
    let got = s.take_undelivered("10");
    assert_eq!(got.len(), 2);
    let e = &got[0];
    assert_eq!((e.seq, e.message_id.as_str(), e.channel_id.as_str()), (1, "500", "10"));
    assert_eq!(e.channel_name.as_deref(), Some("general"));
    assert_eq!(e.guild_name.as_deref(), Some("server"));
    assert_eq!((e.author_id.as_str(), e.author_name.as_str()), ("7", "ada"));
    assert_eq!(e.content, "hello\n[attachment: http://a]\n[attachment: http://b]");
    assert_eq!(e.timestamp, "2024-01-01T00:00:00Z");
    assert_eq!(e.reply_to_message_id.as_deref(), Some("40"));
    assert!(e.mentions_me && !e.is_dm && !e.author_is_bot);
    assert_eq!(e.scope, Scope::Guild(1));
    assert_eq!(got[1].reply_to_message_id.as_deref(), Some("41"));
    assert!(!got[1].mentions_me);
    assert!(got[1].channel_name.is_none());
}

fn on(message_id: u64, user: Option<u64>, guild: Option<u64>) -> ReactionEvent {
    ReactionEvent { guild_id: guild, user_id: user, message_id }
}

#[test]
fn only_the_consent_post_counts() {
    let mut s = shared();
    record_post(&mut s, 1, 20, 200);
    assert_eq!(reaction_counts(&s, &on(200, Some(7), Some(1))), Some((1, 7)));
    assert_eq!(reaction_counts(&s, &on(201, Some(7), Some(1))), None);
    assert_eq!(reaction_counts(&s, &on(200, Some(7), Some(2))), None);
    assert_eq!(reaction_counts(&s, &on(200, Some(99), Some(1))), None);
    assert_eq!(reaction_counts(&s, &on(200, None, Some(1))), None);
    assert_eq!(reaction_counts(&s, &on(200, Some(7), None)), None);
    s.bot_id = None;
    assert_eq!(reaction_counts(&s, &on(200, Some(7), Some(1))), None);
}

#[test]
fn reacting_opts_in_and_unreacting_opts_out() {
    let mut s = shared();
    record_post(&mut s, 1, 20, 200);
    let r = on(200, Some(7), Some(1));
    assert!(reaction_add(&mut s, &r, "ada"));
    assert!(!reaction_add(&mut s, &r, "ada l"));
    assert!(!reaction_add(&mut s, &on(201, Some(8), Some(1)), "bob"));
    assert_eq!(s.consent.guild(1).opted_users.len(), 1);
    assert_eq!(reaction_remove(&mut s, &on(201, Some(7), Some(1))), None);
    assert_eq!(reaction_remove(&mut s, &r), Some("ada l".to_string()));
    assert_eq!(reaction_remove(&mut s, &r), None);
    assert_eq!(s.consent.guild(1).opted_users.len(), 0);
    assert_eq!(s.pending_scrubs.len(), 1);
}

#[test]
fn names_have_fallbacks() {
    assert_eq!(display_name(Some("a".into()), Some("b".into()), 7), "a");
    assert_eq!(display_name(None, Some("b".into()), 7), "b");
    assert_eq!(display_name(None, None, 7), "7");
}

#[test]
fn bot_learns_its_id_once() {
    let mut s = shared();
    s.bot_id = None;
    ready(&mut s, 5);
    ready(&mut s, 6);
    assert_eq!(me(&s), 5);
}

#[test]
fn who_opted_out_is_gone() {
    let mut s = shared();
    record_post(&mut s, 1, 20, 200);
    let r = on(200, Some(7), Some(1));
    reaction_add(&mut s, &r, "ada");
    let m = incoming(Some(1), 7, vec![99]);
    let a = message(&mut s, &m);
    ingest(&mut s, a.draft.unwrap(), None, None);
    assert_eq!(s.wakeworthy_channels().len(), 1);
    reaction_remove(&mut s, &r);
    assert!(s.wakeworthy_channels().is_empty());
    assert!(s.take_undelivered("10").is_empty());
    assert!(message(&mut s, &m).draft.is_none());
}

#[test]
fn consent_is_asked_again_at_ingest() {
    let mut s = shared();
    record_post(&mut s, 1, 20, 200);
    let r = on(200, Some(7), Some(1));
    reaction_add(&mut s, &r, "ada");
    let m = incoming(Some(1), 7, vec![99]);
    // The author opts out between the message and its way to the buffer.
    let a = message(&mut s, &m);
    reaction_remove(&mut s, &r);
    ingest(&mut s, a.draft.unwrap(), None, None);
    assert!(s.take_undelivered("10").is_empty());
    // The channel is left in between.
    reaction_add(&mut s, &r, "ada");
    let a = message(&mut s, &m);
    s.consent.remove_channel(1, "10");
    ingest(&mut s, a.draft.unwrap(), None, None);
    assert!(s.take_undelivered("10").is_empty());
    // Nothing happens in between.
    let a = message(&mut s, &m);
    ingest(&mut s, a.draft.unwrap(), None, None);
    assert_eq!(s.take_undelivered("10").len(), 1);
}
