use bentham::buffer::{Buffer, MsgEvent};
use bentham::persona::{Behavior, Behaviors, RespondTo};
use bentham::scope::Scope;

const G1: Scope = Scope::Guild(1);
const G2: Scope = Scope::Guild(2);

fn ev(ch: &str, author: &str, scope: Scope, is_dm: bool, mentions_me: bool, is_bot: bool) -> MsgEvent {
    MsgEvent {
        seq: 0,
        message_id: "m".into(),
        channel_id: ch.into(),
        channel_name: None,
        guild_name: None,
        is_dm,
        author_id: author.into(),
        author_name: author.into(),
        author_is_bot: is_bot,
        content: "hi".into(),
        timestamp: "t".into(),
        mentions_me,
        reply_to_message_id: None,
        scope,
    }
}

fn behaviors_of(scope: Scope, behavior: Behavior) -> Behaviors {
    let mut behaviors = Behaviors::new();
    behaviors.insert(scope, behavior);
    behaviors
}

#[test]
fn cursor_advance() {
    let mut b = Buffer::default();
    b.push(ev("1", "a", G1, false, false, false));
    b.push(ev("1", "a", G1, false, false, false));
    let got = b.take_undelivered("1");
    assert_eq!(got.len(), 2);
    assert!(got[0].seq < got[1].seq);
    assert!(b.take_undelivered("1").is_empty());
    b.push(ev("1", "a", G1, false, false, false));
    let got = b.take_undelivered("1");
    assert_eq!(got.len(), 1);
    assert_eq!(got[0].seq, 3);
}

#[test]
fn per_channel_isolation() {
    let mut b = Buffer::default();
    b.push(ev("1", "a", G1, false, false, false));
    b.push(ev("2", "a", G1, false, false, false));
    b.push(ev("1", "a", G1, false, false, false));
    b.push(ev("2", "a", G1, false, false, false));
    let one = b.take_undelivered("1");
    assert_eq!(one.len(), 2);
    assert!(one.iter().all(|e| e.channel_id == "1"));
    // Ch 2's cursor is untouched by ch 1's take.
    assert_eq!(b.take_undelivered("2").len(), 2);
}

#[test]
fn purge_user_scoping() {
    let mut b = Buffer::default();
    b.push(ev("1", "A", G1, false, false, false));
    b.push(ev("2", "A", G2, false, false, false));
    b.push(ev("1", "B", G1, false, false, false));
    b.purge_user(G1, "A");
    let one = b.take_undelivered("1");
    assert_eq!(one.len(), 1);
    assert_eq!(one[0].author_id, "B");
    // Same user in another scope survives.
    assert_eq!(b.take_undelivered("2").len(), 1);
}

#[test]
fn wakeworthy_bots_never_wake() {
    let mut b = Buffer::default();
    b.push(ev("1", "bot", G1, false, false, true));
    assert!(b.wakeworthy(&Behaviors::new()).is_empty());
}

#[test]
fn wakeworthy_mentions_mode() {
    let behaviors =
        behaviors_of(G1, Behavior { respond_to: RespondTo::Mentions, ..Default::default() });
    let mut b = Buffer::default();
    b.push(ev("1", "a", G1, false, false, false));
    assert!(b.wakeworthy(&behaviors).is_empty());
    b.push(ev("1", "a", G1, false, true, false));
    assert_eq!(b.wakeworthy(&behaviors).len(), 1);
    // A DM wakes even in mentions mode, without a mention.
    let dm = Scope::Dm(9);
    let behaviors =
        behaviors_of(dm, Behavior { respond_to: RespondTo::Mentions, ..Default::default() });
    let mut b = Buffer::default();
    b.push(ev("9", "a", dm, true, false, false));
    assert_eq!(b.wakeworthy(&behaviors).len(), 1);
}

#[test]
fn wakeworthy_all_mode_default() {
    // No behavior entry for the scope: defaults wake on any human message.
    let mut b = Buffer::default();
    b.push(ev("1", "a", G1, false, false, false));
    assert_eq!(b.wakeworthy(&Behaviors::new()).len(), 1);
}

#[test]
fn wakeworthy_watched_channels() {
    let behaviors =
        behaviors_of(G1, Behavior { watched_channels: vec!["1".into()], ..Default::default() });
    let mut b = Buffer::default();
    b.push(ev("2", "a", G1, false, false, false));
    assert!(b.wakeworthy(&behaviors).is_empty());
    b.push(ev("1", "a", G1, false, false, false));
    let targets = b.wakeworthy(&behaviors);
    assert_eq!(targets.len(), 1);
    assert_eq!(targets[0].channel_id, "1");
    // DMs bypass the watch list.
    let dm = Scope::Dm(9);
    let behaviors =
        behaviors_of(dm, Behavior { watched_channels: vec!["1".into()], ..Default::default() });
    let mut b = Buffer::default();
    b.push(ev("9", "a", dm, true, false, false));
    assert_eq!(b.wakeworthy(&behaviors).len(), 1);
}

#[test]
fn wakeworthy_delivered_dont_wake() {
    let mut b = Buffer::default();
    b.push(ev("1", "a", G1, false, false, false));
    b.take_undelivered("1");
    assert!(b.wakeworthy(&Behaviors::new()).is_empty());
}

#[test]
fn wakeworthy_dedup() {
    let mut b = Buffer::default();
    b.push(ev("1", "a", G1, false, false, false));
    b.push(ev("1", "a", G1, false, false, false));
    assert_eq!(b.wakeworthy(&Behaviors::new()).len(), 1);
}

#[test]
fn ring_forgets_the_oldest() {
    let mut b = Buffer::default();
    for i in 0..501 {
        let mut e = ev("1", "a", G1, false, false, false);
        e.message_id = i.to_string();
        b.push(e);
    }
    let got = b.take_undelivered("1");
    assert_eq!(got.len(), 500);
    assert_eq!((got[0].seq, got[0].message_id.as_str()), (2, "1"));
    assert_eq!((got[499].seq, got[499].message_id.as_str()), (501, "500"));
    assert!(!b.is_exhausted());
}

#[test]
fn taking_from_another_channel_leaves_messages() {
    let mut b = Buffer::default();
    b.push(ev("1", "a", G1, false, false, false));
    assert!(b.take_undelivered("2").is_empty());
    b.push(ev("2", "a", G1, false, false, false));
    assert_eq!(b.take_undelivered("1").len(), 1);
    assert_eq!(b.take_undelivered("2").len(), 1);
}

#[test]
fn purged_channel_is_empty() {
    let mut b = Buffer::default();
    b.push(ev("1", "a", G1, false, false, false));
    b.push(ev("2", "a", G1, false, false, false));
    b.purge_channel("1");
    assert!(b.take_undelivered("1").is_empty());
    assert_eq!(b.take_undelivered("2").len(), 1);
}

#[test]
fn wake_targets_name_their_place() {
    let mut b = Buffer::default();
    b.push(ev("1", "ada", Scope::Dm(1), true, false, false));
    let mut named = ev("2", "ada", G1, false, false, false);
    named.channel_name = Some("general".into());
    b.push(named);
    b.push(ev("3", "ada", G1, false, false, false));
    let names: Vec<String> =
        b.wakeworthy(&Behaviors::new()).into_iter().map(|t| t.name).collect();
    assert_eq!(names, vec!["your DM with ada", "#general", "channel 3"]);
}
