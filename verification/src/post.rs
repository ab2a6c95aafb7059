//! The one consent post per server: its text, where it stands, and how it is
//! found again, so that restarts and data loss never repeat it.

use vstd::prelude::*;

use crate::assoc::Copied;
use crate::consent::{guild_of, opt_post, ConsentPost, GuildView, PostView};
use crate::rows::{
    first_where, lemma_first_where_at, lemma_first_where_none, lemma_first_where_some,
};
use crate::state::{Shared, SharedView};
use crate::text;
use crate::text::{begins_with, decimal, parsed_u64};

verus! {

/// How the post begins: the marker for re-finding it after data loss.
pub const MARKER: &'static str = "\u{1F44B} I'm bentham";

/// How the post goes on behind its marker.
pub const POST: &'static str = ", an AI presence on this server. How privacy works with me:\n\
\u{2022} I can only read messages from people who **opt in** \u{2014} react to **this message** with any emoji to opt in.\n\
\u{2022} Remove your reaction any time to opt out \u{2014} I then automatically forget you: my sessions reset and my notes about you are scrubbed.\n\
\u{2022} I only inhabit channels where an opted-in person @mentions me; everywhere else I see nothing \u{2014} including @mentions from people who haven't opted in.\n\
\u{2022} Ask me to leave a channel and I'll go.\n\
I simply never receive messages from anyone who hasn't opted in \u{2014} they aren't hidden from me, they never reach me at all.\n\
What I learn on this server stays on this server.";

/// The post with the time of the last restart, in seconds since 1970, below it.
pub open spec fn post_body(ts: u64) -> Seq<char> {
    MARKER@ + POST@ + "\n\n-# last restart: <t:"@ + decimal(ts as nat) + ":f>"@
}

/// The post with the time of the last restart below it.
pub fn post_text(ts: u64) -> (s: String)
    ensures
        s@ == post_body(ts),
{
    let head = text::join3(MARKER, POST, "\n\n-# last restart: <t:");
    text::join3(head.as_str(), text::u64_to_string(ts).as_str(), ":f>")
}

/// Every version of the post can be found again by its marker line.
pub proof fn post_carries_its_marker(ts: u64)
    ensures
        begins_with(post_body(ts), MARKER@),
{
    assert(post_body(ts).take(MARKER@.len() as int) =~= MARKER@);
}

/// The post recorded for a server.
pub open spec fn post_on_record(s: SharedView, gid: u64) -> Option<PostView> {
    guild_of(s.consent, gid).consent_post
}

/// The post recorded for a server.
pub fn post_of(shared: &Shared, gid: u64) -> (p: Option<ConsentPost>)
    ensures
        opt_post(p) == post_on_record(shared@, gid),
{
    match shared.consent.guilds.get(&gid) {
        Some(g) => match &g.consent_post {
            Some(p) => Some(p.copied()),
            None => None,
        },
        None => None,
    }
}

/// A message is the server's consent post.
pub open spec fn is_the_post(s: SharedView, gid: u64, message_id: u64) -> bool {
    match post_on_record(s, gid) {
        Some(p) => p.message_id == decimal(message_id as nat),
        None => false,
    }
}

/// Whether a message is the server's consent post.
pub fn is_post(shared: &Shared, gid: u64, message_id: u64) -> (res: bool)
    ensures
        res == is_the_post(shared@, gid, message_id),
{
    match post_of(shared, gid) {
        Some(p) => text::same(p.message_id.as_str(), text::u64_to_string(message_id).as_str()),
        None => false,
    }
}

/// The state with a post recorded for a server.
pub open spec fn post_recorded(s: SharedView, gid: u64, channel: u64, message: u64) -> SharedView {
    SharedView {
        consent: s.consent.insert(
            gid,
            GuildView {
                consent_post: Some(
                    PostView {
                        channel_id: decimal(channel as nat),
                        message_id: decimal(message as nat),
                    },
                ),
                ..guild_of(s.consent, gid)
            },
        ),
        ..s
    }
}

/// Records the server's post.
pub fn record_post(shared: &mut Shared, gid: u64, channel: u64, message: u64)
    ensures
        final(shared)@ == post_recorded(old(shared)@, gid, channel, message),
{
    shared.consent.set_post(
        gid,
        ConsentPost {
            channel_id: text::u64_to_string(channel),
            message_id: text::u64_to_string(message),
        },
    );
}

/// A post that was recorded is known by its message id, and recording it
/// neither watches a channel nor opts anyone in.
pub proof fn recorded_post_is_known(
    s: SharedView,
    gid: u64,
    channel: u64,
    message: u64,
    other: u64,
)
    ensures
        is_the_post(post_recorded(s, gid, channel, message), gid, other) == (other == message),
        guild_of(post_recorded(s, gid, channel, message).consent, gid).active_channels == guild_of(
            s.consent,
            gid,
        ).active_channels,
        guild_of(post_recorded(s, gid, channel, message).consent, gid).opted_users == guild_of(
            s.consent,
            gid,
        ).opted_users,
{
    if decimal(other as nat) == decimal(message as nat) {
        text::decimal_injective(other as nat, message as nat);
    }
}

#[derive(Clone, Copy, PartialEq, Eq, Structural, Debug)]
pub enum ChannelKind {
    Text,
    News,
    Other,
}

/// A channel of a server.
pub struct ChannelInfo {
    pub id: u64,
    pub name: String,
    pub kind: ChannelKind,
}

/// A server, as far as the consent post is concerned.
pub struct GuildInfo {
    pub id: u64,
    pub channels: Vec<ChannelInfo>,
    pub system_channel_id: Option<u64>,
}

/// A message of a channel's history, as far as the consent post is concerned.
pub struct PostedMessage {
    pub id: u64,
    pub author_id: u64,
    pub content: String,
}

/// A channel that can be written in.
pub open spec fn is_text(c: ChannelInfo) -> bool {
    c.kind == ChannelKind::Text || c.kind == ChannelKind::News
}

pub open spec fn is_general(c: ChannelInfo) -> bool {
    c.name@ == "general"@
}

pub open spec fn id_of(c: Option<ChannelInfo>) -> Option<u64> {
    match c {
        Some(i) => Some(i.id),
        None => None,
    }
}

/// Where a server's consent post goes: the text channel called `general`, else
/// the system channel, else the first text channel.
pub open spec fn post_channel(g: GuildInfo) -> Option<u64> {
    let general = id_of(first_where(g.channels@, |c: ChannelInfo| is_text(c) && is_general(c)));
    let first = id_of(first_where(g.channels@, |c: ChannelInfo| is_text(c)));
    match general {
        Some(c) => Some(c),
        None => match g.system_channel_id {
            Some(c) => Some(c),
            None => first,
        },
    }
}

/// Whether a channel can be written in.
pub fn text_channel(c: &ChannelInfo) -> (res: bool)
    ensures
        res == is_text(*c),
{
    match c.kind {
        ChannelKind::Text => true,
        ChannelKind::News => true,
        ChannelKind::Other => false,
    }
}

/// Where a server's consent post goes.
pub fn pick_channel(g: &GuildInfo) -> (res: Option<u64>)
    ensures
        res == post_channel(*g),
{
    let ghost p = |c: ChannelInfo| is_text(c) && is_general(c);
    let ghost q = |c: ChannelInfo| is_text(c);
    let mut first: Option<u64> = None;
    let mut i: usize = 0;
    while i < g.channels.len()
        invariant
            i <= g.channels@.len(),
            p == (|c: ChannelInfo| is_text(c) && is_general(c)),
            q == (|c: ChannelInfo| is_text(c)),
            forall|j: int| 0 <= j < i ==> !p(#[trigger] g.channels@[j]),
            match first {
                Some(c) => id_of(first_where(g.channels@, q)) == Some(c),
                None => forall|j: int| 0 <= j < i ==> !q(#[trigger] g.channels@[j]),
            },
        decreases g.channels@.len() - i,
    {
        let c = &g.channels[i];
        if text_channel(c) {
            if text::same(c.name.as_str(), "general") {
                proof {
                    lemma_first_where_at(g.channels@, p, i as int);
                }
                return Some(c.id);
            }
            if first.is_none() {
                proof {
                    lemma_first_where_at(g.channels@, q, i as int);
                }
                first = Some(c.id);
            }
        }
        i += 1;
    }
    proof {
        lemma_first_where_none(g.channels@, p);
        if first is None {
            lemma_first_where_none(g.channels@, q);
        }
    }
    match g.system_channel_id {
        Some(c) => Some(c),
        None => first,
    }
}

/// The channel and message ids of a recorded post, where both are numerals.
pub open spec fn post_ids(p: PostView) -> Option<(u64, u64)> {
    match (parsed_u64(p.channel_id), parsed_u64(p.message_id)) {
        (Some(c), Some(m)) => Some((c, m)),
        _ => None,
    }
}

impl ConsentPost {
    /// The channel and message ids, where both are numerals.
    pub fn ids(&self) -> (res: Option<(u64, u64)>)
        ensures
            res == post_ids(self@),
    {
        match text::parse_u64(self.channel_id.as_str()) {
            Some(c) => match text::parse_u64(self.message_id.as_str()) {
                Some(m) => Some((c, m)),
                None => None,
            },
            None => None,
        }
    }
}

/// What the refresh of a server's post learns.
#[derive(Clone, Copy, PartialEq, Eq, Structural, Debug)]
pub enum RefreshEvent {
    /// The server was joined, or the daemon started.
    Start,
    /// The recorded post was edited.
    Edited,
    /// The recorded post could not be edited: it is gone.
    EditFailed,
}

/// What the refresh of a server's post does next.
#[derive(Clone, Copy, PartialEq, Eq, Structural, Debug)]
pub enum RefreshAction {
    Done,
    /// Put the current text into the recorded post.
    Edit { channel: u64, message: u64 },
    /// Re-find the post, or post it, from this channel on.
    Ensure { fallback: u64 },
    /// There is no channel to post in.
    NoChannel,
}

/// Re-find the post, or post it, where there is a channel for it.
pub open spec fn refound(g: GuildInfo) -> RefreshAction {
    match post_channel(g) {
        Some(c) => RefreshAction::Ensure { fallback: c },
        None => RefreshAction::NoChannel,
    }
}

/// A known post is edited in place; one that is missing or gone is re-found.
pub open spec fn refresh_step(s: SharedView, g: GuildInfo, event: RefreshEvent) -> RefreshAction {
    match event {
        RefreshEvent::Start => match post_on_record(s, g.id) {
            Some(p) => match post_ids(p) {
                Some((channel, message)) => RefreshAction::Edit { channel, message },
                None => RefreshAction::Done,
            },
            None => refound(g),
        },
        RefreshEvent::Edited => RefreshAction::Done,
        RefreshEvent::EditFailed => refound(g),
    }
}

fn refind(g: &GuildInfo) -> (a: RefreshAction)
    ensures
        a == refound(*g),
{
    match pick_channel(g) {
        Some(c) => RefreshAction::Ensure { fallback: c },
        None => RefreshAction::NoChannel,
    }
}

/// On guild join / startup: refresh the known post's footer in place, or
/// re-find / create it. Posting is not watching: the channel stays dormant.
pub fn refresh_post(shared: &Shared, guild: &GuildInfo, event: RefreshEvent) -> (a: RefreshAction)
    ensures
        a == refresh_step(shared@, *guild, event),
{
    match event {
        RefreshEvent::Start => match post_of(shared, guild.id) {
            Some(p) => match p.ids() {
                Some((channel, message)) => RefreshAction::Edit { channel, message },
                None => RefreshAction::Done,
            },
            None => refind(guild),
        },
        RefreshEvent::Edited => RefreshAction::Done,
        RefreshEvent::EditFailed => refind(guild),
    }
}

/// What the search for a server's post learns. `None` stands for a listing
/// that could not be had.
pub enum EnsureEvent {
    Start,
    /// The server's channels.
    Listed(Option<Vec<ChannelInfo>>),
    /// The newest messages of the target channel.
    History { target: u64, messages: Option<Vec<PostedMessage>> },
    /// The post that was found got the current text.
    Adopted { target: u64, message: u64 },
    /// A fresh post was sent, or failed to be.
    Sent { target: u64, posted: Option<u64> },
    /// The search was given up.
    Abandoned,
}

/// What the search for a server's post does next.
#[derive(Clone, Copy, PartialEq, Eq, Structural, Debug)]
pub enum EnsureAction {
    Done,
    /// Another search is running: start over when it is done.
    Wait,
    ListChannels,
    ReadHistory { target: u64 },
    Adopt { target: u64, message: u64 },
    Send { target: u64 },
}

/// A message of the bot's own that begins with the marker line.
pub open spec fn is_own_post(bot_id: u64, m: PostedMessage) -> bool {
    m.author_id == bot_id && begins_with(m.content@, MARKER@)
}

/// Where the post is looked for: the channel called `general`, else the
/// fallback.
pub open spec fn search_channel(listed: Option<Vec<ChannelInfo>>, fallback: u64) -> u64 {
    match listed {
        Some(chans) => match first_where(chans@, |c: ChannelInfo| is_general(c)) {
            Some(c) => c.id,
            None => fallback,
        },
        None => fallback,
    }
}

/// The post to adopt: the newest listed one of the bot's own.
pub open spec fn adoptable(bot_id: u64, history: Option<Vec<PostedMessage>>) -> Option<u64> {
    match history {
        Some(msgs) => match first_where(msgs@, |m: PostedMessage| is_own_post(bot_id, m)) {
            Some(m) => Some(m.id),
            None => None,
        },
        None => None,
    }
}

/// A server lacks a usable post: none is on record, or only the one that is
/// known to be gone.
pub open spec fn post_missing(s: SharedView, gid: u64, gone: Option<PostView>) -> bool {
    match post_on_record(s, gid) {
        None => true,
        Some(p) => gone == Some(p),
    }
}

/// The bot's own id, zero before it is known.
pub open spec fn own_id(s: SharedView) -> u64 {
    match s.bot_id {
        Some(b) => b,
        None => 0,
    }
}

/// The next step of the search.
pub open spec fn ensure_step(
    s: SharedView,
    gid: u64,
    gone: Option<PostView>,
    fallback: u64,
    event: EnsureEvent,
) -> EnsureAction {
    match event {
        EnsureEvent::Start => if !post_missing(s, gid, gone) {
            EnsureAction::Done
        } else if s.post_search {
            EnsureAction::Wait
        } else {
            EnsureAction::ListChannels
        },
        EnsureEvent::Listed(l) => EnsureAction::ReadHistory {
            target: search_channel(l, fallback),
        },
        EnsureEvent::History { target, messages } => match adoptable(own_id(s), messages) {
            Some(message) => EnsureAction::Adopt { target, message },
            None => EnsureAction::Send { target },
        },
        EnsureEvent::Adopted { .. } => EnsureAction::Done,
        EnsureEvent::Sent { .. } => EnsureAction::Done,
        EnsureEvent::Abandoned => EnsureAction::Done,
    }
}

/// The state with a search running, or with none.
pub open spec fn searching(s: SharedView, post_search: bool) -> SharedView {
    SharedView { post_search, ..s }
}

/// The state after a step of the search: from its start to its end no other one
/// runs, and a post that was adopted or sent is on record.
pub open spec fn ensure_state(
    s: SharedView,
    gid: u64,
    gone: Option<PostView>,
    event: EnsureEvent,
) -> SharedView {
    match event {
        EnsureEvent::Start => if post_missing(s, gid, gone) {
            searching(s, true)
        } else {
            s
        },
        EnsureEvent::Listed(_) => s,
        EnsureEvent::History { .. } => s,
        EnsureEvent::Adopted { target, message } => searching(
            post_recorded(s, gid, target, message),
            false,
        ),
        EnsureEvent::Sent { target, posted } => match posted {
            Some(m) => searching(post_recorded(s, gid, target, m), false),
            None => searching(s, false),
        },
        EnsureEvent::Abandoned => searching(s, false),
    }
}

fn find_general(chans: &Vec<ChannelInfo>, fallback: u64) -> (res: u64)
    ensures
        res == search_channel(Some(*chans), fallback),
{
    let ghost p = |c: ChannelInfo| is_general(c);
    let mut i: usize = 0;
    while i < chans.len()
        invariant
            i <= chans@.len(),
            p == (|c: ChannelInfo| is_general(c)),
            forall|j: int| 0 <= j < i ==> !p(#[trigger] chans@[j]),
        decreases chans@.len() - i,
    {
        if text::same(chans[i].name.as_str(), "general") {
            proof {
                lemma_first_where_at(chans@, p, i as int);
            }
            return chans[i].id;
        }
        i += 1;
    }
    proof {
        lemma_first_where_none(chans@, p);
    }
    fallback
}

fn find_own_post(bot_id: u64, msgs: &Vec<PostedMessage>) -> (res: Option<u64>)
    ensures
        res == adoptable(bot_id, Some(*msgs)),
{
    let ghost p = |m: PostedMessage| is_own_post(bot_id, m);
    let mut i: usize = 0;
    while i < msgs.len()
        invariant
            i <= msgs@.len(),
            p == (|m: PostedMessage| is_own_post(bot_id, m)),
            forall|j: int| 0 <= j < i ==> !p(#[trigger] msgs@[j]),
        decreases msgs@.len() - i,
    {
        if msgs[i].author_id == bot_id && text::starts_with(msgs[i].content.as_str(), MARKER) {
            proof {
                lemma_first_where_at(msgs@, p, i as int);
            }
            return Some(msgs[i].id);
        }
        i += 1;
    }
    proof {
        lemma_first_where_none(msgs@, p);
    }
    None
}

/// Adopt an existing post of ours (found by its marker line) before ever
/// posting fresh: restarts and data loss must not spam the channel. `gone` is
/// a recorded post that is known to be gone.
pub fn ensure_post(
    shared: &mut Shared,
    gid: u64,
    gone: &Option<ConsentPost>,
    fallback: u64,
    event: EnsureEvent,
) -> (a: EnsureAction)
    ensures
        a == ensure_step(old(shared)@, gid, opt_post(*gone), fallback, event),
        final(shared)@ == ensure_state(old(shared)@, gid, opt_post(*gone), event),
{
    match event {
        EnsureEvent::Start => {
            let missing = match post_of(shared, gid) {
                None => true,
                Some(p) => match gone {
                    Some(q) => p.channel_id == q.channel_id && p.message_id == q.message_id,
                    None => false,
                },
            };
            if !missing {
                EnsureAction::Done
            } else if shared.post_search {
                EnsureAction::Wait
            } else {
                shared.post_search = true;
                EnsureAction::ListChannels
            }
        },
        EnsureEvent::Listed(listed) => EnsureAction::ReadHistory {
            target: match &listed {
                Some(chans) => find_general(chans, fallback),
                None => fallback,
            },
        },
        EnsureEvent::History { target, messages } => {
            let bot_id: u64 = match shared.bot_id {
                Some(b) => b,
                None => 0,
            };
            let found = match &messages {
                Some(msgs) => find_own_post(bot_id, msgs),
                None => None,
            };
            match found {
                Some(message) => EnsureAction::Adopt { target, message },
                None => EnsureAction::Send { target },
            }
        },
        EnsureEvent::Adopted { target, message } => {
            record_post(shared, gid, target, message);
            shared.post_search = false;
            EnsureAction::Done
        },
        EnsureEvent::Sent { target, posted } => {
            if let Some(m) = posted {
                record_post(shared, gid, target, m);
            }
            shared.post_search = false;
            EnsureAction::Done
        },
        EnsureEvent::Abandoned => {
            shared.post_search = false;
            EnsureAction::Done
        },
    }
}

/// A post that is on record and not known to be gone is never posted again,
/// and one of the bot's own in the channel's history is adopted, not repeated.
pub proof fn post_is_not_repeated(
    s: SharedView,
    gid: u64,
    fallback: u64,
    target: u64,
    msgs: Vec<PostedMessage>,
    i: int,
)
    ensures
        post_on_record(s, gid) is Some ==> ensure_step(s, gid, None, fallback, EnsureEvent::Start)
            == EnsureAction::Done,
        0 <= i < msgs@.len() && is_own_post(own_id(s), msgs@[i]) ==> ensure_step(
            s,
            gid,
            None,
            fallback,
            EnsureEvent::History { target, messages: Some(msgs) },
        ) is Adopt,
{
    if 0 <= i < msgs@.len() && is_own_post(own_id(s), msgs@[i]) {
        let p = |m: PostedMessage| is_own_post(own_id(s), m);
        lemma_first_where_some(msgs@, p, i);
    }
}

// ---- searches at the same time ----

/// A search for a server's post, and what it does next.
pub struct Search {
    pub gid: u64,
    pub gone: Option<PostView>,
    pub fallback: u64,
    pub action: EnsureAction,
}

/// The state, and the searches of all who make sure of a post, each under a
/// number of its own.
pub struct Searches {
    pub shared: SharedView,
    pub by: Map<int, Search>,
}

/// One step of one of the searches: what it looks for, and what it learns.
pub struct Move {
    pub by: int,
    pub gid: u64,
    pub gone: Option<PostView>,
    pub fallback: u64,
    pub event: EnsureEvent,
}

/// A search is on its way: it neither waits nor is over.
pub open spec fn under_way(s: Search) -> bool {
    !(s.action is Done) && !(s.action is Wait)
}

/// What is learnt comes of what was done.
pub open spec fn answers(event: EnsureEvent, action: EnsureAction) -> bool {
    match action {
        EnsureAction::Done => false,
        EnsureAction::Wait => event is Start,
        EnsureAction::ListChannels => event is Listed || event is Abandoned,
        EnsureAction::ReadHistory { target } => event is Abandoned || (
        event matches EnsureEvent::History { target: t, messages: _ } && t == target),
        EnsureAction::Adopt { target, message } => event is Abandoned || (
        event matches EnsureEvent::Adopted { target: t, message: m } && t == target && m
            == message),
        EnsureAction::Send { target } => event is Abandoned || (
        event matches EnsureEvent::Sent { target: t, posted: _ } && t == target),
    }
}

/// A step that can be made: a search begins, or goes on with what it learns.
pub open spec fn can_move(all: Searches, m: Move) -> bool {
    if all.by.contains_key(m.by) {
        let s = all.by[m.by];
        s.gid == m.gid && s.gone == m.gone && s.fallback == m.fallback && answers(
            m.event,
            s.action,
        )
    } else {
        m.event is Start
    }
}

/// The searches after a step of one of them.
pub open spec fn moved(all: Searches, m: Move) -> Searches {
    let action = ensure_step(all.shared, m.gid, m.gone, m.fallback, m.event);
    Searches {
        shared: ensure_state(all.shared, m.gid, m.gone, m.event),
        by: all.by.insert(
            m.by,
            Search { gid: m.gid, gone: m.gone, fallback: m.fallback, action },
        ),
    }
}

/// At most one search is under way, the state knows of it, and what it looks for
/// is still missing.
pub open spec fn apart(all: Searches) -> bool {
    &&& forall|i: int, j: int|
        all.by.contains_key(i) && all.by.contains_key(j) && under_way(#[trigger] all.by[i])
            && under_way(#[trigger] all.by[j]) ==> i == j
    &&& forall|i: int|
        all.by.contains_key(i) && under_way(#[trigger] all.by[i]) ==> all.shared.post_search
            && post_missing(all.shared, all.by[i].gid, all.by[i].gone)
}

/// Steps that can be made one after another, whoever makes them.
pub open spec fn can_run(all: Searches, moves: Seq<Move>) -> bool
    decreases moves.len(),
{
    moves.len() == 0 || (can_run(all, moves.drop_last()) && can_move(
        run(all, moves.drop_last()),
        moves.last(),
    ))
}

/// The searches after a row of steps.
pub open spec fn run(all: Searches, moves: Seq<Move>) -> Searches
    decreases moves.len(),
{
    if moves.len() == 0 {
        all
    } else {
        moved(run(all, moves.drop_last()), moves.last())
    }
}

/// However the steps of several searches interleave, at most one is under way,
/// and a server that has a post on record keeps one.
pub proof fn searches_stay_apart(all: Searches, m: Move, gid: u64)
    requires
        apart(all),
        can_move(all, m),
    ensures
        apart(moved(all, m)),
        post_on_record(all.shared, gid) is Some ==> post_on_record(moved(all, m).shared, gid) is Some,
{
    let next = moved(all, m);
    assert forall|i: int| #[trigger]
        next.by.contains_key(i) && i != m.by implies all.by.contains_key(i) && next.by[i]
        == all.by[i] by {}
    assert forall|i: int, j: int|
        next.by.contains_key(i) && next.by.contains_key(j) && under_way(#[trigger] next.by[i])
            && under_way(#[trigger] next.by[j]) implies i == j by {
        if i != m.by && j != m.by {
            assert(under_way(all.by[i]) && under_way(all.by[j]));
        } else if i != j {
            let other = if i == m.by { j } else { i };
            assert(under_way(all.by[other]));
            if all.by.contains_key(m.by) {
                assert(!under_way(all.by[m.by]));
            }
        }
    }
    assert forall|i: int|
        next.by.contains_key(i) && under_way(
            #[trigger] next.by[i],
        ) implies next.shared.post_search && post_missing(
        next.shared,
        next.by[i].gid,
        next.by[i].gone,
    ) by {
        if i != m.by {
            assert(under_way(all.by[i]));
            if all.by.contains_key(m.by) {
                assert(!under_way(all.by[m.by]));
            }
        } else if all.by.contains_key(m.by) && !(m.event is Start) {
            assert(under_way(all.by[m.by]));
        }
    }
}

/// Once a post is on record, no search posts again, however many of them start
/// and in whatever order their steps come, unless it knows that post to be gone.
pub proof fn post_is_sent_once(all: Searches, moves: Seq<Move>, gid: u64, i: int)
    requires
        apart(all),
        can_run(all, moves),
        post_on_record(all.shared, gid) is Some,
    ensures
        ({
            let end = run(all, moves);
            &&& apart(end)
            &&& post_on_record(end.shared, gid) is Some
            &&& end.by.contains_key(i) && end.by[i].gid == gid && end.by[i].gone is None
                ==> !under_way(end.by[i])
        }),
    decreases moves.len(),
{
    if moves.len() > 0 {
        post_is_sent_once(all, moves.drop_last(), gid, i);
        searches_stay_apart(run(all, moves.drop_last()), moves.last(), gid);
    }
    let end = run(all, moves);
    if end.by.contains_key(i) && under_way(end.by[i]) {
        assert(post_missing(end.shared, end.by[i].gid, end.by[i].gone));
    }
}

/// Nothing is under way when no search has begun.
pub proof fn no_search_at_first(s: SharedView)
    ensures
        apart(Searches { shared: s, by: Map::empty() }),
{
}

/// What else happens to the state meanwhile, as long as it records no post and
/// touches no search, leaves the searches apart.
pub proof fn searches_outlive_the_rest(all: Searches, t: SharedView)
    requires
        apart(all),
        t.post_search == all.shared.post_search,
        forall|g: u64| #[trigger] post_on_record(t, g) == post_on_record(all.shared, g),
    ensures
        apart(Searches { shared: t, by: all.by }),
{
    let next = Searches { shared: t, by: all.by };
    assert forall|i: int|
        next.by.contains_key(i) && under_way(
            #[trigger] next.by[i],
        ) implies next.shared.post_search && post_missing(
        next.shared,
        next.by[i].gid,
        next.by[i].gone,
    ) by {
        assert(under_way(all.by[i]));
        assert(post_on_record(t, all.by[i].gid) == post_on_record(all.shared, all.by[i].gid));
    }
}

/// A channel called `general` that can be written in.
pub open spec fn is_open_general(c: ChannelInfo) -> bool {
    c.kind != ChannelKind::Other && c.name@ == "general"@
}

/// Where the post goes: to the first channel called `general` that can be
/// written in; without one to the system channel; without that to the first
/// channel that can be written in; and else nowhere.
pub proof fn post_goes_to_general(g: GuildInfo, i: int)
    ensures
        ({
            let no_general = forall|j: int|
                0 <= j < g.channels@.len() ==> !is_open_general(#[trigger] g.channels@[j]);
            &&& 0 <= i < g.channels@.len() && is_open_general(g.channels@[i]) && (forall|j: int|
                0 <= j < i ==> !is_open_general(#[trigger] g.channels@[j])) ==> post_channel(g)
                == Some(g.channels@[i].id)
            &&& no_general && g.system_channel_id is Some ==> post_channel(g)
                == g.system_channel_id
            &&& no_general && g.system_channel_id is None && 0 <= i < g.channels@.len()
                && g.channels@[i].kind != ChannelKind::Other && (forall|j: int|
                0 <= j < i ==> (#[trigger] g.channels@[j]).kind == ChannelKind::Other)
                ==> post_channel(g) == Some(g.channels@[i].id)
            &&& no_general && g.system_channel_id is None && (forall|j: int|
                0 <= j < g.channels@.len() ==> (#[trigger] g.channels@[j]).kind
                    == ChannelKind::Other) ==> post_channel(g) is None
        }),
{
    let p = |c: ChannelInfo| is_text(c) && is_general(c);
    let q = |c: ChannelInfo| is_text(c);
    let list = g.channels@;
    assert(forall|j: int| 0 <= j < list.len() ==> p(#[trigger] list[j]) == is_open_general(list[j]));
    assert(forall|j: int|
        0 <= j < list.len() ==> q(#[trigger] list[j]) == (list[j].kind != ChannelKind::Other));
    if 0 <= i < list.len() && is_open_general(list[i]) && (forall|j: int|
        0 <= j < i ==> !is_open_general(#[trigger] list[j])) {
        lemma_first_where_at(list, p, i);
    }
    if forall|j: int| 0 <= j < list.len() ==> !is_open_general(#[trigger] list[j]) {
        lemma_first_where_none(list, p);
    }
    if 0 <= i < list.len() && list[i].kind != ChannelKind::Other && (forall|j: int|
        0 <= j < i ==> (#[trigger] list[j]).kind == ChannelKind::Other) {
        lemma_first_where_at(list, q, i);
    }
    if forall|j: int| 0 <= j < list.len() ==> (#[trigger] list[j]).kind == ChannelKind::Other {
        lemma_first_where_none(list, q);
    }
}

/// Where the post is looked for: in the first channel called `general`, of
/// whatever kind; without one, or without a listing, in the fallback.
pub proof fn post_is_looked_for_in_general(chans: Vec<ChannelInfo>, fallback: u64, i: int)
    ensures
        search_channel(None, fallback) == fallback,
        0 <= i < chans@.len() && chans@[i].name@ == "general"@ && (forall|j: int|
            0 <= j < i ==> (#[trigger] chans@[j]).name@ != "general"@) ==> search_channel(
            Some(chans),
            fallback,
        ) == chans@[i].id,
        (forall|j: int| 0 <= j < chans@.len() ==> (#[trigger] chans@[j]).name@ != "general"@)
            ==> search_channel(Some(chans), fallback) == fallback,
{
    let p = |c: ChannelInfo| is_general(c);
    assert(forall|j: int|
        0 <= j < chans@.len() ==> p(#[trigger] chans@[j]) == (chans@[j].name@ == "general"@));
    if 0 <= i < chans@.len() && chans@[i].name@ == "general"@ && (forall|j: int|
        0 <= j < i ==> (#[trigger] chans@[j]).name@ != "general"@) {
        lemma_first_where_at(chans@, p, i);
    }
    if forall|j: int| 0 <= j < chans@.len() ==> (#[trigger] chans@[j]).name@ != "general"@ {
        lemma_first_where_none(chans@, p);
    }
}

/// The bot wrote a message, and it begins as the post does.
pub open spec fn looks_like_the_post(bot_id: u64, m: PostedMessage) -> bool {
    m.author_id == bot_id && m.content@.len() >= MARKER@.len() && m.content@.take(
        MARKER@.len() as int,
    ) == MARKER@
}

/// What is adopted: the first message of the history that the bot wrote and that
/// begins as the post does; without one nothing is.
pub proof fn first_own_post_is_adopted(bot_id: u64, msgs: Vec<PostedMessage>, i: int)
    ensures
        adoptable(bot_id, None) is None,
        0 <= i < msgs@.len() && looks_like_the_post(bot_id, msgs@[i]) && (forall|j: int|
            0 <= j < i ==> !looks_like_the_post(bot_id, #[trigger] msgs@[j])) ==> adoptable(
            bot_id,
            Some(msgs),
        ) == Some(msgs@[i].id),
        (forall|j: int|
            0 <= j < msgs@.len() ==> !looks_like_the_post(bot_id, #[trigger] msgs@[j]))
            ==> adoptable(bot_id, Some(msgs)) is None,
{
    let p = |m: PostedMessage| is_own_post(bot_id, m);
    assert(forall|j: int|
        0 <= j < msgs@.len() ==> p(#[trigger] msgs@[j]) == looks_like_the_post(bot_id, msgs@[j]));
    if 0 <= i < msgs@.len() && looks_like_the_post(bot_id, msgs@[i]) && (forall|j: int|
        0 <= j < i ==> !looks_like_the_post(bot_id, #[trigger] msgs@[j])) {
        lemma_first_where_at(msgs@, p, i);
    }
    if forall|j: int|
        0 <= j < msgs@.len() ==> !looks_like_the_post(bot_id, #[trigger] msgs@[j]) {
        lemma_first_where_none(msgs@, p);
    }
}

/// A post on record is edited where it stands, and the refresh is over once it
/// was. One whose ids are no numbers is left alone. Where there is none, or it
/// is gone, it is looked for from the channel that it goes to.
pub proof fn known_post_is_edited_in_place(
    s: SharedView,
    g: GuildInfo,
    channel: u64,
    message: u64,
)
    ensures
        refresh_step(
            post_recorded(s, g.id, channel, message),
            g,
            RefreshEvent::Start,
        ) == (RefreshAction::Edit { channel, message }),
        refresh_step(s, g, RefreshEvent::Edited) == RefreshAction::Done,
        guild_of(s.consent, g.id).consent_post matches Some(p) && (parsed_u64(p.channel_id) is None
            || parsed_u64(p.message_id) is None) ==> refresh_step(s, g, RefreshEvent::Start)
            == RefreshAction::Done,
        guild_of(s.consent, g.id).consent_post is None ==> refresh_step(s, g, RefreshEvent::Start)
            == refresh_step(s, g, RefreshEvent::EditFailed),
        post_channel(g) matches Some(c) ==> refresh_step(s, g, RefreshEvent::EditFailed) == (
        RefreshAction::Ensure { fallback: c }),
        post_channel(g) is None ==> refresh_step(s, g, RefreshEvent::EditFailed)
            == RefreshAction::NoChannel,
{
    text::decimal_round_trip(channel);
    text::decimal_round_trip(message);
}

/// How a search goes. It begins only where no usable post is on record, and
/// waits where another one runs; it then lists the channels, reads the one where
/// the post is looked for, adopts what it finds there or else sends, and with
/// that, or when it is given up, it is over.
pub proof fn searches_go_step_by_step(
    s: SharedView,
    gid: u64,
    gone: Option<PostView>,
    fallback: u64,
    listed: Option<Vec<ChannelInfo>>,
    target: u64,
    messages: Option<Vec<PostedMessage>>,
    message: u64,
)
    ensures
        ({
            let first = ensure_step(s, gid, gone, fallback, EnsureEvent::Start);
            let on_record = guild_of(s.consent, gid).consent_post;
            let usable = on_record is Some && on_record != gone;
            &&& usable ==> first == EnsureAction::Done
            &&& !usable && s.post_search ==> first == EnsureAction::Wait
            &&& !usable && !s.post_search ==> first == EnsureAction::ListChannels
        }),
        ensure_step(s, gid, gone, fallback, EnsureEvent::Listed(listed)) == (
        EnsureAction::ReadHistory { target: search_channel(listed, fallback) }),
        ({
            let next = ensure_step(
                s,
                gid,
                gone,
                fallback,
                EnsureEvent::History { target, messages },
            );
            let me = match s.bot_id {
                Some(b) => b,
                None => 0,
            };
            &&& adoptable(me, messages) == Some(message) ==> next == (EnsureAction::Adopt {
                target,
                message,
            })
            &&& adoptable(me, messages) is None ==> next == (EnsureAction::Send { target })
        }),
        ensure_step(s, gid, gone, fallback, EnsureEvent::Adopted { target, message })
            == EnsureAction::Done,
        ensure_step(s, gid, gone, fallback, EnsureEvent::Sent { target, posted: Some(message) })
            == EnsureAction::Done,
        ensure_step(s, gid, gone, fallback, EnsureEvent::Sent { target, posted: None })
            == EnsureAction::Done,
        ensure_step(s, gid, gone, fallback, EnsureEvent::Abandoned) == EnsureAction::Done,
{
}

/// What a search leaves behind: from its start on no other one runs, and at its
/// end others may; what it adopted or sent is on record for that server, and
/// nothing else has changed.
pub proof fn searches_record_what_they_did(
    s: SharedView,
    gid: u64,
    gone: Option<PostView>,
    event: EnsureEvent,
    other: u64,
    target: u64,
    message: u64,
)
    ensures
        ({
            let t = ensure_state(s, gid, gone, event);
            let before = guild_of(s.consent, gid);
            let after = guild_of(t.consent, gid);
            let recorded = Some(
                PostView {
                    channel_id: decimal(target as nat),
                    message_id: decimal(message as nat),
                },
            );
            let usable = before.consent_post is Some && before.consent_post != gone;
            &&& t == (SharedView { consent: t.consent, post_search: t.post_search, ..s })
            &&& other != gid ==> guild_of(t.consent, other) == guild_of(s.consent, other)
            &&& after.active_channels == before.active_channels
            &&& after.opted_users == before.opted_users
            &&& after.grandfathered == before.grandfathered
            &&& event == (EnsureEvent::Adopted { target, message }) ==> after.consent_post
                == recorded
            &&& event == (EnsureEvent::Sent { target, posted: Some(message) })
                ==> after.consent_post == recorded
            &&& !(event is Adopted) && !(event is Sent && event->Sent_posted is Some)
                ==> t.consent == s.consent
            &&& event is Start ==> t.post_search == (s.post_search || !usable)
            &&& event is Listed || event is History ==> t.post_search == s.post_search
            &&& event is Adopted || event is Sent || event is Abandoned ==> !t.post_search
        }),
{
}

/// The post tells of the last restart: it is the same but for the time, and
/// different times show.
pub proof fn post_shows_the_restart(a: u64, b: u64)
    ensures
        ({
            let head = MARKER@ + POST@ + "\n\n-# last restart: <t:"@;
            let n = head.len() as int;
            &&& post_body(a).take(n) == head
            &&& post_body(a).skip(n) == decimal(a as nat) + ":f>"@
            &&& post_body(a) == post_body(b) ==> a == b
        }),
{
    let head = MARKER@ + POST@ + "\n\n-# last restart: <t:"@;
    let n = head.len() as int;
    let (x, y) = (decimal(a as nat), decimal(b as nat));
    let tail = ":f>"@;
    assert(post_body(a).take(n) =~= head);
    assert(post_body(a).skip(n) =~= x + tail);
    assert(post_body(b).skip(n) =~= y + tail);
    if post_body(a) == post_body(b) {
        assert(x.len() == y.len());
        assert(x =~= (x + tail).take(x.len() as int));
        assert(y =~= (y + tail).take(x.len() as int));
        text::decimal_injective(a as nat, b as nat);
    }
}

} // verus!
