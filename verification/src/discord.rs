//! What comes in from Discord, under the consent rules. Messages that the
//! rules do not admit are never buffered and never seen.

use vstd::prelude::*;

use crate::buffer::MsgEvent;
use crate::consent::{guild_of, is_opted, opt_in, opt_out, opted_in, opted_out, with_channel};
use crate::post::{is_post, is_the_post, own_id};
use crate::scope::Scope;
use crate::state::{Shared, SharedView};
use crate::text;
use crate::text::{decimal, opt_text, texts};

verus! {

/// A message as it comes in.
pub struct IncomingMessage {
    pub id: u64,
    pub channel_id: u64,
    /// The server; a DM has none.
    pub guild_id: Option<u64>,
    pub author_id: u64,
    pub author_name: String,
    pub author_is_bot: bool,
    pub content: String,
    pub attachment_urls: Vec<String>,
    /// The users that the message mentions.
    pub mentioned: Vec<u64>,
    pub timestamp: String,
    /// The message that it replies to, where Discord sent it along.
    pub referenced_message: Option<u64>,
    /// The message that it refers to.
    pub message_reference: Option<u64>,
}

/// A message mentions the bot.
pub open spec fn mentions_me(s: SharedView, m: IncomingMessage) -> bool {
    own_id(s) != 0 && m.mentioned@.contains(own_id(s))
}

/// The message is the bot's own.
pub open spec fn is_own(s: SharedView, m: IncomingMessage) -> bool {
    m.author_id == own_id(s)
}

/// The author of a message opted in on its server.
pub open spec fn author_opted(s: SharedView, m: IncomingMessage, gid: u64) -> bool {
    is_opted(s, gid, decimal(m.author_id as nat))
}

/// The bot inhabits the channel of a message.
pub open spec fn inhabited(s: SharedView, m: IncomingMessage, gid: u64) -> bool {
    guild_of(s.consent, gid).active_channels.contains(decimal(m.channel_id as nat))
}

/// An opted-in person mentions the bot in a channel that it does not inhabit.
pub open spec fn summons(s: SharedView, m: IncomingMessage, gid: u64) -> bool {
    !inhabited(s, m, gid) && mentions_me(s, m) && author_opted(s, m, gid)
}

/// The first consent rule: dormant channels are invisible until an opted-in
/// person mentions the bot there. Mentions carry no privileges for anyone else.
pub open spec fn reaches(s: SharedView, m: IncomingMessage) -> Option<u64> {
    match m.guild_id {
        Some(gid) => if !is_own(s, m) && (inhabited(s, m, gid) || summons(s, m, gid)) {
            Some(gid)
        } else {
            None
        },
        None => None,
    }
}

/// The second consent rule: people who did not opt in are stripped at ingest.
/// Other bots have no privacy interest, and writing a DM is consent.
pub open spec fn heard(s: SharedView, m: IncomingMessage) -> bool {
    match m.guild_id {
        None => !is_own(s, m),
        Some(gid) => reaches(s, m) is Some && (m.author_is_bot || author_opted(s, m, gid)),
    }
}

/// The scope of a message: its server, or its own DM.
pub open spec fn scope_of(m: IncomingMessage) -> Scope {
    match m.guild_id {
        Some(gid) => Scope::Guild(gid),
        None => Scope::Dm(m.channel_id),
    }
}

/// The state after a message was looked at: a summons makes its channel
/// inhabited.
pub open spec fn admitted(s: SharedView, m: IncomingMessage) -> SharedView {
    match m.guild_id {
        Some(gid) => if !is_own(s, m) && summons(s, m, gid) {
            SharedView {
                consent: s.consent.insert(
                    gid,
                    with_channel(guild_of(s.consent, gid), decimal(m.channel_id as nat)),
                ),
                ..s
            }
        } else {
            s
        },
        None => s,
    }
}

/// The attachments of a message, a line for each.
pub open spec fn attachment_lines(urls: Seq<Seq<char>>) -> Seq<char>
    decreases urls.len(),
{
    if urls.len() == 0 {
        Seq::empty()
    } else {
        attachment_lines(urls.drop_last()) + "\n[attachment: "@ + urls.last() + "]"@
    }
}

/// The message that a message answers: the one sent along, else the one that it
/// refers to.
pub open spec fn reply_target(m: IncomingMessage) -> Option<Seq<char>> {
    match m.referenced_message {
        Some(id) => Some(decimal(id as nat)),
        None => match m.message_reference {
            Some(id) => Some(decimal(id as nat)),
            None => None,
        },
    }
}

/// A buffered message shows what came in.
pub open spec fn shows(e: MsgEvent, s: SharedView, m: IncomingMessage) -> bool {
    &&& e.message_id@ == decimal(m.id as nat)
    &&& e.channel_id@ == decimal(m.channel_id as nat)
    &&& e.is_dm == (m.guild_id is None)
    &&& e.author_id@ == decimal(m.author_id as nat)
    &&& e.author_name@ == m.author_name@
    &&& e.author_is_bot == m.author_is_bot
    &&& e.content@ == m.content@ + attachment_lines(texts(m.attachment_urls@))
    &&& e.timestamp@ == m.timestamp@
    &&& e.mentions_me == mentions_me(s, m)
    &&& opt_text(e.reply_to_message_id) == reply_target(m)
    &&& e.scope == scope_of(m)
}

/// A message that the consent rules admitted, on its way to the buffer. Only
/// `message` makes one.
pub struct Draft {
    ev: MsgEvent,
}

impl View for Draft {
    type V = MsgEvent;

    closed spec fn view(&self) -> MsgEvent {
        self.ev
    }
}

/// What to do about a message.
pub struct Admission {
    /// The server whose consent post is to be made sure of. It is normally
    /// there since the server was joined.
    pub post: Option<u64>,
    /// The message summoned the bot into its channel: the consent record
    /// changed.
    pub summoned: bool,
    /// The message, where the consent rules admit it.
    pub draft: Option<Draft>,
}

fn mentioned(shared: &Shared, m: &IncomingMessage) -> (res: bool)
    ensures
        res == mentions_me(shared@, *m),
{
    let bot_id: u64 = me(shared);
    if bot_id == 0 {
        return false;
    }
    let mut i: usize = 0;
    while i < m.mentioned.len()
        invariant
            i <= m.mentioned@.len(),
            bot_id == own_id(shared@),
            bot_id != 0,
            forall|j: int| 0 <= j < i ==> m.mentioned@[j] != bot_id,
        decreases m.mentioned@.len() - i,
    {
        if m.mentioned[i] == bot_id {
            assert(m.mentioned@[i as int] == own_id(shared@));
            return true;
        }
        i += 1;
    }
    false
}

/// The bot's own id, zero before it is known.
pub fn me(shared: &Shared) -> (id: u64)
    ensures
        id == own_id(shared@),
{
    match shared.bot_id {
        Some(b) => b,
        None => 0,
    }
}

/// The state once the bot was told its id: the first one that it was told.
pub open spec fn introduced(s: SharedView, id: u64) -> SharedView {
    SharedView {
        bot_id: match s.bot_id {
            Some(b) => Some(b),
            None => Some(id),
        },
        ..s
    }
}

/// The gateway is up: the bot learns its own id, once.
pub fn ready(shared: &mut Shared, id: u64)
    ensures
        final(shared)@ == (SharedView {
            bot_id: match old(shared)@.bot_id {
                Some(b) => Some(b),
                None => Some(id),
            },
            ..old(shared)@
        }),
        final(shared)@ == introduced(old(shared)@, id),
{
    if shared.bot_id.is_none() {
        shared.bot_id = Some(id);
    }
}

fn full_content(m: &IncomingMessage) -> (s: String)
    ensures
        s@ == m.content@ + attachment_lines(texts(m.attachment_urls@)),
{
    let ghost urls = texts(m.attachment_urls@);
    let mut s = m.content.clone();
    let mut i: usize = 0;
    assert(urls.take(0) =~= Seq::empty());
    assert(s@ =~= m.content@ + attachment_lines(urls.take(0)));
    while i < m.attachment_urls.len()
        invariant
            i <= m.attachment_urls@.len(),
            urls == texts(m.attachment_urls@),
            s@ == m.content@ + attachment_lines(urls.take(i as int)),
        decreases m.attachment_urls@.len() - i,
    {
        s.append("\n[attachment: ");
        s.append(m.attachment_urls[i].as_str());
        s.append("]");
        assert(urls.take(i + 1).drop_last() =~= urls.take(i as int));
        assert(s@ =~= m.content@ + attachment_lines(urls.take(i + 1)));
        i += 1;
    }
    assert(urls.take(i as int) =~= urls);
    s
}

fn draft(m: &IncomingMessage, mentions: bool) -> (d: Draft)
    ensures
        forall|s: SharedView| #[trigger] mentions_me(s, *m) == mentions ==> shows(d@, s, *m),
{
    let reply_to_message_id = match m.referenced_message {
        Some(id) => Some(text::u64_to_string(id)),
        None => match m.message_reference {
            Some(id) => Some(text::u64_to_string(id)),
            None => None,
        },
    };
    Draft {
        ev: MsgEvent {
            seq: 0,
            message_id: text::u64_to_string(m.id),
            channel_id: text::u64_to_string(m.channel_id),
            channel_name: None,
            guild_name: None,
            is_dm: m.guild_id.is_none(),
            author_id: text::u64_to_string(m.author_id),
            author_name: m.author_name.clone(),
            author_is_bot: m.author_is_bot,
            content: full_content(m),
            timestamp: m.timestamp.clone(),
            mentions_me: mentions,
            reply_to_message_id,
            scope: match m.guild_id {
                Some(gid) => Scope::Guild(gid),
                None => Scope::Dm(m.channel_id),
            },
        },
    }
}

/// Applies the consent rules to a message.
pub fn message(shared: &mut Shared, m: &IncomingMessage) -> (a: Admission)
    ensures
        final(shared)@ == admitted(old(shared)@, *m),
        a.post == reaches(old(shared)@, *m),
        a.summoned == (m.guild_id matches Some(gid) && !is_own(old(shared)@, *m) && summons(
            old(shared)@,
            *m,
            gid,
        )),
        a.draft is Some == heard(old(shared)@, *m),
        a.draft matches Some(d) ==> shows(d@, old(shared)@, *m),
{
    if m.author_id == me(shared) {
        return Admission { post: None, summoned: false, draft: None };
    }
    let mentions = mentioned(shared, m);
    let gid: u64 = match m.guild_id {
        Some(g) => g,
        None => {
            return Admission { post: None, summoned: false, draft: Some(draft(m, mentions)) };
        },
    };
    let channel = text::u64_to_string(m.channel_id);
    let author = text::u64_to_string(m.author_id);
    let guild = shared.consent.guild(gid);
    let active = guild.active_channels.contains(&channel);
    let opted = guild.opted_users.contains_key(&author);
    if !active {
        if !(mentions && opted) {
            return Admission { post: None, summoned: false, draft: None };
        }
        shared.consent.add_channel(gid, channel.as_str());
    }
    let draft = if m.author_is_bot || opted {
        Some(draft(m, mentions))
    } else {
        None
    };
    Admission { post: Some(gid), summoned: !active, draft }
}

/// A message under the names of its channel and server.
pub open spec fn named(
    e: MsgEvent,
    channel_name: Option<String>,
    guild_name: Option<String>,
) -> MsgEvent {
    MsgEvent { channel_name, guild_name, ..e }
}

/// A message may be buffered: on a server, it is by a bot or by a person who is
/// opted in there, in a channel that the bot inhabits. DMs are consent.
pub open spec fn allowed(s: SharedView, e: MsgEvent) -> bool {
    match e.scope {
        Scope::Guild(g) => (e.author_is_bot || is_opted(s, g, e.author_id@)) && guild_of(
            s.consent,
            g,
        ).active_channels.contains(e.channel_id@),
        Scope::Dm(_) => true,
    }
}

/// The state after a message came to the buffer: it is stored where it may be,
/// by the consent that holds then.
pub open spec fn ingested(s: SharedView, e: MsgEvent) -> SharedView {
    if allowed(s, e) {
        SharedView { buffer: s.buffer.pushed(e), ..s }
    } else {
        s
    }
}

/// Buffers an admitted message under the names of its channel and server. One
/// whose author opted out, or whose channel was left, since it was admitted is
/// dropped.
pub fn ingest(
    shared: &mut Shared,
    draft: Draft,
    channel_name: Option<String>,
    guild_name: Option<String>,
)
    requires
        old(shared)@.buffer.next_seq < u64::MAX,
    ensures
        final(shared)@ == ingested(old(shared)@, named(draft@, channel_name, guild_name)),
{
    let mut ev = draft.ev;
    ev.channel_name = channel_name;
    ev.guild_name = guild_name;
    let may_be = match ev.scope {
        Scope::Guild(g) => {
            let guild = shared.consent.guild(g);
            (ev.author_is_bot || guild.opted_users.contains_key(&ev.author_id))
                && guild.active_channels.contains(&ev.channel_id)
        },
        Scope::Dm(_) => true,
    };
    if may_be {
        shared.push_event(ev);
    }
}

/// A message that is heard is buffered, where nothing happens in between.
pub proof fn heard_message_is_buffered(
    s: SharedView,
    m: IncomingMessage,
    e: MsgEvent,
    channel_name: Option<String>,
    guild_name: Option<String>,
)
    requires
        heard(s, m),
        shows(e, s, m),
    ensures
        ({
            let t = admitted(s, m);
            let ev = named(e, channel_name, guild_name);
            ingested(t, ev) == (SharedView { buffer: t.buffer.pushed(ev), ..t })
        }),
{
}

/// People are invisible until they opt in: a message on a server by a person
/// who did not is never heard, mention or not, and neither is the bot's own.
pub proof fn unopted_people_are_not_heard(s: SharedView, m: IncomingMessage, gid: u64)
    requires
        m.guild_id == Some(gid),
    ensures
        !m.author_is_bot && !author_opted(s, m, gid) ==> !heard(s, m),
        is_own(s, m) ==> !heard(s, m) && admitted(s, m) == s,
{
}

/// Channels are dormant until an opted-in person mentions the bot there: any
/// other message in a channel that is not inhabited is not heard and changes
/// nothing; such a mention is heard and makes the channel inhabited, and no
/// other channel.
pub proof fn dormant_until_summoned(
    s: SharedView,
    m: IncomingMessage,
    gid: u64,
    other: Seq<char>,
)
    requires
        m.guild_id == Some(gid),
        !inhabited(s, m, gid),
        !is_own(s, m),
    ensures
        !(mentions_me(s, m) && author_opted(s, m, gid)) ==> !heard(s, m) && admitted(s, m) == s
            && reaches(s, m) is None,
        mentions_me(s, m) && author_opted(s, m, gid) ==> heard(s, m) && inhabited(
            admitted(s, m),
            m,
            gid,
        ),
        other != decimal(m.channel_id as nat) ==> guild_of(
            admitted(s, m).consent,
            gid,
        ).active_channels.contains(other) == guild_of(s.consent, gid).active_channels.contains(
            other,
        ),
{
}

/// Writing a DM is consent: every DM that is not the bot's own is heard, in a
/// scope of its own.
pub proof fn dms_are_heard(s: SharedView, m: IncomingMessage)
    requires
        m.guild_id is None,
        !is_own(s, m),
    ensures
        heard(s, m),
        scope_of(m) == Scope::Dm(m.channel_id),
        admitted(s, m) == s,
{
}

/// Whatever is buffered was admitted: on a server it is by a bot or by a person
/// who opted in there, in a channel that is inhabited once it was looked at.
pub proof fn buffered_messages_have_consent(s: SharedView, m: IncomingMessage, e: MsgEvent)
    requires
        heard(s, m),
        shows(e, s, m),
    ensures
        match e.scope {
            Scope::Guild(gid) => (e.author_is_bot || is_opted(s, gid, e.author_id@)) && guild_of(
                admitted(s, m).consent,
                gid,
            ).active_channels.contains(e.channel_id@),
            Scope::Dm(ch) => e.is_dm && e.channel_id@ == decimal(ch as nat),
        },
        e.author_id@ != decimal(own_id(s) as nat),
{
    if decimal(m.author_id as nat) == decimal(own_id(s) as nat) {
        text::decimal_injective(m.author_id as nat, own_id(s) as nat);
    }
}

// ---- reactions ----

/// A reaction, or its removal.
pub struct ReactionEvent {
    pub guild_id: Option<u64>,
    pub user_id: Option<u64>,
    pub message_id: u64,
}

/// The server and the person, where a reaction counts: it is on the server's
/// consent post, and not the bot's own.
pub open spec fn counts(s: SharedView, r: ReactionEvent) -> Option<(u64, u64)> {
    match (r.guild_id, r.user_id) {
        (Some(gid), Some(user)) => if own_id(s) != 0 && user != own_id(s) && is_the_post(
            s,
            gid,
            r.message_id,
        ) {
            Some((gid, user))
        } else {
            None
        },
        _ => None,
    }
}

/// The server and the person, where a reaction counts.
pub fn reaction_counts(shared: &Shared, r: &ReactionEvent) -> (res: Option<(u64, u64)>)
    ensures
        res == counts(shared@, *r),
{
    match r.guild_id {
        Some(gid) => match r.user_id {
            Some(user) => {
                let bot_id: u64 = me(shared);
                if bot_id != 0 && user != bot_id && is_post(shared, gid, r.message_id) {
                    Some((gid, user))
                } else {
                    None
                }
            },
            None => None,
        },
        None => None,
    }
}

/// The name to record: as the event has it, else as it was looked up, else the
/// id.
pub open spec fn name_on_record(
    member: Option<Seq<char>>,
    looked_up: Option<Seq<char>>,
    user: u64,
) -> Seq<char> {
    match member {
        Some(n) => n,
        None => match looked_up {
            Some(n) => n,
            None => decimal(user as nat),
        },
    }
}

/// The name to record for a person.
pub fn display_name(member: Option<String>, looked_up: Option<String>, user: u64) -> (name: String)
    ensures
        name@ == name_on_record(opt_text(member), opt_text(looked_up), user),
{
    match member {
        Some(n) => n,
        None => match looked_up {
            Some(n) => n,
            None => text::u64_to_string(user),
        },
    }
}

/// The state after a reaction: reacting to the server's consent post is opting
/// in, to that server only.
pub open spec fn reacted(s: SharedView, r: ReactionEvent, name: Seq<char>) -> SharedView {
    match counts(s, r) {
        Some((gid, user)) => opted_in(s, gid, decimal(user as nat), name),
        None => s,
    }
}

/// Reacting to the server's consent post is opting in, to that server only.
/// Tells whether the person is newly opted in.
pub fn reaction_add(shared: &mut Shared, r: &ReactionEvent, name: &str) -> (newly: bool)
    ensures
        final(shared)@ == reacted(old(shared)@, *r, name@),
        newly == (counts(old(shared)@, *r) matches Some(p) && !is_opted(
            old(shared)@,
            p.0,
            decimal(p.1 as nat),
        )),
{
    match reaction_counts(shared, r) {
        Some((gid, user)) => {
            let id = text::u64_to_string(user);
            opt_in(shared, gid, id.as_str(), name)
        },
        None => false,
    }
}

/// The state after a reaction was removed: removing it from the consent post is
/// opting back out.
pub open spec fn unreacted(s: SharedView, r: ReactionEvent) -> SharedView {
    match counts(s, r) {
        Some((gid, user)) => opted_out(s, gid, decimal(user as nat)),
        None => s,
    }
}

/// Removing a reaction from the consent post is opting back out. Hands out the
/// name of the person, where they were opted in.
pub fn reaction_remove(shared: &mut Shared, r: &ReactionEvent) -> (name: Option<String>)
    ensures
        final(shared)@ == unreacted(old(shared)@, *r),
        match (counts(old(shared)@, *r), name) {
            (Some((gid, user)), Some(n)) => is_opted(old(shared)@, gid, decimal(user as nat))
                && n@ == guild_of(old(shared)@.consent, gid).opted_users[decimal(user as nat)],
            (Some((gid, user)), None) => !is_opted(old(shared)@, gid, decimal(user as nat)),
            (None, n) => n is None,
        },
{
    match reaction_counts(shared, r) {
        Some((gid, user)) => {
            let id = text::u64_to_string(user);
            opt_out(shared, gid, id.as_str())
        },
        None => None,
    }
}

/// The reaction on the consent post is what decides: with it a person is opted
/// in, without it they are not, and a reaction anywhere else changes nothing.
pub proof fn the_reaction_decides(s: SharedView, r: ReactionEvent, name: Seq<char>)
    ensures
        counts(s, r) matches Some((gid, user)) ==> is_opted(
            reacted(s, r, name),
            gid,
            decimal(user as nat),
        ) && !is_opted(unreacted(s, r), gid, decimal(user as nat)),
        r.guild_id matches Some(gid) && !is_the_post(s, gid, r.message_id) ==> reacted(s, r, name)
            == s && unreacted(s, r) == s,
        r.guild_id is None ==> reacted(s, r, name) == s && unreacted(s, r) == s,
{
}

/// Who is heard in a channel that the bot inhabits: bots and opted-in people,
/// whatever the message holds or mentions; nobody else but for DMs.
pub proof fn inhabited_channel_is_heard(s: SharedView, m: IncomingMessage, gid: u64)
    requires
        m.guild_id == Some(gid),
        s.bot_id matches Some(b) ==> m.author_id != b,
        s.bot_id is None ==> m.author_id != 0,
        guild_of(s.consent, gid).active_channels.contains(decimal(m.channel_id as nat)),
    ensures
        heard(s, m) <==> m.author_is_bot || guild_of(s.consent, gid).opted_users.contains_key(
            decimal(m.author_id as nat),
        ),
        reaches(s, m) == Some(gid),
        admitted(s, m) == s,
{
}

/// What a message does in a channel that the bot does not inhabit: where an
/// opted-in person mentions the bot, it is heard, and the channel is inhabited
/// from then on; else it is not heard, no post is made sure of, and nothing
/// changes.
pub proof fn only_a_summons_opens_a_channel(
    s: SharedView,
    m: IncomingMessage,
    gid: u64,
    other: u64,
)
    requires
        m.guild_id == Some(gid),
        s.bot_id matches Some(b) ==> m.author_id != b,
        s.bot_id is None ==> m.author_id != 0,
        !guild_of(s.consent, gid).active_channels.contains(decimal(m.channel_id as nat)),
    ensures
        ({
            let t = admitted(s, m);
            let opted = guild_of(s.consent, gid).opted_users.contains_key(
                decimal(m.author_id as nat),
            );
            let called = s.bot_id matches Some(b) && b != 0 && m.mentioned@.contains(b);
            &&& heard(s, m) == (opted && called)
            &&& reaches(s, m) is Some == (opted && called)
            &&& reaches(s, m) matches Some(g) ==> g == gid
            &&& !(opted && called) ==> t == s
            &&& opted && called ==> {
                let before = guild_of(s.consent, gid);
                let after = guild_of(t.consent, gid);
                &&& after.active_channels == before.active_channels.insert(
                    decimal(m.channel_id as nat),
                )
                &&& after.opted_users == before.opted_users
                &&& after.consent_post == before.consent_post
                &&& after.grandfathered == before.grandfathered
                &&& other != gid ==> guild_of(t.consent, other) == guild_of(s.consent, other)
                &&& t == (SharedView { consent: t.consent, ..s })
            }
        }),
{
}

/// Outside of servers every message but the bot's own is heard, and the bot's
/// own is heard nowhere; neither changes anything.
pub proof fn own_messages_and_dms(s: SharedView, m: IncomingMessage)
    ensures
        ({
            let own = match s.bot_id {
                Some(b) => m.author_id == b,
                None => m.author_id == 0,
            };
            &&& own ==> !heard(s, m) && admitted(s, m) == s && reaches(s, m) is None
            &&& m.guild_id is None ==> heard(s, m) == !own && admitted(s, m) == s && reaches(
                s,
                m,
            ) is None
        }),
{
}

/// A message is buffered as it came in: its ids, its author, its time and what
/// it mentions, and its text with a line for each attachment.
pub proof fn messages_are_shown_as_they_came(e: MsgEvent, s: SharedView, m: IncomingMessage)
    requires
        shows(e, s, m),
    ensures
        e.message_id@ == decimal(m.id as nat),
        e.channel_id@ == decimal(m.channel_id as nat),
        e.author_id@ == decimal(m.author_id as nat),
        e.author_name@ == m.author_name@,
        e.author_is_bot == m.author_is_bot,
        e.timestamp@ == m.timestamp@,
        e.is_dm <==> m.guild_id is None,
        e.mentions_me <==> (s.bot_id matches Some(b) && b != 0 && m.mentioned@.contains(b)),
        m.guild_id matches Some(g) ==> e.scope == Scope::Guild(g),
        m.guild_id is None ==> e.scope == Scope::Dm(m.channel_id),
        m.referenced_message matches Some(r) ==> opt_text(e.reply_to_message_id) == Some(
            decimal(r as nat),
        ),
        m.referenced_message is None ==> (m.message_reference matches Some(r) ==> opt_text(
            e.reply_to_message_id,
        ) == Some(decimal(r as nat))),
        m.referenced_message is None && m.message_reference is None
            ==> e.reply_to_message_id is None,
        m.attachment_urls@.len() == 0 ==> e.content@ == m.content@,
        e.content@.take(m.content@.len() as int) == m.content@,
{
    assert(e.content@.take(m.content@.len() as int) =~= m.content@);
    if m.attachment_urls@.len() == 0 {
        assert(texts(m.attachment_urls@) =~= Seq::empty());
        assert(e.content@ =~= m.content@);
    }
}

/// Of two messages that differ only in that the second has one more attachment,
/// the second shows the text of the first and one more line.
pub proof fn each_attachment_adds_a_line(
    e: MsgEvent,
    f: MsgEvent,
    s: SharedView,
    m: IncomingMessage,
    n: IncomingMessage,
    url: Seq<char>,
)
    requires
        shows(e, s, m),
        shows(f, s, n),
        n.content@ == m.content@,
        texts(n.attachment_urls@) == texts(m.attachment_urls@).push(url),
    ensures
        f.content@ == e.content@ + "\n[attachment: "@ + url + "]"@,
{
    let urls = texts(m.attachment_urls@);
    assert(urls.push(url).drop_last() =~= urls);
    assert(f.content@ =~= e.content@ + "\n[attachment: "@ + url + "]"@);
}

/// What comes to the buffer is stored, under the names given and otherwise as it
/// is, exactly where it is a DM, or by a bot or an opted-in person in a channel
/// that the bot inhabits; else nothing changes.
pub proof fn ingest_asks_for_consent(
    s: SharedView,
    e: MsgEvent,
    channel_name: Option<String>,
    guild_name: Option<String>,
)
    ensures
        ({
            let n = named(e, channel_name, guild_name);
            let may_be = match e.scope {
                Scope::Dm(_) => true,
                Scope::Guild(g) => guild_of(s.consent, g).active_channels.contains(e.channel_id@)
                    && (e.author_is_bot || guild_of(s.consent, g).opted_users.contains_key(
                    e.author_id@,
                )),
            };
            &&& n.channel_name == channel_name && n.guild_name == guild_name
            &&& e == (MsgEvent { channel_name: e.channel_name, guild_name: e.guild_name, ..n })
            &&& may_be ==> ingested(s, n) == (SharedView { buffer: s.buffer.pushed(n), ..s })
            &&& !may_be ==> ingested(s, n) == s
        }),
{
}

/// A reaction counts where it is a person's, on the post that is on record for
/// the server, once the bot knows itself. It then opts the person in under their
/// name, and its removal opts them out, as if they were on that server alone; no
/// other reaction does anything.
pub proof fn reactions_on_the_post_count(
    s: SharedView,
    r: ReactionEvent,
    name: Seq<char>,
    gid: u64,
    user: u64,
)
    ensures
        ({
            let on_post = guild_of(s.consent, gid).consent_post matches Some(p) && p.message_id
                == decimal(r.message_id as nat);
            let counts_for = r.guild_id == Some(gid) && r.user_id == Some(user) && on_post
                && (s.bot_id matches Some(b) && b != 0 && b != user);
            &&& counts(s, r) == Some((gid, user)) <==> counts_for
            &&& counts_for ==> guild_of(reacted(s, r, name).consent, gid).opted_users == guild_of(
                s.consent,
                gid,
            ).opted_users.insert(decimal(user as nat), name)
            &&& counts_for ==> unreacted(s, r) == opted_out(s, gid, decimal(user as nat))
            &&& counts(s, r) is None ==> reacted(s, r, name) == s && unreacted(s, r) == s
        }),
{
}

/// The name that is put on record: the event's own, else the one looked up, else
/// the id.
pub proof fn names_fall_back(a: Seq<char>, b: Option<Seq<char>>, c: Seq<char>, user: u64)
    ensures
        name_on_record(Some(a), b, user) == a,
        name_on_record(None, Some(c), user) == c,
        name_on_record(None, None, user) == decimal(user as nat),
{
}

/// The bot learns its id once: the first one that it is told stays, whatever it
/// is told later, and nothing else changes.
pub proof fn bot_learns_its_id_once(s: SharedView, id: u64, other: u64)
    ensures
        s.bot_id is None ==> introduced(s, id).bot_id == Some(id),
        s.bot_id is Some ==> introduced(s, id) == s,
        introduced(introduced(s, id), other) == introduced(s, id),
        introduced(s, id) == (SharedView { bot_id: introduced(s, id).bot_id, ..s }),
{
}

} // verus!
