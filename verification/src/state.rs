//! The daemon's shared state: who consented, what is buffered, which sessions
//! and tokens are live.

use vstd::prelude::*;

use crate::assoc::{AssocMap, Copied, StrSet};
use crate::buffer::{targets, Buffer, BufferView, MsgEvent, WakeTarget};
use crate::config::Config;
use crate::consent::{guild_of, Consent, GuildView};
use crate::persona::{behavior_of, Behavior, BehaviorView, Behaviors};
use crate::rows::{lemma_next_is_fresh, lemma_push};
use crate::scope::Scope;
use crate::text;
use crate::text::{decimal, hex, opt_text, texts};

verus! {

/// Per-channel session bookkeeping.
pub struct SessState {
    pub session_id: Option<String>,
    pub wakes: u64,
    pub failures: u32,
}

pub struct SessView {
    pub session_id: Option<Seq<char>>,
    pub wakes: u64,
    pub failures: u32,
}

impl View for SessState {
    type V = SessView;

    open spec fn view(&self) -> SessView {
        SessView {
            session_id: opt_text(self.session_id),
            wakes: self.wakes,
            failures: self.failures,
        }
    }
}

impl Copied for SessState {
    fn copied(&self) -> (res: Self) {
        SessState {
            session_id: self.session_id.clone(),
            wakes: self.wakes,
            failures: self.failures,
        }
    }
}

/// No session, no wakes, no failures.
pub open spec fn no_session() -> SessView {
    SessView { session_id: None, wakes: 0, failures: 0 }
}

impl Default for SessState {
    fn default() -> (s: Self)
        ensures
            s@ == no_session(),
    {
        SessState { session_id: None, wakes: 0, failures: 0 }
    }
}

/// The session record of a channel; one without a record has no session.
pub open spec fn session_of(m: Map<Seq<char>, SessView>, ch: Seq<char>) -> SessView {
    if m.contains_key(ch) {
        m[ch]
    } else {
        no_session()
    }
}

/// What a session token resolves to: the one channel and scope that turn may touch.
pub struct TurnCtx {
    pub channel_id: String,
    pub scope: Scope,
    pub is_dm: bool,
    /// Maintenance turns (persona scrubs) may not speak.
    pub maintenance: bool,
}

pub struct TurnView {
    pub channel_id: Seq<char>,
    pub scope: Scope,
    pub is_dm: bool,
    pub maintenance: bool,
}

impl View for TurnCtx {
    type V = TurnView;

    open spec fn view(&self) -> TurnView {
        TurnView {
            channel_id: self.channel_id@,
            scope: self.scope,
            is_dm: self.is_dm,
            maintenance: self.maintenance,
        }
    }
}

impl Copied for TurnCtx {
    fn copied(&self) -> (res: Self) {
        TurnCtx {
            channel_id: self.channel_id.clone(),
            scope: self.scope,
            is_dm: self.is_dm,
            maintenance: self.maintenance,
        }
    }
}

/// A queued persona scrub, triggered by an opt-out.
pub struct ScrubJob {
    pub scope: Scope,
    pub user_id: String,
    pub user_name: String,
}

pub struct ScrubView {
    pub scope: Scope,
    pub user_id: Seq<char>,
    pub user_name: Seq<char>,
}

impl View for ScrubJob {
    type V = ScrubView;

    open spec fn view(&self) -> ScrubView {
        ScrubView { scope: self.scope, user_id: self.user_id@, user_name: self.user_name@ }
    }
}

/// The scrub jobs of a row.
pub open spec fn jobs(v: Seq<ScrubJob>) -> Seq<ScrubView> {
    v.map_values(|j: ScrubJob| j@)
}

pub struct Shared {
    pub cfg: Config,
    /// scope -> behavior; missing scope = defaults.
    pub behaviors: Behaviors,
    pub consent: Consent,
    /// channel id -> session.
    pub sessions: AssocMap<String, SessState>,
    /// Live session tokens: the capability a turn presents to use the tools.
    pub tokens: AssocMap<String, TurnCtx>,
    /// Persona scrubs waiting for a maintenance turn.
    pub pending_scrubs: Vec<ScrubJob>,
    /// Channels with a turn in flight / parked in wait_for_messages.
    /// Their difference = channels actively inferring (shown as typing).
    pub typing_active: StrSet,
    pub typing_waiting: StrSet,
    /// Bumped when session transcripts are dropped: in-flight turns that
    /// started before the bump must not re-record their session id afterward.
    pub scrub_gen: u64,
    pub bot_id: Option<u64>,
    /// A search for a consent post is running: one at a time, so that
    /// concurrent events can't double-post.
    pub post_search: bool,
    pub buffer: Buffer,
}

pub struct SharedView {
    pub cfg: Config,
    pub behaviors: Map<Scope, BehaviorView>,
    pub consent: Map<u64, GuildView>,
    pub sessions: Map<Seq<char>, SessView>,
    pub tokens: Map<Seq<char>, TurnView>,
    pub pending_scrubs: Seq<ScrubView>,
    pub typing_active: Set<Seq<char>>,
    pub typing_waiting: Set<Seq<char>>,
    pub scrub_gen: u64,
    pub bot_id: Option<u64>,
    pub post_search: bool,
    pub buffer: BufferView,
}

impl View for Shared {
    type V = SharedView;

    open spec fn view(&self) -> SharedView {
        SharedView {
            cfg: self.cfg,
            behaviors: self.behaviors@,
            consent: self.consent@,
            sessions: self.sessions@,
            tokens: self.tokens@,
            pending_scrubs: jobs(self.pending_scrubs@),
            typing_active: self.typing_active@,
            typing_waiting: self.typing_waiting@,
            scrub_gen: self.scrub_gen,
            bot_id: self.bot_id,
            post_search: self.post_search,
            buffer: self.buffer@,
        }
    }
}

/// The next scrub generation, counted modulo 2^64.
pub open spec fn next_gen(n: u64) -> u64 {
    if n == u64::MAX {
        0
    } else {
        (n + 1) as u64
    }
}

/// The channels whose session transcripts belong to a scope: a DM's own
/// channel, or the channels that the bot inhabits on a server.
pub open spec fn scope_channels(c: Map<u64, GuildView>, scope: Scope) -> Set<Seq<char>> {
    match scope {
        Scope::Dm(ch) => Set::empty().insert(decimal(ch as nat)),
        Scope::Guild(g) => guild_of(c, g).active_channels,
    }
}

impl SharedView {
    /// The state with a scope's session transcripts dropped.
    pub open spec fn scope_dropped(self, scope: Scope) -> SharedView {
        SharedView {
            sessions: self.sessions.remove_keys(scope_channels(self.consent, scope)),
            scrub_gen: next_gen(self.scrub_gen),
            ..self
        }
    }

    /// The state with one channel's session transcript dropped.
    pub open spec fn channel_dropped(self, ch: Seq<char>) -> SharedView {
        SharedView {
            sessions: self.sessions.remove(ch),
            scrub_gen: next_gen(self.scrub_gen),
            ..self
        }
    }

    /// The state with a token made for a turn.
    pub open spec fn token_issued(self, tok: Seq<char>, ctx: TurnView) -> SharedView {
        SharedView { tokens: self.tokens.insert(tok, ctx), ..self }
    }

    /// The state with a token ended.
    pub open spec fn token_dropped(self, tok: Seq<char>) -> SharedView {
        SharedView { tokens: self.tokens.remove(tok), ..self }
    }

    /// What a token stands for, if it is live.
    pub open spec fn resolved(self, tok: Seq<char>) -> Option<TurnView> {
        if self.tokens.contains_key(tok) {
            Some(self.tokens[tok])
        } else {
            None
        }
    }

    /// The channels that should show a typing indicator: a turn is running
    /// there and it is not just parked listening.
    pub open spec fn inferring(self) -> Set<Seq<char>> {
        self.typing_active.difference(self.typing_waiting)
    }
}

impl Shared {
    /// Nothing consented, buffered or running yet.
    pub fn new(cfg: Config) -> (s: Self)
        ensures
            s@ == (SharedView {
                cfg,
                behaviors: Map::empty(),
                consent: Map::empty(),
                sessions: Map::empty(),
                tokens: Map::empty(),
                pending_scrubs: Seq::empty(),
                typing_active: Set::empty(),
                typing_waiting: Set::empty(),
                scrub_gen: 0,
                bot_id: None,
                post_search: false,
                buffer: BufferView { ring: Seq::empty(), next_seq: 0, delivered: Map::empty() },
            }),
    {
        let s = Shared {
            cfg,
            behaviors: AssocMap::new(),
            consent: Consent::default(),
            sessions: AssocMap::new(),
            tokens: AssocMap::new(),
            pending_scrubs: Vec::new(),
            typing_active: StrSet::new(),
            typing_waiting: StrSet::new(),
            scrub_gen: 0,
            bot_id: None,
            post_search: false,
            buffer: Buffer::default(),
        };
        assert(s@.pending_scrubs =~= Seq::empty());
        s
    }

    /// The behavior of a scope: its own, or the default.
    pub fn behavior_for(&self, scope: Scope) -> (b: Behavior)
        ensures
            b@ == behavior_of(self@.behaviors, scope),
    {
        crate::persona::behavior_for(&self.behaviors, scope)
    }

    /// Channels that should show a typing indicator right now: a turn is
    /// running and it is not just parked listening.
    pub fn channels_inferring(&self) -> (out: Vec<String>)
        ensures
            texts(out@).to_set() == self@.inferring(),
            texts(out@).no_duplicates(),
    {
        let n: usize = self.typing_active.len();
        let ghost items = self.typing_active.items();
        let mut out: Vec<String> = Vec::new();
        let mut i: usize = 0;
        while i < n
            invariant
                i <= n == items.len(),
                items == self.typing_active.items(),
                items.no_duplicates(),
                texts(out@).no_duplicates(),
                forall|x: Seq<char>| #[trigger]
                    texts(out@).contains(x) <==> items.take(i as int).contains(x)
                        && !self.typing_waiting@.contains(x),
            decreases n - i,
        {
            let c = self.typing_active.item_at(i);
            let ghost before = out@;
            proof {
                lemma_next_is_fresh(items, i as int);
                assert(!texts(before).contains(c@));
                lemma_push(texts(before), c@);
            }
            if !self.typing_waiting.contains(c) {
                out.push(c.clone());
                assert(texts(out@) =~= texts(before).push(c@));
            }
            i += 1;
        }
        assert(items.take(i as int) =~= items);
        assert(texts(out@).to_set() =~= self@.inferring());
        out
    }

    // ---- session tokens ----

    /// Makes a token for a turn out of fresh random bytes. It stands for the
    /// turn's channel and scope until it is dropped.
    pub fn new_token(&mut self, ctx: TurnCtx, random: &Vec<u8>) -> (tok: String)
        ensures
            tok@ == hex(random@),
            final(self)@ == old(self)@.token_issued(tok@, ctx@),
    {
        let tok = text::to_hex(random);
        self.tokens.insert(tok.clone(), ctx);
        tok
    }

    /// What a token stands for, if it is live.
    pub fn resolve_token(&self, token: &str) -> (res: Option<TurnCtx>)
        ensures
            match res {
                Some(c) => self@.resolved(token@) == Some(c@),
                None => self@.resolved(token@) is None,
            },
    {
        match self.tokens.get(&token.to_owned()) {
            Some(c) => Some(c.copied()),
            None => None,
        }
    }

    /// Ends a token.
    pub fn drop_token(&mut self, token: &str)
        ensures
            final(self)@ == old(self)@.token_dropped(token@),
    {
        self.tokens.remove(&token.to_owned());
    }

    // ---- typing ----

    /// The channel's turn is parked, listening.
    pub fn wait_started(&mut self, channel_id: &str)
        ensures
            final(self)@ == (SharedView {
                typing_waiting: old(self)@.typing_waiting.insert(channel_id@),
                ..old(self)@
            }),
    {
        self.typing_waiting.insert(channel_id.to_owned());
    }

    /// The channel's turn listens no more.
    pub fn wait_ended(&mut self, channel_id: &str)
        ensures
            final(self)@ == (SharedView {
                typing_waiting: old(self)@.typing_waiting.remove(channel_id@),
                ..old(self)@
            }),
    {
        self.typing_waiting.remove(&channel_id.to_owned());
    }

    // ---- session transcripts ----

    /// Drop all session transcripts belonging to one scope and bump the
    /// scrub generation so in-flight turns don't re-record them. Used when
    /// what the bot is allowed to remember changes: persona rewrites, opt-outs.
    pub fn drop_scope_sessions(&mut self, scope: Scope)
        ensures
            final(self)@ == old(self)@.scope_dropped(scope),
    {
        match scope {
            Scope::Dm(ch) => {
                let key = text::u64_to_string(ch);
                self.sessions.remove(&key);
            },
            Scope::Guild(g) => {
                let guild = self.consent.guild(g);
                let n: usize = guild.active_channels.len();
                let ghost items = guild.active_channels.items();
                let mut i: usize = 0;
                while i < n
                    invariant
                        i <= n == items.len(),
                        items == guild.active_channels.items(),
                        self@ == (SharedView { sessions: self@.sessions, ..old(self)@ }),
                        self@.sessions == old(self)@.sessions.remove_keys(
                            items.take(i as int).to_set(),
                        ),
                    decreases n - i,
                {
                    let ch = guild.active_channels.item_at(i);
                    let ghost before = self@.sessions;
                    self.sessions.remove(ch);
                    proof {
                        let next = items.take(i + 1);
                        assert(next =~= items.take(i as int).push(ch@));
                        lemma_push(items.take(i as int), ch@);
                        assert(before.remove(ch@) =~= old(self)@.sessions.remove_keys(
                            next.to_set(),
                        ));
                    }
                    i += 1;
                }
                assert(items.take(i as int) =~= items);
                assert(items.to_set() =~= guild.active_channels@);
            },
        }
        self.scrub_gen = if self.scrub_gen == u64::MAX {
            0
        } else {
            self.scrub_gen + 1
        };
        assert(self@.sessions =~= old(self)@.scope_dropped(scope).sessions);
    }

    /// Drop one channel's session transcript, with the same bump; hands out
    /// the session id that it had.
    pub fn drop_channel(&mut self, channel_id: &str) -> (session_id: Option<String>)
        ensures
            final(self)@ == old(self)@.channel_dropped(channel_id@),
            opt_text(session_id) == session_of(old(self)@.sessions, channel_id@).session_id,
    {
        let dropped = self.sessions.remove(&channel_id.to_owned());
        self.scrub_gen = if self.scrub_gen == u64::MAX {
            0
        } else {
            self.scrub_gen + 1
        };
        match dropped {
            Some(s) => s.session_id,
            None => None,
        }
    }

    // ---- message buffer ----

    /// Drops every buffered message of a channel.
    pub fn purge_channel(&mut self, channel_id: &str)
        ensures
            final(self)@ == (SharedView {
                buffer: old(self)@.buffer.without_channel(channel_id@),
                ..old(self)@
            }),
    {
        self.buffer.purge_channel(channel_id);
    }

    /// Purge one user's messages within one scope only.
    pub fn purge_user(&mut self, scope: Scope, user_id: &str)
        ensures
            final(self)@ == (SharedView {
                buffer: old(self)@.buffer.without_user(scope, user_id@),
                ..old(self)@
            }),
    {
        self.buffer.purge_user(scope, user_id);
    }

    /// Buffers a message as it is. What comes from Discord goes through
    /// `discord::ingest`, which asks for consent first.
    pub fn push_event(&mut self, ev: MsgEvent)
        requires
            old(self)@.buffer.next_seq < u64::MAX,
        ensures
            final(self)@ == (SharedView { buffer: old(self)@.buffer.pushed(ev), ..old(self)@ }),
    {
        self.buffer.push(ev);
    }

    /// Undelivered events for one channel; advances that channel's cursor.
    pub fn take_undelivered(&mut self, channel_id: &str) -> (out: Vec<MsgEvent>)
        ensures
            out@ == old(self)@.buffer.undelivered(channel_id@),
            final(self)@ == (SharedView {
                buffer: old(self)@.buffer.taken(channel_id@),
                ..old(self)@
            }),
    {
        self.buffer.take_undelivered(channel_id)
    }

    /// Channels with undelivered activity worth waking a session for.
    pub fn wakeworthy_channels(&self) -> (out: Vec<WakeTarget>)
        ensures
            targets(out@) == self@.buffer.wakeworthy(self@.behaviors),
    {
        self.buffer.wakeworthy(&self.behaviors)
    }
}

/// A token stands for its turn from the moment it is made until it is
/// dropped, and for nothing after that; other tokens are not touched.
pub proof fn token_lives_for_its_turn(
    s: SharedView,
    tok: Seq<char>,
    ctx: TurnView,
    other: Seq<char>,
)
    ensures
        s.token_issued(tok, ctx).resolved(tok) == Some(ctx),
        s.token_issued(tok, ctx).token_dropped(tok).resolved(tok) is None,
        other != tok ==> s.token_issued(tok, ctx).resolved(other) == s.resolved(other),
        other != tok ==> s.token_dropped(tok).resolved(other) == s.resolved(other),
{
}

/// Different random bytes make different tokens, so the token of one turn
/// never stands for another turn's channel.
pub proof fn tokens_distinct(a: Seq<u8>, b: Seq<u8>)
    requires
        a != b,
    ensures
        hex(a) != hex(b),
{
    if hex(a) == hex(b) {
        text::hex_injective(a, b);
    }
}

/// Dropping a scope's transcripts leaves no session in any of its channels,
/// keeps the sessions of every other channel, and starts a new generation.
pub proof fn scope_drop_is_exact(s: SharedView, scope: Scope, ch: Seq<char>)
    ensures
        scope_channels(s.consent, scope).contains(ch) ==> session_of(
            s.scope_dropped(scope).sessions,
            ch,
        ) == no_session(),
        !scope_channels(s.consent, scope).contains(ch) ==> session_of(
            s.scope_dropped(scope).sessions,
            ch,
        ) == session_of(s.sessions, ch),
        s.scope_dropped(scope).scrub_gen != s.scrub_gen,
{
}

/// A channel's session is what is kept of it; one of which nothing is kept has
/// none, was never woken and never failed.
pub proof fn sessions_are_per_channel(m: Map<Seq<char>, SessView>, ch: Seq<char>)
    ensures
        m.contains_key(ch) ==> session_of(m, ch) == m[ch],
        !m.contains_key(ch) ==> session_of(m, ch).session_id is None && session_of(m, ch).wakes
            == 0 && session_of(m, ch).failures == 0,
{
}

/// Dropping transcripts drops them from a DM's own channel, or from the channels
/// that the bot inhabits on the server, keeps every other record whole, counts
/// the generation up by one, modulo 2^64, and changes nothing else.
pub proof fn drops_change_nothing_else(s: SharedView, scope: Scope, ch: Seq<char>, one: Seq<char>)
    ensures
        ({
            let t = s.scope_dropped(scope);
            let dropped = match scope {
                Scope::Dm(id) => ch == decimal(id as nat),
                Scope::Guild(g) => s.consent.contains_key(g)
                    && s.consent[g].active_channels.contains(ch),
            };
            &&& t == (SharedView { sessions: t.sessions, scrub_gen: t.scrub_gen, ..s })
            &&& t.sessions.contains_key(ch) <==> s.sessions.contains_key(ch) && !dropped
            &&& t.sessions.contains_key(ch) ==> t.sessions[ch] == s.sessions[ch]
            &&& t.scrub_gen == (s.scrub_gen + 1) % 0x1_0000_0000_0000_0000
        }),
        ({
            let t = s.channel_dropped(one);
            &&& t == (SharedView { sessions: t.sessions, scrub_gen: t.scrub_gen, ..s })
            &&& t.sessions.contains_key(ch) <==> s.sessions.contains_key(ch) && ch != one
            &&& t.sessions.contains_key(ch) ==> t.sessions[ch] == s.sessions[ch]
            &&& t.scrub_gen == (s.scrub_gen + 1) % 0x1_0000_0000_0000_0000
        }),
{
}

/// Tokens are all that making and dropping a token touches, and a channel shows
/// as typing exactly while its turn runs and does not listen.
pub proof fn tokens_touch_nothing_else(
    s: SharedView,
    tok: Seq<char>,
    ctx: TurnView,
    ch: Seq<char>,
)
    ensures
        s.token_issued(tok, ctx) == (SharedView { tokens: s.tokens.insert(tok, ctx), ..s }),
        s.token_dropped(tok) == (SharedView { tokens: s.tokens.remove(tok), ..s }),
        s.resolved(tok) is Some <==> s.tokens.contains_key(tok),
        s.tokens.contains_key(tok) ==> s.resolved(tok) == Some(s.tokens[tok]),
        s.inferring().contains(ch) <==> s.typing_active.contains(ch) && !s.typing_waiting.contains(
            ch,
        ),
{
}

} // verus!
