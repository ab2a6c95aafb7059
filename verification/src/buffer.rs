//! In-memory ring of consented messages, with a per-channel delivery cursor.
//! Everything here was admitted by the consent rules at ingest.

use std::collections::VecDeque;
use vstd::prelude::*;

use crate::assoc::AssocMap;
use crate::persona::{behavior_for, behavior_of, BehaviorView, Behaviors, RespondTo};
use crate::rows::lemma_filter_members;
use crate::scope::Scope;
use crate::text;

verus! {

/// How many messages the ring keeps.
pub const CAP: usize = 500;

/// One Discord message, exactly as a session will see it.
pub struct MsgEvent {
    pub seq: u64,
    pub message_id: String,
    pub channel_id: String,
    pub channel_name: Option<String>,
    pub guild_name: Option<String>,
    pub is_dm: bool,
    pub author_id: String,
    pub author_name: String,
    pub author_is_bot: bool,
    pub content: String,
    pub timestamp: String,
    pub mentions_me: bool,
    pub reply_to_message_id: Option<String>,
    /// Isolation scope. Internal only, stays off the wire to sessions.
    pub scope: Scope,
}

impl Clone for MsgEvent {
    fn clone(&self) -> (res: Self)
        ensures
            res == *self,
    {
        MsgEvent {
            seq: self.seq,
            message_id: self.message_id.clone(),
            channel_id: self.channel_id.clone(),
            channel_name: self.channel_name.clone(),
            guild_name: self.guild_name.clone(),
            is_dm: self.is_dm,
            author_id: self.author_id.clone(),
            author_name: self.author_name.clone(),
            author_is_bot: self.author_is_bot,
            content: self.content.clone(),
            timestamp: self.timestamp.clone(),
            mentions_me: self.mentions_me,
            reply_to_message_id: self.reply_to_message_id.clone(),
            scope: self.scope,
        }
    }
}

/// A channel the dispatcher should wake.
pub struct WakeTarget {
    pub channel_id: String,
    pub name: String,
    pub is_dm: bool,
    pub scope: Scope,
}

pub struct WakeTargetView {
    pub channel_id: Seq<char>,
    pub name: Seq<char>,
    pub is_dm: bool,
    pub scope: Scope,
}

impl View for WakeTarget {
    type V = WakeTargetView;

    open spec fn view(&self) -> WakeTargetView {
        WakeTargetView {
            channel_id: self.channel_id@,
            name: self.name@,
            is_dm: self.is_dm,
            scope: self.scope,
        }
    }
}

impl Clone for WakeTarget {
    fn clone(&self) -> (res: Self)
        ensures
            res == *self,
    {
        WakeTarget {
            channel_id: self.channel_id.clone(),
            name: self.name.clone(),
            is_dm: self.is_dm,
            scope: self.scope,
        }
    }
}

/// The targets of a row.
pub open spec fn targets(v: Seq<WakeTarget>) -> Seq<WakeTargetView> {
    v.map_values(|t: WakeTarget| t@)
}

/// What a buffer holds: the messages from oldest to newest, the number of the
/// newest ever stored, and for each channel the highest number handed out.
pub struct BufferView {
    pub ring: Seq<MsgEvent>,
    pub next_seq: u64,
    pub delivered: Map<Seq<char>, u64>,
}

/// What a session is told to call the place of a message.
pub open spec fn place_name(e: MsgEvent) -> Seq<char> {
    if e.is_dm {
        "your DM with "@ + e.author_name@
    } else {
        match e.channel_name {
            Some(n) => "#"@ + n@,
            None => "channel "@ + e.channel_id@,
        }
    }
}

/// The wake target that a message stands for.
pub open spec fn target_of(e: MsgEvent) -> WakeTargetView {
    WakeTargetView {
        channel_id: e.channel_id@,
        name: place_name(e),
        is_dm: e.is_dm,
        scope: e.scope,
    }
}

/// A message is in a channel that its scope watches. DMs always are.
pub open spec fn watched(e: MsgEvent, beh: BehaviorView) -> bool {
    e.is_dm || beh.watched_channels.len() == 0 || beh.watched_channels.contains(e.channel_id@)
}

/// A message by a person that its scope's behavior lets wake a session.
pub open spec fn merits_wake(e: MsgEvent, beh: BehaviorView) -> bool {
    &&& watched(e, beh)
    &&& beh.respond_to == RespondTo::All || e.mentions_me || e.is_dm
    &&& !e.author_is_bot
}

/// The messages of other channels.
pub open spec fn outside_channel(ch: Seq<char>) -> spec_fn(MsgEvent) -> bool {
    |e: MsgEvent| e.channel_id@ != ch
}

/// The messages that a person did not write in a scope.
pub open spec fn not_by(scope: Scope, user: Seq<char>) -> spec_fn(MsgEvent) -> bool {
    |e: MsgEvent| !(e.scope == scope && e.author_id@ == user)
}

impl BufferView {
    /// At most `CAP` messages, numbered upwards, none above the newest number,
    /// and no cursor above it either.
    pub open spec fn wf(self) -> bool {
        &&& self.ring.len() <= CAP
        &&& forall|i: int, j: int|
            0 <= i < j < self.ring.len() ==> (#[trigger] self.ring[i]).seq < (
            #[trigger] self.ring[j]).seq
        &&& forall|i: int|
            0 <= i < self.ring.len() ==> 1 <= (#[trigger] self.ring[i]).seq <= self.next_seq
        &&& forall|ch: Seq<char>| #[trigger]
            self.delivered.contains_key(ch) ==> self.delivered[ch] <= self.next_seq
    }

    /// The highest number already handed to a session of the channel.
    pub open spec fn cursor(self, ch: Seq<char>) -> u64 {
        if self.delivered.contains_key(ch) {
            self.delivered[ch]
        } else {
            0
        }
    }

    /// A message of the channel that no session of it has been handed.
    pub open spec fn awaits(self, ch: Seq<char>) -> spec_fn(MsgEvent) -> bool {
        |e: MsgEvent| e.channel_id@ == ch && e.seq > self.cursor(ch)
    }

    /// The messages of a channel that no session has been handed, oldest first.
    pub open spec fn undelivered(self, ch: Seq<char>) -> Seq<MsgEvent> {
        self.ring.filter(self.awaits(ch))
    }

    /// The buffer after one more message. The oldest leaves a full ring.
    pub open spec fn pushed(self, ev: MsgEvent) -> BufferView {
        let kept = if self.ring.len() >= CAP {
            self.ring.drop_first()
        } else {
            self.ring
        };
        let seq = (self.next_seq + 1) as u64;
        BufferView { ring: kept.push(MsgEvent { seq, ..ev }), next_seq: seq, ..self }
    }

    /// The buffer after a channel was handed what it had not seen.
    pub open spec fn taken(self, ch: Seq<char>) -> BufferView {
        BufferView {
            delivered: if self.ring.len() > 0 {
                self.delivered.insert(ch, self.ring.last().seq)
            } else {
                self.delivered
            },
            ..self
        }
    }

    /// The buffer without the messages of a channel.
    pub open spec fn without_channel(self, ch: Seq<char>) -> BufferView {
        BufferView { ring: self.ring.filter(outside_channel(ch)), ..self }
    }

    /// The buffer without the messages that one person wrote in one scope.
    pub open spec fn without_user(self, scope: Scope, user: Seq<char>) -> BufferView {
        BufferView {
            ring: self.ring.filter(not_by(scope, user)),
            ..self
        }
    }

    /// A message that is undelivered and merits waking its channel.
    pub open spec fn wakes(self, e: MsgEvent, behaviors: Map<Scope, BehaviorView>) -> bool {
        e.seq > self.cursor(e.channel_id@) && merits_wake(e, behavior_of(behaviors, e.scope))
    }

    /// Of the first `n` messages, those that wake, the first of each channel.
    pub open spec fn wake_list(self, behaviors: Map<Scope, BehaviorView>, n: int) -> Seq<
        WakeTargetView,
    >
        decreases n,
    {
        if n <= 0 {
            Seq::empty()
        } else {
            let prev = self.wake_list(behaviors, n - 1);
            let e = self.ring[n - 1];
            if self.wakes(e, behaviors) && !has_channel(prev, e.channel_id@) {
                prev.push(target_of(e))
            } else {
                prev
            }
        }
    }

    /// The channels to wake, in the order of their oldest waking message.
    pub open spec fn wakeworthy(self, behaviors: Map<Scope, BehaviorView>) -> Seq<WakeTargetView> {
        self.wake_list(behaviors, self.ring.len() as int)
    }
}

/// A target of the row is in the channel.
pub open spec fn has_channel(list: Seq<WakeTargetView>, ch: Seq<char>) -> bool {
    exists|i: int| 0 <= i < list.len() && (#[trigger] list[i]).channel_id == ch
}

pub struct Buffer {
    ring: VecDeque<MsgEvent>,
    next_seq: u64,
    /// Per channel: highest seq already handed to a session.
    delivered: AssocMap<String, u64>,
}

impl View for Buffer {
    type V = BufferView;

    closed spec fn view(&self) -> BufferView {
        BufferView { ring: self.ring@, next_seq: self.next_seq, delivered: self.delivered@ }
    }
}

impl Default for Buffer {
    fn default() -> (b: Self)
        ensures
            b@ == (BufferView { ring: Seq::empty(), next_seq: 0, delivered: Map::empty() }),
            b@.wf(),
    {
        Buffer { ring: VecDeque::new(), next_seq: 0, delivered: AssocMap::new() }
    }
}

proof fn lemma_filter_keeps_order(s: Seq<MsgEvent>, p: spec_fn(MsgEvent) -> bool, lo: u64, hi: u64)
    requires
        forall|i: int, j: int|
            0 <= i < j < s.len() ==> (#[trigger] s[i]).seq < (#[trigger] s[j]).seq,
        forall|i: int| 0 <= i < s.len() ==> lo <= (#[trigger] s[i]).seq <= hi,
    ensures
        s.filter(p).len() <= s.len(),
        forall|i: int, j: int|
            0 <= i < j < s.filter(p).len() ==> (#[trigger] s.filter(p)[i]).seq < (
            #[trigger] s.filter(p)[j]).seq,
        forall|i: int|
            0 <= i < s.filter(p).len() ==> lo <= (#[trigger] s.filter(p)[i]).seq <= hi,
        forall|i: int|
            0 <= i < s.filter(p).len() ==> (#[trigger] s.filter(p)[i]).seq <= s.last().seq,
    decreases s.len(),
{
    reveal(Seq::filter);
    if s.len() > 0 {
        let t = s.drop_last();
        assert(forall|i: int| 0 <= i < t.len() ==> t[i] == s[i]);
        lemma_filter_keeps_order(t, p, lo, hi);
    }
}

proof fn lemma_filtered_wf(v: BufferView, p: spec_fn(MsgEvent) -> bool)
    requires
        v.wf(),
    ensures
        (BufferView { ring: v.ring.filter(p), ..v }).wf(),
{
    lemma_filter_keeps_order(v.ring, p, 1, v.next_seq);
    let w = BufferView { ring: v.ring.filter(p), ..v };
    assert forall|ch: Seq<char>| #[trigger] w.delivered.contains_key(ch) implies w.delivered[ch]
        <= w.next_seq by {
        assert(v.delivered.contains_key(ch));
    }
}

proof fn lemma_pushed_wf(v: BufferView, ev: MsgEvent)
    requires
        v.wf(),
        v.next_seq < u64::MAX,
    ensures
        v.pushed(ev).wf(),
{
    let kept = if v.ring.len() >= CAP {
        v.ring.drop_first()
    } else {
        v.ring
    };
    let r = v.pushed(ev).ring;
    let shift: int = if v.ring.len() >= CAP { 1 } else { 0 };
    assert(forall|i: int| 0 <= i < kept.len() ==> kept[i] == v.ring[i + shift]);
    assert(forall|i: int| 0 <= i < kept.len() ==> r[i] == v.ring[i + shift]);
    assert(r[kept.len() as int].seq == v.next_seq + 1);
    assert forall|i: int, j: int| 0 <= i < j < r.len() implies (#[trigger] r[i]).seq < (
    #[trigger] r[j]).seq by {
        assert(r[i] == v.ring[i + shift]);
        if j < kept.len() {
            assert(r[j] == v.ring[j + shift]);
        }
    }
    assert forall|i: int| 0 <= i < r.len() implies 1 <= (#[trigger] r[i]).seq <= v.pushed(
        ev,
    ).next_seq by {
        if i < kept.len() {
            assert(r[i] == v.ring[i + shift]);
        }
    }
}

impl Buffer {
    #[verifier::type_invariant]
    spec fn sound(self) -> bool {
        self@.wf()
    }

    /// Takes the parts out, leaving an empty buffer behind.
    fn open_up(&mut self) -> (parts: Buffer)
        ensures
            parts@ == old(self)@,
            parts@.wf(),
    {
        let mut parts = Buffer::default();
        std::mem::swap(&mut parts, self);
        proof {
            use_type_invariant(&parts);
        }
        parts
    }

    /// Whether every number has been used, so that no message can be stored.
    pub fn is_exhausted(&self) -> (res: bool)
        ensures
            res == (self@.next_seq == u64::MAX),
    {
        self.next_seq == u64::MAX
    }

    /// Stores a message and numbers it.
    pub fn push(&mut self, ev: MsgEvent)
        requires
            old(self)@.next_seq < u64::MAX,
        ensures
            final(self)@ == old(self)@.pushed(ev),
            final(self)@.wf(),
    {
        let parts = self.open_up();
        let ghost before = parts@;
        let Buffer { mut ring, next_seq, delivered } = parts;
        let seq: u64 = next_seq + 1;
        let mut ev = ev;
        ev.seq = seq;
        if ring.len() >= CAP {
            let _ = ring.pop_front();
            assert(ring@ =~= before.ring.drop_first());
        }
        ring.push_back(ev);
        proof {
            lemma_pushed_wf(before, ev);
            assert(ring@ =~= before.pushed(ev).ring);
        }
        *self = Buffer { ring, next_seq: seq, delivered };
    }

    /// Undelivered events for one channel; advances that channel's cursor.
    pub fn take_undelivered(&mut self, channel_id: &str) -> (out: Vec<MsgEvent>)
        ensures
            out@ == old(self)@.undelivered(channel_id@),
            final(self)@ == old(self)@.taken(channel_id@),
            final(self)@.wf(),
    {
        let parts = self.open_up();
        let ghost before = parts@;
        let Buffer { ring, next_seq, mut delivered } = parts;
        let key = channel_id.to_owned();
        let cur: u64 = match delivered.get(&key) {
            Some(n) => *n,
            None => 0,
        };
        let ghost p = before.awaits(channel_id@);
        let mut out: Vec<MsgEvent> = Vec::new();
        let mut i: usize = 0;
        assert(before.ring.take(0).filter(p) =~= Seq::empty()) by {
            reveal(Seq::filter);
        }
        while i < ring.len()
            invariant
                i <= ring@.len(),
                ring@ == before.ring,
                p == before.awaits(channel_id@),
                cur == before.cursor(channel_id@),
                out@ == ring@.take(i as int).filter(p),
            decreases ring@.len() - i,
        {
            let e = &ring[i];
            proof {
                lemma_filter_step(ring@, p, i as int);
            }
            if text::same(e.channel_id.as_str(), channel_id) && e.seq > cur {
                out.push(e.clone());
            }
            i += 1;
        }
        assert(ring@.take(i as int) =~= ring@);
        if ring.len() > 0 {
            let max: u64 = ring[ring.len() - 1].seq;
            delivered.insert(key, max);
        }
        *self = Buffer { ring, next_seq, delivered };
        out
    }

    /// Channels with undelivered activity that merits waking a session.
    /// Bots never wake (their messages are context only, which avoids bot loops).
    pub fn wakeworthy(&self, behaviors: &Behaviors) -> (out: Vec<WakeTarget>)
        ensures
            targets(out@) == self@.wakeworthy(behaviors@),
    {
        let mut out: Vec<WakeTarget> = Vec::new();
        let mut i: usize = 0;
        assert(targets(out@) =~= Seq::empty());
        while i < self.ring.len()
            invariant
                i <= self.ring@.len(),
                targets(out@) == self@.wake_list(behaviors@, i as int),
            decreases self.ring@.len() - i,
        {
            let e = &self.ring[i];
            let beh = behavior_for(behaviors, e.scope);
            let cur: u64 = match self.delivered.get(&e.channel_id) {
                Some(n) => *n,
                None => 0,
            };
            let undelivered = e.seq > cur;
            let watched = e.is_dm || beh.watched_channels.is_empty() || text::contains_text(
                &beh.watched_channels,
                e.channel_id.as_str(),
            );
            let wakes = match beh.respond_to {
                RespondTo::All => true,
                RespondTo::Mentions => e.mentions_me || e.is_dm,
            };
            assert(text::texts(beh.watched_channels@).len() == beh.watched_channels@.len());
            assert(self@.wakes(*e, behaviors@) == (undelivered && watched && wakes
                && !e.author_is_bot));
            if undelivered && watched && wakes && !e.author_is_bot && !in_targets(
                &out,
                &e.channel_id,
            ) {
                let name = if e.is_dm {
                    text::join2("your DM with ", e.author_name.as_str())
                } else {
                    match &e.channel_name {
                        Some(n) => text::join2("#", n.as_str()),
                        None => text::join2("channel ", e.channel_id.as_str()),
                    }
                };
                let ghost before = out@;
                out.push(
                    WakeTarget {
                        channel_id: e.channel_id.clone(),
                        name,
                        is_dm: e.is_dm,
                        scope: e.scope,
                    },
                );
                assert(targets(out@) =~= targets(before).push(target_of(*e)));
            }
            i += 1;
        }
        out
    }

    /// Keeps the messages that satisfy `p`, which `keep` computes.
    fn retain(&mut self, keep: impl Fn(&MsgEvent) -> bool, Ghost(p): Ghost<spec_fn(MsgEvent) -> bool>)
        requires
            forall|e: MsgEvent| #[trigger] keep.requires((&e,)),
            forall|e: MsgEvent, b: bool| #[trigger] keep.ensures((&e,), b) ==> b == p(e),
        ensures
            final(self)@ == (BufferView { ring: old(self)@.ring.filter(p), ..old(self)@ }),
            final(self)@.wf(),
    {
        let parts = self.open_up();
        let ghost before = parts@;
        let Buffer { ring, next_seq, delivered } = parts;
        let mut rest = ring;
        let mut kept: VecDeque<MsgEvent> = VecDeque::new();
        let n: usize = rest.len();
        let mut i: usize = 0;
        assert(before.ring.take(0).filter(p) =~= Seq::empty()) by {
            reveal(Seq::filter);
        }
        assert(rest@ =~= before.ring.skip(0));
        while i < n
            invariant
                i <= n == before.ring.len(),
                rest@ == before.ring.skip(i as int),
                kept@ == before.ring.take(i as int).filter(p),
                forall|e: MsgEvent| #[trigger] keep.requires((&e,)),
                forall|e: MsgEvent, b: bool| #[trigger] keep.ensures((&e,), b) ==> b == p(e),
            decreases n - i,
        {
            proof {
                lemma_filter_step(before.ring, p, i as int);
            }
            if let Some(e) = rest.pop_front() {
                if keep(&e) {
                    kept.push_back(e);
                }
            }
            assert(rest@ =~= before.ring.skip(i + 1));
            i += 1;
        }
        proof {
            assert(before.ring.take(i as int) =~= before.ring);
            lemma_filtered_wf(before, p);
        }
        *self = Buffer { ring: kept, next_seq, delivered };
    }

    /// Drops every message of a channel.
    pub fn purge_channel(&mut self, channel_id: &str)
        ensures
            final(self)@ == old(self)@.without_channel(channel_id@),
            final(self)@.wf(),
    {
        let keep = |e: &MsgEvent| -> (b: bool)
            ensures
                b == outside_channel(channel_id@)(*e),
            { !text::same(e.channel_id.as_str(), channel_id) };
        self.retain(keep, Ghost(outside_channel(channel_id@)));
    }

    /// Drops every message that one person wrote in one scope.
    pub fn purge_user(&mut self, scope: Scope, user_id: &str)
        ensures
            final(self)@ == old(self)@.without_user(scope, user_id@),
            final(self)@.wf(),
    {
        let keep = |e: &MsgEvent| -> (b: bool)
            ensures
                b == not_by(scope, user_id@)(*e),
            { !(e.scope == scope && text::same(e.author_id.as_str(), user_id)) };
        self.retain(keep, Ghost(not_by(scope, user_id@)));
    }
}

fn in_targets(list: &Vec<WakeTarget>, channel_id: &String) -> (res: bool)
    ensures
        res == has_channel(targets(list@), channel_id@),
{
    let mut i: usize = 0;
    while i < list.len()
        invariant
            i <= list@.len(),
            forall|j: int| 0 <= j < i ==> (#[trigger] targets(list@)[j]).channel_id != channel_id@,
        decreases list@.len() - i,
    {
        if list[i].channel_id == *channel_id {
            assert(targets(list@)[i as int].channel_id == channel_id@);
            return true;
        }
        i += 1;
    }
    false
}

proof fn lemma_filter_step(s: Seq<MsgEvent>, p: spec_fn(MsgEvent) -> bool, i: int)
    requires
        0 <= i < s.len(),
    ensures
        s.take(i + 1).filter(p) == if p(s[i]) {
            s.take(i).filter(p).push(s[i])
        } else {
            s.take(i).filter(p)
        },
{
    reveal(Seq::filter);
    assert(s.take(i + 1).drop_last() =~= s.take(i));
}

proof fn lemma_filter_none(s: Seq<MsgEvent>, p: spec_fn(MsgEvent) -> bool)
    requires
        forall|i: int| 0 <= i < s.len() ==> !p(#[trigger] s[i]),
    ensures
        s.filter(p) == Seq::<MsgEvent>::empty(),
    decreases s.len(),
{
    reveal(Seq::filter);
    if s.len() > 0 {
        let t = s.drop_last();
        assert(forall|i: int| 0 <= i < t.len() ==> t[i] == s[i]);
        lemma_filter_none(t, p);
        assert(!p(s[s.len() - 1]));
    }
}

proof fn lemma_filter_same(
    s: Seq<MsgEvent>,
    p: spec_fn(MsgEvent) -> bool,
    q: spec_fn(MsgEvent) -> bool,
)
    requires
        forall|i: int| 0 <= i < s.len() ==> p(#[trigger] s[i]) == q(s[i]),
    ensures
        s.filter(p) == s.filter(q),
    decreases s.len(),
{
    reveal(Seq::filter);
    if s.len() > 0 {
        let t = s.drop_last();
        assert(forall|i: int| 0 <= i < t.len() ==> t[i] == s[i]);
        lemma_filter_same(t, p, q);
        assert(p(s[s.len() - 1]) == q(s[s.len() - 1]));
    }
}

/// A channel that was handed everything has nothing left to be handed.
pub proof fn taken_twice_is_empty(v: BufferView, ch: Seq<char>)
    requires
        v.wf(),
    ensures
        v.taken(ch).undelivered(ch) == Seq::<MsgEvent>::empty(),
{
    let w = v.taken(ch);
    let p = w.awaits(ch);
    assert forall|i: int| 0 <= i < w.ring.len() implies !p(#[trigger] w.ring[i]) by {
        assert(w.ring.last() == w.ring[w.ring.len() - 1]);
    }
    lemma_filter_none(w.ring, p);
}

/// Handing out one channel's messages leaves every other channel's cursor, and
/// what it has yet to be handed, as they were.
pub proof fn take_is_per_channel(v: BufferView, ch: Seq<char>, other: Seq<char>)
    requires
        ch != other,
    ensures
        v.taken(ch).cursor(other) == v.cursor(other),
        v.taken(ch).undelivered(other) == v.undelivered(other),
{
    lemma_filter_same(v.ring, v.taken(ch).awaits(other), v.awaits(other));
}

/// A session is handed messages of its own channel alone.
pub proof fn undelivered_is_of_the_channel(v: BufferView, ch: Seq<char>, i: int)
    requires
        0 <= i < v.undelivered(ch).len(),
    ensures
        v.undelivered(ch)[i].channel_id@ == ch,
        v.ring.contains(v.undelivered(ch)[i]),
{
    lemma_filter_members(v.ring, v.awaits(ch));
}

/// What arrives while no session listens is kept for its channel's next one:
/// it comes last, behind what was waiting already.
pub proof fn pushed_waits_for_its_channel(v: BufferView, ev: MsgEvent)
    requires
        v.wf(),
        v.next_seq < u64::MAX,
    ensures
        ({
            let ch = ev.channel_id@;
            let numbered = MsgEvent { seq: (v.next_seq + 1) as u64, ..ev };
            let w = v.pushed(ev);
            &&& w.undelivered(ch).len() > 0
            &&& w.undelivered(ch).last() == numbered
            &&& v.ring.len() < CAP ==> w.undelivered(ch) == v.undelivered(ch).push(numbered)
        }),
{
    reveal(Seq::filter);
    let ch = ev.channel_id@;
    let w = v.pushed(ev);
    let numbered = MsgEvent { seq: (v.next_seq + 1) as u64, ..ev };
    assert(w.ring.last() == numbered);
    assert(v.cursor(ch) <= v.next_seq);
    assert(w.awaits(ch)(numbered));
    if v.ring.len() < CAP {
        assert(w.ring.drop_last() =~= v.ring);
        lemma_filter_same(v.ring, w.awaits(ch), v.awaits(ch));
    }
}

/// A message pushed into one channel changes nothing for another while the
/// ring has room.
pub proof fn pushed_leaves_other_channels(v: BufferView, ev: MsgEvent, other: Seq<char>)
    requires
        ev.channel_id@ != other,
        v.ring.len() < CAP,
    ensures
        v.pushed(ev).undelivered(other) == v.undelivered(other),
{
    reveal(Seq::filter);
    let w = v.pushed(ev);
    assert(w.ring.drop_last() =~= v.ring);
    lemma_filter_same(v.ring, w.awaits(other), v.awaits(other));
}

/// Whatever a session of the channel can still be handed is newer than `n`.
pub open spec fn only_newer(v: BufferView, ch: Seq<char>, n: u64) -> bool {
    &&& n <= v.next_seq
    &&& forall|i: int|
        0 <= i < v.ring.len() && (#[trigger] v.ring[i]).channel_id@ == ch && v.ring[i].seq
            > v.cursor(ch) ==> v.ring[i].seq > n
}

/// No message is handed out twice: once a channel was served, whatever it can
/// still be handed is newer than all that was there, and no later operation
/// changes that.
pub proof fn no_message_twice(
    v: BufferView,
    ch: Seq<char>,
    n: u64,
    ev: MsgEvent,
    other: Seq<char>,
    scope: Scope,
    user: Seq<char>,
)
    requires
        v.wf(),
    ensures
        only_newer(v.taken(ch), ch, v.next_seq),
        only_newer(v, ch, n) && v.next_seq < u64::MAX ==> only_newer(v.pushed(ev), ch, n),
        only_newer(v, ch, n) ==> only_newer(v.taken(other), ch, n),
        only_newer(v, ch, n) ==> only_newer(v.without_channel(other), ch, n),
        only_newer(v, ch, n) ==> only_newer(v.without_user(scope, user), ch, n),
{
    if v.ring.len() > 0 {
        let w = v.taken(ch);
        assert(w.ring.last() == w.ring[w.ring.len() - 1]);
    }
    if only_newer(v, ch, n) {
        if v.next_seq < u64::MAX {
            let w = v.pushed(ev);
            let shift: int = if v.ring.len() >= CAP { 1 } else { 0 };
            assert forall|i: int|
                0 <= i < w.ring.len() && (#[trigger] w.ring[i]).channel_id@ == ch && w.ring[i].seq
                    > w.cursor(ch) implies w.ring[i].seq > n by {
                if i < w.ring.len() - 1 {
                    assert(w.ring[i] == v.ring[i + shift]);
                }
            }
        }
        let t = v.taken(other);
        assert(t.ring.len() > 0 ==> t.ring.last() == t.ring[t.ring.len() - 1]);
        assert forall|i: int|
            0 <= i < t.ring.len() && (#[trigger] t.ring[i]).channel_id@ == ch && t.ring[i].seq
                > t.cursor(ch) implies t.ring[i].seq > n by {
            assert(t.ring[i] == v.ring[i]);
        }
        let a = v.without_channel(other);
        lemma_filter_members(v.ring, outside_channel(other));
        assert forall|i: int|
            0 <= i < a.ring.len() && (#[trigger] a.ring[i]).channel_id@ == ch && a.ring[i].seq
                > a.cursor(ch) implies a.ring[i].seq > n by {
            assert(v.ring.contains(a.ring[i]));
            let j = choose|j: int| 0 <= j < v.ring.len() && v.ring[j] == a.ring[i];
            assert(v.ring[j].seq > n);
        }
        let b = v.without_user(scope, user);
        lemma_filter_members(
            v.ring,
            not_by(scope, user),
        );
        assert forall|i: int|
            0 <= i < b.ring.len() && (#[trigger] b.ring[i]).channel_id@ == ch && b.ring[i].seq
                > b.cursor(ch) implies b.ring[i].seq > n by {
            assert(v.ring.contains(b.ring[i]));
            let j = choose|j: int| 0 <= j < v.ring.len() && v.ring[j] == b.ring[i];
            assert(v.ring[j].seq > n);
        }
    }
}

/// Purging a person from a scope removes all that they wrote there and
/// nothing else: what others wrote, and what they wrote elsewhere, stays.
pub proof fn purge_user_is_scoped(v: BufferView, scope: Scope, user: Seq<char>, e: MsgEvent)
    ensures
        v.without_user(scope, user).ring.contains(e) <==> v.ring.contains(e) && !(e.scope == scope
            && e.author_id@ == user),
        v.without_user(scope, user).delivered == v.delivered,
        v.without_user(scope, user).next_seq == v.next_seq,
{
    let p = not_by(scope, user);
    lemma_filter_members(v.ring, p);
    if v.ring.contains(e) && p(e) {
        let i = choose|i: int| 0 <= i < v.ring.len() && v.ring[i] == e;
        assert(v.ring.filter(p).contains(v.ring[i]));
    }
}

/// Purging a channel removes all of its messages and nothing else.
pub proof fn purge_channel_is_exact(v: BufferView, ch: Seq<char>, e: MsgEvent)
    ensures
        v.without_channel(ch).ring.contains(e) <==> v.ring.contains(e) && e.channel_id@ != ch,
{
    let p = outside_channel(ch);
    lemma_filter_members(v.ring, p);
    if v.ring.contains(e) && p(e) {
        let i = choose|i: int| 0 <= i < v.ring.len() && v.ring[i] == e;
        assert(v.ring.filter(p).contains(v.ring[i]));
    }
}

proof fn lemma_wake_list(v: BufferView, b: Map<Scope, BehaviorView>, n: int)
    requires
        0 <= n <= v.ring.len(),
    ensures
        forall|i: int, j: int|
            0 <= i < j < v.wake_list(b, n).len() ==> (#[trigger] v.wake_list(b, n)[i]).channel_id
                != (#[trigger] v.wake_list(b, n)[j]).channel_id,
        forall|i: int|
            0 <= i < v.wake_list(b, n).len() ==> exists|k: int|
                0 <= k < n && v.wakes(#[trigger] v.ring[k], b) && #[trigger] v.wake_list(b, n)[i]
                    == target_of(v.ring[k]),
        forall|k: int|
            0 <= k < n && v.wakes(#[trigger] v.ring[k], b) ==> has_channel(
                v.wake_list(b, n),
                v.ring[k].channel_id@,
            ),
    decreases n,
{
    if n > 0 {
        lemma_wake_list(v, b, n - 1);
        let prev = v.wake_list(b, n - 1);
        let list = v.wake_list(b, n);
        let e = v.ring[n - 1];
        let grew = v.wakes(e, b) && !has_channel(prev, e.channel_id@);
        assert forall|i: int| 0 <= i < list.len() implies exists|k: int|
            0 <= k < n && v.wakes(#[trigger] v.ring[k], b) && #[trigger] list[i] == target_of(
                v.ring[k],
            ) by {
            if i < prev.len() {
                assert(list[i] == prev[i]);
                let k = choose|k: int|
                    0 <= k < n - 1 && v.wakes(#[trigger] v.ring[k], b) && prev[i] == target_of(
                        v.ring[k],
                    );
                assert(v.wakes(v.ring[k], b) && list[i] == target_of(v.ring[k]));
            } else {
                assert(v.wakes(v.ring[n - 1], b) && list[i] == target_of(v.ring[n - 1]));
            }
        }
        assert forall|k: int| 0 <= k < n && v.wakes(#[trigger] v.ring[k], b) implies has_channel(
            list,
            v.ring[k].channel_id@,
        ) by {
            if k < n - 1 || !grew {
                assert(has_channel(prev, v.ring[k].channel_id@));
                let i = choose|i: int|
                    0 <= i < prev.len() && (#[trigger] prev[i]).channel_id
                        == v.ring[k].channel_id@;
                assert(list[i] == prev[i]);
            } else {
                assert(list[prev.len() as int] == target_of(e));
            }
        }
        assert forall|i: int, j: int| 0 <= i < j < list.len() implies (
        #[trigger] list[i]).channel_id != (#[trigger] list[j]).channel_id by {
            if j < prev.len() {
                assert(list[i] == prev[i] && list[j] == prev[j]);
            } else {
                assert(list[i] == prev[i]);
                assert(list[j] == target_of(e));
                assert(prev[i].channel_id != e.channel_id@);
            }
        }
    }
}

/// No channel is woken twice over, and each target stands for a stored message
/// that is undelivered and merits the wake: one by a person, never by a bot.
pub proof fn wakeworthy_is_sound(v: BufferView, b: Map<Scope, BehaviorView>, i: int, j: int)
    requires
        0 <= i < v.wakeworthy(b).len(),
    ensures
        0 <= j < v.wakeworthy(b).len() && j != i ==> v.wakeworthy(b)[i].channel_id
            != v.wakeworthy(b)[j].channel_id,
        exists|k: int|
            0 <= k < v.ring.len() && v.wakes(#[trigger] v.ring[k], b) && v.wakeworthy(b)[i]
                == target_of(v.ring[k]) && !v.ring[k].author_is_bot,
{
    lemma_wake_list(v, b, v.ring.len() as int);
    assert(v.wakeworthy(b) == v.wake_list(b, v.ring.len() as int));
    let k = choose|k: int|
        0 <= k < v.ring.len() && v.wakes(#[trigger] v.ring[k], b) && v.wakeworthy(b)[i]
            == target_of(v.ring[k]);
    assert(v.wakes(v.ring[k], b));
    if 0 <= j < v.wakeworthy(b).len() && j < i {
        assert(v.wake_list(b, v.ring.len() as int)[j].channel_id != v.wake_list(
            b,
            v.ring.len() as int,
        )[i].channel_id);
    }
}

/// A channel is woken exactly where it holds a message that wakes it.
pub proof fn wakeworthy_is_complete(v: BufferView, b: Map<Scope, BehaviorView>, ch: Seq<char>)
    ensures
        has_channel(v.wakeworthy(b), ch) <==> exists|k: int|
            0 <= k < v.ring.len() && (#[trigger] v.ring[k]).channel_id@ == ch && v.wakes(
                v.ring[k],
                b,
            ),
{
    let n = v.ring.len() as int;
    lemma_wake_list(v, b, n);
    if has_channel(v.wakeworthy(b), ch) {
        let i = choose|i: int|
            0 <= i < v.wakeworthy(b).len() && (#[trigger] v.wakeworthy(b)[i]).channel_id == ch;
        let k = choose|k: int|
            0 <= k < n && v.wakes(#[trigger] v.ring[k], b) && v.wake_list(b, n)[i] == target_of(
                v.ring[k],
            );
        assert(v.ring[k].channel_id@ == ch);
    }
}

/// A channel that was handed everything does not wake.
pub proof fn delivered_does_not_wake(v: BufferView, b: Map<Scope, BehaviorView>, ch: Seq<char>)
    requires
        v.wf(),
    ensures
        !has_channel(v.taken(ch).wakeworthy(b), ch),
{
    let w = v.taken(ch);
    wakeworthy_is_complete(w, b, ch);
    assert(w.ring.len() > 0 ==> w.ring.last() == w.ring[w.ring.len() - 1]);
}

/// The ring keeps the newest 500 messages: a new one comes last, as it came but
/// for its number, which is one more than the last one given; what was there
/// stays in its order, and only the oldest of a full ring leaves. No channel's
/// cursor moves.
pub proof fn ring_keeps_the_newest(v: BufferView, ev: MsgEvent)
    requires
        v.wf(),
        v.next_seq < u64::MAX,
    ensures
        ({
            let w = v.pushed(ev);
            let n = v.ring.len() as int;
            &&& w.next_seq == v.next_seq + 1
            &&& w.delivered == v.delivered
            &&& w.ring.len() == if n < 500 {
                n + 1
            } else {
                500
            }
            &&& w.ring.last() == (MsgEvent { seq: w.next_seq, ..ev })
            &&& n < 500 ==> w.ring.drop_last() == v.ring
            &&& n >= 500 ==> w.ring.drop_last() == v.ring.skip(n - 499)
        }),
{
    let w = v.pushed(ev);
    if v.ring.len() < 500 {
        assert(w.ring.drop_last() =~= v.ring);
    } else {
        assert(w.ring.drop_last() =~= v.ring.skip(v.ring.len() - 499));
    }
}

/// What a channel is handed: every message of it in the ring that is newer than
/// what it was handed before, and nothing else, oldest first. Handing it out
/// takes nothing from the ring and notes how far the channel has got.
pub proof fn channel_is_handed_all_that_is_new(
    v: BufferView,
    ch: Seq<char>,
    e: MsgEvent,
    i: int,
    j: int,
)
    requires
        v.wf(),
    ensures
        ({
            let seen = if v.delivered.contains_key(ch) {
                v.delivered[ch]
            } else {
                0
            };
            v.undelivered(ch).contains(e) <==> v.ring.contains(e) && e.channel_id@ == ch && e.seq
                > seen
        }),
        0 <= i < j < v.undelivered(ch).len() ==> v.undelivered(ch)[i].seq < v.undelivered(ch)[j].seq,
        v.taken(ch).ring == v.ring,
        v.taken(ch).next_seq == v.next_seq,
        v.ring.len() > 0 ==> v.taken(ch).delivered == v.delivered.insert(ch, v.ring.last().seq),
        v.ring.len() == 0 ==> v.taken(ch).delivered == v.delivered,
{
    let p = v.awaits(ch);
    lemma_filter_members(v.ring, p);
    lemma_filter_keeps_order(v.ring, p, 1, v.next_seq);
    if v.ring.contains(e) && p(e) {
        let k = choose|k: int| 0 <= k < v.ring.len() && v.ring[k] == e;
        assert(v.ring.filter(p).contains(v.ring[k]));
    }
    if v.undelivered(ch).contains(e) {
        let k = choose|k: int| 0 <= k < v.ring.filter(p).len() && v.ring.filter(p)[k] == e;
        assert(p(v.ring.filter(p)[k]));
    }
}

/// Purging leaves what it leaves in order, and every cursor as it was.
pub proof fn purging_keeps_the_order(
    v: BufferView,
    ch: Seq<char>,
    scope: Scope,
    user: Seq<char>,
    i: int,
    j: int,
)
    requires
        v.wf(),
    ensures
        ({
            let a = v.without_channel(ch);
            &&& a.delivered == v.delivered && a.next_seq == v.next_seq
            &&& 0 <= i < j < a.ring.len() ==> a.ring[i].seq < a.ring[j].seq
        }),
        ({
            let b = v.without_user(scope, user);
            &&& b.delivered == v.delivered && b.next_seq == v.next_seq
            &&& 0 <= i < j < b.ring.len() ==> b.ring[i].seq < b.ring[j].seq
        }),
{
    lemma_filter_keeps_order(v.ring, outside_channel(ch), 1, v.next_seq);
    lemma_filter_keeps_order(v.ring, not_by(scope, user), 1, v.next_seq);
}

/// A message wakes: it is newer than what its channel was handed, by a person,
/// in a channel that its scope watches, and one that its scope answers. A DM is
/// always watched and answered.
pub open spec fn calls_for_a_wake(v: BufferView, b: Map<Scope, BehaviorView>, e: MsgEvent) -> bool {
    let beh = behavior_of(b, e.scope);
    &&& !e.author_is_bot
    &&& v.delivered.contains_key(e.channel_id@) ==> e.seq > v.delivered[e.channel_id@]
    &&& e.seq > 0
    &&& !e.is_dm ==> beh.watched_channels.len() == 0 || beh.watched_channels.contains(
        e.channel_id@,
    )
    &&& !e.is_dm && !e.mentions_me ==> beh.respond_to != RespondTo::Mentions
}

/// Who wakes: exactly the channels that hold a message which calls for it, each
/// once, in the order of the first such message; that message names the place.
pub proof fn first_message_wakes_its_channel(
    v: BufferView,
    b: Map<Scope, BehaviorView>,
    k: int,
    i: int,
)
    requires
        v.wf(),
        0 <= k < v.ring.len(),
    ensures
        calls_for_a_wake(v, b, v.ring[k]) ==> exists|n: int|
            0 <= n < v.wakeworthy(b).len() && (#[trigger] v.wakeworthy(b)[n]).channel_id
                == v.ring[k].channel_id@,
        0 <= i < v.wakeworthy(b).len() ==> exists|m: int| #[trigger] opens_wake(v, b, m, i),
{
    wakeworthy_is_complete(v, b, v.ring[k].channel_id@);
    lemma_wake_meaning(v, b, k);
    if 0 <= i < v.wakeworthy(b).len() {
        lemma_wake_order(v, b, v.ring.len() as int, i);
        let m = choose|m: int| 0 <= m < v.ring.len() && #[trigger] starts(v, b, m, i);
        lemma_wake_meaning(v, b, m);
        assert forall|a: int| 0 <= a < m && #[trigger] calls_for_a_wake(v, b, v.ring[a]) implies v.ring[a].channel_id@
            != v.ring[m].channel_id@ by {
            lemma_wake_meaning(v, b, a);
        }
        assert(opens_wake(v, b, m, i));
    }
}

/// Earlier targets stand for earlier messages.
pub proof fn wakes_keep_the_order(v: BufferView, b: Map<Scope, BehaviorView>, i: int, j: int, m: int, n: int)
    requires
        v.wf(),
        0 <= i < j < v.wakeworthy(b).len(),
        opens_wake(v, b, m, i),
        opens_wake(v, b, n, j),
    ensures
        m < n,
{
    lemma_wake_order(v, b, v.ring.len() as int, i);
    lemma_wake_order(v, b, v.ring.len() as int, j);
    let p = choose|p: int| 0 <= p < v.ring.len() && #[trigger] starts(v, b, p, i);
    let q = choose|q: int| 0 <= q < v.ring.len() && #[trigger] starts(v, b, q, j);
    lemma_wake_meaning(v, b, m);
    lemma_wake_meaning(v, b, n);
    lemma_wake_meaning(v, b, p);
    lemma_wake_meaning(v, b, q);
    assert(p == m) by {
        if p < m {
            assert(calls_for_a_wake(v, b, v.ring[p]));
        }
    }
    assert(q == n) by {
        if q < n {
            assert(calls_for_a_wake(v, b, v.ring[q]));
        }
    }
    lemma_starts_ascend(v, b, v.ring.len() as int, i, j, p, q);
}

/// Target `i` stands for message `m`, which is the first of its channel to call
/// for a wake.
pub open spec fn opens_wake(v: BufferView, b: Map<Scope, BehaviorView>, m: int, i: int) -> bool {
    let e = v.ring[m];
    let t = v.wakeworthy(b)[i];
    &&& 0 <= m < v.ring.len()
    &&& calls_for_a_wake(v, b, e)
    &&& t.channel_id == e.channel_id@
    &&& t.is_dm == e.is_dm
    &&& t.scope == e.scope
    &&& e.is_dm ==> t.name == "your DM with "@ + e.author_name@
    &&& !e.is_dm ==> t.name == (match e.channel_name {
        Some(n) => "#"@ + n@,
        None => "channel "@ + e.channel_id@,
    })
    &&& forall|a: int|
        0 <= a < m && #[trigger] calls_for_a_wake(v, b, v.ring[a]) ==> v.ring[a].channel_id@
            != e.channel_id@
}

spec fn starts(v: BufferView, b: Map<Scope, BehaviorView>, m: int, i: int) -> bool {
    &&& v.wakes(v.ring[m], b)
    &&& v.wakeworthy(b)[i] == target_of(v.ring[m])
    &&& forall|a: int|
        0 <= a < m && v.wakes(#[trigger] v.ring[a], b) ==> v.ring[a].channel_id@
            != v.ring[m].channel_id@
}

proof fn lemma_wake_meaning(v: BufferView, b: Map<Scope, BehaviorView>, k: int)
    requires
        v.wf(),
        0 <= k < v.ring.len(),
    ensures
        v.wakes(v.ring[k], b) == calls_for_a_wake(v, b, v.ring[k]),
{
    assert(v.ring[k].seq >= 1);
}

proof fn lemma_wake_prefix(v: BufferView, b: Map<Scope, BehaviorView>, n: int)
    requires
        0 <= n <= v.ring.len(),
    ensures
        v.wake_list(b, n).len() <= v.wakeworthy(b).len(),
        forall|i: int|
            0 <= i < v.wake_list(b, n).len() ==> v.wake_list(b, n)[i] == v.wakeworthy(b)[i],
    decreases v.ring.len() - n,
{
    if n < v.ring.len() {
        lemma_wake_prefix(v, b, n + 1);
        let a = v.wake_list(b, n);
        let c = v.wake_list(b, n + 1);
        assert(forall|i: int| 0 <= i < a.len() ==> a[i] == c[i]);
    }
}

proof fn lemma_wake_order(v: BufferView, b: Map<Scope, BehaviorView>, n: int, i: int)
    requires
        0 <= n <= v.ring.len(),
        0 <= i < v.wake_list(b, n).len(),
    ensures
        exists|m: int| 0 <= m < n && #[trigger] starts(v, b, m, i),
    decreases n,
{
    let prev = v.wake_list(b, n - 1);
    if n > 0 {
        if i < prev.len() {
            lemma_wake_order(v, b, n - 1, i);
            let m = choose|m: int| 0 <= m < n - 1 && #[trigger] starts(v, b, m, i);
            assert(0 <= m < n && starts(v, b, m, i));
        } else {
            lemma_wake_prefix(v, b, n);
            lemma_wake_list(v, b, n - 1);
            let e = v.ring[n - 1];
            assert(v.wake_list(b, n)[i] == target_of(e));
            assert forall|a: int|
                0 <= a < n - 1 && v.wakes(#[trigger] v.ring[a], b) implies v.ring[a].channel_id@
                != e.channel_id@ by {
                assert(has_channel(prev, v.ring[a].channel_id@));
            }
            assert(starts(v, b, n - 1, i));
        }
    }
}

proof fn lemma_starts_ascend(
    v: BufferView,
    b: Map<Scope, BehaviorView>,
    n: int,
    i: int,
    j: int,
    p: int,
    q: int,
)
    requires
        0 <= n <= v.ring.len(),
        0 <= i < j < v.wake_list(b, n).len(),
        0 <= p < v.ring.len(),
        0 <= q < v.ring.len(),
        starts(v, b, p, i),
        starts(v, b, q, j),
    ensures
        p < q,
    decreases n,
{
    let prev = v.wake_list(b, n - 1);
    if j < prev.len() {
        lemma_starts_ascend(v, b, n - 1, i, j, p, q);
    } else {
        lemma_wake_order(v, b, n - 1, i);
        let m = choose|m: int| 0 <= m < n - 1 && #[trigger] starts(v, b, m, i);
        let e = v.ring[n - 1];
        lemma_wake_prefix(v, b, n);
        assert(v.wakeworthy(b)[j] == target_of(e));
        assert(v.ring[m].channel_id@ == v.ring[p].channel_id@);
        assert(p == m) by {
            if p < m {
                assert(v.wakes(v.ring[p], b));
            } else if m < p {
                assert(v.wakes(v.ring[m], b));
            }
        }
        assert(v.ring[q].channel_id@ == e.channel_id@);
        if q < n - 1 {
            lemma_wake_list(v, b, n - 1);
            assert(has_channel(prev, v.ring[q].channel_id@));
        }
    }
}

} // verus!
