//! Owns the session lifecycle: one session per channel, isolated per scope
//! (server or DM).
//!
//! A dispatcher watches the buffer for wake-worthy activity and starts a turn
//! per active channel (debounced). Each channel has its own chain of resumed
//! sessions; each turn gets a one-time session token that binds every tool call
//! to its channel and scope.

use serde_json::Value;
use vstd::arithmetic::power2::pow2;
use vstd::prelude::*;

use crate::assoc::{Copied, StrSet};
use crate::buffer::{targets, WakeTarget, WakeTargetView};
use crate::config::ClaudeCfg;
use crate::consent::queued;
use crate::json;
use crate::json::{compact_json, having, json_of, member, obj, parsed_json, text_member, Json};
use crate::persona::behavior_of;
use crate::prompts;
use crate::prompts::{
    activity_prompt, first_summon_prompt, fresh_prompt, idle_prompt, prompt_with_token,
    scrub_prompt, system_prompt,
};
use crate::rows::lemma_filter_members;
use crate::scope::Scope;
use crate::state::{
    jobs, no_session, session_of, ScrubJob, ScrubView, SessState, SessView, Shared, SharedView,
    TurnCtx, TurnView,
};
use crate::text;
use crate::text::{decimal, hex, opt_text, texts, trimmed};

verus! {

/// Why a channel is woken.
#[derive(Clone, Copy, PartialEq, Eq, Structural, Debug)]
pub enum WakeKind {
    Activity,
    Idle,
}

// ---- the dispatcher ----

/// Which channels have a turn running, which one was woken last, and whether a
/// maintenance turn is running.
pub struct Dispatcher {
    pub busy: StrSet,
    pub last_active: Option<WakeTarget>,
    pub scrubbing: bool,
}

pub struct DispatcherView {
    pub busy: Set<Seq<char>>,
    pub last_active: Option<WakeTargetView>,
    pub scrubbing: bool,
}

/// A target that may be missing.
pub open spec fn opt_target(t: Option<WakeTarget>) -> Option<WakeTargetView> {
    match t {
        Some(w) => Some(w@),
        None => None,
    }
}

impl View for Dispatcher {
    type V = DispatcherView;

    open spec fn view(&self) -> DispatcherView {
        DispatcherView {
            busy: self.busy@,
            last_active: opt_target(self.last_active),
            scrubbing: self.scrubbing,
        }
    }
}

/// The targets whose channel has no turn running.
pub open spec fn not_busy(busy: Set<Seq<char>>) -> spec_fn(WakeTargetView) -> bool {
    |t: WakeTargetView| !busy.contains(t.channel_id)
}

/// The channels of a row of targets, added to those that are busy.
pub open spec fn busy_with(busy: Set<Seq<char>>, list: Seq<WakeTargetView>) -> Set<Seq<char>>
    decreases list.len(),
{
    if list.len() == 0 {
        busy
    } else {
        busy_with(busy, list.drop_last()).insert(list.last().channel_id)
    }
}

/// How long the idle timer runs where no channel has one: a year, in seconds.
pub const NO_IDLE_TIMER: u64 = 31536000;

impl DispatcherView {
    /// The channels to start a turn in: those worth waking that have none.
    pub open spec fn ready(self, s: SharedView) -> Seq<WakeTargetView> {
        s.buffer.wakeworthy(s.behaviors).filter(not_busy(self.busy))
    }

    /// The dispatcher after turns were started in some channels.
    pub open spec fn woken(self, list: Seq<WakeTargetView>) -> DispatcherView {
        DispatcherView {
            busy: busy_with(self.busy, list),
            last_active: if list.len() > 0 {
                Some(list.last())
            } else {
                self.last_active
            },
            ..self
        }
    }

    /// How often the channel that was woken last wants to be woken in quiet
    /// times, in minutes; 0 for never.
    pub open spec fn idle_minutes(self, s: SharedView) -> u64 {
        match self.last_active {
            Some(t) => behavior_of(s.behaviors, t.scope).idle_wake_minutes,
            None => 0,
        }
    }

    /// How many seconds the idle timer runs.
    pub open spec fn idle_wait(self, s: SharedView) -> int {
        if self.idle_minutes(s) > 0 {
            self.idle_minutes(s) * 60
        } else {
            NO_IDLE_TIMER as int
        }
    }

    /// The channel to wake when the idle timer fires.
    pub open spec fn idle_target(self, s: SharedView) -> Option<WakeTargetView> {
        match self.last_active {
            Some(t) => if self.idle_minutes(s) > 0 && !self.busy.contains(t.channel_id) {
                Some(t)
            } else {
                None
            },
            None => None,
        }
    }

    /// The dispatcher after the idle timer fired.
    pub open spec fn idled(self, s: SharedView) -> DispatcherView {
        match self.idle_target(s) {
            Some(t) => DispatcherView { busy: self.busy.insert(t.channel_id), ..self },
            None => self,
        }
    }

    /// The dispatcher after a channel's turn ended.
    pub open spec fn ended(self, ch: Seq<char>) -> DispatcherView {
        DispatcherView { busy: self.busy.remove(ch), ..self }
    }

    /// A persona scrub waits and none is running.
    pub open spec fn scrub_due(self, s: SharedView) -> bool {
        !self.scrubbing && s.pending_scrubs.len() > 0
    }
}

impl Dispatcher {
    /// No turn running, no channel woken yet.
    pub fn new() -> (d: Self)
        ensures
            d@ == (DispatcherView { busy: Set::empty(), last_active: None, scrubbing: false }),
    {
        Dispatcher { busy: StrSet::new(), last_active: None, scrubbing: false }
    }

    /// The channels to start a turn in; each counts as busy from now on.
    pub fn wake(&mut self, shared: &Shared) -> (out: Vec<WakeTarget>)
        ensures
            targets(out@) == old(self)@.ready(shared@),
            final(self)@ == old(self)@.woken(old(self)@.ready(shared@)),
    {
        let all = shared.wakeworthy_channels();
        let ghost list = targets(all@);
        let ghost p = not_busy(self@.busy);
        let mut out: Vec<WakeTarget> = Vec::new();
        let mut i: usize = 0;
        proof {
            reveal(Seq::filter);
            assert(targets(out@) =~= list.take(0).filter(p));
        }
        while i < all.len()
            invariant
                i <= all@.len(),
                list == targets(all@),
                self@ == old(self)@,
                p == not_busy(self@.busy),
                targets(out@) == list.take(i as int).filter(p),
            decreases all@.len() - i,
        {
            let ghost before = out@;
            let ghost next = list.take(i + 1);
            proof {
                reveal(Seq::filter);
                assert(next.drop_last() =~= list.take(i as int));
                assert(next.last() == all@[i as int]@);
            }
            if !self.busy.contains(&all[i].channel_id) {
                out.push(all[i].clone());
                assert(targets(out@) =~= targets(before).push(all@[i as int]@));
            }
            i += 1;
        }
        assert(list.take(i as int) =~= list);
        let mut j: usize = 0;
        while j < out.len()
            invariant
                j <= out@.len(),
                self@.scrubbing == old(self)@.scrubbing,
                self@.busy == busy_with(old(self)@.busy, targets(out@).take(j as int)),
                self@.last_active == (if j > 0 {
                    Some(targets(out@)[j - 1])
                } else {
                    old(self)@.last_active
                }),
            decreases out@.len() - j,
        {
            self.last_active = Some(out[j].clone());
            self.busy.insert(out[j].channel_id.clone());
            assert(targets(out@).take(j + 1).drop_last() =~= targets(out@).take(j as int));
            j += 1;
        }
        assert(targets(out@).take(j as int) =~= targets(out@));
        out
    }

    /// The idle timer fired: the channel to wake, if any; it counts as busy
    /// from now on.
    pub fn idle_fired(&mut self, shared: &Shared) -> (res: Option<WakeTarget>)
        ensures
            opt_target(res) == old(self)@.idle_target(shared@),
            final(self)@ == old(self)@.idled(shared@),
    {
        let t = match &self.last_active {
            Some(t) => t.clone(),
            None => return None,
        };
        if shared.behavior_for(t.scope).idle_wake_minutes == 0 {
            return None;
        }
        if self.busy.insert(t.channel_id.clone()) {
            Some(t)
        } else {
            assert(self@.busy =~= old(self)@.busy);
            None
        }
    }

    /// How many seconds the idle timer runs from now.
    pub fn idle_deadline_from(&self, shared: &Shared) -> (secs: u64)
        requires
            self@.idle_minutes(shared@) * 60 <= u64::MAX,
        ensures
            secs == self@.idle_wait(shared@),
    {
        let m: u64 = match &self.last_active {
            Some(t) => shared.behavior_for(t.scope).idle_wake_minutes,
            None => 0,
        };
        if m > 0 {
            m * 60
        } else {
            NO_IDLE_TIMER
        }
    }

    /// A channel's turn is over.
    pub fn turn_ended(&mut self, channel_id: &str)
        ensures
            final(self)@ == (DispatcherView {
                busy: old(self)@.busy.remove(channel_id@),
                ..old(self)@
            }),
            final(self)@ == old(self)@.ended(channel_id@),
    {
        self.busy.remove(&channel_id.to_owned());
    }

    /// The persona scrub to run now: the one that waits longest, one at a time.
    pub fn next_scrub(&mut self, shared: &mut Shared) -> (job: Option<ScrubJob>)
        ensures
            if old(self)@.scrub_due(old(shared)@) {
                &&& job is Some
                &&& job->0@ == old(shared)@.pending_scrubs[0]
                &&& final(self)@ == (DispatcherView { scrubbing: true, ..old(self)@ })
                &&& final(shared)@ == (SharedView {
                    pending_scrubs: old(shared)@.pending_scrubs.skip(1),
                    ..old(shared)@
                })
            } else {
                job is None && final(self)@ == old(self)@ && final(shared)@ == old(shared)@
            },
            (final(self)@, final(shared)@) == scrub_begun(old(self)@, old(shared)@),
    {
        if self.scrubbing || shared.pending_scrubs.len() == 0 {
            return None;
        }
        self.scrubbing = true;
        let ghost before = shared.pending_scrubs@;
        let job = shared.pending_scrubs.remove(0);
        assert(jobs(shared.pending_scrubs@) =~= jobs(before).skip(1));
        Some(job)
    }

    /// A maintenance turn is over. One that failed waits for another try.
    pub fn scrub_ended(&mut self, shared: &mut Shared, job: ScrubJob, ok: bool)
        ensures
            final(self)@ == (DispatcherView { scrubbing: false, ..old(self)@ }),
            final(shared)@ == (SharedView {
                pending_scrubs: if ok {
                    old(shared)@.pending_scrubs
                } else {
                    queued(old(shared)@.pending_scrubs, job@)
                },
                ..old(shared)@
            }),
            (final(self)@, final(shared)@) == scrub_over(old(self)@, old(shared)@, job@, ok),
    {
        self.scrubbing = false;
        if !ok && !crate::consent::is_queued(&shared.pending_scrubs, &job) {
            let ghost before = shared.pending_scrubs@;
            shared.pending_scrubs.push(job);
            assert(jobs(shared.pending_scrubs@) =~= jobs(before).push(job@));
        }
    }
}

/// The dispatcher and the state once a scrub that is due was taken to be run.
pub open spec fn scrub_begun(d: DispatcherView, s: SharedView) -> (DispatcherView, SharedView) {
    if d.scrub_due(s) {
        (
            DispatcherView { scrubbing: true, ..d },
            SharedView { pending_scrubs: s.pending_scrubs.skip(1), ..s },
        )
    } else {
        (d, s)
    }
}

/// The dispatcher and the state once a scrub was run. One that failed waits
/// again.
pub open spec fn scrub_over(d: DispatcherView, s: SharedView, job: ScrubView, ok: bool) -> (
    DispatcherView,
    SharedView,
) {
    let pending_scrubs = if ok {
        s.pending_scrubs
    } else {
        queued(s.pending_scrubs, job)
    };
    (DispatcherView { scrubbing: false, ..d }, SharedView { pending_scrubs, ..s })
}

proof fn lemma_busy_with(busy: Set<Seq<char>>, list: Seq<WakeTargetView>)
    ensures
        forall|ch: Seq<char>| #[trigger]
            busy_with(busy, list).contains(ch) <==> busy.contains(ch)
                || crate::buffer::has_channel(list, ch),
    decreases list.len(),
{
    if list.len() > 0 {
        let t = list.drop_last();
        lemma_busy_with(busy, t);
        assert forall|ch: Seq<char>| #[trigger]
            busy_with(busy, list).contains(ch) <==> busy.contains(ch)
                || crate::buffer::has_channel(list, ch) by {
            assert(busy_with(busy, t).contains(ch) <==> busy.contains(ch)
                || crate::buffer::has_channel(t, ch));
            if crate::buffer::has_channel(t, ch) {
                let i = choose|i: int| 0 <= i < t.len() && (#[trigger] t[i]).channel_id == ch;
                assert(list[i].channel_id == ch);
            }
            if crate::buffer::has_channel(list, ch) && ch != list.last().channel_id {
                let i = choose|i: int| 0 <= i < list.len() && (#[trigger] list[i]).channel_id == ch;
                assert(t[i].channel_id == ch);
            }
            assert(list[list.len() - 1].channel_id == list.last().channel_id);
        }
    }
}

/// One turn per channel: no turn is started in a channel that has one running,
/// by activity or by the idle timer, and a channel in which one was started is
/// busy until that turn is over.
pub proof fn one_turn_per_channel(d: DispatcherView, s: SharedView, i: int)
    requires
        0 <= i < d.ready(s).len(),
    ensures
        !d.busy.contains(d.ready(s)[i].channel_id),
        d.woken(d.ready(s)).busy.contains(d.ready(s)[i].channel_id),
        d.idle_target(s) matches Some(t) ==> !d.busy.contains(t.channel_id) && d.idled(
            s,
        ).busy.contains(t.channel_id),
{
    let list = d.ready(s);
    let all = s.buffer.wakeworthy(s.behaviors);
    lemma_filter_members(all, not_busy(d.busy));
    lemma_busy_with(d.busy, list);
    assert(crate::buffer::has_channel(list, list[i].channel_id));
}

// ---- what a turn is told ----

/// What a turn starts from: the generation of the channel's transcripts, the
/// session it has, whether it is new to the channel, and whether a fresh
/// session begins.
pub struct Begun {
    pub gen_at_start: u64,
    pub session_id: Option<String>,
    pub first_time: bool,
    pub fresh: bool,
}

pub struct BegunView {
    pub gen_at_start: u64,
    pub session_id: Option<Seq<char>>,
    pub first_time: bool,
    pub fresh: bool,
}

impl View for Begun {
    type V = BegunView;

    open spec fn view(&self) -> BegunView {
        BegunView {
            gen_at_start: self.gen_at_start,
            session_id: opt_text(self.session_id),
            first_time: self.first_time,
            fresh: self.fresh,
        }
    }
}

/// What a turn in a channel starts from. A session that has been woken
/// `session_max_wakes` times makes room for a fresh one.
pub open spec fn begun(s: SharedView, ch: Seq<char>) -> BegunView {
    let st = session_of(s.sessions, ch);
    BegunView {
        gen_at_start: s.scrub_gen,
        session_id: st.session_id,
        first_time: !s.sessions.contains_key(ch),
        fresh: st.session_id is None || st.wakes >= s.cfg.claude.session_max_wakes,
    }
}

/// What a turn in a channel starts from.
pub fn begin_turn(shared: &Shared, channel_id: &str) -> (b: Begun)
    ensures
        b@ == begun(shared@, channel_id@),
{
    let key = channel_id.to_owned();
    let (st, first_time) = match shared.sessions.get(&key) {
        Some(st) => (st.copied(), false),
        None => (SessState::default(), true),
    };
    let fresh = st.session_id.is_none() || st.wakes >= shared.cfg.claude.session_max_wakes;
    Begun { gen_at_start: shared.scrub_gen, session_id: st.session_id, first_time, fresh }
}

/// How many seconds a turn waits for more activity before it starts.
pub open spec fn settling_time(cfg: ClaudeCfg, kind: WakeKind) -> u64 {
    match kind {
        WakeKind::Activity => cfg.debounce_seconds,
        WakeKind::Idle => 0,
    }
}

/// How many seconds a turn waits for more activity before it starts.
pub fn debounce(cfg: &ClaudeCfg, kind: WakeKind) -> (secs: u64)
    ensures
        secs == (if kind == WakeKind::Activity {
            cfg.debounce_seconds
        } else {
            0
        }),
        secs == settling_time(*cfg, kind),
{
    match kind {
        WakeKind::Activity => cfg.debounce_seconds,
        WakeKind::Idle => 0,
    }
}

/// How many seconds a turn may take.
pub fn turn_timeout(cfg: &ClaudeCfg) -> (secs: u64)
    requires
        cfg.turn_timeout_minutes * 60 <= u64::MAX,
    ensures
        secs == cfg.turn_timeout_minutes * 60,
{
    cfg.turn_timeout_minutes * 60
}

/// What a session is told to call its channel.
pub open spec fn place_of(t: WakeTargetView) -> Seq<char> {
    t.name + " (channel_id "@ + t.channel_id + ")"@
}

/// Why a session is awake: it was summoned for the first time, or starts
/// afresh, or its idle timer fired, or there is activity.
pub open spec fn wake_prompt(t: WakeTargetView, b: BegunView, kind: WakeKind) -> Seq<char> {
    if b.first_time && !t.is_dm {
        first_summon_prompt(place_of(t))
    } else if b.fresh {
        fresh_prompt(place_of(t))
    } else if kind == WakeKind::Idle {
        idle_prompt(place_of(t))
    } else {
        activity_prompt(place_of(t))
    }
}

/// Why a session is awake.
pub fn turn_body(target: &WakeTarget, b: &Begun, kind: WakeKind) -> (s: String)
    ensures
        s@ == wake_prompt(target@, b@, kind),
{
    let head = text::join3(target.name.as_str(), " (channel_id ", target.channel_id.as_str());
    let place = text::join2(head.as_str(), ")");
    if b.first_time && !target.is_dm {
        prompts::first_summon(place.as_str())
    } else if b.fresh {
        prompts::fresh(place.as_str())
    } else {
        match kind {
            WakeKind::Idle => prompts::idle(place.as_str()),
            WakeKind::Activity => prompts::activity(place.as_str()),
        }
    }
}

/// The arguments of the program that runs a session.
pub open spec fn command_line(
    cfg: ClaudeCfg,
    prompt: Seq<char>,
    mcp_config: Seq<char>,
    sys: Seq<char>,
    resume: Option<Seq<char>>,
) -> Seq<Seq<char>> {
    let fixed = seq![
        "-p"@,
        prompt,
        "--output-format"@,
        "json"@,
        "--model"@,
        cfg.model@,
        "--mcp-config"@,
        mcp_config,
        "--strict-mcp-config"@,
        "--allowed-tools"@,
        "mcp__discord"@,
        "--append-system-prompt"@,
        sys,
    ];
    let banned = if cfg.disallowed_tools@.len() > 0 {
        seq!["--disallowed-tools"@] + texts(cfg.disallowed_tools@)
    } else {
        Seq::empty()
    };
    let resumed = match resume {
        Some(id) => seq!["--resume"@, id],
        None => Seq::empty(),
    };
    fixed + banned + resumed + texts(cfg.extra_args@)
}

fn push_texts(v: &mut Vec<String>, more: &Vec<String>)
    ensures
        texts(final(v)@) == texts(old(v)@) + texts(more@),
{
    let mut i: usize = 0;
    assert(texts(v@) =~= texts(old(v)@) + texts(more@).take(0));
    while i < more.len()
        invariant
            i <= more@.len(),
            texts(v@) == texts(old(v)@) + texts(more@).take(i as int),
        decreases more@.len() - i,
    {
        let ghost before = v@;
        v.push(more[i].clone());
        assert(texts(v@) =~= texts(before).push(more@[i as int]@));
        assert(texts(v@) =~= texts(old(v)@) + texts(more@).take(i + 1));
        i += 1;
    }
    assert(texts(more@).take(i as int) =~= texts(more@));
}

fn push_text(v: &mut Vec<String>, s: &str)
    ensures
        texts(final(v)@) == texts(old(v)@).push(s@),
{
    let ghost before = v@;
    v.push(s.to_owned());
    assert(texts(v@) =~= texts(before).push(s@));
}

/// The arguments of the program that runs a session.
pub fn command_args(
    cfg: &ClaudeCfg,
    prompt: &str,
    mcp_config: &str,
    sys: &str,
    resume: &Option<String>,
) -> (args: Vec<String>)
    ensures
        texts(args@) == command_line(*cfg, prompt@, mcp_config@, sys@, opt_text(*resume)),
{
    let mut v: Vec<String> = Vec::new();
    assert(texts(v@) =~= Seq::empty());
    push_text(&mut v, "-p");
    push_text(&mut v, prompt);
    push_text(&mut v, "--output-format");
    push_text(&mut v, "json");
    push_text(&mut v, "--model");
    push_text(&mut v, cfg.model.as_str());
    push_text(&mut v, "--mcp-config");
    push_text(&mut v, mcp_config);
    push_text(&mut v, "--strict-mcp-config");
    push_text(&mut v, "--allowed-tools");
    push_text(&mut v, "mcp__discord");
    push_text(&mut v, "--append-system-prompt");
    push_text(&mut v, sys);
    if cfg.disallowed_tools.len() > 0 {
        push_text(&mut v, "--disallowed-tools");
        push_texts(&mut v, &cfg.disallowed_tools);
    }
    if let Some(id) = resume {
        push_text(&mut v, "--resume");
        push_text(&mut v, id.as_str());
    }
    push_texts(&mut v, &cfg.extra_args);
    assert(texts(v@) =~= command_line(*cfg, prompt@, mcp_config@, sys@, opt_text(*resume)));
    v
}

/// A turn that is about to run: its token and the arguments of its program.
pub struct Turn {
    pub token: String,
    pub args: Vec<String>,
}

/// The turn of a channel, as its token sees it.
pub open spec fn turn_of(t: WakeTargetView) -> TurnView {
    TurnView { channel_id: t.channel_id, scope: t.scope, is_dm: t.is_dm, maintenance: false }
}

/// The session that a turn resumes: the channel's, unless a fresh one begins.
pub open spec fn resumed(b: BegunView) -> Option<Seq<char>> {
    if b.fresh {
        None
    } else {
        b.session_id
    }
}

/// The state once a channel's turn runs: its token is alive, and it infers.
pub open spec fn turn_begun(s: SharedView, t: WakeTargetView, token: Seq<char>) -> SharedView {
    SharedView {
        typing_active: s.typing_active.insert(t.channel_id),
        ..s.token_issued(token, turn_of(t))
    }
}

/// Composes a channel's turn: makes its token out of fresh random bytes, marks
/// the channel as inferring, and says how to run the session.
pub fn compose_turn(
    shared: &mut Shared,
    target: &WakeTarget,
    kind: WakeKind,
    b: &Begun,
    persona: &str,
    mcp_config: &str,
    random: &Vec<u8>,
) -> (turn: Turn)
    ensures
        turn.token@ == hex(random@),
        texts(turn.args@) == command_line(
            old(shared)@.cfg.claude,
            prompt_with_token(wake_prompt(target@, b@, kind), turn.token@),
            mcp_config@,
            system_prompt(persona@),
            resumed(b@),
        ),
        final(shared)@ == (SharedView {
            typing_active: old(shared)@.typing_active.insert(target@.channel_id),
            ..old(shared)@.token_issued(turn.token@, turn_of(target@))
        }),
        final(shared)@ == turn_begun(old(shared)@, target@, turn.token@),
{
    let sys = prompts::system(persona);
    let body = turn_body(target, b, kind);
    let ctx = TurnCtx {
        channel_id: target.channel_id.clone(),
        scope: target.scope,
        is_dm: target.is_dm,
        maintenance: false,
    };
    let token = shared.new_token(ctx, random);
    let prompt = prompts::with_token(body.as_str(), token.as_str());
    let resume = if b.fresh {
        None
    } else {
        b.session_id.clone()
    };
    let args = command_args(
        &shared.cfg.claude,
        prompt.as_str(),
        mcp_config,
        sys.as_str(),
        &resume,
    );
    shared.typing_active.insert(target.channel_id.clone());
    Turn { token, args }
}

/// The maintenance turn that erases a person from a scope's persona, as its
/// token sees it: it has no channel and may not speak.
pub open spec fn scrub_turn(job: ScrubView) -> TurnView {
    TurnView {
        channel_id: ""@,
        scope: job.scope,
        is_dm: job.scope is Dm,
        maintenance: true,
    }
}

/// Composes the maintenance turn that erases a person from a scope's persona.
/// Its session is a fresh one and is never resumed.
pub fn compose_scrub(
    shared: &mut Shared,
    job: &ScrubJob,
    persona: &str,
    mcp_config: &str,
    random: &Vec<u8>,
) -> (turn: Turn)
    ensures
        turn.token@ == hex(random@),
        texts(turn.args@) == command_line(
            old(shared)@.cfg.claude,
            prompt_with_token(scrub_prompt(job@.user_name, job@.user_id), turn.token@),
            mcp_config@,
            system_prompt(persona@),
            None,
        ),
        final(shared)@ == old(shared)@.token_issued(turn.token@, scrub_turn(job@)),
{
    let sys = prompts::system(persona);
    let body = prompts::scrub(job.user_name.as_str(), job.user_id.as_str());
    let is_dm = match job.scope {
        Scope::Dm(_) => true,
        Scope::Guild(_) => false,
    };
    let ctx = TurnCtx { channel_id: "".to_owned(), scope: job.scope, is_dm, maintenance: true };
    let token = shared.new_token(ctx, random);
    let prompt = prompts::with_token(body.as_str(), token.as_str());
    let args = command_args(
        &shared.cfg.claude,
        prompt.as_str(),
        mcp_config,
        sys.as_str(),
        &None,
    );
    Turn { token, args }
}

/// Where the sessions find the tools.
pub open spec fn mcp_doc(port: u16) -> Json {
    let url = "http://127.0.0.1:"@ + decimal(port as nat) + "/mcp"@;
    let server = having(having(obj(), "type"@, Json::Str("http"@)), "url"@, Json::Str(url));
    having(obj(), "mcpServers"@, having(obj(), "discord"@, server))
}

/// Where the sessions find the tools.
pub fn mcp_config(port: u16) -> (v: Value)
    ensures
        json_of(v) == mcp_doc(port),
{
    let number = text::u64_to_string(port as u64);
    let url = text::join3("http://127.0.0.1:", number.as_str(), "/mcp");
    let server = json::with_text(json::object(), "type", "http");
    let server = json::with_text(server, "url", url.as_str());
    json::with(json::object(), "mcpServers", json::with(json::object(), "discord", server))
}

/// The file that tells the sessions where to find the tools.
pub fn mcp_config_text(port: u16) -> (s: String)
    ensures
        s@ == compact_json(mcp_doc(port)),
{
    json::to_compact(&mcp_config(port))
}

// ---- what becomes of a turn ----

/// What a session says when its turn is over.
pub struct TurnReport {
    pub is_error: bool,
    pub session_id: Option<String>,
}

pub struct ReportView {
    pub is_error: bool,
    pub session_id: Option<Seq<char>>,
}

impl View for TurnReport {
    type V = ReportView;

    open spec fn view(&self) -> ReportView {
        ReportView { is_error: self.is_error, session_id: opt_text(self.session_id) }
    }
}

/// The report that a document makes.
pub open spec fn report_of(doc: Json) -> ReportView {
    ReportView {
        is_error: member(doc, "is_error"@) == Some(Json::Bool(true)),
        session_id: text_member(doc, "session_id"@),
    }
}

/// The report that a document makes.
pub fn report(doc: &Value) -> (r: TurnReport)
    ensures
        r@ == report_of(json_of(*doc)),
{
    let is_error = match json::get(doc, "is_error") {
        Some(v) => match v.as_bool() {
            Some(b) => b,
            None => false,
        },
        None => false,
    };
    let session_id = match json::get_text(doc, "session_id") {
        Some(id) => Some(id.to_owned()),
        None => None,
    };
    TurnReport { is_error, session_id }
}

/// The report that a session printed, if what it printed is one.
pub open spec fn printed_report(stdout: Seq<char>) -> Option<ReportView> {
    match parsed_json(trimmed(stdout)) {
        Some(doc) => Some(report_of(doc)),
        None => None,
    }
}

/// A report that may be missing.
pub open spec fn opt_report(r: Option<TurnReport>) -> Option<ReportView> {
    match r {
        Some(t) => Some(t@),
        None => None,
    }
}

/// The report that a session printed, if what it printed is one.
pub fn read_report(stdout: &str) -> (r: Option<TurnReport>)
    ensures
        opt_report(r) == printed_report(stdout@),
{
    match json::parse(text::trim(stdout).as_str()) {
        Some(doc) => Some(report(&doc)),
        None => None,
    }
}

/// How many failed turns in a row drop a channel's session.
pub const MAX_FAILURES: u32 = 3;

/// A turn went well: it reported, and no error.
pub open spec fn went_well(r: Option<ReportView>) -> bool {
    r matches Some(t) && !t.is_error
}

/// The channel's record with the session that a turn ended in, unless the
/// transcripts were dropped while it ran.
pub open spec fn recorded(
    st: SessView,
    scrub_gen: u64,
    b: BegunView,
    r: Option<ReportView>,
) -> SessView {
    match r {
        Some(t) => if scrub_gen == b.gen_at_start && t.session_id is Some {
            SessView {
                session_id: t.session_id,
                wakes: if b.fresh {
                    1
                } else {
                    (st.wakes + 1) as u64
                },
                ..st
            }
        } else {
            st
        },
        None => st,
    }
}

/// The channel's record after one more failed turn. The session may be
/// poisoned: after a few failures in a row the channel starts fresh.
pub open spec fn failed(st: SessView) -> SessView {
    if st.failures + 1 >= MAX_FAILURES {
        no_session()
    } else {
        SessView { failures: (st.failures + 1) as u32, ..st }
    }
}

/// The channel's record after a turn.
pub open spec fn session_after(
    st: SessView,
    scrub_gen: u64,
    b: BegunView,
    r: Option<ReportView>,
) -> SessView {
    let kept = recorded(st, scrub_gen, b, r);
    if went_well(r) {
        SessView { failures: 0, ..kept }
    } else {
        failed(kept)
    }
}

/// The state after a channel's turn: its session is on record, its token is
/// dead, and it infers no more.
pub open spec fn settled(
    s: SharedView,
    ch: Seq<char>,
    b: BegunView,
    token: Seq<char>,
    r: Option<ReportView>,
) -> SharedView {
    SharedView {
        sessions: s.sessions.insert(
            ch,
            session_after(session_of(s.sessions, ch), s.scrub_gen, b, r),
        ),
        typing_active: s.typing_active.remove(ch),
        ..s.token_dropped(token)
    }
}

/// How many seconds a channel rests after a failed turn: twice as many after
/// each failure, a minute at most.
pub open spec fn backoff_seconds(failures: nat) -> nat {
    if 2 * pow2(failures) < 60 {
        2 * pow2(failures)
    } else {
        60
    }
}

/// How many seconds a channel with this record rests after a turn: none where
/// it went well, else by how many have failed in a row, this one included.
pub open spec fn rest_after(st: SessView, r: Option<ReportView>) -> u64 {
    if went_well(r) {
        0
    } else {
        backoff_seconds((st.failures + 1) as nat) as u64
    }
}

/// How many seconds a channel rests after a failed turn.
pub fn backoff(failures: u32) -> (secs: u64)
    ensures
        secs == backoff_seconds(failures as nat),
{
    if failures >= 5 {
        proof {
            vstd::arithmetic::power2::lemma2_to64();
            if failures > 5 {
                vstd::arithmetic::power2::lemma_pow2_strictly_increases(5, failures as nat);
            }
        }
        return 60;
    }
    proof {
        vstd::arithmetic::power2::lemma2_to64();
    }
    match failures {
        0 => 2,
        1 => 4,
        2 => 8,
        3 => 16,
        _ => 32,
    }
}

/// What a turn came to.
pub struct Finished {
    pub ok: bool,
    /// The session records are to be saved.
    pub save: bool,
    /// How many seconds the channel rests before it may be woken again.
    pub rest: u64,
}

/// Settles a channel's turn that printed something, or nothing.
pub fn finish_turn(
    shared: &mut Shared,
    channel_id: &str,
    b: &Begun,
    token: &str,
    stdout: &Option<String>,
) -> (f: Finished)
    requires
        !b.fresh ==> session_of(old(shared)@.sessions, channel_id@).wakes < u64::MAX,
        session_of(old(shared)@.sessions, channel_id@).failures < u32::MAX,
    ensures
        ({
            let r = match opt_text(*stdout) {
                Some(t) => printed_report(t),
                None => None,
            };
            &&& final(shared)@ == settled(old(shared)@, channel_id@, b@, token@, r)
            &&& f == finished(old(shared)@, channel_id@, b@, r)
        }),
{
    let r = match stdout {
        Some(t) => read_report(t.as_str()),
        None => None,
    };
    settle_turn(shared, channel_id, b, token, &r)
}

/// What a turn came to: a failed one rests its channel, and the records are
/// saved where they may have changed.
pub open spec fn finished(
    s: SharedView,
    ch: Seq<char>,
    b: BegunView,
    r: Option<ReportView>,
) -> Finished {
    Finished {
        ok: went_well(r),
        save: !went_well(r) || s.scrub_gen == b.gen_at_start,
        rest: rest_after(session_of(s.sessions, ch), r),
    }
}

/// Settles a channel's turn, given its report.
pub fn settle_turn(
    shared: &mut Shared,
    channel_id: &str,
    b: &Begun,
    token: &str,
    r: &Option<TurnReport>,
) -> (f: Finished)
    requires
        !b.fresh ==> session_of(old(shared)@.sessions, channel_id@).wakes < u64::MAX,
        session_of(old(shared)@.sessions, channel_id@).failures < u32::MAX,
    ensures
        final(shared)@ == settled(old(shared)@, channel_id@, b@, token@, opt_report(*r)),
        f == finished(old(shared)@, channel_id@, b@, opt_report(*r)),
{
    let key = channel_id.to_owned();
    let mut st = match shared.sessions.remove(&key) {
        Some(st) => st,
        None => SessState::default(),
    };
    let scrubbed = shared.scrub_gen != b.gen_at_start;
    let mut ok = false;
    if let Some(t) = r {
        ok = !t.is_error;
        if !scrubbed {
            if let Some(id) = &t.session_id {
                st.session_id = Some(id.clone());
                st.wakes = if b.fresh {
                    1
                } else {
                    st.wakes + 1
                };
            }
        }
    }
    assert(st@ == recorded(
        session_of(old(shared)@.sessions, channel_id@),
        old(shared)@.scrub_gen,
        b@,
        opt_report(*r),
    ));
    shared.typing_active.remove(&key);
    shared.drop_token(token);
    let rest: u64 = if ok {
        st.failures = 0;
        0
    } else {
        st.failures = st.failures + 1;
        let rest: u64 = backoff(st.failures);
        if st.failures >= MAX_FAILURES {
            st = SessState::default();
        }
        rest
    };
    shared.sessions.insert(key, st);
    assert(shared@.sessions =~= settled(
        old(shared)@,
        channel_id@,
        b@,
        token@,
        opt_report(*r),
    ).sessions);
    Finished { ok, save: !ok || !scrubbed, rest }
}

/// How many seconds a scrub rests before it is tried again.
pub const SCRUB_REST: u64 = 60;

/// Ends a maintenance turn; tells whether it went well.
pub fn finish_scrub(shared: &mut Shared, token: &str, stdout: &Option<String>) -> (ok: bool)
    ensures
        final(shared)@ == old(shared)@.token_dropped(token@),
        ok == (match opt_text(*stdout) {
            Some(t) => went_well(printed_report(t)),
            None => false,
        }),
{
    shared.drop_token(token);
    match stdout {
        Some(t) => match read_report(t.as_str()) {
            Some(r) => !r.is_error,
            None => false,
        },
        None => false,
    }
}

/// A session is resumed by the next turn of its channel: where a turn went well
/// and nothing was dropped while it ran, the channel's next turn goes on in the
/// session that it ended in, until the session has been woken often enough.
pub proof fn session_goes_on(
    s: SharedView,
    ch: Seq<char>,
    b: BegunView,
    token: Seq<char>,
    r: ReportView,
)
    requires
        r.session_id is Some,
        s.scrub_gen == b.gen_at_start,
        !r.is_error,
    ensures
        ({
            let next = begun(settled(s, ch, b, token, Some(r)), ch);
            let wakes: u64 = if b.fresh {
                1
            } else {
                (session_of(s.sessions, ch).wakes + 1) as u64
            };
            &&& next.session_id == r.session_id
            &&& !next.first_time
            &&& next.fresh == (wakes >= s.cfg.claude.session_max_wakes)
            &&& !next.fresh ==> resumed(next) == r.session_id
        }),
{
}

/// What was dropped stays dropped: a turn that was running while its scope's
/// transcripts were dropped leaves no session behind, whatever it reports.
pub proof fn dropped_session_is_not_recorded(
    s: SharedView,
    scope: Scope,
    ch: Seq<char>,
    token: Seq<char>,
    r: Option<ReportView>,
)
    requires
        crate::state::scope_channels(s.consent, scope).contains(ch),
    ensures
        ({
            let t = settled(s.scope_dropped(scope), ch, begun(s, ch), token, r);
            &&& session_of(t.sessions, ch).session_id is None
            &&& begun(t, ch).fresh
        }),
{
    crate::state::scope_drop_is_exact(s, scope, ch);
}

/// The same of a channel that was left while its turn was running.
pub proof fn left_session_is_not_recorded(
    s: SharedView,
    scope: Scope,
    ch: Seq<char>,
    token: Seq<char>,
    r: Option<ReportView>,
)
    ensures
        ({
            let t = settled(
                crate::tools::channel_left(s, scope, ch),
                ch,
                begun(s, ch),
                token,
                r,
            );
            &&& session_of(t.sessions, ch).session_id is None
            &&& begun(t, ch).fresh
        }),
{
}

/// A turn touches no session but its own channel's, and its token is dead when
/// it is over.
pub proof fn turn_settles_its_own_channel(
    s: SharedView,
    ch: Seq<char>,
    b: BegunView,
    token: Seq<char>,
    r: Option<ReportView>,
    other: Seq<char>,
)
    requires
        other != ch,
    ensures
        session_of(settled(s, ch, b, token, r).sessions, other) == session_of(s.sessions, other),
        settled(s, ch, b, token, r).resolved(token) is None,
        settled(s, ch, b, token, r).consent == s.consent,
        settled(s, ch, b, token, r).buffer == s.buffer,
{
}

/// Three failures in a row drop a channel's session: whatever the three turns
/// reported, there is no session after them, and not before the third.
pub proof fn three_failures_drop_the_session(
    st: SessView,
    gens: (u64, u64, u64),
    begins: (BegunView, BegunView, BegunView),
    reports: (Option<ReportView>, Option<ReportView>, Option<ReportView>),
)
    requires
        st.failures == 0,
        !went_well(reports.0),
        !went_well(reports.1),
        !went_well(reports.2),
    ensures
        ({
            let one = session_after(st, gens.0, begins.0, reports.0);
            let two = session_after(one, gens.1, begins.1, reports.1);
            let three = session_after(two, gens.2, begins.2, reports.2);
            &&& st.session_id is Some ==> one.session_id is Some && two.session_id is Some
            &&& three == no_session()
        }),
{
}

/// Failures back off exponentially: the rests of three failed turns in a row are
/// 4, 8 and 16 seconds, whatever the turns reported.
pub proof fn failures_back_off(
    st: SessView,
    gens: (u64, u64),
    begins: (BegunView, BegunView),
    reports: (Option<ReportView>, Option<ReportView>, Option<ReportView>),
)
    requires
        st.failures == 0,
        !went_well(reports.0),
        !went_well(reports.1),
        !went_well(reports.2),
    ensures
        ({
            let one = session_after(st, gens.0, begins.0, reports.0);
            let two = session_after(one, gens.1, begins.1, reports.1);
            &&& rest_after(st, reports.0) == 4
            &&& rest_after(one, reports.1) == 8
            &&& rest_after(two, reports.2) == 16
        }),
{
    vstd::arithmetic::power2::lemma2_to64();
}

/// The rest doubles with each failure until it reaches a minute, and is never
/// longer.
pub proof fn backoff_grows(failures: nat)
    ensures
        backoff_seconds(failures) <= backoff_seconds(failures + 1) <= 60,
        backoff_seconds(failures + 1) < 60 ==> backoff_seconds(failures + 1) == 2
            * backoff_seconds(failures),
{
    vstd::arithmetic::power2::lemma_pow2_unfold(failures + 1);
}

/// The turn that runs a person's scrub may not speak, is bound to their scope,
/// and has no channel to read.
pub proof fn scrub_turn_is_bound(job: ScrubView)
    ensures
        scrub_turn(job).maintenance,
        scrub_turn(job).scope == job.scope,
        crate::tools::parsed_id(scrub_turn(job).channel_id) is None,
{
    reveal_strlit("");
    assert(trimmed(""@) =~= Seq::empty());
}

/// Every channel worth waking that has no turn running is woken, DMs and
/// servers alike, and after the wake each channel worth waking is busy.
pub proof fn worthy_channels_are_woken(d: DispatcherView, s: SharedView, k: int)
    requires
        0 <= k < s.buffer.wakeworthy(s.behaviors).len(),
    ensures
        ({
            let t = s.buffer.wakeworthy(s.behaviors)[k];
            &&& !d.busy.contains(t.channel_id) ==> d.ready(s).contains(t)
            &&& d.woken(d.ready(s)).busy.contains(t.channel_id)
        }),
{
    let all = s.buffer.wakeworthy(s.behaviors);
    let t = all[k];
    let list = d.ready(s);
    lemma_filter_members(all, not_busy(d.busy));
    lemma_busy_with(d.busy, list);
    if !d.busy.contains(t.channel_id) {
        assert(not_busy(d.busy)(all[k]));
        let i = choose|i: int| 0 <= i < list.len() && list[i] == t;
        assert(list[i].channel_id == t.channel_id);
        assert(crate::buffer::has_channel(list, t.channel_id));
    }
}

/// Only channels worth waking are woken, in their order and each once, and a
/// wake changes nothing but what is busy and which channel came last.
pub proof fn wakes_come_in_order(d: DispatcherView, s: SharedView, ch: Seq<char>) -> (places: Seq<
    int,
>)
    ensures
        places.len() == d.ready(s).len(),
        forall|i: int|
            0 <= i < places.len() ==> 0 <= #[trigger] places[i] < s.buffer.wakeworthy(
                s.behaviors,
            ).len() && d.ready(s)[i] == s.buffer.wakeworthy(s.behaviors)[places[i]],
        forall|i: int, j: int|
            0 <= i < j < places.len() ==> #[trigger] places[i] < #[trigger] places[j],
        ({
            let after = d.woken(d.ready(s));
            &&& after.busy.contains(ch) ==> d.busy.contains(ch) || exists|i: int|
                0 <= i < d.ready(s).len() && (#[trigger] d.ready(s)[i]).channel_id == ch
            &&& d.busy.contains(ch) ==> after.busy.contains(ch)
            &&& after.scrubbing == d.scrubbing
            &&& d.ready(s).len() == 0 ==> after.last_active == d.last_active
            &&& d.ready(s).len() > 0 ==> after.last_active == Some(
                d.ready(s)[d.ready(s).len() - 1],
            )
        }),
{
    let places = crate::rows::lemma_filter_places(
        s.buffer.wakeworthy(s.behaviors),
        not_busy(d.busy),
    );
    lemma_busy_with(d.busy, d.ready(s));
    places
}

/// The idle timer serves the channel that was woken last: it runs for as many
/// minutes as that channel's scope asks for, a year where it asks for none, and
/// wakes that channel where it has no turn running.
pub proof fn idle_timer_serves_the_last_channel(
    d: DispatcherView,
    s: SharedView,
    t: WakeTargetView,
    ch: Seq<char>,
)
    ensures
        d.last_active is None ==> d.idle_wait(s) == 365 * 24 * 3600 && d.idle_target(s) is None,
        d.last_active == Some(t) ==> {
            let minutes = behavior_of(s.behaviors, t.scope).idle_wake_minutes;
            &&& minutes == 0 ==> d.idle_wait(s) == 365 * 24 * 3600
            &&& minutes > 0 ==> d.idle_wait(s) == minutes * 60
            &&& minutes > 0 && !d.busy.contains(t.channel_id) <==> d.idle_target(s) == Some(t)
            &&& minutes == 0 || d.busy.contains(t.channel_id) <==> d.idle_target(s) is None
        },
        d.idle_target(s) is None ==> d.idled(s) == d,
        d.idle_target(s) matches Some(w) ==> {
            &&& d.idled(s).busy.contains(ch) <==> d.busy.contains(ch) || ch == w.channel_id
            &&& d.idled(s).last_active == d.last_active
            &&& d.idled(s).scrubbing == d.scrubbing
        },
{
}

/// A scrub is due exactly where one waits and none runs.
pub proof fn scrubs_run_one_at_a_time(d: DispatcherView, s: SharedView, job: ScrubView)
    ensures
        d.scrubbing ==> !d.scrub_due(s),
        s.pending_scrubs == Seq::<ScrubView>::empty() ==> !d.scrub_due(s),
        !d.scrubbing && s.pending_scrubs.contains(job) ==> d.scrub_due(s),
{
}

/// What a turn starts from: in a channel without a record it is the first one
/// and fresh; else it goes on in the session on record, unless there is none or
/// it has been woken often enough.
pub proof fn turns_start_from_the_record(s: SharedView, ch: Seq<char>)
    ensures
        begun(s, ch).gen_at_start == s.scrub_gen,
        begun(s, ch).first_time <==> !s.sessions.contains_key(ch),
        !s.sessions.contains_key(ch) ==> begun(s, ch).fresh && begun(s, ch).session_id is None,
        s.sessions.contains_key(ch) ==> {
            let st = s.sessions[ch];
            &&& begun(s, ch).session_id == st.session_id
            &&& begun(s, ch).fresh <==> (st.session_id is None || st.wakes
                >= s.cfg.claude.session_max_wakes)
            &&& resumed(begun(s, ch)) is Some <==> (st.session_id is Some && st.wakes
                < s.cfg.claude.session_max_wakes)
            &&& resumed(begun(s, ch)) matches Some(id) ==> st.session_id == Some(id)
        },
{
}

/// What a turn is told: the first one in a server's channel that it was
/// summoned; else a fresh session that it is one; else why it was woken. All of
/// it names the channel and its id.
pub proof fn turns_are_told_why(t: WakeTargetView, b: BegunView, kind: WakeKind)
    ensures
        ({
            let place = t.name + " (channel_id "@ + t.channel_id + ")"@;
            let told = wake_prompt(t, b, kind);
            &&& b.first_time && !t.is_dm ==> told == prompts::FIRST_SUMMON_HEAD@ + place
                + prompts::FIRST_SUMMON_TAIL@
            &&& !b.first_time && b.fresh ==> told == prompts::FRESH_HEAD@ + place
                + prompts::FRESH_TAIL@
            &&& t.is_dm && b.fresh ==> told == prompts::FRESH_HEAD@ + place + prompts::FRESH_TAIL@
            &&& !b.first_time && !b.fresh && kind == WakeKind::Idle ==> told == prompts::IDLE_HEAD@
                + place + prompts::IDLE_TAIL@
            &&& !b.first_time && !b.fresh && kind == WakeKind::Activity ==> told
                == prompts::ACTIVITY_HEAD@ + place + prompts::ACTIVITY_TAIL@
        }),
{
}

/// How a session is run: the prompt, the model, where its tools are, that they
/// are all it has, and its system prompt; behind that the tools it may not use,
/// where there are any, the session to resume, if any, and what the operator
/// adds, in this order.
pub proof fn sessions_are_run_as_configured(
    cfg: ClaudeCfg,
    prompt: Seq<char>,
    mcp_config: Seq<char>,
    sys: Seq<char>,
    resume: Option<Seq<char>>,
    id: Seq<char>,
    i: int,
)
    ensures
        ({
            let line = command_line(cfg, prompt, mcp_config, sys, resume);
            let n = cfg.disallowed_tools@.len() as int;
            let banned: int = if n == 0 {
                0
            } else {
                n + 1
            };
            let gone_on: int = if resume is Some {
                2
            } else {
                0
            };
            &&& line[0] == "-p"@ && line[1] == prompt
            &&& line[2] == "--output-format"@ && line[3] == "json"@
            &&& line[4] == "--model"@ && line[5] == cfg.model@
            &&& line[6] == "--mcp-config"@ && line[7] == mcp_config
            &&& line[8] == "--strict-mcp-config"@
            &&& line[9] == "--allowed-tools"@ && line[10] == "mcp__discord"@
            &&& line[11] == "--append-system-prompt"@ && line[12] == sys
            &&& n > 0 ==> line[13] == "--disallowed-tools"@
            &&& 0 <= i < n ==> line[14 + i] == cfg.disallowed_tools@[i]@
            &&& resume == Some(id) ==> line[13 + banned] == "--resume"@ && line[14 + banned] == id
            &&& 0 <= i < cfg.extra_args@.len() ==> line[13 + banned + gone_on + i]
                == cfg.extra_args@[i]@
            &&& line.len() == 13 + banned + gone_on + cfg.extra_args@.len()
        }),
{
}

/// Whom the token of a turn stands for: the channel's own place, and it may
/// speak.
pub proof fn turn_tokens_are_bound(t: WakeTargetView, job: ScrubView)
    ensures
        turn_of(t).channel_id == t.channel_id,
        turn_of(t).scope == t.scope,
        turn_of(t).is_dm == t.is_dm,
        !turn_of(t).maintenance,
        scrub_turn(job).channel_id == ""@,
        job.scope matches Scope::Guild(_) ==> !scrub_turn(job).is_dm,
        job.scope matches Scope::Dm(_) ==> scrub_turn(job).is_dm,
{
}

/// The sessions find the one server of tools on this machine, at the port.
pub proof fn sessions_find_the_tools(port: u16)
    ensures
        member(mcp_doc(port), "mcpServers"@) matches Some(servers) && (member(
            servers,
            "discord"@,
        ) matches Some(server) && {
            &&& text_member(server, "type"@) == Some("http"@)
            &&& text_member(server, "url"@) == Some(
                "http://127.0.0.1:"@ + decimal(port as nat) + "/mcp"@,
            )
        }),
{
    reveal_strlit("type");
    reveal_strlit("url");
    assert("type"@.len() != "url"@.len());
}

/// What a session printed is read whatever white space is around it; it reports
/// an error only where it says so outright, and a session where it names one.
pub proof fn reports_are_read(stdout: Seq<char>, doc: Json, id: Seq<char>)
    ensures
        parsed_json(trimmed(stdout)) is None ==> printed_report(stdout) is None,
        parsed_json(trimmed(stdout)) == Some(doc) ==> {
            let r = printed_report(stdout);
            &&& r is Some
            &&& r->0.is_error <==> member(doc, "is_error"@) == Some(Json::Bool(true))
            &&& r->0.session_id == Some(id) <==> member(doc, "session_id"@) == Some(Json::Str(id))
        },
{
}

/// What a turn leaves on its channel's record. One that went well clears the
/// failures; one that failed adds one, and the third in a row clears the whole
/// record. The session that it ended in is put down, as woken once more or for
/// the first time, where it named one and nothing was dropped meanwhile.
pub proof fn turns_leave_their_record(
    st: SessView,
    scrub_gen: u64,
    b: BegunView,
    r: Option<ReportView>,
)
    requires
        st.wakes < u64::MAX,
    ensures
        ({
            let after = session_after(st, scrub_gen, b, r);
            let well = r is Some && !r->0.is_error;
            let named = r is Some && r->0.session_id is Some && scrub_gen == b.gen_at_start;
            &&& well ==> after.failures == 0
            &&& !well && st.failures < 2 ==> after.failures == st.failures + 1
            &&& !well && st.failures >= 2 ==> after.session_id is None && after.wakes == 0
                && after.failures == 0
            &&& (well || st.failures < 2) && named ==> after.session_id == r->0.session_id
            &&& (well || st.failures < 2) && named && b.fresh ==> after.wakes == 1
            &&& (well || st.failures < 2) && named && !b.fresh ==> after.wakes == st.wakes + 1
            &&& (well || st.failures < 2) && !named ==> after.session_id == st.session_id
                && after.wakes == st.wakes
        }),
{
}

/// A turn that is over leaves all else as it was: every other channel's record,
/// token and typing, and whatever has nothing to do with turns.
pub proof fn turn_leaves_the_rest(
    s: SharedView,
    ch: Seq<char>,
    b: BegunView,
    token: Seq<char>,
    r: Option<ReportView>,
    other: Seq<char>,
)
    ensures
        ({
            let t = settled(s, ch, b, token, r);
            &&& t.sessions.contains_key(ch)
            &&& other != ch ==> (t.sessions.contains_key(other) <==> s.sessions.contains_key(other))
            &&& t.typing_active.contains(other) <==> s.typing_active.contains(other) && other != ch
            &&& t.tokens.contains_key(other) <==> s.tokens.contains_key(other) && other != token
            &&& t.tokens.contains_key(other) ==> t.tokens[other] == s.tokens[other]
            &&& t == (SharedView {
                sessions: t.sessions,
                typing_active: t.typing_active,
                tokens: t.tokens,
                ..s
            })
        }),
{
}

/// What a turn came to: it went well where it reported and no error; the records
/// are saved unless it went well over a drop; and a failed one rests its channel
/// twice as long as the one before, a minute at most.
pub proof fn turns_come_to_their_end(
    s: SharedView,
    ch: Seq<char>,
    b: BegunView,
    r: Option<ReportView>,
    n: nat,
)
    ensures
        ({
            let f = finished(s, ch, b, r);
            let well = r is Some && !r->0.is_error;
            &&& f.ok == well
            &&& f.save <==> !well || s.scrub_gen == b.gen_at_start
            &&& well ==> f.rest == 0
            &&& !well && !s.sessions.contains_key(ch) ==> f.rest == 4
            &&& !well && s.sessions.contains_key(ch) ==> f.rest == backoff_seconds(
                s.sessions[ch].failures as nat + 1,
            )
        }),
        backoff_seconds(0) == 2,
        backoff_seconds(n + 1) == (if 2 * backoff_seconds(n) < 60 {
            2 * backoff_seconds(n)
        } else {
            60
        }),
{
    vstd::arithmetic::power2::lemma2_to64();
    vstd::arithmetic::power2::lemma_pow2_unfold(n + 1);
}

/// Scrubs are run one at a time, the one that waits longest first, until they
/// are done: one that is taken waits no more, one that failed waits again behind
/// the others, and one that went well does not come back. All the while the
/// others keep waiting in their order.
pub proof fn scrubs_are_run_until_done(d: DispatcherView, s: SharedView, ok: bool)
    requires
        !d.scrubbing,
        s.pending_scrubs.len() > 0,
    ensures
        ({
            let job = s.pending_scrubs[0];
            let (e, t) = scrub_begun(d, s);
            let (f, u) = scrub_over(e, t, job, ok);
            &&& s.pending_scrubs == seq![job] + t.pending_scrubs
            &&& e.scrubbing && scrub_begun(e, t) == (e, t)
            &&& e.busy == d.busy && e.last_active == d.last_active
            &&& t == (SharedView { pending_scrubs: t.pending_scrubs, ..s })
            &&& f == d
            &&& u == (SharedView { pending_scrubs: u.pending_scrubs, ..s })
            &&& ok ==> u.pending_scrubs == t.pending_scrubs
            &&& !ok ==> u.pending_scrubs.contains(job)
            &&& !ok && !t.pending_scrubs.contains(job) ==> u.pending_scrubs
                == t.pending_scrubs.push(job)
            &&& !ok && t.pending_scrubs.contains(job) ==> u.pending_scrubs == t.pending_scrubs
        }),
{
    let job = s.pending_scrubs[0];
    let (e, t) = scrub_begun(d, s);
    assert(s.pending_scrubs =~= seq![job] + t.pending_scrubs);
    crate::consent::scrubs_queue_up(t.pending_scrubs, job);
}

/// Where no scrub is due none is taken, and nothing changes.
pub proof fn no_scrub_without_need(d: DispatcherView, s: SharedView)
    requires
        d.scrubbing || s.pending_scrubs.len() == 0,
    ensures
        scrub_begun(d, s) == (d, s),
{
}

/// A channel whose turn ended may be woken again, and no other channel is
/// touched.
pub proof fn ended_turn_frees_its_channel(d: DispatcherView, ch: Seq<char>, other: Seq<char>)
    ensures
        !d.ended(ch).busy.contains(ch),
        other != ch ==> d.ended(ch).busy.contains(other) == d.busy.contains(other),
        d.ended(ch).last_active == d.last_active,
        d.ended(ch).scrubbing == d.scrubbing,
{
}

/// A turn is bracketed: while it runs its channel infers and its token stands
/// for that channel and scope; when it is over neither is left, and nothing else
/// has changed but the channel's record.
pub proof fn turns_are_bracketed(
    s: SharedView,
    t: WakeTargetView,
    token: Seq<char>,
    b: BegunView,
    r: Option<ReportView>,
    other: Seq<char>,
)
    ensures
        ({
            let run = turn_begun(s, t, token);
            let over = settled(run, t.channel_id, b, token, r);
            &&& run.typing_active.contains(t.channel_id)
            &&& run.tokens.contains_key(token)
            &&& run.tokens[token].channel_id == t.channel_id
            &&& run.tokens[token].scope == t.scope
            &&& run.tokens[token].is_dm == t.is_dm
            &&& !run.tokens[token].maintenance
            &&& other != token ==> (run.tokens.contains_key(other) <==> s.tokens.contains_key(
                other,
            ))
            &&& other != t.channel_id ==> (run.typing_active.contains(other)
                <==> s.typing_active.contains(other))
            &&& run == (SharedView {
                typing_active: run.typing_active,
                tokens: run.tokens,
                ..s
            })
            &&& over.typing_active == s.typing_active.remove(t.channel_id)
            &&& over.tokens == s.tokens.remove(token)
            &&& over == (SharedView {
                sessions: over.sessions,
                typing_active: over.typing_active,
                tokens: over.tokens,
                ..s
            })
        }),
{
    let run = turn_begun(s, t, token);
    let over = settled(run, t.channel_id, b, token, r);
    assert(over.typing_active =~= s.typing_active.remove(t.channel_id));
    assert(over.tokens =~= s.tokens.remove(token));
}

/// A turn waits for more activity only where activity woke it, and for as long
/// as the operator says.
pub proof fn only_activity_is_waited_for(cfg: ClaudeCfg)
    ensures
        settling_time(cfg, WakeKind::Activity) == cfg.debounce_seconds,
        settling_time(cfg, WakeKind::Idle) == 0,
{
}

} // verus!
