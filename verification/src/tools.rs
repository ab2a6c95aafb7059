//! Everything a session can do. Every tool requires the turn's session token,
//! which resolves to one channel in one scope: there is no argument that
//! reaches another channel, server, or persona.
//!
//! A tool that talks to Discord or to the disk comes in two parts: one that
//! checks the arguments and says what is to be done, and one that makes the
//! reply of the outcome.

use serde_json::Value;
use vstd::prelude::*;

use crate::buffer::MsgEvent;
use crate::chunks::{chunks, chunks_hold_the_text, joined, split_chunks};
use crate::consent::{guild_of, no_consent, without_channel, GuildConsent, GuildView};
use crate::json;
use crate::json::{docs, having, json_of, member, obj, strs, text_member, Json};
use crate::persona;
use crate::persona::{
    behavior_of, persona_file, persona_files_are_apart, BehaviorView, RespondTo,
};
use crate::post::{is_text, text_channel, ChannelInfo, ChannelKind};
use crate::rows::{lemma_filter_members, lemma_filter_places};
use crate::scope::Scope;
use crate::state::{no_session, session_of, Shared, SharedView, TurnCtx, TurnView};
use crate::text;
use crate::text::{debug_text, decimal, opt_text, parsed_u64, texts, trimmed};
use crate::wire;
use crate::wire::{behavior_json, event_docs, respond_name, shows_guild};

verus! {

pub enum Error {
    UnknownTool,
    Failed(String),
}

pub enum ErrorView {
    UnknownTool,
    Failed(Seq<char>),
}

impl View for Error {
    type V = ErrorView;

    open spec fn view(&self) -> ErrorView {
        match self {
            Error::UnknownTool => ErrorView::UnknownTool,
            Error::Failed(e) => ErrorView::Failed(e@),
        }
    }
}

impl From<String> for Error {
    fn from(e: String) -> (res: Self) {
        Error::Failed(e)
    }
}

impl vstd::std_specs::convert::FromSpecImpl<String> for Error {
    open spec fn obeys_from_spec() -> bool {
        true
    }

    open spec fn from_spec(e: String) -> Self {
        Error::Failed(e)
    }
}

impl From<&str> for Error {
    fn from(e: &str) -> (res: Self)
        ensures
            res@ == ErrorView::Failed(e@),
    {
        Error::Failed(e.to_owned())
    }
}

/// A `String` is not determined by its characters in specifications, so what
/// `from` gives for a string slice is said by its own `ensures`.
impl vstd::std_specs::convert::FromSpecImpl<&str> for Error {
    open spec fn obeys_from_spec() -> bool {
        false
    }

    open spec fn from_spec(e: &str) -> Self {
        Error::UnknownTool
    }
}

#[derive(Clone, Copy, PartialEq, Eq, Structural, Debug)]
pub enum Tool {
    WaitForMessages,
    ReadMessages,
    SendMessage,
    AddReaction,
    ListChannels,
    GetPersona,
    SetPersona,
    GetBehavior,
    SetBehavior,
    GetConsent,
    IgnoreChannel,
}

/// The tool that a name stands for.
pub open spec fn tool_of(name: Seq<char>) -> Option<Tool> {
    if name == "wait_for_messages"@ {
        Some(Tool::WaitForMessages)
    } else if name == "read_messages"@ {
        Some(Tool::ReadMessages)
    } else if name == "send_message"@ {
        Some(Tool::SendMessage)
    } else if name == "add_reaction"@ {
        Some(Tool::AddReaction)
    } else if name == "list_channels"@ {
        Some(Tool::ListChannels)
    } else if name == "get_persona"@ {
        Some(Tool::GetPersona)
    } else if name == "set_persona"@ {
        Some(Tool::SetPersona)
    } else if name == "get_behavior"@ {
        Some(Tool::GetBehavior)
    } else if name == "set_behavior"@ {
        Some(Tool::SetBehavior)
    } else if name == "get_consent"@ {
        Some(Tool::GetConsent)
    } else if name == "ignore_channel"@ {
        Some(Tool::IgnoreChannel)
    } else {
        None
    }
}

/// The tool that a name stands for.
pub fn tool_named(name: &str) -> (res: Option<Tool>)
    ensures
        res == tool_of(name@),
{
    if text::same(name, "wait_for_messages") {
        Some(Tool::WaitForMessages)
    } else if text::same(name, "read_messages") {
        Some(Tool::ReadMessages)
    } else if text::same(name, "send_message") {
        Some(Tool::SendMessage)
    } else if text::same(name, "add_reaction") {
        Some(Tool::AddReaction)
    } else if text::same(name, "list_channels") {
        Some(Tool::ListChannels)
    } else if text::same(name, "get_persona") {
        Some(Tool::GetPersona)
    } else if text::same(name, "set_persona") {
        Some(Tool::SetPersona)
    } else if text::same(name, "get_behavior") {
        Some(Tool::GetBehavior)
    } else if text::same(name, "set_behavior") {
        Some(Tool::SetBehavior)
    } else if text::same(name, "get_consent") {
        Some(Tool::GetConsent)
    } else if text::same(name, "ignore_channel") {
        Some(Tool::IgnoreChannel)
    } else {
        None
    }
}

pub const NO_TOKEN: &'static str = "missing 'token' — your session token is in your wake prompt";

pub const DEAD_TOKEN: &'static str = "invalid or expired session token";

/// What a call comes to: first its token is resolved, then its tool.
pub open spec fn dispatched(s: SharedView, name: Seq<char>, args: Json) -> Result<
    (Tool, TurnView),
    ErrorView,
> {
    match text_member(args, "token"@) {
        None => Err(ErrorView::Failed(NO_TOKEN@)),
        Some(token) => match s.resolved(token) {
            None => Err(ErrorView::Failed(DEAD_TOKEN@)),
            Some(ctx) => match tool_of(name) {
                None => Err(ErrorView::UnknownTool),
                Some(tool) => Ok((tool, ctx)),
            },
        },
    }
}

/// The views of what a call comes to.
pub open spec fn dispatch_view(res: Result<(Tool, TurnCtx), Error>) -> Result<
    (Tool, TurnView),
    ErrorView,
> {
    match res {
        Ok((tool, ctx)) => Ok((tool, ctx@)),
        Err(e) => Err(e@),
    }
}

/// Which tool is called, and for which turn: the one that the token in the
/// arguments stands for.
pub fn dispatch(s: &Shared, name: &str, args: &Value) -> (res: Result<(Tool, TurnCtx), Error>)
    ensures
        dispatch_view(res) == dispatched(s@, name@, json_of(*args)),
{
    let token = match json::get_text(args, "token") {
        Some(t) => t,
        None => return Err(Error::from(NO_TOKEN)),
    };
    let ctx = match s.resolve_token(token) {
        Some(c) => c,
        None => return Err(Error::from(DEAD_TOKEN)),
    };
    match tool_named(name) {
        Some(tool) => Ok((tool, ctx)),
        None => Err(Error::UnknownTool),
    }
}

/// A call acts for the turn whose token it presents and for no other: whatever
/// the arguments, the channel and scope are those the token was made for.
pub proof fn calls_stay_in_their_turn(
    s: SharedView,
    name: Seq<char>,
    args: Json,
    token: Seq<char>,
    ctx: TurnView,
)
    requires
        text_member(args, "token"@) == Some(token),
    ensures
        match dispatched(s.token_issued(token, ctx), name, args) {
            Ok((_, c)) => c == ctx,
            Err(e) => e == ErrorView::UnknownTool && tool_of(name) is None,
        },
        dispatched(s.token_issued(token, ctx).token_dropped(token), name, args) == Err::<
            (Tool, TurnView),
            ErrorView,
        >(ErrorView::Failed(DEAD_TOKEN@)),
{
}

// ---- arguments ----

/// The complaint about arguments that could not be read.
pub open spec fn bad_args(tool: Seq<char>, reason: Seq<char>) -> Seq<char> {
    "bad "@ + tool + " arguments: "@ + reason
}

/// The arguments of a tool, or the complaint about them.
pub fn parse_args<T>(tool: &str, parsed: Result<T, String>) -> (res: Result<T, String>)
    ensures
        match (parsed, res) {
            (Ok(a), Ok(b)) => a == b,
            (Err(e), Err(t)) => t@ == bad_args(tool@, e@),
            _ => false,
        },
{
    match parsed {
        Ok(a) => Ok(a),
        Err(e) => {
            let head = text::join3("bad ", tool, " arguments: ");
            Err(text::join2(head.as_str(), e.as_str()))
        },
    }
}

/// The number that a parameter comes to. `whole` is what a number that is no
/// unsigned integer comes to.
pub open spec fn lenient(doc: Json, whole: Option<u64>) -> Option<u64> {
    match doc {
        Json::Number(t) => if exists|n: u64| t == #[trigger] decimal(n as nat) {
            parsed_u64(t)
        } else {
            whole
        },
        Json::Str(s) => parsed_u64(trimmed(s)),
        _ => None,
    }
}

/// Models send "number" params as 240.0 or "240" often enough; take those,
/// and let anything else fall back to the param's default rather than error.
/// `whole` is what the value comes to as a whole float.
pub fn lenient_u64(v: &Value, whole: Option<u64>) -> (res: Option<u64>)
    ensures
        res == lenient(json_of(*v), whole),
{
    match v.as_u64() {
        Some(n) => {
            proof {
                text::decimal_round_trip(n);
            }
            Some(n)
        },
        None => match v.as_str() {
            Some(s) => text::parse_u64(text::trim(s).as_str()),
            None => if v.is_number() {
                whole
            } else {
                None
            },
        },
    }
}

// ---- ids ----

/// The Discord id that a text denotes: a positive 64-bit numeral, white space
/// around it ignored.
pub open spec fn parsed_id(s: Seq<char>) -> Option<u64> {
    match parsed_u64(trimmed(s)) {
        Some(n) => if n > 0 {
            Some(n)
        } else {
            None
        },
        None => None,
    }
}

/// The complaint about a text that is no Discord id, `quoted` being the text.
pub open spec fn id_complaint(quoted: Seq<char>) -> Seq<char> {
    "bad Discord id: "@ + quoted
}

/// The complaint about a text that is no Discord id.
pub fn bad_id(quoted: &str) -> (res: String)
    ensures
        res@ == id_complaint(quoted@),
{
    text::join2("bad Discord id: ", quoted)
}

/// A text read as a Discord id, or the complaint about it.
pub open spec fn id_or_complaint(s: Seq<char>) -> Result<u64, Seq<char>> {
    match parsed_id(s) {
        Some(n) => Ok(n),
        None => Err(id_complaint(debug_text(s))),
    }
}

/// The characters of an error text.
pub open spec fn err_text<T>(r: Result<T, String>) -> Result<T, Seq<char>> {
    match r {
        Ok(v) => Ok(v),
        Err(e) => Err(e@),
    }
}

/// The Discord id that a text denotes.
pub fn parse_id(s: &str) -> (res: Result<u64, String>)
    ensures
        err_text(res) == id_or_complaint(s@),
{
    match text::parse_u64(text::trim(s).as_str()) {
        Some(n) => if n > 0 {
            return Ok(n);
        },
        None => {},
    }
    Err(bad_id(text::quoted(s).as_str()))
}

/// The one channel that a turn may touch.
pub fn own_channel(ctx: &TurnCtx) -> (res: Result<u64, String>)
    ensures
        err_text(res) == id_or_complaint(ctx@.channel_id),
{
    parse_id(ctx.channel_id.as_str())
}

/// `n`, moved into the range `lo..=hi`.
pub open spec fn clamped(n: u64, lo: u64, hi: u64) -> u64 {
    if n < lo {
        lo
    } else if n > hi {
        hi
    } else {
        n
    }
}

fn clamp(n: u64, lo: u64, hi: u64) -> (res: u64)
    requires
        lo <= hi,
    ensures
        res == clamped(n, lo, hi),
{
    if n < lo {
        lo
    } else if n > hi {
        hi
    } else {
        n
    }
}

/// A number that may be missing.
pub open spec fn or_default(n: Option<u64>, default: u64) -> u64 {
    match n {
        Some(m) => m,
        None => default,
    }
}

fn number_or(n: Option<u64>, default: u64) -> (res: u64)
    ensures
        res == or_default(n, default),
{
    match n {
        Some(m) => m,
        None => default,
    }
}

// ---- listening ----

pub struct WaitForMessagesArgs {
    pub timeout_seconds: Option<u64>,
}

/// How long a session may listen: 5 to 480 seconds, 240 unless it says.
pub open spec fn wait_seconds(a: WaitForMessagesArgs) -> u64 {
    clamped(or_default(a.timeout_seconds, 240), 5, 480)
}

/// Parks the turn in its channel and says for how many seconds at most.
pub fn wait_for_messages(
    s: &mut Shared,
    ctx: &TurnCtx,
    parsed: Result<WaitForMessagesArgs, String>,
) -> (res: Result<u64, String>)
    ensures
        match parsed {
            Ok(a) => {
                &&& res == Ok::<u64, String>(wait_seconds(a))
                &&& final(s)@ == (SharedView {
                    typing_waiting: old(s)@.typing_waiting.insert(ctx@.channel_id),
                    ..old(s)@
                })
            },
            Err(e) => {
                &&& err_text(res) == Err::<u64, Seq<char>>(bad_args("wait_for_messages"@, e@))
                &&& final(s)@ == old(s)@
            },
        },
{
    match parse_args("wait_for_messages", parsed) {
        Ok(a) => {
            let secs: u64 = clamp(number_or(a.timeout_seconds, 240), 5, 480);
            s.wait_started(ctx.channel_id.as_str());
            Ok(secs)
        },
        Err(e) => Err(e),
    }
}

/// The reply that hands out messages.
pub open spec fn messages_json(items: Seq<Json>) -> Json {
    having(obj(), "messages"@, Json::Array(items))
}

/// Hands the turn what its channel has that no session has been handed; nothing
/// where that is nothing.
pub fn poll_messages(s: &mut Shared, ctx: &TurnCtx) -> (res: Option<Value>)
    ensures
        final(s)@ == (SharedView { buffer: old(s)@.buffer.taken(ctx@.channel_id), ..old(s)@ }),
        ({
            let waiting = old(s)@.buffer.undelivered(ctx@.channel_id);
            match res {
                Some(v) => waiting.len() > 0 && json_of(v) == messages_json(event_docs(waiting)),
                None => waiting.len() == 0,
            }
        }),
{
    let events = s.take_undelivered(ctx.channel_id.as_str());
    if events.len() == 0 {
        return None;
    }
    Some(json::with(json::object(), "messages", wire::event_values(&events)))
}

pub const QUIET: &'static str =
    "timed out with no new messages — a good moment to end your turn";

/// The reply when the time is up and no message came.
pub fn wait_timed_out() -> (v: Value)
    ensures
        json_of(v) == having(messages_json(Seq::empty()), "note"@, Json::Str(QUIET@)),
{
    let none: Vec<Value> = Vec::new();
    assert(docs(none@) =~= Seq::empty());
    let v = json::with(json::object(), "messages", json::array(none));
    json::with_text(v, "note", QUIET)
}

// ---- history ----

pub struct ReadMessagesArgs {
    pub limit: Option<u64>,
    pub before_message_id: Option<String>,
}

/// What to fetch: the newest `limit` messages of a channel, before one if given.
pub struct HistoryRequest {
    pub channel: u64,
    pub limit: u8,
    pub before: Option<u64>,
}

/// How many messages of history a session may fetch: 1 to 50, 20 unless it says.
pub open spec fn history_limit(a: ReadMessagesArgs) -> u8 {
    clamped(or_default(a.limit, 20), 1, 50) as u8
}

/// What to fetch for a session, or why nothing.
pub open spec fn history_request(
    ctx: TurnView,
    parsed: Result<ReadMessagesArgs, String>,
) -> Result<HistoryRequest, Seq<char>> {
    match parsed {
        Err(e) => Err(bad_args("read_messages"@, e@)),
        Ok(a) => match id_or_complaint(ctx.channel_id) {
            Err(e) => Err(e),
            Ok(channel) => match a.before_message_id {
                None => Ok(HistoryRequest { channel, limit: history_limit(a), before: None }),
                Some(m) => match id_or_complaint(m@) {
                    Err(e) => Err(e),
                    Ok(id) => Ok(
                        HistoryRequest { channel, limit: history_limit(a), before: Some(id) },
                    ),
                },
            },
        },
    }
}

/// What to fetch for a session that reads back in its channel.
pub fn read_messages(
    ctx: &TurnCtx,
    parsed: Result<ReadMessagesArgs, String>,
) -> (res: Result<HistoryRequest, String>)
    ensures
        err_text(res) == history_request(ctx@, parsed),
{
    let a = match parse_args("read_messages", parsed) {
        Ok(a) => a,
        Err(e) => return Err(e),
    };
    let channel: u64 = match own_channel(ctx) {
        Ok(c) => c,
        Err(e) => return Err(e),
    };
    let limit: u8 = clamp(number_or(a.limit, 20), 1, 50) as u8;
    match &a.before_message_id {
        None => Ok(HistoryRequest { channel, limit, before: None }),
        Some(m) => match parse_id(m.as_str()) {
            Ok(id) => Ok(HistoryRequest { channel, limit, before: Some(id) }),
            Err(e) => Err(e),
        },
    }
}

/// A message of a channel's history.
pub struct HistoryMessage {
    pub id: u64,
    pub author_id: u64,
    pub author_name: String,
    pub author_is_bot: bool,
    pub content: String,
    pub timestamp: String,
    pub reply_to: Option<u64>,
}

/// Who is opted in, in a scope; nobody needs to be in a DM.
pub open spec fn opted_in_scope(s: SharedView, scope: Scope) -> Map<Seq<char>, Seq<char>> {
    match scope {
        Scope::Guild(g) => guild_of(s.consent, g).opted_users,
        Scope::Dm(_) => Map::empty(),
    }
}

/// A message of the history that a session may see: history is under the same
/// consent as live messages.
pub open spec fn visible(s: SharedView, ctx: TurnView) -> spec_fn(HistoryMessage) -> bool {
    |m: HistoryMessage|
        ctx.is_dm || m.author_is_bot || s.bot_id == Some(m.author_id) || opted_in_scope(
            s,
            ctx.scope,
        ).contains_key(decimal(m.author_id as nat))
}

/// An id, written out, or null.
pub open spec fn opt_id(id: Option<u64>) -> Json {
    match id {
        Some(n) => Json::Str(decimal(n as nat)),
        None => Json::Null,
    }
}

/// A message of the history as a session sees it.
pub open spec fn history_json(s: SharedView) -> spec_fn(HistoryMessage) -> Json {
    |m: HistoryMessage|
        {
            let a = having(obj(), "message_id"@, Json::Str(decimal(m.id as nat)));
            let b = having(a, "author_name"@, Json::Str(m.author_name@));
            let c = having(b, "author_id"@, Json::Str(decimal(m.author_id as nat)));
            let d = having(c, "author_is_bot"@, Json::Bool(m.author_is_bot));
            let e = having(d, "is_me"@, Json::Bool(s.bot_id == Some(m.author_id)));
            let f = having(e, "content"@, Json::Str(m.content@));
            let g = having(f, "timestamp"@, Json::Str(m.timestamp@));
            having(g, "reply_to_message_id"@, opt_id(m.reply_to))
        }
}

/// What a session sees of a history that came newest first: the messages it may
/// see, in reading order.
pub open spec fn seen_history(s: SharedView, ctx: TurnView, fetched: Seq<HistoryMessage>) -> Seq<
    Json,
> {
    fetched.reverse().filter(visible(s, ctx)).map_values(history_json(s))
}

fn is_visible(s: &Shared, ctx: &TurnCtx, m: &HistoryMessage, author: &String) -> (res: bool)
    requires
        author@ == decimal(m.author_id as nat),
    ensures
        res == visible(s@, ctx@)(*m),
{
    if ctx.is_dm || m.author_is_bot || is_me(s, m) {
        return true;
    }
    match ctx.scope {
        Scope::Guild(g) => s.consent.guild(g).opted_users.contains_key(author),
        Scope::Dm(_) => false,
    }
}

fn is_me(s: &Shared, m: &HistoryMessage) -> (res: bool)
    ensures
        res == (s@.bot_id == Some(m.author_id)),
{
    match s.bot_id {
        Some(b) => b == m.author_id,
        None => false,
    }
}

fn history_value(s: &Shared, m: &HistoryMessage, author: &String) -> (v: Value)
    requires
        author@ == decimal(m.author_id as nat),
    ensures
        json_of(v) == history_json(s@)(*m),
{
    let v = json::with(json::object(), "message_id", json::string(text::u64_to_string(m.id)));
    let v = json::with_text(v, "author_name", m.author_name.as_str());
    let v = json::with_text(v, "author_id", author.as_str());
    let v = json::with(v, "author_is_bot", json::boolean(m.author_is_bot));
    let v = json::with(v, "is_me", json::boolean(is_me(s, m)));
    let v = json::with_text(v, "content", m.content.as_str());
    let v = json::with_text(v, "timestamp", m.timestamp.as_str());
    let reply = match m.reply_to {
        Some(n) => json::string(text::u64_to_string(n)),
        None => json::null(),
    };
    json::with(v, "reply_to_message_id", reply)
}

/// The reply to a session that reads back, from the messages that Discord gave,
/// newest first, or from the reason why it gave none.
pub fn history(
    s: &Shared,
    ctx: &TurnCtx,
    fetched: Result<Vec<HistoryMessage>, String>,
) -> (res: Result<Value, String>)
    ensures
        match (fetched, res) {
            (Ok(msgs), Ok(v)) => json_of(v) == messages_json(seen_history(s@, ctx@, msgs@)),
            (Err(e), Err(t)) => t@ == "fetching messages: "@ + e@,
            _ => false,
        },
{
    let msgs = match fetched {
        Ok(m) => m,
        Err(e) => return Err(text::join2("fetching messages: ", e.as_str())),
    };
    let ghost rev = msgs@.reverse();
    let ghost p = visible(s@, ctx@);
    let ghost f = history_json(s@);
    let mut out: Vec<Value> = Vec::new();
    let mut i: usize = msgs.len();
    proof {
        reveal(Seq::filter);
        assert(rev.take(0) =~= Seq::empty());
        assert(docs(out@) =~= rev.take(0).filter(p).map_values(f));
    }
    while i > 0
        invariant
            i <= msgs@.len(),
            rev == msgs@.reverse(),
            p == visible(s@, ctx@),
            f == history_json(s@),
            docs(out@) == rev.take(msgs@.len() - i).filter(p).map_values(f),
        decreases i,
    {
        i -= 1;
        let m = &msgs[i];
        let author = text::u64_to_string(m.author_id);
        let ghost before = out@;
        let ghost done = rev.take(msgs@.len() - i - 1);
        let ghost next = rev.take(msgs@.len() - i);
        proof {
            reveal(Seq::filter);
            assert(rev[msgs@.len() - i - 1] == msgs@[i as int]);
            assert(next.drop_last() =~= done);
            assert(next.last() == *m);
        }
        if is_visible(s, ctx, m, &author) {
            out.push(history_value(s, m, &author));
            assert(docs(out@) =~= docs(before).push(f(*m)));
            assert(next.filter(p).map_values(f) =~= done.filter(p).map_values(f).push(f(*m)));
        } else {
            assert(next.filter(p) == done.filter(p));
        }
    }
    assert(rev.take(msgs@.len() as int) =~= rev);
    Ok(json::with(json::object(), "messages", json::array(out)))
}

/// Nobody is seen in the history without consent: everything that is shown is a
/// message of a DM, of a bot, of the bot itself or of an opted-in person, and
/// nothing of those is left out.
pub proof fn history_needs_consent(
    s: SharedView,
    ctx: TurnView,
    fetched: Seq<HistoryMessage>,
    i: int,
    j: int,
)
    requires
        0 <= i < seen_history(s, ctx, fetched).len(),
        0 <= j < fetched.len(),
    ensures
        exists|k: int|
            0 <= k < fetched.len() && visible(s, ctx)(#[trigger] fetched[k]) && seen_history(
                s,
                ctx,
                fetched,
            )[i] == history_json(s)(fetched[k]),
        visible(s, ctx)(fetched[j]) ==> seen_history(s, ctx, fetched).contains(
            history_json(s)(fetched[j]),
        ),
{
    let rev = fetched.reverse();
    let p = visible(s, ctx);
    let kept = rev.filter(p);
    lemma_filter_members(rev, p);
    assert(rev.contains(kept[i]));
    let a = choose|a: int| 0 <= a < rev.len() && rev[a] == kept[i];
    assert(fetched[fetched.len() - 1 - a] == kept[i]);
    if p(fetched[j]) {
        assert(rev[fetched.len() - 1 - j] == fetched[j]);
        assert(kept.contains(rev[fetched.len() - 1 - j]));
        let b = choose|b: int| 0 <= b < kept.len() && kept[b] == fetched[j];
        assert(seen_history(s, ctx, fetched)[b] == history_json(s)(fetched[j]));
    }
}

// ---- speaking ----

pub const MUTE: &'static str = "this is a maintenance turn — messaging is disabled";

pub struct SendMessageArgs {
    pub content: String,
    pub reply_to_message_id: Option<String>,
}

/// What to send to a channel, one message after another.
pub struct Outgoing {
    pub channel: u64,
    pub payloads: Vec<Value>,
}

pub struct OutgoingView {
    pub channel: u64,
    pub payloads: Seq<Json>,
}

impl View for Outgoing {
    type V = OutgoingView;

    open spec fn view(&self) -> OutgoingView {
        OutgoingView { channel: self.channel, payloads: docs(self.payloads@) }
    }
}

/// How many characters Discord takes in one message.
pub const MESSAGE_CAP: usize = 2000;

/// A message that replies to another one of the channel.
pub open spec fn replying(payload: Json, channel: u64, message: Seq<char>) -> Json {
    having(
        payload,
        "message_reference"@,
        having(
            having(obj(), "channel_id"@, Json::Str(decimal(channel as nat))),
            "message_id"@,
            Json::Str(message),
        ),
    )
}

/// One message with some content.
pub open spec fn plain_payload(content: Seq<char>) -> Json {
    having(obj(), "content"@, Json::Str(content))
}

/// The messages that a content is sent as: one for each chunk. Where it is a
/// reply, the first one is.
pub open spec fn payloads(channel: u64, content: Seq<char>, reply: Option<Seq<char>>) -> Seq<Json> {
    let parts = chunks(content, MESSAGE_CAP as nat);
    Seq::new(
        parts.len(),
        |i: int|
            match reply {
                Some(r) => if i == 0 {
                    replying(plain_payload(parts[i]), channel, r)
                } else {
                    plain_payload(parts[i])
                },
                None => plain_payload(parts[i]),
            },
    )
}

/// What to send for a session, or why nothing.
pub open spec fn outgoing(ctx: TurnView, parsed: Result<SendMessageArgs, String>) -> Result<
    OutgoingView,
    Seq<char>,
> {
    if ctx.maintenance {
        Err(MUTE@)
    } else {
        match id_or_complaint(ctx.channel_id) {
            Err(e) => Err(e),
            Ok(channel) => match parsed {
                Err(e) => Err(bad_args("send_message"@, e@)),
                Ok(a) => if trimmed(a.content@).len() == 0 {
                    Err("missing or empty 'content'"@)
                } else {
                    Ok(
                        OutgoingView {
                            channel,
                            payloads: payloads(
                                channel,
                                a.content@,
                                opt_text(a.reply_to_message_id),
                            ),
                        },
                    )
                },
            },
        }
    }
}

fn payload_values(channel: u64, content: &str, reply: &Option<String>) -> (out: Vec<Value>)
    ensures
        docs(out@) == payloads(channel, content@, opt_text(*reply)),
{
    let parts = split_chunks(content, MESSAGE_CAP);
    let ghost all = payloads(channel, content@, opt_text(*reply));
    let mut out: Vec<Value> = Vec::new();
    let mut i: usize = 0;
    while i < parts.len()
        invariant
            i <= parts@.len(),
            texts(parts@) == chunks(content@, MESSAGE_CAP as nat),
            all == payloads(channel, content@, opt_text(*reply)),
            docs(out@) == all.take(i as int),
        decreases parts@.len() - i,
    {
        let ghost before = out@;
        assert(texts(parts@)[i as int] == parts@[i as int]@);
        let mut payload = json::with_text(json::object(), "content", parts[i].as_str());
        if i == 0 {
            if let Some(r) = reply {
                let channel_text = text::u64_to_string(channel);
                let place = json::with_text(json::object(), "channel_id", channel_text.as_str());
                let place = json::with_text(place, "message_id", r.as_str());
                payload = json::with(payload, "message_reference", place);
            }
        }
        assert(json_of(payload) == all[i as int]);
        out.push(payload);
        assert(docs(out@) =~= docs(before).push(all[i as int]));
        i += 1;
    }
    assert(docs(out@) =~= all);
    out
}

/// What to send to the session's channel.
pub fn send_message(ctx: &TurnCtx, parsed: Result<SendMessageArgs, String>) -> (res: Result<
    Outgoing,
    String,
>)
    ensures
        match res {
            Ok(o) => outgoing(ctx@, parsed) == Ok::<OutgoingView, Seq<char>>(o@),
            Err(e) => outgoing(ctx@, parsed) == Err::<OutgoingView, Seq<char>>(e@),
        },
{
    if ctx.maintenance {
        return Err(MUTE.to_owned());
    }
    let channel: u64 = match own_channel(ctx) {
        Ok(c) => c,
        Err(e) => return Err(e),
    };
    let a = match parse_args("send_message", parsed) {
        Ok(a) => a,
        Err(e) => return Err(e),
    };
    if text::is_blank(a.content.as_str()) {
        return Err("missing or empty 'content'".to_owned());
    }
    let payloads = payload_values(channel, a.content.as_str(), &a.reply_to_message_id);
    Ok(Outgoing { channel, payloads })
}

/// Ids, written out.
pub open spec fn id_texts(ids: Seq<u64>) -> Seq<Seq<char>> {
    ids.map_values(|n: u64| decimal(n as nat))
}

/// The reply to a session that sent something, from the ids of the messages, or
/// from the reason why one could not be sent.
pub fn sent(outcome: Result<Vec<u64>, String>) -> (res: Result<Value, String>)
    ensures
        match (outcome, res) {
            (Ok(ids), Ok(v)) => json_of(v) == having(
                obj(),
                "sent_message_ids"@,
                Json::Array(strs(id_texts(ids@))),
            ),
            (Err(e), Err(t)) => t@ == "sending: "@ + e@,
            _ => false,
        },
{
    let ids = match outcome {
        Ok(v) => v,
        Err(e) => return Err(text::join2("sending: ", e.as_str())),
    };
    let mut names: Vec<String> = Vec::new();
    let mut i: usize = 0;
    while i < ids.len()
        invariant
            i <= ids@.len(),
            texts(names@) == id_texts(ids@).take(i as int),
        decreases ids@.len() - i,
    {
        let ghost before = names@;
        names.push(text::u64_to_string(ids[i]));
        assert(texts(names@) =~= texts(before).push(decimal(ids@[i as int] as nat)));
        i += 1;
    }
    assert(texts(names@) =~= id_texts(ids@));
    Ok(json::with(json::object(), "sent_message_ids", json::text_array(&names)))
}

pub struct AddReactionArgs {
    pub message_id: String,
    pub emoji: String,
}

/// What to react to, and with what.
pub struct ReactionRequest {
    pub channel: u64,
    pub message: u64,
    pub emoji: String,
}

pub struct ReactionView {
    pub channel: u64,
    pub message: u64,
    pub emoji: Seq<char>,
}

impl View for ReactionRequest {
    type V = ReactionView;

    open spec fn view(&self) -> ReactionView {
        ReactionView { channel: self.channel, message: self.message, emoji: self.emoji@ }
    }
}

pub open spec fn is_angle(c: char) -> bool {
    c == '<' || c == '>'
}

/// A text without the angle brackets that begin and end it.
pub open spec fn unbracketed(s: Seq<char>) -> Seq<char>
    decreases s.len(),
{
    if s.len() == 0 {
        s
    } else if is_angle(s[0]) {
        unbracketed(s.drop_first())
    } else if is_angle(s.last()) {
        unbracketed(s.drop_last())
    } else {
        s
    }
}

/// What stands before the first colon of a text.
pub open spec fn before_colon(s: Seq<char>) -> Seq<char>
    decreases s.len(),
{
    if s.len() == 0 || s[0] == ':' {
        Seq::empty()
    } else {
        seq![s[0]] + before_colon(s.drop_first())
    }
}

/// What stands behind the first colon of a text, if it has one.
pub open spec fn behind_colon(s: Seq<char>) -> Option<Seq<char>>
    decreases s.len(),
{
    if s.len() == 0 {
        None
    } else if s[0] == ':' {
        Some(s.drop_first())
    } else {
        behind_colon(s.drop_first())
    }
}

/// The id of a custom emoji, in a text such as `<:name:id>`: the third of its
/// parts, a positive 64-bit numeral.
pub open spec fn custom_emoji_id(s: Seq<char>) -> Option<u64> {
    match behind_colon(unbracketed(s)) {
        Some(rest) => match behind_colon(rest) {
            Some(third) => match parsed_u64(before_colon(third)) {
                Some(n) => if n > 0 {
                    Some(n)
                } else {
                    None
                },
                None => None,
            },
            None => None,
        },
        None => None,
    }
}

/// A text that stands for an emoji: a custom one in angle brackets, or anything
/// that no angle bracket begins.
pub open spec fn is_reaction(emoji: Seq<char>) -> bool {
    emoji.len() > 0 && (emoji[0] != '<' || (emoji.last() == '>' && custom_emoji_id(
        emoji,
    ) is Some))
}

pub const NO_REACTION: &'static str = "failed to convert from a string to ReactionType";

/// `serenity::all::ReactionType::try_from` a string slice. It takes a text that
/// does not begin with `<` as it is, unless it is empty. Of one that does, it
/// wants a `>` at the end; what is left without the angle brackets at both ends
/// it splits at its colons, and wants a nonzero 64-bit numeral as the third
/// part. It complains in the same words about all that it does not take.
#[verifier::external_body]
fn check_reaction(emoji: &str) -> (res: Result<(), String>)
    ensures
        match res {
            Ok(_) => is_reaction(emoji@),
            Err(e) => !is_reaction(emoji@) && e@ == NO_REACTION@,
        },
{
    match serenity::all::ReactionType::try_from(emoji) {
        Ok(_) => Ok(()),
        Err(e) => Err(e.to_string()),
    }
}

/// The complaint about a text that is no emoji, `quoted` being the text.
pub open spec fn emoji_complaint(quoted: Seq<char>, reason: Seq<char>) -> Seq<char> {
    "bad emoji "@ + quoted + ": "@ + reason
}

/// The complaint about a text that is no emoji.
pub fn bad_emoji(quoted: &str, reason: &str) -> (res: String)
    ensures
        res@ == emoji_complaint(quoted@, reason@),
{
    let head = text::join3("bad emoji ", quoted, ": ");
    text::join2(head.as_str(), reason)
}

/// What to react to for a session, or why to nothing, given the reason why the
/// emoji is none, if it is none.
pub open spec fn reaction_request(
    ctx: TurnView,
    parsed: Result<AddReactionArgs, String>,
    refusal: Option<Seq<char>>,
) -> Result<ReactionView, Seq<char>> {
    if ctx.maintenance {
        Err(MUTE@)
    } else {
        match id_or_complaint(ctx.channel_id) {
            Err(e) => Err(e),
            Ok(channel) => match parsed {
                Err(e) => Err(bad_args("add_reaction"@, e@)),
                Ok(a) => match id_or_complaint(a.message_id@) {
                    Err(e) => Err(e),
                    Ok(message) => match refusal {
                        None => Ok(ReactionView { channel, message, emoji: a.emoji@ }),
                        Some(reason) => Err(emoji_complaint(debug_text(a.emoji@), reason)),
                    },
                },
            },
        }
    }
}

/// Why the emoji that a session wants to react with is none, if it is none.
pub open spec fn emoji_refusal(emoji: Seq<char>) -> Option<Seq<char>> {
    if is_reaction(emoji) {
        None
    } else {
        Some(NO_REACTION@)
    }
}

/// Why the emoji among the arguments is none, if there is one and it is none.
pub open spec fn args_refusal(parsed: Result<AddReactionArgs, String>) -> Option<Seq<char>> {
    match parsed {
        Ok(a) => emoji_refusal(a.emoji@),
        Err(_) => None,
    }
}

/// The characters of a request, or of the reason why there is none.
pub open spec fn reaction_result(res: Result<ReactionRequest, String>) -> Result<
    ReactionView,
    Seq<char>,
> {
    match res {
        Ok(r) => Ok(r@),
        Err(e) => Err(e@),
    }
}

/// What to react to in the session's channel.
pub fn add_reaction(ctx: &TurnCtx, parsed: Result<AddReactionArgs, String>) -> (res: Result<
    ReactionRequest,
    String,
>)
    ensures
        reaction_result(res) == reaction_request(ctx@, parsed, args_refusal(parsed)),
{
    let refusal = match &parsed {
        Ok(a) => match check_reaction(a.emoji.as_str()) {
            Ok(_) => None,
            Err(e) => Some(e),
        },
        Err(_) => None,
    };
    react_with(ctx, parsed, refusal)
}

/// What to react to in the session's channel, given the reason why the emoji is
/// none, if it is none.
pub fn react_with(
    ctx: &TurnCtx,
    parsed: Result<AddReactionArgs, String>,
    refusal: Option<String>,
) -> (res: Result<ReactionRequest, String>)
    ensures
        reaction_result(res) == reaction_request(ctx@, parsed, opt_text(refusal)),
{
    if ctx.maintenance {
        return Err(MUTE.to_owned());
    }
    let channel: u64 = match own_channel(ctx) {
        Ok(c) => c,
        Err(e) => return Err(e),
    };
    let a = match parse_args("add_reaction", parsed) {
        Ok(a) => a,
        Err(e) => return Err(e),
    };
    let message: u64 = match parse_id(a.message_id.as_str()) {
        Ok(m) => m,
        Err(e) => return Err(e),
    };
    match refusal {
        None => Ok(ReactionRequest { channel, message, emoji: a.emoji }),
        Some(e) => Err(bad_emoji(text::quoted(a.emoji.as_str()).as_str(), e.as_str())),
    }
}

/// The reply to a session that reacted, or the reason why that failed.
pub fn reacted(outcome: Result<(), String>) -> (res: Result<Value, String>)
    ensures
        match (outcome, res) {
            (Ok(_), Ok(v)) => json_of(v) == having(obj(), "ok"@, Json::Bool(true)),
            (Err(e), Err(t)) => t@ == "reacting: "@ + e@,
            _ => false,
        },
{
    match outcome {
        Ok(_) => Ok(json::with(json::object(), "ok", json::boolean(true))),
        Err(e) => Err(text::join2("reacting: ", e.as_str())),
    }
}

/// A maintenance turn cannot speak: neither tool that does has anything to do
/// for it, whatever the arguments.
pub proof fn maintenance_turn_is_mute(
    ctx: TurnView,
    said: Result<SendMessageArgs, String>,
    reaction: Result<AddReactionArgs, String>,
    refusal: Option<Seq<char>>,
)
    requires
        ctx.maintenance,
    ensures
        outgoing(ctx, said) == Err::<OutgoingView, Seq<char>>(MUTE@),
        reaction_request(ctx, reaction, refusal) == Err::<ReactionView, Seq<char>>(MUTE@),
{
}

/// A session reaches no channel but its own: whatever it reads, sends or reacts
/// to is in the channel that its turn is bound to.
pub proof fn requests_stay_in_the_channel(
    ctx: TurnView,
    read: Result<ReadMessagesArgs, String>,
    said: Result<SendMessageArgs, String>,
    reaction: Result<AddReactionArgs, String>,
    refusal: Option<Seq<char>>,
)
    ensures
        history_request(ctx, read) matches Ok(r) ==> parsed_id(ctx.channel_id) == Some(r.channel),
        outgoing(ctx, said) matches Ok(o) ==> parsed_id(ctx.channel_id) == Some(o.channel),
        reaction_request(ctx, reaction, refusal) matches Ok(r) ==> parsed_id(ctx.channel_id) == Some(
            r.channel,
        ),
{
}

/// The content of a message.
pub open spec fn content_of(payload: Json) -> Seq<char> {
    match text_member(payload, "content"@) {
        Some(t) => t,
        None => Seq::empty(),
    }
}

/// What a session says is sent whole: the messages hold its content in order,
/// each within Discord's limit and none empty.
pub proof fn content_is_sent_whole(
    ctx: TurnView,
    parsed: Result<SendMessageArgs, String>,
    i: int,
)
    requires
        outgoing(ctx, parsed) is Ok,
        0 <= i < outgoing(ctx, parsed)->Ok_0.payloads.len(),
    ensures
        joined(
            outgoing(ctx, parsed)->Ok_0.payloads.map_values(|p: Json| content_of(p)),
        ) == parsed->Ok_0.content@,
        0 < content_of(outgoing(ctx, parsed)->Ok_0.payloads[i]).len() <= MESSAGE_CAP,
{
    let sent = outgoing(ctx, parsed)->Ok_0.payloads;
    let parts = chunks(parsed->Ok_0.content@, MESSAGE_CAP as nat);
    chunks_hold_the_text(parsed->Ok_0.content@, MESSAGE_CAP as nat);
    reveal_strlit("content");
    reveal_strlit("message_reference");
    assert("content"@ != "message_reference"@) by {
        assert("content"@.len() != "message_reference"@.len());
    }
    assert forall|k: int| 0 <= k < sent.len() implies content_of(#[trigger] sent[k])
        == parts[k] by {}
    assert(sent.map_values(|p: Json| content_of(p)) =~= parts);
    assert(content_of(sent[i]) == parts[i]);
}

// ---- the server's channels ----

pub const DM_CHANNELS: &'static str = "a DM has no other channels";

/// The server that a turn belongs to; a DM has none.
pub open spec fn server_of(ctx: TurnView) -> Option<u64> {
    match ctx.scope {
        Scope::Guild(g) => if ctx.is_dm {
            None
        } else {
            Some(g)
        },
        Scope::Dm(_) => None,
    }
}

/// The one server whose channels a turn may list.
pub fn own_server(ctx: &TurnCtx) -> (res: Result<u64, String>)
    ensures
        err_text(res) == (match server_of(ctx@) {
            Some(g) => Ok::<u64, Seq<char>>(g),
            None => Err::<u64, Seq<char>>(DM_CHANNELS@),
        }),
{
    match ctx.scope {
        Scope::Guild(g) => if ctx.is_dm {
            Err(DM_CHANNELS.to_owned())
        } else {
            Ok(g)
        },
        Scope::Dm(_) => Err(DM_CHANNELS.to_owned()),
    }
}

/// The channels that can be written in.
pub open spec fn text_channels() -> spec_fn(ChannelInfo) -> bool {
    |c: ChannelInfo| is_text(c)
}

/// A channel as a session sees it.
pub open spec fn channel_json() -> spec_fn(ChannelInfo) -> Json {
    |c: ChannelInfo|
        having(
            having(obj(), "id"@, Json::Str(decimal(c.id as nat))),
            "name"@,
            Json::Str(c.name@),
        )
}

/// What a session sees of a server's channels: those that can be written in, in
/// the order in which they came.
pub open spec fn listed_channels(fetched: Seq<ChannelInfo>) -> Seq<Json> {
    fetched.filter(text_channels()).map_values(channel_json())
}

/// The reply to a session that lists the channels of its server, from those that
/// Discord gave, or from the reason why it gave none.
pub fn list_channels(ctx: &TurnCtx, fetched: Result<Vec<ChannelInfo>, String>) -> (res: Result<
    Value,
    String,
>)
    ensures
        match (server_of(ctx@), fetched) {
            (None, _) => res matches Err(t) && t@ == DM_CHANNELS@,
            (Some(_), Err(e)) => res matches Err(t) && t@ == "listing channels: "@ + e@,
            (Some(_), Ok(chans)) => res matches Ok(v) && json_of(v) == having(
                obj(),
                "channels"@,
                Json::Array(listed_channels(chans@)),
            ),
        },
{
    if let Err(e) = own_server(ctx) {
        return Err(e);
    }
    let chans = match fetched {
        Ok(c) => c,
        Err(e) => return Err(text::join2("listing channels: ", e.as_str())),
    };
    let ghost p = text_channels();
    let ghost f = channel_json();
    let mut out: Vec<Value> = Vec::new();
    let mut i: usize = 0;
    proof {
        reveal(Seq::filter);
        assert(docs(out@) =~= chans@.take(0).filter(p).map_values(f));
    }
    while i < chans.len()
        invariant
            i <= chans@.len(),
            p == text_channels(),
            f == channel_json(),
            docs(out@) == chans@.take(i as int).filter(p).map_values(f),
        decreases chans@.len() - i,
    {
        let c = &chans[i];
        let ghost before = out@;
        let ghost done = chans@.take(i as int);
        let ghost next = chans@.take(i + 1);
        proof {
            reveal(Seq::filter);
            assert(next.drop_last() =~= done);
            assert(next.last() == *c);
        }
        if text_channel(c) {
            let id = text::u64_to_string(c.id);
            let v = json::with_text(json::object(), "id", id.as_str());
            let v = json::with_text(v, "name", c.name.as_str());
            assert(json_of(v) == f(*c));
            out.push(v);
            assert(docs(out@) =~= docs(before).push(f(*c)));
            assert(next.filter(p).map_values(f) =~= done.filter(p).map_values(f).push(f(*c)));
        }
        i += 1;
    }
    assert(chans@.take(i as int) =~= chans@);
    Ok(json::with(json::object(), "channels", json::array(out)))
}

/// A session lists the channels of its own server only: the server is the one
/// that its turn is bound to, and a DM has none to list.
pub proof fn listing_stays_in_the_server(ctx: TurnView)
    ensures
        server_of(ctx) matches Some(g) ==> ctx.scope == Scope::Guild(g) && !ctx.is_dm,
        ctx.scope matches Scope::Guild(g) ==> !ctx.is_dm ==> server_of(ctx) == Some(g),
        ctx.is_dm || ctx.scope is Dm ==> server_of(ctx) is None,
{
}

// ---- the persona and the behavior ----

/// The reply that shows the persona.
pub fn get_persona(persona: &str) -> (v: Value)
    ensures
        json_of(v) == having(obj(), "persona"@, Json::Str(persona@)),
{
    json::with_text(json::object(), "persona", persona)
}

pub struct SetPersonaArgs {
    pub content: String,
}

pub const NO_PERSONA: &'static str =
    "missing or empty 'content' — set_persona replaces the whole file";

/// The persona to write, and the file that it goes to.
pub struct PersonaEdit {
    pub file: String,
    pub content: String,
}

pub struct PersonaEditView {
    pub file: Seq<char>,
    pub content: Seq<char>,
}

impl View for PersonaEdit {
    type V = PersonaEditView;

    open spec fn view(&self) -> PersonaEditView {
        PersonaEditView { file: self.file@, content: self.content@ }
    }
}

/// The persona to write for a session, or why none.
pub open spec fn persona_edit(ctx: TurnView, parsed: Result<SetPersonaArgs, String>) -> Result<
    PersonaEditView,
    Seq<char>,
> {
    match parsed {
        Err(e) => Err(bad_args("set_persona"@, e@)),
        Ok(a) => if trimmed(a.content@).len() == 0 {
            Err(NO_PERSONA@)
        } else {
            Ok(PersonaEditView { file: persona_file(ctx.scope), content: a.content@ })
        },
    }
}

/// The persona to write for the session's scope.
pub fn set_persona(ctx: &TurnCtx, parsed: Result<SetPersonaArgs, String>) -> (res: Result<
    PersonaEdit,
    String,
>)
    ensures
        match res {
            Ok(e) => persona_edit(ctx@, parsed) == Ok::<PersonaEditView, Seq<char>>(e@),
            Err(e) => persona_edit(ctx@, parsed) == Err::<PersonaEditView, Seq<char>>(e@),
        },
{
    let a = match parse_args("set_persona", parsed) {
        Ok(a) => a,
        Err(e) => return Err(e),
    };
    if text::is_blank(a.content.as_str()) {
        return Err(NO_PERSONA.to_owned());
    }
    Ok(PersonaEdit { file: persona::file(ctx.scope), content: a.content })
}

/// What a session remembers stays in its scope: a session of another scope
/// never writes the same persona file.
pub proof fn memory_stays_in_its_scope(
    a: TurnView,
    b: TurnView,
    of_a: Result<SetPersonaArgs, String>,
    of_b: Result<SetPersonaArgs, String>,
)
    requires
        a.scope != b.scope,
        persona_edit(a, of_a) is Ok,
        persona_edit(b, of_b) is Ok,
    ensures
        persona_edit(a, of_a)->Ok_0.file == persona_file(a.scope),
        persona_edit(a, of_a)->Ok_0.file != persona_edit(b, of_b)->Ok_0.file,
{
    assert(persona_file(a.scope).len() >= 3) by {
        reveal_strlit(".md");
    }
    persona_files_are_apart(a.scope, b.scope, 0);
}

pub const PERSONA_SAVED: &'static str =
    "persona saved. All sessions in this scope (including this one) reset: next \
                 wake starts a fresh session with the new persona, and transcript memory is \
                 gone. Make sure everything worth keeping is written in the persona itself.";

/// A reply that all went well, with a note.
pub open spec fn ok_note(note: Seq<char>) -> Json {
    having(having(obj(), "ok"@, Json::Bool(true)), "note"@, Json::Str(note))
}

fn ok_with_note(note: &str) -> (v: Value)
    ensures
        json_of(v) == ok_note(note@),
{
    json::with_text(json::with(json::object(), "ok", json::boolean(true)), "note", note)
}

/// A new persona means a new mind: once it is written, the transcripts made
/// under the old one die. Where it could not be written, nothing changes.
pub fn persona_saved(s: &mut Shared, ctx: &TurnCtx, outcome: Result<(), String>) -> (res: Result<
    Value,
    String,
>)
    ensures
        match (outcome, res) {
            (Ok(_), Ok(v)) => {
                &&& json_of(v) == ok_note(PERSONA_SAVED@)
                &&& final(s)@ == old(s)@.scope_dropped(ctx@.scope)
            },
            (Err(e), Err(t)) => t@ == "writing persona: "@ + e@ && final(s)@ == old(s)@,
            _ => false,
        },
{
    match outcome {
        Ok(_) => {
            s.drop_scope_sessions(ctx.scope);
            Ok(ok_with_note(PERSONA_SAVED))
        },
        Err(e) => Err(text::join2("writing persona: ", e.as_str())),
    }
}

/// The reply that shows the behavior of the session's scope.
pub fn get_behavior(s: &Shared, ctx: &TurnCtx) -> (v: Value)
    ensures
        json_of(v) == behavior_json(behavior_of(s@.behaviors, ctx@.scope)),
{
    wire::behavior_value(&s.behavior_for(ctx.scope))
}

pub struct SetBehaviorArgs {
    pub watched_channels: Option<Vec<String>>,
    pub respond_to: Option<String>,
    pub idle_wake_minutes: Option<u64>,
}

/// How a setting of who is answered is read.
pub open spec fn parsed_respond_to(s: Seq<char>) -> Option<RespondTo> {
    if s == "all"@ {
        Some(RespondTo::All)
    } else if s == "mentions"@ {
        Some(RespondTo::Mentions)
    } else {
        None
    }
}

/// A behavior with the settings that the arguments name changed; nothing where
/// they ask for something that there is not.
pub open spec fn amended(b: BehaviorView, a: SetBehaviorArgs) -> Option<BehaviorView> {
    let respond_to = match a.respond_to {
        Some(r) => parsed_respond_to(r@),
        None => Some(b.respond_to),
    };
    match respond_to {
        None => None,
        Some(r) => Some(
            BehaviorView {
                watched_channels: match a.watched_channels {
                    Some(w) => texts(w@),
                    None => b.watched_channels,
                },
                respond_to: r,
                idle_wake_minutes: or_default(a.idle_wake_minutes, b.idle_wake_minutes),
            },
        ),
    }
}

pub const BAD_RESPOND_TO: &'static str = "respond_to must be \"mentions\" or \"all\"";

/// The reply to a session that changed its behavior.
pub open spec fn behavior_reply(b: BehaviorView) -> Json {
    having(
        having(having(obj(), "ok"@, Json::Bool(true)), "behavior"@, behavior_json(b)),
        "note"@,
        Json::Str("in effect immediately, this scope only"@),
    )
}

/// The state once a scope's behavior was changed, where it could be.
pub open spec fn behavior_set(s: SharedView, scope: Scope, a: SetBehaviorArgs) -> SharedView {
    match amended(behavior_of(s.behaviors, scope), a) {
        Some(b) => SharedView { behaviors: s.behaviors.insert(scope, b), ..s },
        None => s,
    }
}

/// Changes the behavior of the session's scope.
pub fn set_behavior(
    s: &mut Shared,
    ctx: &TurnCtx,
    parsed: Result<SetBehaviorArgs, String>,
) -> (res: Result<Value, String>)
    ensures
        match parsed {
            Err(e) => {
                &&& err_text(res) == Err::<Value, Seq<char>>(bad_args("set_behavior"@, e@))
                &&& final(s)@ == old(s)@
            },
            Ok(a) => match amended(behavior_of(old(s)@.behaviors, ctx@.scope), a) {
                None => {
                    &&& err_text(res) == Err::<Value, Seq<char>>(BAD_RESPOND_TO@)
                    &&& final(s)@ == old(s)@
                },
                Some(b) => {
                    &&& res is Ok
                    &&& json_of(res->Ok_0) == behavior_reply(b)
                    &&& final(s)@ == (SharedView {
                        behaviors: old(s)@.behaviors.insert(ctx@.scope, b),
                        ..old(s)@
                    })
                },
            },
        },
        parsed matches Ok(a) ==> final(s)@ == behavior_set(old(s)@, ctx@.scope, a),
{
    let a = match parse_args("set_behavior", parsed) {
        Ok(a) => a,
        Err(e) => return Err(e),
    };
    let mut beh = s.behavior_for(ctx.scope);
    if let Some(r) = &a.respond_to {
        if text::same(r.as_str(), "all") {
            beh.respond_to = RespondTo::All;
        } else if text::same(r.as_str(), "mentions") {
            beh.respond_to = RespondTo::Mentions;
        } else {
            return Err(BAD_RESPOND_TO.to_owned());
        }
    }
    if let Some(m) = a.idle_wake_minutes {
        beh.idle_wake_minutes = m;
    }
    if let Some(w) = a.watched_channels {
        beh.watched_channels = w;
    }
    let v = json::with(json::object(), "ok", json::boolean(true));
    let v = json::with(v, "behavior", wire::behavior_value(&beh));
    let v = json::with_text(v, "note", "in effect immediately, this scope only");
    s.behaviors.insert(ctx.scope, beh);
    Ok(v)
}

/// A change of behavior is in effect immediately, in its scope only.
pub proof fn behavior_is_in_effect(
    behaviors: Map<Scope, BehaviorView>,
    scope: Scope,
    b: BehaviorView,
    other: Scope,
)
    ensures
        behavior_of(behaviors.insert(scope, b), scope) == b,
        other != scope ==> behavior_of(behaviors.insert(scope, b), other) == behavior_of(
            behaviors,
            other,
        ),
{
}

// ---- consent ----

pub const DM_CONSENT: &'static str = "DMs are consent by definition; no registry here";

/// The reply that shows the consent record of the session's server.
pub fn get_consent(s: &Shared, ctx: &TurnCtx) -> (v: Value)
    ensures
        if ctx@.is_dm {
            json_of(v) == having(obj(), "note"@, Json::Str(DM_CONSENT@))
        } else {
            shows_guild(json_of(v), scope_consent(s@, ctx@.scope))
        },
{
    if ctx.is_dm {
        return json::with_text(json::object(), "note", DM_CONSENT);
    }
    match ctx.scope {
        Scope::Guild(g) => wire::guild_value(&s.consent.guild(g)),
        Scope::Dm(_) => wire::guild_value(&GuildConsent::default()),
    }
}

/// The consent record of a scope; a DM has none.
pub open spec fn scope_consent(s: SharedView, scope: Scope) -> GuildView {
    match scope {
        Scope::Guild(g) => guild_of(s.consent, g),
        Scope::Dm(_) => no_consent(),
    }
}

pub const DM_STAYS: &'static str = "DMs can't be ignored — the person can simply stop writing";

pub const CHANNEL_LEFT: &'static str =
    "This channel is dormant again: you will see nothing from it unless an \
                 opted-in person @mentions you there. Its session is gone. Do not send \
                 anything further here — end your turn now.";

/// The state with a channel of a scope dormant again, nothing of it buffered
/// and its session gone.
pub open spec fn channel_left(s: SharedView, scope: Scope, ch: Seq<char>) -> SharedView {
    let dormant = match scope {
        Scope::Guild(g) => SharedView {
            consent: s.consent.insert(g, without_channel(guild_of(s.consent, g), ch)),
            ..s
        },
        Scope::Dm(_) => s,
    };
    (SharedView { buffer: dormant.buffer.without_channel(ch), ..dormant }).channel_dropped(ch)
}

/// Return this session's channel to dormant; hands out the id of the session
/// that it had.
pub fn ignore_channel(s: &mut Shared, ctx: &TurnCtx) -> (res: Result<
    (Value, Option<String>),
    String,
>)
    ensures
        if ctx@.is_dm {
            res matches Err(e) && e@ == DM_STAYS@ && final(s)@ == old(s)@
        } else {
            &&& res is Ok
            &&& json_of(res->Ok_0.0) == ok_note(CHANNEL_LEFT@)
            &&& opt_text(res->Ok_0.1) == session_of(
                old(s)@.sessions,
                ctx@.channel_id,
            ).session_id
            &&& final(s)@ == channel_left(old(s)@, ctx@.scope, ctx@.channel_id)
        },
{
    if ctx.is_dm {
        return Err(DM_STAYS.to_owned());
    }
    if let Scope::Guild(g) = ctx.scope {
        s.consent.remove_channel(g, ctx.channel_id.as_str());
    }
    s.purge_channel(ctx.channel_id.as_str());
    let dropped = s.drop_channel(ctx.channel_id.as_str());
    Ok((ok_with_note(CHANNEL_LEFT), dropped))
}

/// A channel that was left is dormant, holds no buffered message and no
/// session, and turns in flight belong to an older generation; other channels
/// are as they were.
pub proof fn left_channel_is_dormant(
    s: SharedView,
    g: u64,
    ch: Seq<char>,
    e: MsgEvent,
    other: Seq<char>,
)
    requires
        other != ch,
    ensures
        ({
            let t = channel_left(s, Scope::Guild(g), ch);
            &&& !guild_of(t.consent, g).active_channels.contains(ch)
            &&& t.buffer.ring.contains(e) ==> e.channel_id@ != ch
            &&& session_of(t.sessions, ch) == no_session()
            &&& t.scrub_gen != s.scrub_gen
            &&& guild_of(t.consent, g).active_channels.contains(other) == guild_of(
                s.consent,
                g,
            ).active_channels.contains(other)
            &&& session_of(t.sessions, other) == session_of(s.sessions, other)
        }),
{
    crate::buffer::purge_channel_is_exact(s.buffer, ch, e);
}

// ---- what holds of every call ----

/// The name that a session calls a tool by.
pub open spec fn called(tool: Tool) -> Seq<char> {
    match tool {
        Tool::WaitForMessages => "wait_for_messages"@,
        Tool::ReadMessages => "read_messages"@,
        Tool::SendMessage => "send_message"@,
        Tool::AddReaction => "add_reaction"@,
        Tool::ListChannels => "list_channels"@,
        Tool::GetPersona => "get_persona"@,
        Tool::SetPersona => "set_persona"@,
        Tool::GetBehavior => "get_behavior"@,
        Tool::SetBehavior => "set_behavior"@,
        Tool::GetConsent => "get_consent"@,
        Tool::IgnoreChannel => "ignore_channel"@,
    }
}

/// Each tool is called by its own name, and by no other.
pub proof fn tools_go_by_their_names(tool: Tool, name: Seq<char>)
    ensures
        tool_of(called(tool)) == Some(tool),
        tool_of(name) == Some(tool) ==> name == called(tool),
        (forall|t: Tool| name != #[trigger] called(t)) ==> tool_of(name) is None,
{
    let n = crate::catalog::tool_names();
    crate::catalog::tool_names_are_distinct();
    assert(n[0] == "wait_for_messages"@ && n[1] == "read_messages"@ && n[2] == "send_message"@
        && n[3] == "add_reaction"@ && n[4] == "list_channels"@ && n[5] == "get_persona"@
        && n[6] == "set_persona"@ && n[7] == "get_behavior"@ && n[8] == "set_behavior"@
        && n[9] == "get_consent"@ && n[10] == "ignore_channel"@);
    if tool_of(name) is Some {
        assert(name == called(tool_of(name)->0));
    }
}

/// A call needs a token that is alive and a tool that there is, and complains of
/// the token first; it then acts for the turn that the token stands for.
pub proof fn calls_need_a_live_token(
    s: SharedView,
    name: Seq<char>,
    args: Json,
    token: Seq<char>,
    tool: Tool,
)
    ensures
        !(member(args, "token"@) matches Some(d) && d is Str) ==> dispatched(s, name, args) == Err::<(Tool, TurnView), ErrorView>(
            ErrorView::Failed(NO_TOKEN@),
        ),
        member(args, "token"@) == Some(Json::Str(token)) && !s.tokens.contains_key(token)
            ==> dispatched(s, name, args) == Err::<(Tool, TurnView), ErrorView>(
            ErrorView::Failed(DEAD_TOKEN@),
        ),
        member(args, "token"@) == Some(Json::Str(token)) && s.tokens.contains_key(token)
            && tool_of(name) is None ==> dispatched(s, name, args) == Err::<
            (Tool, TurnView),
            ErrorView,
        >(ErrorView::UnknownTool),
        member(args, "token"@) == Some(Json::Str(token)) && s.tokens.contains_key(token)
            && tool_of(name) == Some(tool) ==> dispatched(s, name, args) == Ok::<
            (Tool, TurnView),
            ErrorView,
        >((tool, s.tokens[token])),
{
}

/// A number is taken as it is, or as a text with white space around it; any
/// other number is what it comes to as a whole one, and what is neither is none.
pub proof fn numbers_are_taken_leniently(n: u64, doc: Json, text: Seq<char>, whole: Option<u64>)
    ensures
        lenient(Json::Number(decimal(n as nat)), whole) == Some(n),
        trimmed(text) == decimal(n as nat) ==> lenient(Json::Str(text), whole) == Some(n),
        parsed_u64(trimmed(text)) is None ==> lenient(Json::Str(text), whole) is None,
        doc is Number && (forall|m: u64| doc != Json::Number(#[trigger] decimal(m as nat)))
            ==> lenient(doc, whole) == whole,
        !(doc is Number) && !(doc is Str) ==> lenient(doc, whole) is None,
{
    text::decimal_round_trip(n);
    assert(decimal(n as nat) == decimal(n as nat));
    if doc is Number {
        let t = doc->Number_0;
        if exists|m: u64| t == #[trigger] decimal(m as nat) {
            let m = choose|m: u64| t == #[trigger] decimal(m as nat);
            assert(doc == Json::Number(decimal(m as nat)));
        }
    }
}

/// An id is a positive number: it is read back as it is written, whatever white
/// space is around it, and zero is none.
pub proof fn ids_are_positive(n: u64, text: Seq<char>)
    ensures
        trimmed(text) == decimal(n as nat) && n > 0 ==> parsed_id(text) == Some(n)
            && id_or_complaint(text) == Ok::<u64, Seq<char>>(n),
        trimmed(text) == decimal(0) ==> parsed_id(text) is None,
        parsed_id(text) == Some(n) ==> n > 0 && parsed_u64(trimmed(text)) == Some(n),
        parsed_u64(trimmed(text)) is None ==> parsed_id(text) is None,
        parsed_id(text) is None ==> id_or_complaint(text) == Err::<u64, Seq<char>>(
            "bad Discord id: "@ + debug_text(text),
        ),
        parsed_id(text) == Some(n) ==> id_or_complaint(text) == Ok::<u64, Seq<char>>(n),
{
    text::decimal_round_trip(n);
    text::decimal_round_trip(0);
}

/// How long a session listens and how much history it gets is what it asks for,
/// within bounds, and a fixed amount where it does not say.
pub proof fn requests_are_kept_in_bounds(w: WaitForMessagesArgs, r: ReadMessagesArgs, n: u64)
    ensures
        5 <= wait_seconds(w) <= 480,
        w.timeout_seconds is None ==> wait_seconds(w) == 240,
        w.timeout_seconds == Some(n) && 5 <= n <= 480 ==> wait_seconds(w) == n,
        w.timeout_seconds == Some(n) && n < 5 ==> wait_seconds(w) == 5,
        w.timeout_seconds == Some(n) && n > 480 ==> wait_seconds(w) == 480,
        1 <= history_limit(r) <= 50,
        r.limit is None ==> history_limit(r) == 20,
        r.limit == Some(n) && 1 <= n <= 50 ==> history_limit(r) == n,
        r.limit == Some(0u64) ==> history_limit(r) == 1,
        r.limit == Some(n) && n > 50 ==> history_limit(r) == 50,
{
}

/// What is fetched for a session that reads back: so many messages of its own
/// channel, before the one it names if it names one. It complains of arguments
/// that could not be read first, of its channel next.
pub proof fn history_is_asked_for(
    ctx: TurnView,
    parsed: Result<ReadMessagesArgs, String>,
    channel: u64,
    before: u64,
)
    requires
        ctx.channel_id == decimal(channel as nat),
        channel > 0,
    ensures
        parsed matches Err(e) ==> history_request(ctx, parsed) == Err::<
            HistoryRequest,
            Seq<char>,
        >("bad read_messages arguments: "@ + e@),
        parsed matches Ok(a) ==> {
            &&& a.before_message_id is None ==> (history_request(ctx, parsed) matches Ok(q)
                && q.channel == channel && q.limit == history_limit(a) && q.before is None)
            &&& (a.before_message_id matches Some(m) && m@ == decimal(before as nat) && before > 0)
                ==> (history_request(ctx, parsed) matches Ok(q) && q.channel == channel && q.limit
                == history_limit(a) && q.before == Some(before))
            &&& (a.before_message_id matches Some(m) && parsed_id(m@) is None) ==> history_request(
                ctx,
                parsed,
            ) is Err
        },
{
    lemma_own_id(channel);
    lemma_own_id(before);
    lemma_bad_args();
    if parsed is Err {
        let e = parsed->Err_0@;
        assert("bad "@ + "read_messages"@ + " arguments: "@ + e
            =~= "bad read_messages arguments: "@ + e);
    }
}

proof fn lemma_trimmed_decimal(n: nat)
    ensures
        trimmed(decimal(n)) == decimal(n),
{
    let d = decimal(n);
    text::numerals_have_no_leading_zeros(n, 0);
    text::numerals_have_no_leading_zeros(n, d.len() - 1);
    text::white_space_is_listed(d[0]);
    text::white_space_is_listed(d[d.len() - 1]);
    assert(d.last() == d[d.len() - 1]);
}

proof fn lemma_own_id(n: u64)
    ensures
        n > 0 ==> parsed_id(decimal(n as nat)) == Some(n),
{
    lemma_trimmed_decimal(n as nat);
    text::decimal_round_trip(n);
}

proof fn lemma_bad_args()
    ensures
        "bad "@ + "read_messages"@ + " arguments: "@ == "bad read_messages arguments: "@,
        "bad "@ + "send_message"@ + " arguments: "@ == "bad send_message arguments: "@,
        "bad "@ + "add_reaction"@ + " arguments: "@ == "bad add_reaction arguments: "@,
        "bad "@ + "set_persona"@ + " arguments: "@ == "bad set_persona arguments: "@,
{
    reveal_strlit("bad ");
    reveal_strlit(" arguments: ");
    reveal_strlit("read_messages");
    reveal_strlit("send_message");
    reveal_strlit("add_reaction");
    reveal_strlit("set_persona");
    reveal_strlit("bad read_messages arguments: ");
    reveal_strlit("bad send_message arguments: ");
    reveal_strlit("bad add_reaction arguments: ");
    reveal_strlit("bad set_persona arguments: ");
    assert("bad "@ + "read_messages"@ + " arguments: "@ =~= "bad read_messages arguments: "@);
    assert("bad "@ + "send_message"@ + " arguments: "@ =~= "bad send_message arguments: "@);
    assert("bad "@ + "add_reaction"@ + " arguments: "@ =~= "bad add_reaction arguments: "@);
    assert("bad "@ + "set_persona"@ + " arguments: "@ =~= "bad set_persona arguments: "@);
}

/// Whose messages a session sees in the history: everyone's in a DM; on a server
/// those of bots, of the bot itself, and of the people opted in there.
pub proof fn history_shows_those_who_consent(
    s: SharedView,
    ctx: TurnView,
    m: HistoryMessage,
    g: u64,
)
    ensures
        ctx.is_dm || m.author_is_bot ==> visible(s, ctx)(m),
        s.bot_id == Some(m.author_id) ==> visible(s, ctx)(m),
        !ctx.is_dm && ctx.scope == Scope::Guild(g) && !m.author_is_bot && s.bot_id != Some(
            m.author_id,
        ) ==> (visible(s, ctx)(m) <==> guild_of(s.consent, g).opted_users.contains_key(
            decimal(m.author_id as nat),
        )),
        !ctx.is_dm && ctx.scope is Dm && !m.author_is_bot && s.bot_id != Some(m.author_id)
            ==> !visible(s, ctx)(m),
{
}

/// The history comes in reading order, oldest first, with nothing but what may
/// be seen, and all of that.
pub proof fn history_comes_in_reading_order(
    s: SharedView,
    ctx: TurnView,
    fetched: Seq<HistoryMessage>,
) -> (places: Seq<int>)
    ensures
        places.len() == seen_history(s, ctx, fetched).len(),
        forall|i: int|
            0 <= i < places.len() ==> 0 <= #[trigger] places[i] < fetched.len() && visible(s, ctx)(
                fetched[places[i]],
            ) && seen_history(s, ctx, fetched)[i] == history_json(s)(fetched[places[i]]),
        forall|i: int, j: int|
            0 <= i < j < places.len() ==> #[trigger] places[i] > #[trigger] places[j],
        forall|k: int|
            0 <= k < fetched.len() && visible(s, ctx)(#[trigger] fetched[k]) ==> places.contains(
                k,
            ),
{
    let rev = fetched.reverse();
    let p = visible(s, ctx);
    let back = lemma_filter_places(rev, p);
    let n = fetched.len();
    let places = back.map_values(|a: int| n - 1 - a);
    assert forall|i: int| 0 <= i < places.len() implies 0 <= #[trigger] places[i] < n && p(
        fetched[places[i]],
    ) && seen_history(s, ctx, fetched)[i] == history_json(s)(fetched[places[i]]) by {
        assert(0 <= back[i] < n);
        assert(rev[back[i]] == fetched[n - 1 - back[i]]);
    }
    assert forall|i: int, j: int| 0 <= i < j < places.len() implies #[trigger] places[i]
        > #[trigger] places[j] by {
        assert(back[i] < back[j]);
    }
    assert forall|k: int| 0 <= k < n && p(#[trigger] fetched[k]) implies places.contains(k) by {
        assert(rev[n - 1 - k] == fetched[k]);
        let i = choose|i: int| 0 <= i < back.len() && back[i] == n - 1 - k;
        assert(places[i] == k);
    }
    places
}

/// What a session sees of a message of the history: who wrote it, what and when,
/// whether it was the bot itself, and what it answers.
pub proof fn history_shows_the_message(s: SharedView, m: HistoryMessage)
    ensures
        ({
            let doc = history_json(s)(m);
            &&& member(doc, "message_id"@) == Some(Json::Str(decimal(m.id as nat)))
            &&& member(doc, "author_name"@) == Some(Json::Str(m.author_name@))
            &&& member(doc, "author_id"@) == Some(Json::Str(decimal(m.author_id as nat)))
            &&& member(doc, "author_is_bot"@) == Some(Json::Bool(m.author_is_bot))
            &&& member(doc, "is_me"@) == Some(Json::Bool(s.bot_id == Some(m.author_id)))
            &&& member(doc, "content"@) == Some(Json::Str(m.content@))
            &&& member(doc, "timestamp"@) == Some(Json::Str(m.timestamp@))
            &&& m.reply_to matches Some(r) ==> member(doc, "reply_to_message_id"@) == Some(
                Json::Str(decimal(r as nat)),
            )
            &&& m.reply_to is None ==> member(doc, "reply_to_message_id"@) == Some(Json::Null)
        }),
{
    reveal_strlit("message_id");
    reveal_strlit("author_name");
    reveal_strlit("author_id");
    reveal_strlit("author_is_bot");
    reveal_strlit("is_me");
    reveal_strlit("content");
    reveal_strlit("timestamp");
    reveal_strlit("reply_to_message_id");
    assert("message_id"@.len() == 10 && "author_name"@.len() == 11 && "author_id"@.len() == 9
        && "author_is_bot"@.len() == 13 && "is_me"@.len() == 5 && "content"@.len() == 7
        && "timestamp"@.len() == 9 && "reply_to_message_id"@.len() == 19);
    assert("author_id"@[0] == 'a' && "timestamp"@[0] == 't');
}

/// A reply refers to the message it answers, in the session's channel, in its
/// first part and only there, however many parts it has; what is no reply refers
/// to nothing.
pub proof fn replies_refer_once(
    ctx: TurnView,
    parsed: Result<SendMessageArgs, String>,
    i: int,
)
    requires
        outgoing(ctx, parsed) is Ok,
    ensures
        ({
            let sent = outgoing(ctx, parsed)->Ok_0;
            let a = parsed->Ok_0;
            &&& sent.payloads.len() > 0
            &&& a.reply_to_message_id matches Some(r) ==> (member(
                sent.payloads[0],
                "message_reference"@,
            ) matches Some(place) && {
                &&& place is Object
                &&& member(place, "channel_id"@) == Some(
                    Json::Str(decimal(sent.channel as nat)),
                )
                &&& member(place, "message_id"@) == Some(Json::Str(r@))
                &&& place->Object_0.dom() == set!["channel_id"@, "message_id"@]
            })
            &&& 0 < i < sent.payloads.len() ==> member(
                sent.payloads[i],
                "message_reference"@,
            ) is None
            &&& a.reply_to_message_id is None && 0 <= i < sent.payloads.len() ==> member(
                sent.payloads[i],
                "message_reference"@,
            ) is None
        }),
{
    let content = parsed->Ok_0.content@;
    chunks_hold_the_text(content, MESSAGE_CAP as nat);
    lemma_payload_keys();
    assert(chunks(content, MESSAGE_CAP as nat).len() > 0) by {
        text::blank_iff_all_white(content);
        if content.len() == 0 {
            assert(trimmed(content).len() == 0);
        }
    }
    let sent = outgoing(ctx, parsed)->Ok_0;
    if parsed->Ok_0.reply_to_message_id is Some {
        let place = member(sent.payloads[0], "message_reference"@)->0;
        assert(place->Object_0.dom() =~= set!["channel_id"@, "message_id"@]);
    }
}

proof fn lemma_payload_keys()
    ensures
        "content"@ != "message_reference"@,
        "channel_id"@ != "message_id"@,
{
    reveal_strlit("content");
    reveal_strlit("message_reference");
    reveal_strlit("channel_id");
    reveal_strlit("message_id");
    assert("content"@.len() != "message_reference"@.len());
    assert("channel_id"@[0] == 'c' && "message_id"@[0] == 'm');
}

/// What a session says is cut where the text is cut, a part to a message, and
/// the messages hold nothing else but the reference of a reply.
pub proof fn messages_hold_the_parts(
    ctx: TurnView,
    parsed: Result<SendMessageArgs, String>,
    i: int,
    key: Seq<char>,
)
    requires
        outgoing(ctx, parsed) is Ok,
        0 <= i < outgoing(ctx, parsed)->Ok_0.payloads.len(),
    ensures
        ({
            let sent = outgoing(ctx, parsed)->Ok_0;
            let parts = chunks(parsed->Ok_0.content@, 2000);
            &&& sent.payloads.len() == parts.len()
            &&& member(sent.payloads[i], "content"@) == Some(Json::Str(parts[i]))
            &&& key != "content"@ && key != "message_reference"@ ==> member(
                sent.payloads[i],
                key,
            ) is None
        }),
{
    lemma_payload_keys();
}

/// When a session may speak: its turn is no maintenance turn, its channel is
/// one, its arguments could be read, and there is something other than white
/// space to say; else it is told which of these was missing, the first of them.
pub proof fn speech_needs_words(
    ctx: TurnView,
    parsed: Result<SendMessageArgs, String>,
    channel: u64,
)
    requires
        ctx.channel_id == decimal(channel as nat),
        channel > 0,
        !ctx.maintenance,
    ensures
        parsed matches Err(e) ==> outgoing(ctx, parsed) == Err::<OutgoingView, Seq<char>>(
            "bad send_message arguments: "@ + e@,
        ),
        parsed matches Ok(a) ==> {
            let blank = forall|i: int|
                0 <= i < a.content@.len() ==> text::is_white(#[trigger] a.content@[i]);
            &&& blank ==> outgoing(ctx, parsed) == Err::<OutgoingView, Seq<char>>(
                "missing or empty 'content'"@,
            )
            &&& !blank ==> outgoing(ctx, parsed) is Ok && outgoing(ctx, parsed)->Ok_0.channel
                == channel
        },
{
    lemma_own_id(channel);
    lemma_bad_args();
    if parsed is Ok {
        text::blank_iff_all_white(parsed->Ok_0.content@);
    }
}

/// The ids of what was sent are handed out in the order of sending.
pub proof fn sent_ids_keep_their_order(ids: Seq<u64>, i: int)
    ensures
        id_texts(ids).len() == ids.len(),
        0 <= i < ids.len() ==> id_texts(ids)[i] == decimal(ids[i] as nat),
        0 <= i < ids.len() ==> strs(id_texts(ids))[i] == Json::Str(decimal(ids[i] as nat)),
        strs(id_texts(ids)).len() == ids.len(),
{
}

/// What a session reacts to: the message it names, in its own channel, with the
/// emoji it names, where that is one; else it is told what was wrong, the first
/// of a maintenance turn, the channel, the arguments, the message and the emoji.
pub proof fn reactions_are_asked_for(
    ctx: TurnView,
    parsed: Result<AddReactionArgs, String>,
    channel: u64,
    message: u64,
)
    requires
        ctx.channel_id == decimal(channel as nat),
        channel > 0,
        !ctx.maintenance,
    ensures
        parsed matches Err(e) ==> reaction_request(ctx, parsed, args_refusal(parsed)) == Err::<
            ReactionView,
            Seq<char>,
        >("bad add_reaction arguments: "@ + e@),
        parsed matches Ok(a) ==> {
            let asked = reaction_request(ctx, parsed, args_refusal(parsed));
            let known = a.message_id@ == decimal(message as nat) && message > 0;
            &&& parsed_id(a.message_id@) is None ==> asked == Err::<ReactionView, Seq<char>>(
                "bad Discord id: "@ + debug_text(a.message_id@),
            )
            &&& known && is_reaction(a.emoji@) ==> (asked matches Ok(r) && r.channel == channel
                && r.message == message && r.emoji == a.emoji@)
            &&& known && !is_reaction(a.emoji@) ==> asked == Err::<ReactionView, Seq<char>>(
                "bad emoji "@ + debug_text(a.emoji@) + ": "@ + NO_REACTION@,
            )
        },
{
    lemma_own_id(channel);
    lemma_own_id(message);
    lemma_bad_args();
}

/// A session sees the channels of its server that can be written in, with their
/// ids and names, in the order in which they came, and no others.
pub proof fn text_channels_are_listed(fetched: Seq<ChannelInfo>) -> (places: Seq<int>)
    ensures
        places.len() == listed_channels(fetched).len(),
        forall|i: int|
            0 <= i < places.len() ==> {
                &&& 0 <= #[trigger] places[i] < fetched.len()
                &&& fetched[places[i]].kind != ChannelKind::Other
                &&& member(listed_channels(fetched)[i], "id"@) == Some(
                    Json::Str(decimal(fetched[places[i]].id as nat)),
                )
                &&& member(listed_channels(fetched)[i], "name"@) == Some(
                    Json::Str(fetched[places[i]].name@),
                )
            },
        forall|i: int, j: int|
            0 <= i < j < places.len() ==> #[trigger] places[i] < #[trigger] places[j],
        forall|k: int|
            0 <= k < fetched.len() && (#[trigger] fetched[k]).kind != ChannelKind::Other
                ==> places.contains(k),
{
    reveal_strlit("id");
    reveal_strlit("name");
    assert("id"@.len() != "name"@.len());
    let p = text_channels();
    let places = lemma_filter_places(fetched, p);
    assert forall|k: int|
        0 <= k < fetched.len() && (#[trigger] fetched[k]).kind
            != ChannelKind::Other implies places.contains(k) by {
        assert(p(fetched[k]));
    }
    assert forall|i: int| 0 <= i < places.len() implies {
        &&& 0 <= #[trigger] places[i] < fetched.len()
        &&& fetched[places[i]].kind != ChannelKind::Other
        &&& member(listed_channels(fetched)[i], "id"@) == Some(
            Json::Str(decimal(fetched[places[i]].id as nat)),
        )
        &&& member(listed_channels(fetched)[i], "name"@) == Some(
            Json::Str(fetched[places[i]].name@),
        )
    } by {
        assert(p(fetched[places[i]]));
        assert(listed_channels(fetched)[i] == channel_json()(fetched.filter(p)[i]));
    }
    places
}

/// A persona is written as it is given, to the file of the session's scope,
/// where it holds something other than white space.
pub proof fn personas_are_written_whole(ctx: TurnView, parsed: Result<SetPersonaArgs, String>)
    ensures
        parsed matches Err(e) ==> persona_edit(ctx, parsed) == Err::<PersonaEditView, Seq<char>>(
            "bad set_persona arguments: "@ + e@,
        ),
        parsed matches Ok(a) ==> {
            let blank = forall|i: int|
                0 <= i < a.content@.len() ==> text::is_white(#[trigger] a.content@[i]);
            &&& blank ==> persona_edit(ctx, parsed) == Err::<PersonaEditView, Seq<char>>(
                NO_PERSONA@,
            )
            &&& !blank ==> (persona_edit(ctx, parsed) matches Ok(e) && e.file == persona_file(
                ctx.scope,
            ) && e.content == a.content@)
        },
{
    lemma_bad_args();
    if parsed is Ok {
        text::blank_iff_all_white(parsed->Ok_0.content@);
    }
}

/// Who is answered is read as it is written: `all` is everyone, `mentions` is
/// those who mention the bot, and nothing else is a setting.
pub proof fn respond_to_is_read_as_written(r: RespondTo, text: Seq<char>)
    ensures
        respond_name(RespondTo::All) == "all"@,
        respond_name(RespondTo::Mentions) == "mentions"@,
        parsed_respond_to(respond_name(r)) == Some(r),
        parsed_respond_to("all"@) == Some(RespondTo::All),
        parsed_respond_to("mentions"@) == Some(RespondTo::Mentions),
        parsed_respond_to(text) == Some(r) ==> text == respond_name(r),
        text != "all"@ && text != "mentions"@ ==> parsed_respond_to(text) is None,
{
    reveal_strlit("all");
    reveal_strlit("mentions");
    assert("all"@.len() != "mentions"@.len());
}

/// A change of behavior sets what it names and leaves the rest: the settings are
/// independent of each other. It is refused only where it names a setting of who
/// is answered that there is not.
pub proof fn behavior_changes_what_it_names(b: BehaviorView, a: SetBehaviorArgs)
    ensures
        amended(b, a) is None <==> (a.respond_to matches Some(r) && r@ != "all"@ && r@
            != "mentions"@),
        amended(b, a) matches Some(c) ==> {
            &&& (a.respond_to matches Some(r) && r@ == "all"@) ==> c.respond_to == RespondTo::All
            &&& (a.respond_to matches Some(r) && r@ == "mentions"@) ==> c.respond_to
                == RespondTo::Mentions
            &&& a.respond_to is None ==> c.respond_to == b.respond_to
            &&& a.idle_wake_minutes matches Some(n) ==> c.idle_wake_minutes == n
            &&& a.idle_wake_minutes is None ==> c.idle_wake_minutes == b.idle_wake_minutes
            &&& a.watched_channels matches Some(w) ==> c.watched_channels == texts(w@)
            &&& a.watched_channels is None ==> c.watched_channels == b.watched_channels
        },
{
    respond_to_is_read_as_written(RespondTo::All, "all"@);
}

/// A setting holds from then on in the session's scope, and in no other: after
/// `all` everyone is answered, after `mentions` those who mention the bot, and
/// after anything else nothing has changed at all.
pub proof fn answering_is_set(s: SharedView, scope: Scope, a: SetBehaviorArgs, other: Scope)
    ensures
        ({
            let t = behavior_set(s, scope, a);
            let b = behavior_of(t.behaviors, scope);
            &&& (a.respond_to matches Some(r) && r@ == "all"@) ==> b.respond_to == RespondTo::All
            &&& (a.respond_to matches Some(r) && r@ == "mentions"@) ==> b.respond_to
                == RespondTo::Mentions
            &&& a.respond_to is None ==> b.respond_to == behavior_of(
                s.behaviors,
                scope,
            ).respond_to
            &&& (a.respond_to matches Some(r) && r@ != "all"@ && r@ != "mentions"@) ==> t == s
            &&& other != scope ==> behavior_of(t.behaviors, other) == behavior_of(
                s.behaviors,
                other,
            )
            &&& t == (SharedView { behaviors: t.behaviors, ..s })
        }),
{
    respond_to_is_read_as_written(RespondTo::All, "all"@);
}

/// The reply to a change of behavior shows what holds now.
pub proof fn behavior_reply_shows_it(b: BehaviorView, note: Seq<char>)
    ensures
        member(behavior_reply(b), "ok"@) == Some(Json::Bool(true)),
        member(behavior_reply(b), "behavior"@) == Some(behavior_json(b)),
        member(behavior_reply(b), "note"@) == Some(
            Json::Str("in effect immediately, this scope only"@),
        ),
        member(ok_note(note), "ok"@) == Some(Json::Bool(true)),
        member(ok_note(note), "note"@) == Some(Json::Str(note)),
{
    reveal_strlit("ok");
    reveal_strlit("behavior");
    reveal_strlit("note");
    assert("ok"@.len() == 2 && "behavior"@.len() == 8 && "note"@.len() == 4);
}

/// What consent a session is shown: its own server's record, and an empty one
/// where its scope is none.
pub proof fn consent_shown_is_the_servers(s: SharedView, g: u64, ch: u64)
    ensures
        scope_consent(s, Scope::Guild(g)) == guild_of(s.consent, g),
        scope_consent(s, Scope::Dm(ch)).opted_users == Map::<Seq<char>, Seq<char>>::empty(),
        scope_consent(s, Scope::Dm(ch)).active_channels == Set::<Seq<char>>::empty(),
        scope_consent(s, Scope::Dm(ch)).grandfathered == Set::<Seq<char>>::empty(),
        scope_consent(s, Scope::Dm(ch)).consent_post is None,
{
}

/// Leaving a channel touches nothing but that channel: the people and the post
/// of its server, the other servers, the messages of other channels in their
/// order, and all that has nothing to do with it stay as they were.
pub proof fn leaving_leaves_the_rest(
    s: SharedView,
    scope: Scope,
    g: u64,
    ch: Seq<char>,
    e: MsgEvent,
    other: u64,
)
    requires
        scope == Scope::Guild(g),
        other != g,
    ensures
        ({
            let t = channel_left(s, scope, ch);
            let before = guild_of(s.consent, g);
            let after = guild_of(t.consent, g);
            &&& after.active_channels == before.active_channels.remove(ch)
            &&& after.opted_users == before.opted_users
            &&& after.consent_post == before.consent_post
            &&& after.grandfathered == before.grandfathered
            &&& guild_of(t.consent, other) == guild_of(s.consent, other)
            &&& t.buffer.ring.contains(e) <==> s.buffer.ring.contains(e) && e.channel_id@ != ch
            &&& t.buffer.delivered == s.buffer.delivered && t.buffer.next_seq == s.buffer.next_seq
            &&& t.sessions == s.sessions.remove(ch)
            &&& t.scrub_gen == (s.scrub_gen + 1) % 0x1_0000_0000_0000_0000
            &&& t == (SharedView {
                consent: t.consent,
                sessions: t.sessions,
                scrub_gen: t.scrub_gen,
                buffer: t.buffer,
                ..s
            })
        }),
{
    crate::buffer::purge_channel_is_exact(s.buffer, ch, e);
    crate::state::drops_change_nothing_else(s, scope, ch, ch);
}

/// A turn whose channel is no id reaches nothing: it is told so, before anything
/// is said of what it wants to send or react to.
pub proof fn nothing_is_done_without_a_channel(
    ctx: TurnView,
    read: ReadMessagesArgs,
    said: Result<SendMessageArgs, String>,
    reaction: Result<AddReactionArgs, String>,
)
    requires
        parsed_id(ctx.channel_id) is None,
        !ctx.maintenance,
    ensures
        ({
            let told = "bad Discord id: "@ + debug_text(ctx.channel_id);
            &&& history_request(ctx, Ok(read)) == Err::<HistoryRequest, Seq<char>>(told)
            &&& outgoing(ctx, said) == Err::<OutgoingView, Seq<char>>(told)
            &&& reaction_request(ctx, reaction, args_refusal(reaction)) == Err::<
                ReactionView,
                Seq<char>,
            >(told)
        }),
{
}

proof fn lemma_behind_colon(name: Seq<char>, rest: Seq<char>)
    requires
        forall|i: int| 0 <= i < name.len() ==> #[trigger] name[i] != ':',
    ensures
        behind_colon(name + seq![':'] + rest) == Some(rest),
    decreases name.len(),
{
    let s = name + seq![':'] + rest;
    if name.len() == 0 {
        assert(s.drop_first() =~= rest);
    } else {
        let t = name.drop_first();
        assert(forall|i: int| 0 <= i < t.len() ==> t[i] == name[i + 1]);
        assert(s[0] == name[0]);
        assert(s.drop_first() =~= t + seq![':'] + rest);
        lemma_behind_colon(t, rest);
    }
}

proof fn lemma_before_colon(s: Seq<char>)
    requires
        forall|i: int| 0 <= i < s.len() ==> #[trigger] s[i] != ':',
    ensures
        before_colon(s) == s,
    decreases s.len(),
{
    if s.len() > 0 {
        let t = s.drop_first();
        assert(forall|i: int| 0 <= i < t.len() ==> t[i] == s[i + 1]);
        assert(s[0] != ':');
        lemma_before_colon(t);
        assert(seq![s[0]] + t =~= s);
    }
}

/// Emoji: any text that does not begin with an angle bracket, but not an empty
/// one; and a custom one as Discord writes it, `<`, a mark that may be empty,
/// its name and its id between colons, `>`. A bracket that is not closed makes
/// none.
pub proof fn custom_emoji_are_taken(mark: Seq<char>, name: Seq<char>, n: u64, text: Seq<char>)
    requires
        forall|i: int| 0 <= i < mark.len() ==> #[trigger] mark[i] != ':' && mark[i] != '<'
            && mark[i] != '>',
        forall|i: int| 0 <= i < name.len() ==> #[trigger] name[i] != ':',
        n > 0,
    ensures
        ({
            let custom = seq!['<'] + mark + seq![':'] + name + seq![':'] + decimal(n as nat) + seq![
                '>',
            ];
            is_reaction(custom) && custom_emoji_id(custom) == Some(n)
        }),
        text.len() > 0 && text[0] != '<' ==> is_reaction(text),
        !is_reaction(Seq::empty()),
        text.len() > 0 && text[0] == '<' && text.last() != '>' ==> !is_reaction(text),
{
    let d = decimal(n as nat);
    let core = mark + seq![':'] + name + seq![':'] + d;
    let custom = seq!['<'] + mark + seq![':'] + name + seq![':'] + d + seq!['>'];
    text::numerals_have_no_leading_zeros(n as nat, 0);
    text::numerals_have_no_leading_zeros(n as nat, d.len() - 1);
    assert(custom.drop_first() =~= core + seq!['>']);
    assert((core + seq!['>']).drop_last() =~= core);
    assert(core.last() == d.last());
    if mark.len() > 0 {
        assert(core[0] == mark[0]);
    } else {
        assert(core[0] == ':');
    }
    assert(core[0] != '<' && core[0] != '>');
    assert((core + seq!['>'])[0] == core[0]);
    reveal_with_fuel(unbracketed, 4);
    assert(unbracketed(core) == core);
    assert(unbracketed(core + seq!['>']) == core);
    assert(unbracketed(custom) == core);
    let rest = name + seq![':'] + d;
    assert(core =~= mark + seq![':'] + rest);
    lemma_behind_colon(mark, rest);
    lemma_behind_colon(name, d);
    assert forall|i: int| 0 <= i < d.len() implies #[trigger] d[i] != ':' by {
        text::numerals_have_no_leading_zeros(n as nat, i);
    }
    lemma_before_colon(d);
    text::decimal_round_trip(n);
}

/// What is handed out stands under one member, in its order.
pub proof fn messages_are_handed_out(items: Seq<Json>, key: Seq<char>)
    ensures
        member(messages_json(items), "messages"@) == Some(Json::Array(items)),
        key != "messages"@ ==> member(messages_json(items), key) is None,
{
}

} // verus!
