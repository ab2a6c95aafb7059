//! What a session is told of the tools: their names, what they do and which
//! arguments they take.

use serde_json::Value;
use vstd::prelude::*;

use crate::json;
use crate::json::{docs, having, json_of, member, obj, strs, text_member, Json};
use crate::text::texts;
use crate::tools::tool_of;

verus! {

/// An argument of some type.
pub open spec fn typed(kind: Seq<char>) -> Json {
    having(obj(), "type"@, Json::Str(kind))
}

fn typed_value(kind: &str) -> (v: Value)
    ensures
        json_of(v) == typed(kind@),
{
    json::with_text(json::object(), "type", kind)
}

/// An argument of some type, with a description.
pub open spec fn described(kind: Seq<char>, description: Seq<char>) -> Json {
    having(typed(kind), "description"@, Json::Str(description))
}

fn described_value(kind: &str, description: &str) -> (v: Value)
    ensures
        json_of(v) == described(kind@, description@),
{
    json::with_text(typed_value(kind), "description", description)
}

/// The arguments of a tool, some of them required.
pub open spec fn schema(required: Seq<Seq<char>>, properties: Json) -> Json {
    having(
        having(typed("object"@), "required"@, Json::Array(strs(required))),
        "properties"@,
        properties,
    )
}

fn schema_value(required: &Vec<String>, properties: Value) -> (v: Value)
    ensures
        json_of(v) == schema(texts(required@), json_of(properties)),
{
    let v = json::with(typed_value("object"), "required", json::text_array(required));
    json::with(v, "properties", properties)
}

/// One tool.
pub open spec fn definition(name: Seq<char>, description: Seq<char>, input: Json) -> Json {
    having(
        having(having(obj(), "name"@, Json::Str(name)), "description"@, Json::Str(description)),
        "inputSchema"@,
        input,
    )
}

fn definition_value(name: &str, description: &str, input: Value) -> (v: Value)
    ensures
        json_of(v) == definition(name@, description@, json_of(input)),
{
    let v = json::with_text(json::object(), "name", name);
    let v = json::with_text(v, "description", description);
    json::with(v, "inputSchema", input)
}

pub const TOKEN_HELP: &'static str = "Your session token, from your wake prompt.";

/// The argument that every tool requires.
pub open spec fn token_only() -> Json {
    having(obj(), "token"@, described("string"@, TOKEN_HELP@))
}

fn token_value() -> (v: Value)
    ensures
        json_of(v) == token_only(),
{
    json::with(json::object(), "token", described_value("string", TOKEN_HELP))
}

fn names1(a: &str) -> (v: Vec<String>)
    ensures
        texts(v@) == seq![a@],
{
    let mut v: Vec<String> = Vec::new();
    v.push(a.to_owned());
    assert(texts(v@) =~= seq![a@]);
    v
}

fn names2(a: &str, b: &str) -> (v: Vec<String>)
    ensures
        texts(v@) == seq![a@, b@],
{
    let mut v = names1(a);
    let ghost before = v@;
    v.push(b.to_owned());
    assert(texts(v@) =~= texts(before).push(b@));
    assert(texts(v@) =~= seq![a@, b@]);
    v
}

fn names3(a: &str, b: &str, c: &str) -> (v: Vec<String>)
    ensures
        texts(v@) == seq![a@, b@, c@],
{
    let mut v = names2(a, b);
    let ghost before = v@;
    v.push(c.to_owned());
    assert(texts(v@) =~= texts(before).push(c@));
    assert(texts(v@) =~= seq![a@, b@, c@]);
    v
}

pub const WAIT_FOR_MESSAGES_HELP: &'static str =
    "Block until new messages arrive in your channel (or the timeout passes), and return them. This is how you listen: call it to linger in an active conversation. An empty result means things are quiet — usually a good moment to end your turn.";

pub open spec fn wait_for_messages_args() -> Json {
    let p0 = token_only();
    let p1 = having(p0, "timeout_seconds"@, described("number"@, "How long to wait before giving up (default 240, max 480)."@));
    p1
}

pub open spec fn wait_for_messages_doc() -> Json {
    definition("wait_for_messages"@, WAIT_FOR_MESSAGES_HELP@, schema(seq!["token"@], wait_for_messages_args()))
}

fn wait_for_messages_value() -> (v: Value)
    ensures
        json_of(v) == wait_for_messages_doc(),
{
    let p = token_value();
    let p = json::with(p, "timeout_seconds", described_value("number", "How long to wait before giving up (default 240, max 480)."));
    definition_value("wait_for_messages", WAIT_FOR_MESSAGES_HELP, schema_value(&names1("token"), p))
}

pub const READ_MESSAGES_HELP: &'static str =
    "Fetch recent message history for your channel (oldest first). Only opted-in people's messages appear; anyone else's are absent entirely.";

pub open spec fn read_messages_args() -> Json {
    let p0 = token_only();
    let p1 = having(p0, "limit"@, described("number"@, "1-50, default 20."@));
    let p2 = having(p1, "before_message_id"@, described("string"@, "Page further back from this message id."@));
    p2
}

pub open spec fn read_messages_doc() -> Json {
    definition("read_messages"@, READ_MESSAGES_HELP@, schema(seq!["token"@], read_messages_args()))
}

fn read_messages_value() -> (v: Value)
    ensures
        json_of(v) == read_messages_doc(),
{
    let p = token_value();
    let p = json::with(p, "limit", described_value("number", "1-50, default 20."));
    let p = json::with(p, "before_message_id", described_value("string", "Page further back from this message id."));
    definition_value("read_messages", READ_MESSAGES_HELP, schema_value(&names1("token"), p))
}

pub const SEND_MESSAGE_HELP: &'static str =
    "Send a message to your channel. Content over 2000 chars is split into multiple messages. Returns the sent message id(s).";

pub open spec fn send_message_args() -> Json {
    let p0 = token_only();
    let p1 = having(p0, "content"@, typed("string"@));
    let p2 = having(p1, "reply_to_message_id"@, described("string"@, "Make this a reply to the given message."@));
    p2
}

pub open spec fn send_message_doc() -> Json {
    definition("send_message"@, SEND_MESSAGE_HELP@, schema(seq!["token"@, "content"@], send_message_args()))
}

fn send_message_value() -> (v: Value)
    ensures
        json_of(v) == send_message_doc(),
{
    let p = token_value();
    let p = json::with(p, "content", typed_value("string"));
    let p = json::with(p, "reply_to_message_id", described_value("string", "Make this a reply to the given message."));
    definition_value("send_message", SEND_MESSAGE_HELP, schema_value(&names2("token", "content"), p))
}

pub const ADD_REACTION_HELP: &'static str =
    "React to a message in your channel. Emoji is a unicode emoji (e.g. \"🔥\") or a custom emoji as \"name:id\".";

pub open spec fn add_reaction_args() -> Json {
    let p0 = token_only();
    let p1 = having(p0, "message_id"@, typed("string"@));
    let p2 = having(p1, "emoji"@, typed("string"@));
    p2
}

pub open spec fn add_reaction_doc() -> Json {
    definition("add_reaction"@, ADD_REACTION_HELP@, schema(seq!["token"@, "message_id"@, "emoji"@], add_reaction_args()))
}

fn add_reaction_value() -> (v: Value)
    ensures
        json_of(v) == add_reaction_doc(),
{
    let p = token_value();
    let p = json::with(p, "message_id", typed_value("string"));
    let p = json::with(p, "emoji", typed_value("string"));
    definition_value("add_reaction", ADD_REACTION_HELP, schema_value(&names3("token", "message_id", "emoji"), p))
}

pub const LIST_CHANNELS_HELP: &'static str =
    "List the text channels of your server: id and name of each.";

pub open spec fn list_channels_args() -> Json {
    token_only()
}

pub open spec fn list_channels_doc() -> Json {
    definition("list_channels"@, LIST_CHANNELS_HELP@, schema(seq!["token"@], list_channels_args()))
}

fn list_channels_value() -> (v: Value)
    ensures
        json_of(v) == list_channels_doc(),
{
    let p = token_value();
    definition_value("list_channels", LIST_CHANNELS_HELP, schema_value(&names1("token"), p))
}

pub const GET_PERSONA_HELP: &'static str =
    "Read your persona for this server (your self-editable identity and long-term memory here).";

pub open spec fn get_persona_args() -> Json {
    token_only()
}

pub open spec fn get_persona_doc() -> Json {
    definition("get_persona"@, GET_PERSONA_HELP@, schema(seq!["token"@], get_persona_args()))
}

fn get_persona_value() -> (v: Value)
    ensures
        json_of(v) == get_persona_doc(),
{
    let p = token_value();
    definition_value("get_persona", GET_PERSONA_HELP, schema_value(&names1("token"), p))
}

pub const SET_PERSONA_HELP: &'static str =
    "Replace your persona for this server, wholesale. It is your ONLY memory here. Saving it RESETS every session in this server (including this one) so the next wake starts fresh with the new persona — write down everything worth keeping.";

pub open spec fn set_persona_args() -> Json {
    let p0 = token_only();
    let p1 = having(p0, "content"@, described("string"@, "The full new persona markdown."@));
    p1
}

pub open spec fn set_persona_doc() -> Json {
    definition("set_persona"@, SET_PERSONA_HELP@, schema(seq!["token"@, "content"@], set_persona_args()))
}

fn set_persona_value() -> (v: Value)
    ensures
        json_of(v) == set_persona_doc(),
{
    let p = token_value();
    let p = json::with(p, "content", described_value("string", "The full new persona markdown."));
    definition_value("set_persona", SET_PERSONA_HELP, schema_value(&names2("token", "content"), p))
}

pub const GET_BEHAVIOR_HELP: &'static str =
    "Read this server's behavior settings: watched_channels, respond_to, idle_wake_minutes.";

pub open spec fn get_behavior_args() -> Json {
    token_only()
}

pub open spec fn get_behavior_doc() -> Json {
    definition("get_behavior"@, GET_BEHAVIOR_HELP@, schema(seq!["token"@], get_behavior_args()))
}

fn get_behavior_value() -> (v: Value)
    ensures
        json_of(v) == get_behavior_doc(),
{
    let p = token_value();
    definition_value("get_behavior", GET_BEHAVIOR_HELP, schema_value(&names1("token"), p))
}

pub const SET_BEHAVIOR_HELP: &'static str =
    "Adjust this server's behavior settings (effective immediately). watched_channels: channel ids to watch, empty = all inhabited. respond_to: \"mentions\" wakes you only for @mentions/DMs, \"all\" for any opted-in message. idle_wake_minutes: wake on a timer, 0 = off.";

pub open spec fn set_behavior_args() -> Json {
    let p0 = token_only();
    let p1 = having(p0, "watched_channels"@, having(typed("array"@), "items"@, typed("string"@)));
    let p2 = having(p1, "respond_to"@, having(typed("string"@), "enum"@, Json::Array(strs(seq!["mentions"@, "all"@]))));
    let p3 = having(p2, "idle_wake_minutes"@, typed("number"@));
    p3
}

pub open spec fn set_behavior_doc() -> Json {
    definition("set_behavior"@, SET_BEHAVIOR_HELP@, schema(seq!["token"@], set_behavior_args()))
}

fn set_behavior_value() -> (v: Value)
    ensures
        json_of(v) == set_behavior_doc(),
{
    let p = token_value();
    let p = json::with(p, "watched_channels", json::with(typed_value("array"), "items", typed_value("string")));
    let p = json::with(p, "respond_to", json::with(
        typed_value("string"),
        "enum",
        json::text_array(&names2("mentions", "all")),
    ));
    let p = json::with(p, "idle_wake_minutes", typed_value("number"));
    definition_value("set_behavior", SET_BEHAVIOR_HELP, schema_value(&names1("token"), p))
}

pub const GET_CONSENT_HELP: &'static str =
    "Read this server's consent state: inhabited channels, opted-in people, and the consent post.";

pub open spec fn get_consent_args() -> Json {
    token_only()
}

pub open spec fn get_consent_doc() -> Json {
    definition("get_consent"@, GET_CONSENT_HELP@, schema(seq!["token"@], get_consent_args()))
}

fn get_consent_value() -> (v: Value)
    ensures
        json_of(v) == get_consent_doc(),
{
    let p = token_value();
    definition_value("get_consent", GET_CONSENT_HELP, schema_value(&names1("token"), p))
}

pub const IGNORE_CHANNEL_HELP: &'static str =
    "Leave YOUR channel, at its request: it returns to dormant — you see nothing from it until an opted-in person @mentions you there again, and its session is dropped. Say any goodbye BEFORE calling this; afterwards, end your turn.";

pub open spec fn ignore_channel_args() -> Json {
    token_only()
}

pub open spec fn ignore_channel_doc() -> Json {
    definition("ignore_channel"@, IGNORE_CHANNEL_HELP@, schema(seq!["token"@], ignore_channel_args()))
}

fn ignore_channel_value() -> (v: Value)
    ensures
        json_of(v) == ignore_channel_doc(),
{
    let p = token_value();
    definition_value("ignore_channel", IGNORE_CHANNEL_HELP, schema_value(&names1("token"), p))
}

/// Every tool, as a session is told of it.
pub open spec fn catalog() -> Seq<Json> {
    seq![
        wait_for_messages_doc(),
        read_messages_doc(),
        send_message_doc(),
        add_reaction_doc(),
        list_channels_doc(),
        get_persona_doc(),
        set_persona_doc(),
        get_behavior_doc(),
        set_behavior_doc(),
        get_consent_doc(),
        ignore_channel_doc(),
    ]
}

/// Every tool, as a session is told of it.
pub fn definitions() -> (v: Value)
    ensures
        json_of(v) == Json::Array(catalog()),
{
    let mut out: Vec<Value> = Vec::new();
    out.push(wait_for_messages_value());
    out.push(read_messages_value());
    out.push(send_message_value());
    out.push(add_reaction_value());
    out.push(list_channels_value());
    out.push(get_persona_value());
    out.push(set_persona_value());
    out.push(get_behavior_value());
    out.push(set_behavior_value());
    out.push(get_consent_value());
    out.push(ignore_channel_value());
    assert(docs(out@) =~= catalog());
    json::array(out)
}

/// The arguments that a tool requires, in the words of its definition.
pub open spec fn requires_argument(doc: Json, arg: Seq<char>) -> bool {
    match member(doc, "inputSchema"@) {
        Some(input) => match member(input, "required"@) {
            Some(Json::Array(items)) => items.contains(Json::Str(arg)),
            _ => false,
        },
        None => false,
    }
}

proof fn lemma_definition(name: Seq<char>, description: Seq<char>, required: Seq<Seq<char>>, p: Json)
    requires
        required.len() > 0,
        required[0] == "token"@,
    ensures
        text_member(definition(name, description, schema(required, p)), "name"@) == Some(name),
        requires_argument(definition(name, description, schema(required, p)), "token"@),
{
    reveal_strlit("name");
    reveal_strlit("description");
    reveal_strlit("inputSchema");
    reveal_strlit("type");
    reveal_strlit("required");
    reveal_strlit("properties");
    assert("name"@.len() == 4 && "description"@.len() == 11 && "inputSchema"@.len() == 11);
    assert("description"@[0] == 'd' && "inputSchema"@[0] == 'i');
    assert("required"@.len() == 8 && "properties"@.len() == 10);
    assert(strs(required)[0] == Json::Str("token"@));
}

proof fn lemma_catalog(i: int)
    requires
        0 <= i < catalog().len(),
    ensures
        text_member(catalog()[i], "name"@) == Some(tool_names()[i]),
        requires_argument(catalog()[i], "token"@),
{
    lemma_definition("wait_for_messages"@, WAIT_FOR_MESSAGES_HELP@, seq!["token"@], wait_for_messages_args());
    lemma_definition("read_messages"@, READ_MESSAGES_HELP@, seq!["token"@], read_messages_args());
    lemma_definition("send_message"@, SEND_MESSAGE_HELP@, seq!["token"@, "content"@], send_message_args());
    lemma_definition("add_reaction"@, ADD_REACTION_HELP@, seq!["token"@, "message_id"@, "emoji"@], add_reaction_args());
    lemma_definition("list_channels"@, LIST_CHANNELS_HELP@, seq!["token"@], list_channels_args());
    lemma_definition("get_persona"@, GET_PERSONA_HELP@, seq!["token"@], get_persona_args());
    lemma_definition("set_persona"@, SET_PERSONA_HELP@, seq!["token"@, "content"@], set_persona_args());
    lemma_definition("get_behavior"@, GET_BEHAVIOR_HELP@, seq!["token"@], get_behavior_args());
    lemma_definition("set_behavior"@, SET_BEHAVIOR_HELP@, seq!["token"@], set_behavior_args());
    lemma_definition("get_consent"@, GET_CONSENT_HELP@, seq!["token"@], get_consent_args());
    lemma_definition("ignore_channel"@, IGNORE_CHANNEL_HELP@, seq!["token"@], ignore_channel_args());
}

/// The names of the tools, in the order of the catalog.
pub open spec fn tool_names() -> Seq<Seq<char>> {
    seq![
        "wait_for_messages"@,
        "read_messages"@,
        "send_message"@,
        "add_reaction"@,
        "list_channels"@,
        "get_persona"@,
        "set_persona"@,
        "get_behavior"@,
        "set_behavior"@,
        "get_consent"@,
        "ignore_channel"@,
    ]
}

/// The catalog and the dispatcher agree: every tool that a session is told of
/// can be called and requires the session token, and every tool that can be
/// called is one that a session is told of.
pub proof fn catalog_matches_dispatch(i: int, name: Seq<char>)
    requires
        0 <= i < catalog().len(),
    ensures
        text_member(catalog()[i], "name"@) matches Some(n) && tool_of(n) is Some,
        requires_argument(catalog()[i], "token"@),
        tool_of(name) is Some ==> exists|j: int|
            0 <= j < catalog().len() && text_member(#[trigger] catalog()[j], "name"@) == Some(name),
{
    lemma_catalog(i);
    if tool_of(name) is Some {
        let j = choose|j: int| 0 <= j < tool_names().len() && tool_names()[j] == name;
        assert(tool_names().contains(name)) by {
            assert(tool_names()[0] == "wait_for_messages"@);
            assert(tool_names()[1] == "read_messages"@);
            assert(tool_names()[2] == "send_message"@);
            assert(tool_names()[3] == "add_reaction"@);
            assert(tool_names()[4] == "list_channels"@);
            assert(tool_names()[5] == "get_persona"@);
            assert(tool_names()[6] == "set_persona"@);
            assert(tool_names()[7] == "get_behavior"@);
            assert(tool_names()[8] == "set_behavior"@);
            assert(tool_names()[9] == "get_consent"@);
            assert(tool_names()[10] == "ignore_channel"@);
        }
        lemma_catalog(j);
    }
}

/// No two tools have the same name.
pub proof fn tool_names_are_distinct()
    ensures
        tool_names().no_duplicates(),
{
    reveal_strlit("wait_for_messages");
    reveal_strlit("read_messages");
    reveal_strlit("send_message");
    reveal_strlit("add_reaction");
    reveal_strlit("list_channels");
    reveal_strlit("get_persona");
    reveal_strlit("set_persona");
    reveal_strlit("get_behavior");
    reveal_strlit("set_behavior");
    reveal_strlit("get_consent");
    reveal_strlit("ignore_channel");
    let n = tool_names();
    assert forall|i: int, j: int| 0 <= i < j < n.len() implies n[i].len() != n[j].len() || n[i][0]
        != n[j][0] || n[i][2] != n[j][2] || n[i][4] != n[j][4] by {}
}

/// The type of an argument, in the words of a tool's definition.
pub open spec fn argument_type(doc: Json, arg: Seq<char>) -> Option<Seq<char>> {
    match member(doc, "inputSchema"@) {
        Some(input) => match member(input, "properties"@) {
            Some(properties) => match member(properties, arg) {
                Some(a) => text_member(a, "type"@),
                None => None,
            },
            None => None,
        },
        None => None,
    }
}

proof fn lemma_argument(
    name: Seq<char>,
    description: Seq<char>,
    required: Seq<Seq<char>>,
    p: Json,
    arg: Seq<char>,
    kind: Seq<char>,
    help: Seq<char>,
)
    ensures
        ({
            let doc = definition(name, description, schema(required, p));
            &&& member(p, arg) == Some(typed(kind)) || member(p, arg) == Some(
                described(kind, help),
            ) ==> argument_type(doc, arg) == Some(kind)
            &&& member(p, arg) is None ==> argument_type(doc, arg) is None
            &&& requires_argument(doc, arg) <==> required.contains(arg)
        }),
{
    reveal_strlit("name");
    reveal_strlit("description");
    reveal_strlit("inputSchema");
    reveal_strlit("type");
    reveal_strlit("required");
    reveal_strlit("properties");
    assert("name"@.len() == 4 && "description"@.len() == 11 && "inputSchema"@.len() == 11);
    assert("description"@[0] == 'd' && "inputSchema"@[0] == 'i' && "type"@.len() == 4);
    assert("required"@.len() == 8 && "properties"@.len() == 10);
    let items = strs(required);
    if required.contains(arg) {
        let i = choose|i: int| 0 <= i < required.len() && required[i] == arg;
        assert(items[i] == Json::Str(arg));
    }
    if items.contains(Json::Str(arg)) {
        let i = choose|i: int| 0 <= i < items.len() && items[i] == Json::Str(arg);
        assert(required[i] == arg);
    }
}

proof fn lemma_argument_names()
    ensures
        seq![
            "token"@,
            "timeout_seconds"@,
            "limit"@,
            "before_message_id"@,
            "content"@,
            "reply_to_message_id"@,
            "message_id"@,
            "emoji"@,
            "watched_channels"@,
            "respond_to"@,
            "idle_wake_minutes"@,
        ].no_duplicates(),
{
    reveal_strlit("token");
    reveal_strlit("timeout_seconds");
    reveal_strlit("limit");
    reveal_strlit("before_message_id");
    reveal_strlit("content");
    reveal_strlit("reply_to_message_id");
    reveal_strlit("message_id");
    reveal_strlit("emoji");
    reveal_strlit("watched_channels");
    reveal_strlit("respond_to");
    reveal_strlit("idle_wake_minutes");
    let n = seq![
        "token"@,
        "timeout_seconds"@,
        "limit"@,
        "before_message_id"@,
        "content"@,
        "reply_to_message_id"@,
        "message_id"@,
        "emoji"@,
        "watched_channels"@,
        "respond_to"@,
        "idle_wake_minutes"@,
    ];
    assert forall|i: int, j: int| 0 <= i < j < n.len() implies n[i].len() != n[j].len() || n[i][0]
        != n[j][0] by {}
}

/// What the tools take: every one the session's token, which it requires, and
/// beyond that to listen how long; to read back how much and from where; to
/// speak what, which it requires, and in reply to what; to react to what and
/// with what, both required; and to rewrite the persona what, required too.
pub proof fn tools_take_their_arguments(i: int)
    requires
        0 <= i < catalog().len(),
    ensures
        catalog().len() == tool_names().len(),
        text_member(catalog()[i], "name"@) == Some(tool_names()[i]),
        argument_type(catalog()[i], "token"@) == Some("string"@),
        requires_argument(catalog()[i], "token"@),
        argument_type(catalog()[0], "timeout_seconds"@) == Some("number"@),
        !requires_argument(catalog()[0], "timeout_seconds"@),
        argument_type(catalog()[1], "limit"@) == Some("number"@),
        !requires_argument(catalog()[1], "limit"@),
        argument_type(catalog()[1], "before_message_id"@) == Some("string"@),
        !requires_argument(catalog()[1], "before_message_id"@),
        argument_type(catalog()[2], "content"@) == Some("string"@),
        requires_argument(catalog()[2], "content"@),
        argument_type(catalog()[2], "reply_to_message_id"@) == Some("string"@),
        !requires_argument(catalog()[2], "reply_to_message_id"@),
        argument_type(catalog()[3], "message_id"@) == Some("string"@),
        requires_argument(catalog()[3], "message_id"@),
        argument_type(catalog()[3], "emoji"@) == Some("string"@),
        requires_argument(catalog()[3], "emoji"@),
        argument_type(catalog()[6], "content"@) == Some("string"@),
        requires_argument(catalog()[6], "content"@),
{
    let n = seq![
        "token"@,
        "timeout_seconds"@,
        "limit"@,
        "before_message_id"@,
        "content"@,
        "reply_to_message_id"@,
        "message_id"@,
        "emoji"@,
        "watched_channels"@,
        "respond_to"@,
        "idle_wake_minutes"@,
    ];
    lemma_argument_names();
    lemma_catalog(i);
    assert(n[0] == "token"@ && n[1] == "timeout_seconds"@ && n[2] == "limit"@ && n[3]
        == "before_message_id"@ && n[4] == "content"@ && n[5] == "reply_to_message_id"@ && n[6]
        == "message_id"@ && n[7] == "emoji"@ && n[8] == "watched_channels"@ && n[9]
        == "respond_to"@ && n[10] == "idle_wake_minutes"@);
    let one = seq!["token"@];
    let two = seq!["token"@, "content"@];
    let three = seq!["token"@, "message_id"@, "emoji"@];
    assert(one[0] == "token"@ && two[0] == "token"@ && two[1] == "content"@ && three[0]
        == "token"@ && three[1] == "message_id"@ && three[2] == "emoji"@);
    let t = "token"@;
    let (s, m) = ("string"@, "number"@);
    let h = TOKEN_HELP@;
    lemma_argument("wait_for_messages"@, WAIT_FOR_MESSAGES_HELP@, one, wait_for_messages_args(), t, s, h);
    lemma_argument("read_messages"@, READ_MESSAGES_HELP@, one, read_messages_args(), t, s, h);
    lemma_argument("send_message"@, SEND_MESSAGE_HELP@, two, send_message_args(), t, s, h);
    lemma_argument("add_reaction"@, ADD_REACTION_HELP@, three, add_reaction_args(), t, s, h);
    lemma_argument("list_channels"@, LIST_CHANNELS_HELP@, one, list_channels_args(), t, s, h);
    lemma_argument("get_persona"@, GET_PERSONA_HELP@, one, get_persona_args(), t, s, h);
    lemma_argument("set_persona"@, SET_PERSONA_HELP@, two, set_persona_args(), t, s, h);
    lemma_argument("get_behavior"@, GET_BEHAVIOR_HELP@, one, get_behavior_args(), t, s, h);
    lemma_argument("set_behavior"@, SET_BEHAVIOR_HELP@, one, set_behavior_args(), t, s, h);
    lemma_argument("get_consent"@, GET_CONSENT_HELP@, one, get_consent_args(), t, s, h);
    lemma_argument("ignore_channel"@, IGNORE_CHANNEL_HELP@, one, ignore_channel_args(), t, s, h);
    lemma_argument(
        "wait_for_messages"@,
        WAIT_FOR_MESSAGES_HELP@,
        one,
        wait_for_messages_args(),
        n[1],
        m,
        "How long to wait before giving up (default 240, max 480)."@,
    );
    lemma_argument(
        "read_messages"@,
        READ_MESSAGES_HELP@,
        one,
        read_messages_args(),
        n[2],
        m,
        "1-50, default 20."@,
    );
    lemma_argument(
        "read_messages"@,
        READ_MESSAGES_HELP@,
        one,
        read_messages_args(),
        n[3],
        s,
        "Page further back from this message id."@,
    );
    lemma_argument("send_message"@, SEND_MESSAGE_HELP@, two, send_message_args(), n[4], s, h);
    lemma_argument(
        "send_message"@,
        SEND_MESSAGE_HELP@,
        two,
        send_message_args(),
        n[5],
        s,
        "Make this a reply to the given message."@,
    );
    lemma_argument("add_reaction"@, ADD_REACTION_HELP@, three, add_reaction_args(), n[6], s, h);
    lemma_argument("add_reaction"@, ADD_REACTION_HELP@, three, add_reaction_args(), n[7], s, h);
    lemma_argument(
        "set_persona"@,
        SET_PERSONA_HELP@,
        two,
        set_persona_args(),
        n[4],
        s,
        "The full new persona markdown."@,
    );
}

/// The settings of who is answered that a session is told of are those that are
/// taken, and the other settings are told of by their types.
pub proof fn behavior_choices_are_told(text: Seq<char>)
    ensures
        ({
            let p = set_behavior_args();
            &&& member(p, "respond_to"@) matches Some(a) && (member(
                a,
                "enum"@,
            ) matches Some(Json::Array(items)) && (items.contains(Json::Str(text))
                <==> crate::tools::parsed_respond_to(text) is Some)) && text_member(a, "type"@)
                == Some("string"@)
            &&& member(p, "watched_channels"@) matches Some(a) && text_member(a, "type"@) == Some(
                "array"@,
            ) && (member(a, "items"@) matches Some(b) && text_member(b, "type"@) == Some(
                "string"@,
            ))
            &&& member(p, "idle_wake_minutes"@) matches Some(a) && text_member(a, "type"@) == Some(
                "number"@,
            )
        }),
{
    let n = seq![
        "token"@,
        "timeout_seconds"@,
        "limit"@,
        "before_message_id"@,
        "content"@,
        "reply_to_message_id"@,
        "message_id"@,
        "emoji"@,
        "watched_channels"@,
        "respond_to"@,
        "idle_wake_minutes"@,
    ];
    lemma_argument_names();
    assert(n[0] == "token"@ && n[8] == "watched_channels"@ && n[9] == "respond_to"@ && n[10]
        == "idle_wake_minutes"@);
    reveal_strlit("type");
    reveal_strlit("items");
    reveal_strlit("enum");
    assert("type"@.len() == 4 && "items"@.len() == 5 && "type"@[0] == 't' && "enum"@[0] == 'e');
    let items = strs(seq!["mentions"@, "all"@]);
    assert(items.len() == 2 && items[0] == Json::Str("mentions"@) && items[1] == Json::Str(
        "all"@,
    ));
}

} // verus!
