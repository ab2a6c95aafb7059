//! Localhost JSON-RPC shell for the tool server: the subset of MCP that the
//! sessions speak. The tools themselves are in tools.rs.

use serde_json::Value;
use vstd::prelude::*;

use crate::catalog;
use crate::catalog::catalog;
use crate::json;
use crate::json::{
    compact_json, docs, having, json_of, member, obj, pretty_json, text_member, Json,
};
use crate::text;
use crate::text::signed_decimal;
use crate::tools::{Error, ErrorView};

verus! {

/// What a request asks for.
pub enum Step {
    /// A notification: accept and drop.
    Accepted,
    /// The answer is this.
    Reply(Value),
    /// A tool is to be called first.
    Call { id: Value, name: String, args: Value },
}

pub enum StepView {
    Accepted,
    Reply(Json),
    Call { id: Json, name: Seq<char>, args: Json },
}

impl View for Step {
    type V = StepView;

    open spec fn view(&self) -> StepView {
        match self {
            Step::Accepted => StepView::Accepted,
            Step::Reply(v) => StepView::Reply(json_of(*v)),
            Step::Call { id, name, args } => StepView::Call {
                id: json_of(*id),
                name: name@,
                args: json_of(*args),
            },
        }
    }
}

/// The id of a request. A notification has none, or null.
pub open spec fn request_id(req: Json) -> Option<Json> {
    match member(req, "id"@) {
        Some(id) => if id == Json::Null {
            None
        } else {
            Some(id)
        },
        None => None,
    }
}

/// The method of a request, empty where it names none.
pub open spec fn method_of(req: Json) -> Seq<char> {
    match text_member(req, "method"@) {
        Some(m) => m,
        None => ""@,
    }
}

/// What every answer begins with.
pub open spec fn envelope(id: Json) -> Json {
    having(having(obj(), "jsonrpc"@, Json::Str("2.0"@)), "id"@, id)
}

/// The answer to a request that succeeded.
pub open spec fn result_reply(id: Json, result: Json) -> Json {
    having(envelope(id), "result"@, result)
}

/// The answer to a request that failed.
pub open spec fn error_reply(id: Json, code: int, message: Seq<char>) -> Json {
    having(
        envelope(id),
        "error"@,
        having(
            having(obj(), "code"@, Json::Number(signed_decimal(code))),
            "message"@,
            Json::Str(message),
        ),
    )
}

fn envelope_value(id: Value) -> (v: Value)
    ensures
        json_of(v) == envelope(json_of(id)),
{
    let v = json::with_text(json::object(), "jsonrpc", "2.0");
    json::with(v, "id", id)
}

fn result_value(id: Value, result: Value) -> (v: Value)
    ensures
        json_of(v) == result_reply(json_of(id), json_of(result)),
{
    json::with(envelope_value(id), "result", result)
}

fn error_value(id: Value, code: i64, message: &str) -> (v: Value)
    ensures
        json_of(v) == error_reply(json_of(id), code as int, message@),
{
    let e = json::with(json::object(), "code", json::signed(code));
    let e = json::with_text(e, "message", message);
    json::with(envelope_value(id), "error", e)
}

pub const NO_METHOD: i64 = -32601;

pub const BAD_PARAMS: i64 = -32602;

/// The version of the protocol that is spoken where a client names none.
pub const PROTOCOL: &'static str = "2025-06-18";

/// The protocol version that a client asks for.
pub open spec fn asked_version(req: Json) -> Json {
    match member(req, "params"@) {
        Some(params) => match member(params, "protocolVersion"@) {
            Some(v) => v,
            None => Json::Str(PROTOCOL@),
        },
        None => Json::Str(PROTOCOL@),
    }
}

/// What the server says of itself.
pub open spec fn introduction(req: Json, version: Seq<char>) -> Json {
    let a = having(obj(), "protocolVersion"@, asked_version(req));
    let b = having(a, "capabilities"@, having(obj(), "tools"@, obj()));
    having(
        b,
        "serverInfo"@,
        having(
            having(obj(), "name"@, Json::Str("bentham-discord"@)),
            "version"@,
            Json::Str(version),
        ),
    )
}

fn introduction_value(req: &Value, version: &str) -> (v: Value)
    ensures
        json_of(v) == introduction(json_of(*req), version@),
{
    let asked = match json::get(req, "params") {
        Some(params) => match json::get(params, "protocolVersion") {
            Some(v) => json::copy(v),
            None => json::string(PROTOCOL.to_owned()),
        },
        None => json::string(PROTOCOL.to_owned()),
    };
    let v = json::with(json::object(), "protocolVersion", asked);
    let v = json::with(
        v,
        "capabilities",
        json::with(json::object(), "tools", json::object()),
    );
    let info = json::with_text(json::object(), "name", "bentham-discord");
    let info = json::with_text(info, "version", version);
    json::with(v, "serverInfo", info)
}

/// The parameters of a request, an empty object where it has none.
pub open spec fn params_of(req: Json) -> Json {
    match member(req, "params"@) {
        Some(p) => p,
        None => obj(),
    }
}

/// What a tool call asks for.
pub open spec fn call_step(id: Json, params: Json) -> StepView {
    match text_member(params, "name"@) {
        None => StepView::Reply(error_reply(id, BAD_PARAMS as int, "missing tool name"@)),
        Some(name) => StepView::Call {
            id,
            name,
            args: match member(params, "arguments"@) {
                Some(a) => a,
                None => obj(),
            },
        },
    }
}

/// What a request asks for.
pub open spec fn handled(req: Json, version: Seq<char>) -> StepView {
    match request_id(req) {
        None => StepView::Accepted,
        Some(id) => {
            let method = method_of(req);
            if method == "initialize"@ {
                StepView::Reply(result_reply(id, introduction(req, version)))
            } else if method == "ping"@ {
                StepView::Reply(result_reply(id, obj()))
            } else if method == "tools/list"@ {
                StepView::Reply(
                    result_reply(id, having(obj(), "tools"@, Json::Array(catalog()))),
                )
            } else if method == "tools/call"@ {
                call_step(id, params_of(req))
            } else {
                StepView::Reply(
                    error_reply(id, NO_METHOD as int, "method not found: "@ + method),
                )
            }
        },
    }
}

fn call(id: Value, req: &Value) -> (step: Step)
    ensures
        step@ == call_step(json_of(id), params_of(json_of(*req))),
{
    let params = match json::get(req, "params") {
        Some(p) => json::copy(p),
        None => json::object(),
    };
    match json::get_text(&params, "name") {
        None => Step::Reply(error_value(id, BAD_PARAMS, "missing tool name")),
        Some(name) => {
            let args = match json::get(&params, "arguments") {
                Some(a) => json::copy(a),
                None => json::object(),
            };
            Step::Call { id, name: name.to_owned(), args }
        },
    }
}

/// What a request asks for, of a server of some version.
pub fn handle(req: &Value, version: &str) -> (step: Step)
    ensures
        step@ == handled(json_of(*req), version@),
{
    let id = match json::get(req, "id") {
        Some(v) => if v.is_null() {
            return Step::Accepted;
        } else {
            json::copy(v)
        },
        None => return Step::Accepted,
    };
    let method = match json::get_text(req, "method") {
        Some(m) => m,
        None => "",
    };
    if text::same(method, "initialize") {
        Step::Reply(result_value(id, introduction_value(req, version)))
    } else if text::same(method, "ping") {
        Step::Reply(result_value(id, json::object()))
    } else if text::same(method, "tools/list") {
        let list = json::with(json::object(), "tools", catalog::definitions());
        Step::Reply(result_value(id, list))
    } else if text::same(method, "tools/call") {
        call(id, req)
    } else {
        let message = text::join2("method not found: ", method);
        Step::Reply(error_value(id, NO_METHOD, message.as_str()))
    }
}

/// A piece of text for the session.
pub open spec fn text_content(shown: Seq<char>) -> Json {
    let item = having(having(obj(), "type"@, Json::Str("text"@)), "text"@, Json::Str(shown));
    having(obj(), "content"@, Json::Array(seq![item]))
}

/// A piece of text for the session.
pub fn text_result(shown: &str) -> (v: Value)
    ensures
        json_of(v) == text_content(shown@),
{
    let item = json::with_text(json::object(), "type", "text");
    let item = json::with_text(item, "text", shown);
    let ghost doc = json_of(item);
    let mut items: Vec<Value> = Vec::new();
    items.push(item);
    assert(docs(items@) =~= seq![doc]);
    json::with(json::object(), "content", json::array(items))
}

/// How a result is shown: spread over lines where that can be done.
pub open spec fn shown_text(result: Json) -> Seq<char> {
    match pretty_json(result) {
        Some(t) => t,
        None => compact_json(result),
    }
}

/// The answer to a tool call, given how its result is shown.
pub open spec fn call_reply(
    id: Json,
    name: Seq<char>,
    outcome: Result<Seq<char>, ErrorView>,
) -> Json {
    match outcome {
        Ok(shown) => result_reply(id, text_content(shown)),
        Err(ErrorView::UnknownTool) => error_reply(
            id,
            BAD_PARAMS as int,
            "unknown tool: "@ + name,
        ),
        Err(ErrorView::Failed(e)) => result_reply(
            id,
            having(text_content(e), "isError"@, Json::Bool(true)),
        ),
    }
}

/// What a tool call came to, with its result as it is shown.
pub open spec fn shown_outcome(out: Result<Value, Error>) -> Result<Seq<char>, ErrorView> {
    match out {
        Ok(v) => Ok(shown_text(json_of(v))),
        Err(e) => Err(e@),
    }
}

/// The answer to a tool call, from what the tool came to.
pub fn finish_call(id: Value, name: &str, out: Result<Value, Error>) -> (reply: Value)
    ensures
        json_of(reply) == call_reply(json_of(id), name@, shown_outcome(out)),
{
    let outcome = match out {
        Ok(v) => Ok(
            match json::to_pretty(&v) {
                Some(t) => t,
                None => json::to_compact(&v),
            },
        ),
        Err(e) => Err(e),
    };
    answer_call(id, name, outcome)
}

/// The characters of what a tool call came to.
pub open spec fn outcome_view(outcome: Result<String, Error>) -> Result<Seq<char>, ErrorView> {
    match outcome {
        Ok(t) => Ok(t@),
        Err(e) => Err(e@),
    }
}

/// The answer to a tool call, given how its result is shown.
pub fn answer_call(id: Value, name: &str, outcome: Result<String, Error>) -> (reply: Value)
    ensures
        json_of(reply) == call_reply(json_of(id), name@, outcome_view(outcome)),
{
    match outcome {
        Ok(shown) => result_value(id, text_result(shown.as_str())),
        Err(Error::UnknownTool) => {
            let message = text::join2("unknown tool: ", name);
            error_value(id, BAD_PARAMS, message.as_str())
        },
        Err(Error::Failed(e)) => {
            let v = json::with(text_result(e.as_str()), "isError", json::boolean(true));
            result_value(id, v)
        },
    }
}

proof fn lemma_reply_keys()
    ensures
        "id"@ != "jsonrpc"@,
        "id"@ != "result"@,
        "id"@ != "error"@,
{
    reveal_strlit("id");
    reveal_strlit("jsonrpc");
    reveal_strlit("result");
    reveal_strlit("error");
    assert("id"@.len() == 2 && "jsonrpc"@.len() == 7 && "result"@.len() == 6 && "error"@.len()
        == 5);
}

/// Every request is answered under its own id, and a notification is not
/// answered: a direct answer carries the id, a tool call takes it along, and so
/// does the answer that follows the call, whatever the tool came to.
pub proof fn answers_carry_the_request_id(
    req: Json,
    version: Seq<char>,
    outcome: Result<Seq<char>, ErrorView>,
)
    ensures
        match handled(req, version) {
            StepView::Accepted => request_id(req) is None,
            StepView::Reply(reply) => request_id(req) is Some && member(reply, "id"@)
                == request_id(req),
            StepView::Call { id, name, args } => request_id(req) == Some(id) && member(
                call_reply(id, name, outcome),
                "id"@,
            ) == Some(id),
        },
{
    lemma_reply_keys();
}

proof fn lemma_methods()
    ensures
        "initialize"@ != "ping"@,
        "initialize"@ != "tools/list"@,
        "initialize"@ != "tools/call"@,
        "ping"@ != "tools/list"@,
        "ping"@ != "tools/call"@,
        "tools/list"@ != "tools/call"@,
{
    reveal_strlit("initialize");
    reveal_strlit("ping");
    reveal_strlit("tools/list");
    reveal_strlit("tools/call");
    assert("ping"@.len() == 4 && "initialize"@.len() == 10 && "tools/list"@.len() == 10
        && "tools/call"@.len() == 10);
    assert("initialize"@[0] == 'i' && "tools/list"@[0] == 't' && "tools/call"@[0] == 't');
    assert("tools/list"@[6] == 'l' && "tools/call"@[6] == 'c');
}

proof fn lemma_answer_keys()
    ensures
        "jsonrpc"@ != "result"@,
        "jsonrpc"@ != "error"@,
        "result"@ != "error"@,
        "code"@ != "message"@,
        "type"@ != "text"@,
        "content"@ != "isError"@,
        "protocolVersion"@ != "capabilities"@,
        "protocolVersion"@ != "serverInfo"@,
        "capabilities"@ != "serverInfo"@,
        "name"@ != "version"@,
{
    reveal_strlit("jsonrpc");
    reveal_strlit("result");
    reveal_strlit("error");
    reveal_strlit("code");
    reveal_strlit("message");
    reveal_strlit("type");
    reveal_strlit("text");
    reveal_strlit("content");
    reveal_strlit("isError");
    reveal_strlit("protocolVersion");
    reveal_strlit("capabilities");
    reveal_strlit("serverInfo");
    reveal_strlit("name");
    reveal_strlit("version");
    assert("jsonrpc"@.len() == 7 && "result"@.len() == 6 && "error"@.len() == 5);
    assert("code"@.len() == 4 && "message"@.len() == 7 && "name"@.len() == 4 && "version"@.len()
        == 7);
    assert("type"@[1] == 'y' && "text"@[1] == 'e');
    assert("content"@[0] == 'c' && "isError"@[0] == 'i');
    assert("protocolVersion"@.len() == 15 && "capabilities"@.len() == 12 && "serverInfo"@.len()
        == 10);
}

/// What each method is answered. Every answer names the protocol; a result comes
/// without an error. A client hears the protocol version that it asks for, or a
/// fixed one; a ping is answered with an empty object, and the tools are listed
/// as the catalog has them.
pub proof fn methods_are_answered(req: Json, version: Seq<char>, id: Json, asked: Json)
    requires
        member(req, "id"@) == Some(id),
        id != Json::Null,
    ensures
        member(req, "method"@) == Some(Json::Str("ping"@)) ==> (handled(
            req,
            version,
        ) matches StepView::Reply(a) && member(a, "result"@) == Some(obj()) && member(
            a,
            "error"@,
        ) is None && member(a, "jsonrpc"@) == Some(Json::Str("2.0"@))),
        member(req, "method"@) == Some(Json::Str("tools/list"@)) ==> (handled(
            req,
            version,
        ) matches StepView::Reply(a) && (member(a, "result"@) matches Some(r) && member(
            r,
            "tools"@,
        ) == Some(Json::Array(catalog()))) && member(a, "error"@) is None && member(a, "jsonrpc"@)
            == Some(Json::Str("2.0"@))),
        member(req, "method"@) == Some(Json::Str("initialize"@)) ==> (handled(
            req,
            version,
        ) matches StepView::Reply(a) && member(a, "error"@) is None && member(a, "jsonrpc"@)
            == Some(Json::Str("2.0"@)) && (member(a, "result"@) matches Some(r) && {
            &&& (member(req, "params"@) matches Some(p) && member(p, "protocolVersion"@) == Some(
                asked,
            )) ==> member(r, "protocolVersion"@) == Some(asked)
            &&& !(member(req, "params"@) matches Some(p) && member(
                p,
                "protocolVersion"@,
            ) is Some) ==> member(r, "protocolVersion"@) == Some(Json::Str("2025-06-18"@))
            &&& member(r, "capabilities"@) matches Some(c) && member(c, "tools"@) == Some(obj())
            &&& member(r, "serverInfo"@) matches Some(i) && member(i, "name"@) == Some(
                Json::Str("bentham-discord"@),
            ) && member(i, "version"@) == Some(Json::Str(version))
        })),
{
    lemma_methods();
    lemma_answer_keys();
    lemma_reply_keys();
}

/// A tool call goes to the tool that it names with the arguments that it brings,
/// none being an empty object; without a name it is an error, as is any method
/// that there is not.
pub proof fn calls_go_to_their_tool(req: Json, version: Seq<char>, id: Json, name: Seq<char>)
    requires
        member(req, "id"@) == Some(id),
        id != Json::Null,
    ensures
        member(req, "method"@) == Some(Json::Str("tools/call"@)) ==> match member(req, "params"@) {
            Some(p) => {
                &&& member(p, "name"@) == Some(Json::Str(name)) && member(p, "arguments"@) is Some
                    ==> handled(req, version) == (StepView::Call {
                    id,
                    name,
                    args: member(p, "arguments"@)->0,
                })
                &&& member(p, "name"@) == Some(Json::Str(name)) && member(p, "arguments"@) is None
                    ==> handled(req, version) == (StepView::Call { id, name, args: obj() })
                &&& !(member(p, "name"@) matches Some(n) && n is Str) ==> is_refusal(
                    handled(req, version),
                    -32602,
                    "missing tool name"@,
                )
            },
            None => is_refusal(handled(req, version), -32602, "missing tool name"@),
        },
        member(req, "method"@) == Some(Json::Str(name)) && name != "initialize"@ && name
            != "ping"@ && name != "tools/list"@ && name != "tools/call"@ ==> is_refusal(
            handled(req, version),
            -32601,
            "method not found: "@ + name,
        ),
        !(member(req, "method"@) matches Some(m) && m is Str) ==> is_refusal(
            handled(req, version),
            -32601,
            "method not found: "@,
        ),
{
    lemma_methods();
    lemma_answer_keys();
    lemma_reply_keys();
    reveal_strlit("");
    reveal_strlit("initialize");
    reveal_strlit("ping");
    reveal_strlit("tools/list");
    reveal_strlit("tools/call");
    assert(""@.len() == 0 && "initialize"@.len() == 10 && "ping"@.len() == 4 && "tools/list"@.len()
        == 10 && "tools/call"@.len() == 10);
    assert("method not found: "@ + ""@ =~= "method not found: "@);
    assert(""@ =~= Seq::empty());
}

/// The answer is an error with this code and this message.
pub open spec fn is_refusal(step: StepView, code: int, message: Seq<char>) -> bool {
    step matches StepView::Reply(a) && member(a, "result"@) is None && (member(
        a,
        "error"@,
    ) matches Some(e) && member(e, "code"@) == Some(Json::Number(signed_decimal(code))) && member(
        e,
        "message"@,
    ) == Some(Json::Str(message)))
}

/// A request without an id, or with a null one, is dropped.
pub proof fn notifications_are_dropped(req: Json, version: Seq<char>)
    ensures
        member(req, "id"@) is None ==> handled(req, version) == StepView::Accepted,
        member(req, "id"@) == Some(Json::Null) ==> handled(req, version) == StepView::Accepted,
        member(req, "id"@) is Some && member(req, "id"@) != Some(Json::Null) ==> handled(
            req,
            version,
        ) != StepView::Accepted,
{
}

/// What a tool came to is answered as one piece of text. A tool that failed says
/// why in the same way, marked as an error; only a tool that there is not is an
/// error of the call itself.
pub proof fn tool_results_are_answered(id: Json, name: Seq<char>, shown: Seq<char>)
    ensures
        ({
            let a = call_reply(id, name, Ok(shown));
            &&& member(a, "error"@) is None
            &&& member(a, "result"@) matches Some(r) && member(r, "isError"@) is None && is_text_of(
                r,
                shown,
            )
        }),
        ({
            let a = call_reply(id, name, Err(ErrorView::Failed(shown)));
            &&& member(a, "error"@) is None
            &&& member(a, "result"@) matches Some(r) && member(r, "isError"@) == Some(
                Json::Bool(true),
            ) && is_text_of(r, shown)
        }),
        is_refusal(
            StepView::Reply(call_reply(id, name, Err(ErrorView::UnknownTool))),
            -32602,
            "unknown tool: "@ + name,
        ),
{
    lemma_answer_keys();
    lemma_reply_keys();
}

/// The content is one piece, of type text, with this text.
pub open spec fn is_text_of(result: Json, shown: Seq<char>) -> bool {
    member(result, "content"@) matches Some(Json::Array(items)) && items.len() == 1 && member(
        items[0],
        "type"@,
    ) == Some(Json::Str("text"@)) && member(items[0], "text"@) == Some(Json::Str(shown))
}

/// A result is shown spread over lines where that can be done, else in one.
pub proof fn results_are_spread_over_lines(result: Json, t: Seq<char>)
    ensures
        pretty_json(result) == Some(t) ==> shown_text(result) == t,
        pretty_json(result) is None ==> shown_text(result) == compact_json(result),
{
}

} // verus!
