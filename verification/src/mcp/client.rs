//! The JSON-RPC exchange with an MCP server over its standard streams: one
//! request a line, and the answer is the line that carries the request's id.

use crate::json::{entry_models, jobj, jstr, members_are_found_by_key, models, Json, JsonView};
use crate::outside::{json_of, json_pretty_text, json_text};
use crate::text::{blank, or_empty, str_eq, str_or_empty, str_trim, trim};
use vstd::prelude::*;

verus! {

/// One MCP server declared in a plugin's `.mcp.json`.
#[derive(Debug, PartialEq, Eq)]
pub struct McpServerConfig {
    pub command: String,
    pub args: Vec<String>,
    pub env: Vec<(String, String)>,
}

/// A tool exposed by an MCP server.
#[derive(Debug, PartialEq, Eq)]
pub struct McpToolDef {
    pub name: String,
    pub description: String,
    pub input_schema: Json,
}

/// The mathematical value of a [`McpToolDef`].
#[verifier::ext_equal]
pub struct McpToolDefView {
    pub name: Seq<char>,
    pub description: Seq<char>,
    pub input_schema: JsonView,
}

impl DeepView for McpToolDef {
    type V = McpToolDefView;

    open spec fn deep_view(&self) -> McpToolDefView {
        McpToolDefView {
            name: self.name@,
            description: self.description@,
            input_schema: self.input_schema.deep_view(),
        }
    }
}

/// The state of one connection.
#[derive(Debug, PartialEq, Eq)]
pub struct McpClient {
    pub server_name: String,
    /// The id of the last request.
    pub last_id: i64,
}

/// A line that came from the server.
#[derive(Debug, PartialEq, Eq)]
pub enum ServerLine {
    /// The stream ended.
    Closed,
    /// Nothing but white space.
    Blank,
    /// Text that is not JSON.
    NotJson,
    Message(Json),
}

/// What was read up to the end of a line: nothing at the end of the stream, and
/// else the white space around the text does not count.
pub fn server_line(text: &str) -> (r: ServerLine)
    ensures
        if text@.len() == 0 {
            r is Closed
        } else if blank(text@) {
            r is Blank
        } else {
            match json_of(trim(text@)) {
                Some(m) => r matches ServerLine::Message(j) && j.model() == m,
                None => r is NotJson,
            }
        },
{
    if text.is_empty() {
        return ServerLine::Closed;
    }
    let line = str_trim(text);
    if line.as_str().is_empty() {
        return ServerLine::Blank;
    }
    match Json::parse(line.as_str()) {
        Some(message) => ServerLine::Message(message),
        None => ServerLine::NotJson,
    }
}

/// What a line means for the request that waits.
#[derive(Debug, PartialEq, Eq)]
pub enum CallStep {
    /// Read on: a notification, an answer to another request, or noise.
    Wait,
    Done(Json),
    Failed(String),
}

/// A JSON number as a signed 64-bit integer.
pub open spec fn as_i64(v: JsonView) -> Option<i64> {
    match v {
        JsonView::Unsigned(n) => if n <= i64::MAX {
            Some(n as i64)
        } else {
            None
        },
        JsonView::Negative(n) => Some(n),
        _ => None,
    }
}

fn json_as_i64(v: &Json) -> (r: Option<i64>)
    ensures
        r == as_i64(v.model()),
{
    match v {
        Json::Unsigned(n) => if *n <= 0x7fff_ffff_ffff_ffff {
            Some(*n as i64)
        } else {
            None
        },
        Json::Negative(n) => Some(*n),
        _ => None,
    }
}

pub open spec fn request_model(id: JsonView, method: Seq<char>, params: JsonView) -> JsonView {
    JsonView::Object(
        seq![
            ("id"@, id),
            ("jsonrpc"@, JsonView::Str("2.0"@)),
            ("method"@, JsonView::Str(method)),
            ("params"@, params),
        ],
    )
}

pub open spec fn notification_model(method: Seq<char>, params: JsonView) -> JsonView {
    JsonView::Object(
        seq![
            ("jsonrpc"@, JsonView::Str("2.0"@)),
            ("method"@, JsonView::Str(method)),
            ("params"@, params),
        ],
    )
}

pub open spec fn id_model(id: i64) -> JsonView {
    if id < 0 {
        JsonView::Negative(id)
    } else {
        JsonView::Unsigned(id as u64)
    }
}

fn id_json(id: i64) -> (r: Json)
    ensures
        r.model() == id_model(id),
{
    if id < 0 {
        Json::Negative(id)
    } else {
        Json::Unsigned(id as u64)
    }
}

/// Whether a message answers the request `id`.
pub open spec fn answers(msg: JsonView, id: i64) -> bool {
    match msg.get("id"@) {
        Some(v) => as_i64(v) == Some(id),
        None => false,
    }
}

/// The message of a notification, which has no id and no answer.
pub fn notification_message(method: &str, params: Json) -> (r: Json)
    ensures
        r.model() == notification_model(method@, params.model()),
{
    let mut es: Vec<(String, Json)> = Vec::new();
    es.push(("jsonrpc".to_owned(), jstr("2.0")));
    es.push(("method".to_owned(), jstr(method)));
    es.push(("params".to_owned(), params));
    assert(entry_models(es@) =~= notification_model(method@, params.model())->Object_0);
    jobj(es)
}

/// The line of a notification.
pub fn notification_line(method: &str, params: Json) -> (line: String)
    ensures
        line@ == json_text(notification_model(method@, params.model())) + "\n"@,
{
    let mut line = notification_message(method, params).to_text();
    line.append("\n");
    line
}

/// The message of the request `id`.
pub fn request_message(id: i64, method: &str, params: Json) -> (r: Json)
    ensures
        r.model() == request_model(id_model(id), method@, params.model()),
{
    let mut es: Vec<(String, Json)> = Vec::new();
    es.push(("id".to_owned(), id_json(id)));
    es.push(("jsonrpc".to_owned(), jstr("2.0")));
    es.push(("method".to_owned(), jstr(method)));
    es.push(("params".to_owned(), params));
    assert(entry_models(es@) =~= request_model(
        id_model(id),
        method@,
        params.model(),
    )->Object_0);
    jobj(es)
}

impl McpClient {
    pub fn new(server_name: String) -> (r: Self)
        ensures
            r == (McpClient { server_name, last_id: 0 }),
    {
        McpClient { server_name, last_id: 0 }
    }

    /// The next request: its id, one more than the last, and its line.
    pub fn request(&mut self, method: &str, params: Json) -> (r: (i64, String))
        requires
            old(self).last_id < i64::MAX,
        ensures
            r.0 == old(self).last_id + 1,
            r.1@ == json_text(request_model(id_model(r.0), method@, params.model())) + "\n"@,
            *final(self) == (McpClient {
                server_name: old(self).server_name,
                last_id: r.0,
            }),
    {
        self.last_id = self.last_id + 1;
        let id = self.last_id;
        let mut line = request_message(id, method, params).to_text();
        line.append("\n");
        (id, line)
    }

    /// What a line means for the request `id`.
    pub fn on_line(&self, id: i64, line: ServerLine) -> (r: CallStep)
        ensures
            match line {
                ServerLine::Closed => r matches CallStep::Failed(e) && e@ == "MCP server `"@
                    + self.server_name@ + "` closed stdout"@,
                ServerLine::Blank | ServerLine::NotJson => r is Wait,
                ServerLine::Message(msg) => if !answers(msg.model(), id) {
                    r is Wait
                } else {
                    match msg.model().get("error"@) {
                        Some(err) => r matches CallStep::Failed(e) && e@ == "MCP error from `"@
                            + self.server_name@ + "`: "@ + json_text(err),
                        None => r matches CallStep::Done(v) && v.model() == (match msg.model().get(
                            "result"@,
                        ) {
                            Some(result) => result,
                            None => JsonView::Null,
                        }),
                    }
                },
            },
    {
        match line {
            ServerLine::Closed => {
                let mut e = "MCP server `".to_owned();
                e.append(self.server_name.as_str());
                e.append("` closed stdout");
                CallStep::Failed(e)
            },
            ServerLine::Blank => CallStep::Wait,
            ServerLine::NotJson => CallStep::Wait,
            ServerLine::Message(msg) => {
                let ours = match msg.get("id") {
                    Some(v) => json_as_i64(v) == Some(id),
                    None => false,
                };
                if !ours {
                    return CallStep::Wait;
                }
                match msg.get("error") {
                    Some(err) => {
                        let mut e = "MCP error from `".to_owned();
                        e.append(self.server_name.as_str());
                        e.append("`: ");
                        let text = err.to_text();
                        e.append(text.as_str());
                        CallStep::Failed(e)
                    },
                    None => match msg.get("result") {
                        Some(result) => CallStep::Done(result.clone()),
                        None => CallStep::Done(Json::Null),
                    },
                }
            },
        }
    }
}

/// The parameters of the handshake.
pub open spec fn initialize_model(version: Seq<char>) -> JsonView {
    JsonView::Object(
        seq![
            ("capabilities"@, JsonView::Object(Seq::empty())),
            (
                "clientInfo"@,
                JsonView::Object(
                    seq![
                        ("name"@, JsonView::Str("manox"@)),
                        ("version"@, JsonView::Str(version)),
                    ],
                ),
            ),
            ("protocolVersion"@, JsonView::Str("2024-11-05"@)),
        ],
    )
}

pub fn initialize_params(version: &str) -> (r: Json)
    ensures
        r.model() == initialize_model(version@),
{
    let none: Vec<(String, Json)> = Vec::new();
    assert(entry_models(none@) =~= Seq::empty());
    let mut info: Vec<(String, Json)> = Vec::new();
    info.push(("name".to_owned(), jstr("manox")));
    info.push(("version".to_owned(), jstr(version)));
    assert(entry_models(info@) =~= seq![
        ("name"@, JsonView::Str("manox"@)),
        ("version"@, JsonView::Str(version@)),
    ]);
    let mut es: Vec<(String, Json)> = Vec::new();
    es.push(("capabilities".to_owned(), jobj(none)));
    es.push(("clientInfo".to_owned(), jobj(info)));
    es.push(("protocolVersion".to_owned(), jstr("2024-11-05")));
    assert(entry_models(es@) =~= initialize_model(version@)->Object_0);
    jobj(es)
}

pub open spec fn tool_call_model(name: Seq<char>, arguments: JsonView) -> JsonView {
    JsonView::Object(seq![("arguments"@, arguments), ("name"@, JsonView::Str(name))])
}

/// The parameters of a tool call.
pub fn tool_call_params(name: &str, arguments: Json) -> (r: Json)
    ensures
        r.model() == tool_call_model(name@, arguments.model()),
{
    let mut es: Vec<(String, Json)> = Vec::new();
    es.push(("arguments".to_owned(), arguments));
    es.push(("name".to_owned(), jstr(name)));
    assert(entry_models(es@) =~= tool_call_model(name@, arguments.model())->Object_0);
    jobj(es)
}

/// The definition that one entry of a tool listing gives; an entry without a
/// name gives none.
pub open spec fn listed_tool(t: JsonView) -> Option<McpToolDefView> {
    match t.str_at("name"@) {
        Some(name) => Some(
            McpToolDefView {
                name,
                description: or_empty(t.str_at("description"@)),
                input_schema: match t.get("inputSchema"@) {
                    Some(schema) => schema,
                    None => JsonView::Object(Seq::empty()),
                },
            },
        ),
        None => None,
    }
}

pub open spec fn listed_tools(ts: Seq<JsonView>) -> Seq<McpToolDefView>
    decreases ts.len(),
{
    if ts.len() == 0 {
        seq![]
    } else {
        listed_tools(ts.drop_last()) + (match listed_tool(ts.last()) {
            Some(def) => seq![def],
            None => seq![],
        })
    }
}

fn one_tool(t: &Json) -> (r: Option<McpToolDef>)
    ensures
        r.deep_view() == listed_tool(t.model()),
{
    match t.str_at("name") {
        Some(name) => {
            let input_schema = match t.get("inputSchema") {
                Some(schema) => schema.clone(),
                None => {
                    let none: Vec<(String, Json)> = Vec::new();
                    assert(entry_models(none@) =~= Seq::empty());
                    jobj(none)
                },
            };
            Some(
                McpToolDef {
                    name: name.to_owned(),
                    description: str_or_empty(t.str_at("description")),
                    input_schema,
                },
            )
        },
        None => None,
    }
}

/// The tools of a `tools/list` answer.
pub fn list_tools(result: &Json) -> (r: Result<Vec<McpToolDef>, String>)
    ensures
        match r {
            Ok(defs) => match result.model().get("tools"@) {
                Some(JsonView::Array(ts)) => defs.deep_view() == listed_tools(ts),
                _ => false,
            },
            Err(e) => !(result.model().get("tools"@) matches Some(JsonView::Array(_))) && e@
                == "tools/list response missing `tools` array"@,
        },
{
    let tools = match result.get("tools") {
        Some(v) => v.as_array(),
        None => None,
    };
    match tools {
        None => Err("tools/list response missing `tools` array".to_owned()),
        Some(ts) => {
            let mut out: Vec<McpToolDef> = Vec::new();
            let ghost all = models(ts@);
            assert(out.deep_view() =~= listed_tools(all.take(0)));
            for i in 0..ts.len()
                invariant
                    all == models(ts@),
                    out.deep_view() == listed_tools(all.take(i as int)),
            {
                assert(all.take(i + 1).drop_last() =~= all.take(i as int));
                assert(all.take(i + 1).last() == ts@[i as int].model());
                let ghost before = out.deep_view();
                match one_tool(&ts[i]) {
                    Some(def) => {
                        out.push(def);
                        assert(out.deep_view() =~= before + seq![def.deep_view()]);
                    },
                    None => {
                        assert(before + seq![] =~= before);
                    },
                }
            }
            assert(all.take(all.len() as int) =~= all);
            Ok(out)
        },
    }
}

/// The text of one content block, if it is a text block.
pub open spec fn block_text(b: JsonView) -> Option<Seq<char>> {
    if b.str_at("type"@) == Some("text"@) {
        b.str_at("text"@)
    } else {
        None
    }
}

pub open spec fn joined_texts(bs: Seq<JsonView>) -> Seq<char>
    decreases bs.len(),
{
    if bs.len() == 0 {
        seq![]
    } else {
        let before = joined_texts(bs.drop_last());
        match block_text(bs.last()) {
            Some(t) => if before.len() > 0 {
                before.push('\n') + t
            } else {
                t
            },
            None => before,
        }
    }
}

/// The text blocks of a `tools/call` answer.
pub open spec fn said_text(result: JsonView) -> Seq<char> {
    match result.get("content"@) {
        Some(JsonView::Array(bs)) => joined_texts(bs),
        _ => seq![],
    }
}

/// The text of a `tools/call` answer: its text blocks, or the whole answer where
/// they say nothing.
pub open spec fn answer_text(result: JsonView) -> Seq<char> {
    if said_text(result).len() > 0 {
        said_text(result)
    } else {
        json_pretty_text(result)
    }
}

/// What the text blocks of a `tools/call` answer say, one a line.
pub fn answer_blocks(result: &Json) -> (out: String)
    ensures
        out@ == said_text(result.model()),
{
    let mut out = String::new();
    let content = match result.get("content") {
        Some(v) => v.as_array(),
        None => None,
    };
    match content {
        Some(blocks) => {
            let ghost all = models(blocks@);
            for i in 0..blocks.len()
                invariant
                    all == models(blocks@),
                    out@ == joined_texts(all.take(i as int)),
            {
                assert(all.take(i + 1).drop_last() =~= all.take(i as int));
                assert(all.take(i + 1).last() == blocks@[i as int].model());
                let is_text = match blocks[i].str_at("type") {
                    Some(t) => str_eq(t, "text"),
                    None => false,
                };
                if is_text {
                    match blocks[i].str_at("text") {
                        Some(t) => {
                            let ghost before = out@;
                            if !out.as_str().is_empty() {
                                out.push('\n');
                            }
                            out.append(t);
                            assert(before.len() == 0 ==> before + t@ =~= t@);
                        },
                        None => {},
                    }
                }
            }
            assert(all.take(all.len() as int) =~= all);
        },
        None => {},
    }
    out
}

/// The outcome of a `tools/call` answer.
pub fn tool_call_outcome(result: &Json) -> (r: Result<String, String>)
    ensures
        match r {
            Ok(text) => result.model().bool_at("isError"@) != Some(true) && text@ == answer_text(
                result.model(),
            ),
            Err(text) => result.model().bool_at("isError"@) == Some(true) && text@ == answer_text(
                result.model(),
            ),
        },
{
    let mut out = answer_blocks(result);
    if out.as_str().is_empty() {
        out = result.to_pretty_text();
    }
    let is_error = match result.bool_at("isError") {
        Some(b) => b,
        None => false,
    };
    if is_error {
        Err(out)
    } else {
        Ok(out)
    }
}

// ---------------------------------------------------------------------------
// What is said on the wire
// ---------------------------------------------------------------------------

/// A request carries its id, its method and its parameters; a notification carries no
/// id, so that nothing answers it.
pub proof fn requests_carry_what_they_ask(
    id: i64,
    method: Seq<char>,
    params: JsonView,
    other: i64,
)
    ensures
        request_model(id_model(id), method, params).str_at("method"@) == Some(method),
        request_model(id_model(id), method, params).get("params"@) == Some(params),
        request_model(id_model(id), method, params).str_at("jsonrpc"@) == Some("2.0"@),
        answers(request_model(id_model(id), method, params), other) <==> other == id,
        notification_model(method, params).str_at("method"@) == Some(method),
        notification_model(method, params).get("params"@) == Some(params),
        notification_model(method, params).str_at("jsonrpc"@) == Some("2.0"@),
        notification_model(method, params).get("id"@) is None,
{
    reveal_strlit("id");
    reveal_strlit("jsonrpc");
    reveal_strlit("method");
    reveal_strlit("params");
    assert("id"@.len() == 2 && "jsonrpc"@.len() == 7 && "method"@.len() == 6 && "params"@.len()
        == 6);
    assert("method"@[0] != "params"@[0]);
    let asked = request_model(id_model(id), method, params)->Object_0;
    let told = notification_model(method, params)->Object_0;
    members_are_found_by_key(asked, 0, "id"@);
    members_are_found_by_key(asked, 1, "id"@);
    members_are_found_by_key(asked, 2, "id"@);
    members_are_found_by_key(asked, 3, "id"@);
    members_are_found_by_key(told, 0, "id"@);
    members_are_found_by_key(told, 1, "id"@);
    members_are_found_by_key(told, 2, "id"@);
}

/// A message answers the request whose id it carries as a whole number, and no other.
pub proof fn an_answer_goes_to_its_request(msg: JsonView, id: i64, other: i64)
    ensures
        answers(msg, id) && answers(msg, other) ==> id == other,
        msg.get("id"@) is None ==> !answers(msg, id),
        msg.get("id"@) matches Some(JsonView::Unsigned(n)) ==> (answers(msg, id) <==> n == id),
        msg.get("id"@) matches Some(JsonView::Negative(n)) ==> (answers(msg, id) <==> n == id),
        msg.get("id"@) matches Some(JsonView::Str(_)) ==> !answers(msg, id),
{
}

/// The client introduces itself by name and version, and a call carries the name of the
/// tool and its arguments.
pub proof fn a_call_carries_name_and_arguments(
    version: Seq<char>,
    name: Seq<char>,
    arguments: JsonView,
)
    ensures
        initialize_model(version).str_at("protocolVersion"@) == Some("2024-11-05"@),
        initialize_model(version).get("clientInfo"@) matches Some(info) && info.str_at("name"@)
            == Some("manox"@) && info.str_at("version"@) == Some(version),
        initialize_model(version).get("capabilities"@) matches Some(JsonView::Object(es))
            && es.len() == 0,
        tool_call_model(name, arguments).str_at("name"@) == Some(name),
        tool_call_model(name, arguments).get("arguments"@) == Some(arguments),
{
    reveal_strlit("capabilities");
    reveal_strlit("clientInfo");
    reveal_strlit("protocolVersion");
    reveal_strlit("name");
    reveal_strlit("version");
    reveal_strlit("arguments");
    assert("capabilities"@.len() == 12 && "clientInfo"@.len() == 10 && "protocolVersion"@.len()
        == 15);
    assert("name"@.len() == 4 && "version"@.len() == 7 && "arguments"@.len() == 9);
    let hello = initialize_model(version)->Object_0;
    members_are_found_by_key(hello, 0, "name"@);
    members_are_found_by_key(hello, 1, "name"@);
    members_are_found_by_key(hello, 2, "name"@);
    let info = hello[1].1->Object_0;
    members_are_found_by_key(info, 0, "name"@);
    members_are_found_by_key(info, 1, "name"@);
    let call = tool_call_model(name, arguments)->Object_0;
    members_are_found_by_key(call, 0, "name"@);
    members_are_found_by_key(call, 1, "name"@);
}

/// The tools of a server are those it lists with a name, in order, each with its
/// description and its schema; one without a name is left out.
pub proof fn tools_are_taken_as_listed(ts: Seq<JsonView>, t: JsonView)
    ensures
        listed_tools(Seq::<JsonView>::empty()).len() == 0,
        t.str_at("name"@) is None ==> listed_tools(ts.push(t)) == listed_tools(ts),
        t.str_at("name"@) matches Some(name) ==> {
            let after = listed_tools(ts.push(t));
            &&& after.len() == listed_tools(ts).len() + 1
            &&& after.drop_last() == listed_tools(ts)
            &&& after.last().name == name
            &&& t.str_at("description"@) matches Some(d) ==> after.last().description == d
            &&& t.str_at("description"@) is None ==> after.last().description.len() == 0
            &&& t.get("inputSchema"@) matches Some(s) ==> after.last().input_schema == s
            &&& t.get("inputSchema"@) is None ==> after.last().input_schema == JsonView::Object(
                Seq::empty(),
            )
        },
{
    assert(ts.push(t).drop_last() =~= ts);
    match listed_tool(t) {
        Some(def) => {
            assert((listed_tools(ts) + seq![def]).drop_last() =~= listed_tools(ts));
        },
        None => {
            assert(listed_tools(ts) + Seq::<McpToolDefView>::empty() =~= listed_tools(ts));
        },
    }
}

/// The answer of a call is its texts, one below the other; a block of another kind adds
/// nothing. An answer without text is shown as it came.
pub proof fn an_answer_is_its_texts(
    bs: Seq<JsonView>,
    b: JsonView,
    result: JsonView,
)
    ensures
        joined_texts(Seq::<JsonView>::empty()).len() == 0,
        b.str_at("type"@) != Some("text"@) || b.str_at("text"@) is None ==> joined_texts(bs.push(b))
            == joined_texts(bs),
        b.str_at("type"@) == Some("text"@) ==> (b.str_at("text"@) matches Some(t) ==> {
            &&& joined_texts(bs).len() == 0 ==> joined_texts(bs.push(b)) == t
            &&& joined_texts(bs).len() > 0 ==> joined_texts(bs.push(b)) == joined_texts(bs)
                + seq!['\n'] + t
        }),
        result.get("content"@) == Some(JsonView::Array(bs)) ==> said_text(result) == joined_texts(
            bs,
        ),
        !(result.get("content"@) matches Some(JsonView::Array(_))) ==> said_text(result).len() == 0,
        said_text(result).len() > 0 ==> answer_text(result) == said_text(result),
        said_text(result).len() == 0 ==> answer_text(result) == json_pretty_text(result),
{
    assert(bs.push(b).drop_last() =~= bs);
    match b.str_at("text"@) {
        Some(t) => {
            assert(joined_texts(bs).push('\n') + t =~= joined_texts(bs) + seq!['\n'] + t);
        },
        None => {},
    }
}

/// The view of a [`McpToolDef`] is made of all its parts, each as it is.
pub proof fn mcp_tool_def_is_viewed_whole(x: &McpToolDef)
    ensures
        x.deep_view() == (McpToolDefView {
            name: x.name@,
            description: x.description@,
            input_schema: x.input_schema.deep_view(),
        }),
{
}

} // verus!
