//! The tools of MCP servers: their names, their schemas and their results.

use crate::approval::ToolError;
use crate::json::{entry_models, lemma_model_of_object, set_member, with_member, Json, JsonView};
use vstd::prelude::*;

verus! {

/// The name that the model sees: `mcp_<server>_<tool>`. Built-in tools never
/// start with `mcp_`, so there is no collision with them.
pub open spec fn tool_id_of(server: Seq<char>, tool: Seq<char>) -> Seq<char> {
    "mcp_"@ + server + "_"@ + tool
}

pub fn tool_id(server: &str, tool: &str) -> (r: String)
    ensures
        r@ == tool_id_of(server@, tool@),
{
    let mut id = "mcp_".to_owned();
    id.append(server);
    id.append("_");
    id.append(tool);
    id
}

/// A tool of a connected server.
#[derive(Debug, PartialEq, Eq)]
pub struct McpTool {
    pub server_name: String,
    pub name: String,
    pub description: Option<String>,
    /// The members of the schema object.
    pub input_schema: Vec<(String, Json)>,
}

/// The schema with a `properties` member that is neither absent nor null, as
/// some models demand.
pub open spec fn with_properties(es: Seq<(Seq<char>, JsonView)>) -> Seq<(Seq<char>, JsonView)> {
    match JsonView::Object(es).get("properties"@) {
        None | Some(JsonView::Null) => with_member(
            es,
            "properties"@,
            JsonView::Object(Seq::empty()),
        ),
        _ => es,
    }
}

impl McpTool {
    pub fn new(
        server_name: String,
        name: String,
        description: Option<String>,
        input_schema: Vec<(String, Json)>,
    ) -> (r: Self)
        ensures
            r == (McpTool { server_name, name, description, input_schema }),
    {
        McpTool { server_name, name, description, input_schema }
    }

    /// Tool id surfaced to the model.
    pub fn tool_id(&self) -> (r: String)
        ensures
            r@ == tool_id_of(self.server_name@, self.name@),
    {
        tool_id(self.server_name.as_str(), self.name.as_str())
    }

    /// The description, empty where the server gave none.
    pub fn description(&self) -> (r: &str)
        ensures
            r@ == (match self.description {
                Some(d) => d@,
                None => ""@,
            }),
    {
        match &self.description {
            Some(d) => d.as_str(),
            None => "",
        }
    }

    /// The input schema as the model gets it.
    pub fn parameters_schema(&self) -> (r: Json)
        ensures
            r.model() == JsonView::Object(with_properties(entry_models(self.input_schema@))),
    {
        let mut entries: Vec<(String, Json)> = Vec::new();
        for i in 0..self.input_schema.len()
            invariant
                entry_models(entries@) == entry_models(self.input_schema@).take(i as int),
        {
            let ghost before = entry_models(entries@);
            let entry = (self.input_schema[i].0.clone(), self.input_schema[i].1.clone());
            entries.push(entry);
            assert(entry_models(entries@) =~= before.push(
                entry_models(self.input_schema@)[i as int],
            ));
            assert(entry_models(entries@) =~= entry_models(self.input_schema@).take(i + 1));
        }
        assert(entry_models(entries@) =~= entry_models(self.input_schema@));
        proof {
            lemma_model_of_object(entries);
        }
        let schema = Json::Object(entries);
        let missing = match schema.get("properties") {
            None => true,
            Some(Json::Null) => true,
            Some(_) => false,
        };
        match schema {
            Json::Object(mut entries) => {
                if missing {
                    let empty: Vec<(String, Json)> = Vec::new();
                    proof {
                        lemma_model_of_object(empty);
                        assert(entry_models(empty@) =~= Seq::empty());
                    }
                    set_member(&mut entries, "properties", Json::Object(empty));
                }
                proof {
                    lemma_model_of_object(entries);
                }
                Json::Object(entries)
            },
            other => other,
        }
    }
}

/// What a call hands to the server: the arguments, unless there are none.
pub fn call_arguments(params: Json) -> (r: Option<Json>)
    ensures
        match params.model() {
            JsonView::Object(es) => if es.len() > 0 {
                r == Some(params)
            } else {
                r is None
            },
            _ => r is None,
        },
{
    match &params {
        Json::Object(es) => {
            proof {
                lemma_model_of_object(*es);
            }
            if es.len() > 0 {
                Some(params)
            } else {
                None
            }
        },
        _ => None,
    }
}

/// One content block of a tool result.
#[derive(Debug, PartialEq, Eq)]
pub enum McpContent {
    Text(String),
    Image,
    Audio,
    Resource,
    ResourceLink,
}

/// The result of a tool call.
#[derive(Debug, PartialEq, Eq)]
pub struct CallToolResult {
    pub content: Vec<McpContent>,
    pub is_error: Option<bool>,
}

/// Flattened tool result: the concatenated text plus the server's error flag.
#[derive(Debug, PartialEq, Eq)]
pub struct McpToolOutput {
    pub text: String,
    pub is_error: bool,
}

/// The text blocks, one a line; every other block is skipped.
pub open spec fn content_text(content: Seq<McpContent>) -> Seq<char>
    decreases content.len(),
{
    if content.len() == 0 {
        seq![]
    } else {
        let before = content_text(content.drop_last());
        match content.last() {
            McpContent::Text(t) => if before.len() > 0 {
                before.push('\n') + t@
            } else {
                t@
            },
            _ => before,
        }
    }
}

/// Concatenate the text blocks of a tool result.
pub fn flatten_call_tool_result(result: &CallToolResult) -> (r: McpToolOutput)
    ensures
        r.text@ == content_text(result.content@),
        r.is_error == (result.is_error == Some(true)),
{
    let mut text = String::new();
    for i in 0..result.content.len()
        invariant
            text@ == content_text(result.content@.take(i as int)),
    {
        assert(result.content@.take(i + 1).drop_last() =~= result.content@.take(i as int));
        match &result.content[i] {
            McpContent::Text(t) => {
                let ghost before = text@;
                if !text.as_str().is_empty() {
                    text.push('\n');
                }
                text.append(t.as_str());
                assert(before.len() == 0 ==> before + t@ =~= t@);
            },
            _ => {},
        }
    }
    assert(result.content@.take(result.content@.len() as int) =~= result.content@);
    let is_error = match result.is_error {
        Some(b) => b,
        None => false,
    };
    McpToolOutput { text, is_error }
}

/// How a call of a remote tool ended.
#[derive(Debug, PartialEq, Eq)]
pub enum CallEnd {
    Answered(CallToolResult),
    /// The call did not reach the server, or no answer came back.
    Failed(String),
    /// The user stopped the turn.
    Cancelled,
}

/// What the model gets of a call: the text of the answer, as an error where the
/// server flagged one.
pub fn tool_outcome(end: CallEnd) -> (r: Result<String, ToolError>)
    ensures
        match end {
            CallEnd::Answered(result) => if result.is_error == Some(true) {
                r matches Err(ToolError::ExecutionFailed(text)) && text@ == content_text(
                    result.content@,
                )
            } else {
                r matches Ok(text) && text@ == content_text(result.content@)
            },
            CallEnd::Failed(why) => r matches Err(ToolError::ExecutionFailed(text)) && text@
                == "MCP tools/call failed: "@ + why@,
            CallEnd::Cancelled => r == Err::<String, ToolError>(ToolError::Aborted),
        },
{
    match end {
        CallEnd::Answered(result) => {
            let out = flatten_call_tool_result(&result);
            if out.is_error {
                Err(ToolError::ExecutionFailed(out.text))
            } else {
                Ok(out.text)
            }
        },
        CallEnd::Failed(why) => {
            let mut text = "MCP tools/call failed: ".to_owned();
            text.append(why.as_str());
            Err(ToolError::ExecutionFailed(text))
        },
        CallEnd::Cancelled => Err(ToolError::Aborted),
    }
}

/// A tool is known by the names of its server and its own.
pub proof fn a_tool_is_known_by_both_names(server: Seq<char>, tool: Seq<char>)
    ensures
        tool_id_of(server, tool) == "mcp_"@ + server + "_"@ + tool,
{
}

/// A schema without properties is given none; one with properties stays, and every other
/// member stays in any case.
pub proof fn a_schema_always_has_properties(es: Seq<(Seq<char>, JsonView)>, other: Seq<char>)
    ensures
        crate::json::lookup(es, "properties"@) is None || crate::json::lookup(es, "properties"@)
            == Some(JsonView::Null) ==> crate::json::lookup(with_properties(es), "properties"@)
            == Some(JsonView::Object(Seq::empty())),
        crate::json::lookup(es, "properties"@) is Some && crate::json::lookup(es, "properties"@)
            != Some(JsonView::Null) ==> with_properties(es) == es,
        other != "properties"@ ==> crate::json::lookup(with_properties(es), other)
            == crate::json::lookup(es, other),
{
    crate::json::setting_a_member_sets_only_it(
        es,
        "properties"@,
        JsonView::Object(Seq::empty()),
        other,
    );
}

/// The text of a result is its texts, one below the other; other content adds nothing.
pub proof fn a_result_is_its_texts(content: Seq<McpContent>, next: McpContent)
    ensures
        content_text(Seq::<McpContent>::empty()).len() == 0,
        match next {
            McpContent::Text(t) => {
                &&& content_text(content).len() == 0 ==> content_text(content.push(next)) == t@
                &&& content_text(content).len() > 0 ==> content_text(content.push(next))
                    == content_text(content) + seq!['\n'] + t@
            },
            _ => content_text(content.push(next)) == content_text(content),
        },
{
    assert(content.push(next).drop_last() =~= content);
    match next {
        McpContent::Text(t) => {
            assert(content_text(content).push('\n') + t@ =~= content_text(content) + seq!['\n']
                + t@);
        },
        _ => {},
    }
}

} // verus!
