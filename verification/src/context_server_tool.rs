//! The tools of context servers: how they are named and titled, and how one
//! of their calls runs.
//!
//! A call alternates between waiting and deciding. [`ToolRun`] holds how far it
//! has come; each step takes what was waited for and says what to do next.

use crate::json::{
    complete_schema, is_blank_schema, is_empty_object_schema, json_into_members, json_members,
    json_string, json_text, member_models, only_text, single_string_arg,
};
use crate::markdown::{escaped, markdown_escaped};
use crate::text::{truncate_chars, truncated};
use crate::tool_content::{
    content_update, image_block, text_block, tool_call_image, tool_call_text, tool_call_update,
};
use agent_client_protocol::schema::v1 as acp;
use vstd::prelude::*;

verus! {

/// How many characters of an argument are shown in the title of a call.
pub const MAX_INLINE_ARG_LEN: usize = 120;

/// The identifier by which settings refer to a tool.
pub open spec fn tool_id(server_id: Seq<char>, tool_name: Seq<char>) -> Seq<char> {
    "mcp:"@ + server_id + ":"@ + tool_name
}

/// The identifier by which settings refer to a tool, `mcp:<server>:<tool>`.
/// No built-in tool has such an identifier.
pub fn mcp_tool_id(server_id: &str, tool_name: &str) -> (r: String)
    ensures
        r@ == tool_id(server_id@, tool_name@),
{
    let mut id = "mcp:".to_owned();
    id.append(server_id);
    id.append(":");
    id.append(tool_name);
    id
}

/// Different tools have different identifiers, as long as the identifiers of
/// their servers hold no colon.
pub proof fn tool_ids_are_distinct(
    server: Seq<char>,
    tool: Seq<char>,
    other_server: Seq<char>,
    other_tool: Seq<char>,
)
    requires
        !server.contains(':'),
        !other_server.contains(':'),
        tool_id(server, tool) == tool_id(other_server, other_tool),
    ensures
        server == other_server,
        tool == other_tool,
{
    reveal_strlit("mcp:");
    reveal_strlit(":");
    let id = tool_id(server, tool);
    let other = tool_id(other_server, other_tool);
    assert(id[4int + server.len()] == ':');
    assert(other[4int + other_server.len()] == ':');
    if server.len() < other_server.len() {
        assert(other[4int + server.len()] == other_server[server.len() as int]);
    } else if other_server.len() < server.len() {
        assert(id[4int + other_server.len()] == server[other_server.len() as int]);
    }
    assert forall|i: int| 0 <= i < server.len() implies server[i] == other_server[i] by {
        assert(id[4 + i] == server[i]);
        assert(other[4 + i] == other_server[i]);
    }
    assert(server =~= other_server);
    assert(id.len() == other.len());
    assert(tool.len() == other_tool.len());
    assert forall|i: int| 0 <= i < tool.len() implies tool[i] == other_tool[i] by {
        assert(id[5 + server.len() + i] == tool[i]);
        assert(other[5 + server.len() + i] == other_tool[i]);
    }
    assert(tool =~= other_tool);
}

/// The title of a call: the name of the tool, and its only argument where that
/// is a text, cut short and written so that it appears literally.
pub open spec fn title(tool_name: Seq<char>, argument: Option<Seq<char>>) -> Seq<char> {
    match argument {
        Some(text) => "Run MCP tool `"@ + tool_name + "` "@ + escaped(
            truncated(text, MAX_INLINE_ARG_LEN as nat),
        ),
        None => "Run MCP tool `"@ + tool_name + "`"@,
    }
}

/// The title of a call with this argument to show.
pub fn mcp_title(tool_name: &str, argument: Option<&str>) -> (r: String)
    ensures
        r@ == title(
            tool_name@,
            match argument {
                Some(text) => Some(text@),
                None => None,
            },
        ),
{
    let mut out = "Run MCP tool `".to_owned();
    out.append(tool_name);
    match argument {
        Some(value) => {
            let preview = truncate_chars(value, MAX_INLINE_ARG_LEN);
            out.append("` ");
            out.append(markdown_escaped(preview.as_str()).as_str());
        },
        None => {
            out.append("`");
        },
    }
    out
}

/// The title of a call with this input. Where the input is an object with a
/// text as its only member, that text is shown after the name of the tool; for
/// every other input the name stands alone.
pub fn format_mcp_initial_title(tool_name: &str, input: &serde_json::Value) -> (r: String)
    ensures
        r@ == title(tool_name@, only_text(*input)),
{
    mcp_title(tool_name, single_string_arg(input))
}

/// What a context server says of a tool.
pub struct Tool {
    pub name: String,
    pub description: Option<String>,
    pub input_schema: serde_json::Value,
}

/// A tool of a context server.
pub struct ContextServerTool {
    /// The identifier of the server.
    pub server_id: String,
    pub tool: Tool,
}

/// What the user is asked before a tool is called.
pub struct ToolAuthorization {
    pub title: String,
    pub tool_id: String,
    pub display_name: String,
}

impl ContextServerTool {
    /// A tool of a server.
    pub fn new(server_id: String, tool: Tool) -> (r: Self)
        ensures
            r == (ContextServerTool { server_id, tool }),
    {
        ContextServerTool { server_id, tool }
    }

    /// The name that the tool is called by.
    pub fn name(&self) -> (r: String)
        ensures
            r == self.tool.name,
    {
        self.tool.name.clone()
    }

    /// What the tool is described by; nothing where the server says nothing.
    pub fn description(&self) -> (r: String)
        ensures
            r@ == (match self.tool.description {
                Some(description) => description@,
                None => Seq::empty(),
            }),
    {
        match &self.tool.description {
            Some(description) => description.clone(),
            None => String::new(),
        }
    }

    /// The title of a call with this input.
    pub fn initial_title(&self, input: &serde_json::Value) -> (r: String)
        ensures
            r@ == title(self.tool.name@, only_text(*input)),
    {
        format_mcp_initial_title(self.tool.name.as_str(), input)
    }

    /// The schema of the tool's input, from what adapting the server's schema
    /// to the format of a language model gave.
    pub fn input_schema(&self, adapted: Result<serde_json::Value, String>) -> (r: Result<
        serde_json::Value,
        String,
    >)
        ensures
            match adapted {
                Ok(schema) => {
                    &&& r is Ok
                    &&& is_blank_schema(schema) ==> is_empty_object_schema(r->Ok_0)
                    &&& !is_blank_schema(schema) ==> r->Ok_0 == schema
                },
                Err(error) => r == Err::<serde_json::Value, String>(error),
            },
    {
        match adapted {
            Ok(schema) => Ok(complete_schema(schema)),
            Err(error) => Err(error),
        }
    }

    /// What to ask the user before a call, whose input is not known yet.
    pub fn authorization(&self) -> (r: ToolAuthorization)
        ensures
            r.title@ == title(self.tool.name@, None),
            r.tool_id@ == tool_id(self.server_id@, self.tool.name@),
            r.display_name@ == self.tool.name@,
    {
        ToolAuthorization {
            title: mcp_title(self.tool.name.as_str(), None),
            tool_id: mcp_tool_id(self.server_id.as_str(), self.tool.name.as_str()),
            display_name: self.tool.name.clone(),
        }
    }
}

/// A piece of what a tool responds with.
pub enum ToolResponseContent {
    Text { text: String },
    Image { data: String, mime_type: String },
    Audio,
    Resource,
    ResourceLink,
}

/// What a tool responds with.
pub struct ToolResponse {
    pub content: Vec<ToolResponseContent>,
    /// Whether the tool says that it failed.
    pub is_error: Option<bool>,
}

/// An image as a language model takes it.
pub struct LanguageModelImage {
    pub source: String,
}

/// A piece of what the language model is told.
pub enum ToolResultContent {
    Text(String),
    Image(LanguageModelImage),
}

/// What a call comes to.
pub struct AgentToolOutput {
    /// The text of the response, as JSON.
    pub raw_output: serde_json::Value,
    /// What the language model is told.
    pub llm_output: Vec<ToolResultContent>,
}

/// What has been collected of a response.
pub struct Collected {
    /// The texts, one after the other.
    text: String,
    /// What the language model is told.
    llm_output: Vec<ToolResultContent>,
    /// What the call shows.
    shown: Vec<acp::ToolCallContent>,
}

/// The model of [`Collected`].
#[verifier::ext_equal]
pub struct CollectedModel {
    pub text: Seq<char>,
    pub llm_output: Seq<ToolResultContent>,
    pub shown: Seq<acp::ToolCallContent>,
}

impl View for Collected {
    type V = CollectedModel;

    closed spec fn view(&self) -> CollectedModel {
        CollectedModel {
            text: self.text@,
            llm_output: self.llm_output@,
            shown: self.shown@,
        }
    }
}

/// Nothing has been collected yet.
pub open spec fn nothing() -> CollectedModel {
    CollectedModel { text: Seq::empty(), llm_output: Seq::empty(), shown: Seq::empty() }
}

/// What is collected with one more piece, before an image in it is converted:
/// a text counts in every way, an image is shown, and all else is left out.
pub open spec fn with_piece(m: CollectedModel, piece: ToolResponseContent) -> CollectedModel {
    match piece {
        ToolResponseContent::Text { text } => CollectedModel {
            text: m.text + text@,
            llm_output: m.llm_output.push(ToolResultContent::Text(text)),
            shown: m.shown.push(text_block(text@)),
        },
        ToolResponseContent::Image { data, mime_type } => CollectedModel {
            shown: m.shown.push(image_block(data@, mime_type@)),
            ..m
        },
        _ => m,
    }
}

/// What is collected once an image was converted: one that could not be is
/// left out of what the language model is told.
pub open spec fn with_image(
    m: CollectedModel,
    converted: Result<Option<LanguageModelImage>, String>,
) -> CollectedModel {
    match converted {
        Ok(Some(image)) => CollectedModel {
            llm_output: m.llm_output.push(ToolResultContent::Image(image)),
            ..m
        },
        _ => m,
    }
}

/// What is collected from a response, with what converting each of its images
/// gave.
pub open spec fn collect_all(
    m: CollectedModel,
    content: Seq<ToolResponseContent>,
    converted: Seq<Result<Option<LanguageModelImage>, String>>,
) -> CollectedModel
    decreases content.len(),
{
    if content.len() == 0 {
        m
    } else if content[0] is Image {
        collect_all(
            with_image(with_piece(m, content[0]), converted[0]),
            content.drop_first(),
            converted.drop_first(),
        )
    } else {
        collect_all(with_piece(m, content[0]), content.drop_first(), converted)
    }
}

/// The texts of a response, one after the other.
pub open spec fn all_text(content: Seq<ToolResponseContent>) -> Seq<char>
    decreases content.len(),
{
    if content.len() == 0 {
        Seq::empty()
    } else {
        all_text(content.drop_last()) + (match content.last() {
            ToolResponseContent::Text { text } => text@,
            _ => Seq::empty(),
        })
    }
}

/// How far a call has come.
pub enum ToolRun {
    /// Its input is awaited.
    AwaitingInput,
    /// The user is being asked.
    AwaitingAuthorization { input: serde_json::Value },
    /// The server is being found, or started.
    AwaitingServer { input: serde_json::Value },
    /// The tool is being called.
    AwaitingResponse,
    /// An image of the response is being converted; the pieces from `next` on
    /// are still to be collected.
    ConvertingImage { content: Vec<ToolResponseContent>, next: usize, collected: Collected },
    /// It is over.
    Finished,
}

/// What a call waits for.
pub enum ToolRunEvent {
    /// Its input has come, or could not be had.
    Input(Result<serde_json::Value, String>),
    /// The user has agreed, or not.
    Authorized(Result<(), String>),
    /// The server is running, and says whether it is initialized; or there is
    /// none.
    Server(Result<bool, String>),
    /// The tool has responded, or the request failed.
    Response(Result<ToolResponse, String>),
    /// The user has cancelled the call.
    CancelledByUser,
    /// An image was converted, or cannot be.
    ImageConverted(Result<Option<LanguageModelImage>, String>),
}

/// What to do next for a call.
pub enum ToolRunAction {
    /// Go on waiting.
    Wait,
    /// Wait for the user's answer.
    AwaitAuthorization,
    /// Find the server, starting it where needed.
    FindServer,
    /// Call the tool, and wait for the response or for the user to cancel.
    CallTool { name: String, arguments: Option<Vec<(String, serde_json::Value)>> },
    /// Convert an image for the language model.
    ConvertImage { data: String, mime_type: String },
    /// The call failed.
    Fail(String),
    /// The call succeeded; where there is an update, it is to be sent.
    Succeed { output: AgentToolOutput, update: Option<acp::ToolCallUpdateFields> },
}

/// The model of [`ToolRun`].
pub enum ToolRunModel {
    AwaitingInput,
    AwaitingAuthorization { input: serde_json::Value },
    AwaitingServer { input: serde_json::Value },
    AwaitingResponse,
    ConvertingImage { content: Seq<ToolResponseContent>, next: nat, collected: CollectedModel },
    Finished,
}

/// The model of [`ToolRunAction`].
pub enum ToolRunActionModel {
    Wait,
    AwaitAuthorization,
    FindServer,
    CallTool { name: Seq<char>, arguments: Option<Seq<(Seq<char>, serde_json::Value)>> },
    ConvertImage { data: Seq<char>, mime_type: Seq<char> },
    Fail(Seq<char>),
    Succeed {
        text: Option<Seq<char>>,
        llm_output: Seq<ToolResultContent>,
        update: Option<acp::ToolCallUpdateFields>,
    },
}

impl View for ToolRun {
    type V = ToolRunModel;

    open spec fn view(&self) -> ToolRunModel {
        match self {
            ToolRun::AwaitingInput => ToolRunModel::AwaitingInput,
            ToolRun::AwaitingAuthorization { input } => ToolRunModel::AwaitingAuthorization {
                input: *input,
            },
            ToolRun::AwaitingServer { input } => ToolRunModel::AwaitingServer { input: *input },
            ToolRun::AwaitingResponse => ToolRunModel::AwaitingResponse,
            ToolRun::ConvertingImage { content, next, collected } => ToolRunModel::ConvertingImage {
                content: content@,
                next: *next as nat,
                collected: collected@,
            },
            ToolRun::Finished => ToolRunModel::Finished,
        }
    }
}

impl View for ToolRunAction {
    type V = ToolRunActionModel;

    open spec fn view(&self) -> ToolRunActionModel {
        match self {
            ToolRunAction::Wait => ToolRunActionModel::Wait,
            ToolRunAction::AwaitAuthorization => ToolRunActionModel::AwaitAuthorization,
            ToolRunAction::FindServer => ToolRunActionModel::FindServer,
            ToolRunAction::CallTool { name, arguments } => ToolRunActionModel::CallTool {
                name: name@,
                arguments: match arguments {
                    Some(members) => Some(member_models(members@)),
                    None => None,
                },
            },
            ToolRunAction::ConvertImage { data, mime_type } => ToolRunActionModel::ConvertImage {
                data: data@,
                mime_type: mime_type@,
            },
            ToolRunAction::Fail(message) => ToolRunActionModel::Fail(message@),
            ToolRunAction::Succeed { output, update } => ToolRunActionModel::Succeed {
                text: json_text(output.raw_output),
                llm_output: output.llm_output@,
                update: *update,
            },
        }
    }
}

/// Where the next image of a response is, from a position on; its end, where
/// there is none.
pub open spec fn next_image(content: Seq<ToolResponseContent>, from: int) -> int
    decreases content.len() - from,
{
    if from >= content.len() || content[from] is Image {
        from
    } else {
        next_image(content, from + 1)
    }
}

/// What is collected with the pieces from one position to another.
pub open spec fn with_pieces(
    m: CollectedModel,
    content: Seq<ToolResponseContent>,
    from: int,
    to: int,
) -> CollectedModel
    decreases to - from,
{
    if from >= to {
        m
    } else {
        with_piece(with_pieces(m, content, from, to - 1), content[to - 1])
    }
}

/// What a call that succeeded says.
pub open spec fn success(m: CollectedModel) -> ToolRunActionModel {
    ToolRunActionModel::Succeed {
        text: Some(m.text),
        llm_output: m.llm_output,
        update: if m.shown.len() == 0 {
            None
        } else {
            Some(content_update(m.shown))
        },
    }
}

/// Collecting goes on up to the next image, which is to be converted, or to
/// the end, where the call succeeds.
pub open spec fn collecting(
    content: Seq<ToolResponseContent>,
    next: int,
    m: CollectedModel,
) -> (ToolRunModel, ToolRunActionModel) {
    let at = next_image(content, next);
    let plain = with_pieces(m, content, next, at);
    if at < content.len() {
        (
            ToolRunModel::ConvertingImage {
                content,
                next: (at + 1) as nat,
                collected: with_piece(plain, content[at]),
            },
            ToolRunActionModel::ConvertImage {
                data: content[at]->data@,
                mime_type: content[at]->mime_type@,
            },
        )
    } else {
        (ToolRunModel::Finished, success(plain))
    }
}

/// A call that failed.
pub open spec fn failed(message: Seq<char>) -> (ToolRunModel, ToolRunActionModel) {
    (ToolRunModel::Finished, ToolRunActionModel::Fail(message))
}

/// How a call to a tool goes on. What it does not wait for changes nothing.
pub open spec fn run_step(run: ToolRunModel, tool_name: Seq<char>, event: ToolRunEvent) -> (
    ToolRunModel,
    ToolRunActionModel,
) {
    match (run, event) {
        (ToolRunModel::AwaitingInput, ToolRunEvent::Input(Ok(input))) => (
            ToolRunModel::AwaitingAuthorization { input },
            ToolRunActionModel::AwaitAuthorization,
        ),
        (ToolRunModel::AwaitingInput, ToolRunEvent::Input(Err(error))) => failed(error@),
        (
            ToolRunModel::AwaitingAuthorization { input },
            ToolRunEvent::Authorized(Ok(_)),
        ) => (ToolRunModel::AwaitingServer { input }, ToolRunActionModel::FindServer),
        (
            ToolRunModel::AwaitingAuthorization { .. },
            ToolRunEvent::Authorized(Err(error)),
        ) => failed(error@),
        (ToolRunModel::AwaitingServer { input }, ToolRunEvent::Server(Ok(initialized))) => if initialized {
            (
                ToolRunModel::AwaitingResponse,
                ToolRunActionModel::CallTool { name: tool_name, arguments: json_members(input) },
            )
        } else {
            failed("Context server not initialized"@)
        },
        (ToolRunModel::AwaitingServer { .. }, ToolRunEvent::Server(Err(error))) => failed(error@),
        (ToolRunModel::AwaitingResponse, ToolRunEvent::Response(Ok(response))) => if response.is_error
            == Some(true) {
            failed(all_text(response.content@))
        } else {
            collecting(response.content@, 0, nothing())
        },
        (ToolRunModel::AwaitingResponse, ToolRunEvent::Response(Err(error))) => failed(error@),
        (ToolRunModel::AwaitingResponse, ToolRunEvent::CancelledByUser) => failed(
            "MCP tool cancelled by user"@,
        ),
        (
            ToolRunModel::ConvertingImage { content, next, collected },
            ToolRunEvent::ImageConverted(converted),
        ) => collecting(content, next as int, with_image(collected, converted)),
        _ => (run, ToolRunActionModel::Wait),
    }
}

fn concatenated_text(content: &Vec<ToolResponseContent>) -> (r: String)
    ensures
        r@ == all_text(content@),
{
    let mut out = String::new();
    let mut i: usize = 0;
    while i < content.len()
        invariant
            i <= content@.len(),
            out@ == all_text(content@.take(i as int)),
        decreases content@.len() - i,
    {
        assert(content@.take(i + 1).drop_last() =~= content@.take(i as int));
        if let ToolResponseContent::Text { text } = &content[i] {
            out.append(text.as_str());
        }
        assert(out@ =~= all_text(content@.take(i + 1)));
        i = i + 1;
    }
    assert(content@.take(i as int) =~= content@);
    out
}

fn fail(message: String) -> (r: (ToolRun, ToolRunAction))
    ensures
        (r.0@, r.1@) == failed(message@),
{
    (ToolRun::Finished, ToolRunAction::Fail(message))
}

/// Collects the pieces from `next` on.
fn collect(content: Vec<ToolResponseContent>, next: usize, so_far: Collected) -> (r: (
    ToolRun,
    ToolRunAction,
))
    ensures
        (r.0@, r.1@) == collecting(content@, next as int, so_far@),
{
    let ghost start = so_far@;
    let mut collected = so_far;
    let mut at: usize = next;
    while at < content.len()
        invariant
            start == so_far@,
            next <= at,
            at <= content@.len() || at == next,
            next_image(content@, next as int) == next_image(content@, at as int),
            collected@ == with_pieces(start, content@, next as int, at as int),
        decreases content@.len() - at,
    {
        match &content[at] {
            ToolResponseContent::Text { text } => {
                collected.text.append(text.as_str());
                collected.shown.push(tool_call_text(text.clone()));
                collected.llm_output.push(ToolResultContent::Text(text.clone()));
            },
            ToolResponseContent::Image { data, mime_type } => {
                collected.shown.push(tool_call_image(data.clone(), mime_type.clone()));
                let action = ToolRunAction::ConvertImage {
                    data: data.clone(),
                    mime_type: mime_type.clone(),
                };
                return (ToolRun::ConvertingImage { content, next: at + 1, collected }, action);
            },
            _ => {},
        }
        at = at + 1;
    }
    let update = if collected.shown.len() == 0 {
        None
    } else {
        Some(tool_call_update(collected.shown))
    };
    let output = AgentToolOutput {
        raw_output: json_string(collected.text),
        llm_output: collected.llm_output,
    };
    (ToolRun::Finished, ToolRunAction::Succeed { output, update })
}

impl ToolRun {
    /// A call whose input is awaited.
    pub fn new() -> (r: Self)
        ensures
            r@ == ToolRunModel::AwaitingInput,
    {
        ToolRun::AwaitingInput
    }

    /// Goes on with a call to a tool.
    pub fn step(self, tool: &ContextServerTool, event: ToolRunEvent) -> (r: (ToolRun, ToolRunAction))
        ensures
            (r.0@, r.1@) == run_step(self@, tool.tool.name@, event),
    {
        match (self, event) {
            (ToolRun::AwaitingInput, ToolRunEvent::Input(Ok(input))) => {
                (ToolRun::AwaitingAuthorization { input }, ToolRunAction::AwaitAuthorization)
            },
            (ToolRun::AwaitingInput, ToolRunEvent::Input(Err(error))) => fail(error),
            (ToolRun::AwaitingAuthorization { input }, ToolRunEvent::Authorized(Ok(_))) => {
                (ToolRun::AwaitingServer { input }, ToolRunAction::FindServer)
            },
            (ToolRun::AwaitingAuthorization { .. }, ToolRunEvent::Authorized(Err(error))) => fail(
                error,
            ),
            (ToolRun::AwaitingServer { input }, ToolRunEvent::Server(Ok(initialized))) => {
                if initialized {
                    let arguments = json_into_members(input);
                    (
                        ToolRun::AwaitingResponse,
                        ToolRunAction::CallTool { name: tool.tool.name.clone(), arguments },
                    )
                } else {
                    fail("Context server not initialized".to_owned())
                }
            },
            (ToolRun::AwaitingServer { .. }, ToolRunEvent::Server(Err(error))) => fail(error),
            (ToolRun::AwaitingResponse, ToolRunEvent::Response(Ok(response))) => {
                let says_error = match response.is_error {
                    Some(is_error) => is_error,
                    None => false,
                };
                if says_error {
                    fail(concatenated_text(&response.content))
                } else {
                    let collected = Collected {
                        text: String::new(),
                        llm_output: Vec::new(),
                        shown: Vec::new(),
                    };
                    collect(response.content, 0, collected)
                }
            },
            (ToolRun::AwaitingResponse, ToolRunEvent::Response(Err(error))) => fail(error),
            (ToolRun::AwaitingResponse, ToolRunEvent::CancelledByUser) => fail(
                "MCP tool cancelled by user".to_owned(),
            ),
            (
                ToolRun::ConvertingImage { content, next, collected },
                ToolRunEvent::ImageConverted(converted),
            ) => {
                let mut collected = collected;
                if let Ok(Some(image)) = converted {
                    collected.llm_output.push(ToolResultContent::Image(image));
                }
                collect(content, next, collected)
            },
            (run, _) => (run, ToolRunAction::Wait),
        }
    }
}

/// How many images a response holds.
pub open spec fn image_count(content: Seq<ToolResponseContent>) -> nat
    decreases content.len(),
{
    if content.len() == 0 {
        0
    } else {
        image_count(content.drop_first()) + (if content[0] is Image {
            1nat
        } else {
            0nat
        })
    }
}

/// What a call that is collecting comes to, once its images were converted one
/// after the other.
pub open spec fn after_conversions(
    at: (ToolRunModel, ToolRunActionModel),
    tool_name: Seq<char>,
    converted: Seq<Result<Option<LanguageModelImage>, String>>,
) -> (ToolRunModel, ToolRunActionModel)
    decreases converted.len(),
{
    if converted.len() == 0 {
        at
    } else {
        after_conversions(
            run_step(at.0, tool_name, ToolRunEvent::ImageConverted(converted[0])),
            tool_name,
            converted.drop_first(),
        )
    }
}

proof fn collecting_up_to_an_image(
    content: Seq<ToolResponseContent>,
    next: int,
    m: CollectedModel,
    converted: Seq<Result<Option<LanguageModelImage>, String>>,
)
    requires
        0 <= next <= content.len(),
    ensures
        next <= next_image(content, next) <= content.len(),
        ({
            let at = next_image(content, next);
            let plain = with_pieces(m, content, next, at);
            if at < content.len() {
                &&& content[at] is Image
                &&& image_count(content.skip(next)) == image_count(content.skip(at + 1)) + 1
                &&& collect_all(m, content.skip(next), converted) == collect_all(
                    with_image(with_piece(plain, content[at]), converted[0]),
                    content.skip(at + 1),
                    converted.drop_first(),
                )
            } else {
                &&& image_count(content.skip(next)) == 0
                &&& collect_all(m, content.skip(next), converted) == plain
            }
        }),
    decreases content.len() - next,
{
    let rest = content.skip(next);
    if next < content.len() {
        assert(rest[0] == content[next]);
        assert(rest.drop_first() =~= content.skip(next + 1));
        if !(content[next] is Image) {
            let m1 = with_piece(m, content[next]);
            collecting_up_to_an_image(content, next + 1, m1, converted);
            with_pieces_from_the_front(m, content, next, next_image(content, next));
        }
    }
}

proof fn with_pieces_from_the_front(
    m: CollectedModel,
    content: Seq<ToolResponseContent>,
    from: int,
    to: int,
)
    requires
        from < to,
    ensures
        with_pieces(m, content, from, to) == with_pieces(
            with_piece(m, content[from]),
            content,
            from + 1,
            to,
        ),
    decreases to - from,
{
    if from + 1 < to {
        with_pieces_from_the_front(m, content, from, to - 1);
    } else {
        assert(with_pieces(m, content, from, from) == m);
    }
}

proof fn collecting_comes_to_an_end(
    content: Seq<ToolResponseContent>,
    next: int,
    m: CollectedModel,
    tool_name: Seq<char>,
    converted: Seq<Result<Option<LanguageModelImage>, String>>,
)
    requires
        0 <= next <= content.len(),
        image_count(content.skip(next)) == converted.len(),
    ensures
        after_conversions(collecting(content, next, m), tool_name, converted) == (
            ToolRunModel::Finished,
            success(collect_all(m, content.skip(next), converted)),
        ),
    decreases converted.len(),
{
    collecting_up_to_an_image(content, next, m, converted);
    let at = next_image(content, next);
    if at < content.len() {
        let m1 = with_image(
            with_piece(with_pieces(m, content, next, at), content[at]),
            converted[0],
        );
        collecting_comes_to_an_end(content, at + 1, m1, tool_name, converted.drop_first());
    }
}

/// A response that is no error is collected in full: once each of its images
/// was converted, the call succeeds with all of it.
pub proof fn response_is_collected_in_full(
    tool_name: Seq<char>,
    response: ToolResponse,
    converted: Seq<Result<Option<LanguageModelImage>, String>>,
)
    requires
        response.is_error != Some(true),
        image_count(response.content@) == converted.len(),
    ensures
        after_conversions(
            run_step(ToolRunModel::AwaitingResponse, tool_name, ToolRunEvent::Response(Ok(response))),
            tool_name,
            converted,
        ) == (
            ToolRunModel::Finished,
            success(collect_all(nothing(), response.content@, converted)),
        ),
{
    assert(response.content@.skip(0) =~= response.content@);
    collecting_comes_to_an_end(response.content@, 0, nothing(), tool_name, converted);
}

proof fn all_text_from_the_front(content: Seq<ToolResponseContent>)
    requires
        content.len() > 0,
    ensures
        all_text(content) == (match content[0] {
            ToolResponseContent::Text { text } => text@,
            _ => Seq::empty(),
        }) + all_text(content.drop_first()),
    decreases content.len(),
{
    let first: Seq<char> = match content[0] {
        ToolResponseContent::Text { text } => text@,
        _ => Seq::empty(),
    };
    if content.len() > 1 {
        all_text_from_the_front(content.drop_last());
        assert(content.drop_last().drop_first() =~= content.drop_first().drop_last());
        assert(all_text(content) =~= first + all_text(content.drop_first()));
    } else {
        assert(content.drop_last() =~= Seq::empty());
        assert(content.drop_first() =~= Seq::empty());
        assert(all_text(content) =~= first + all_text(content.drop_first()));
    }
}

/// The raw output of a call is the text of its response, whatever became of
/// the images.
pub proof fn raw_output_is_all_text(
    m: CollectedModel,
    content: Seq<ToolResponseContent>,
    converted: Seq<Result<Option<LanguageModelImage>, String>>,
)
    ensures
        collect_all(m, content, converted).text == m.text + all_text(content),
    decreases content.len(),
{
    if content.len() > 0 {
        all_text_from_the_front(content);
        let m1 = with_piece(m, content[0]);
        if content[0] is Image {
            raw_output_is_all_text(
                with_image(m1, converted[0]),
                content.drop_first(),
                converted.drop_first(),
            );
        } else {
            raw_output_is_all_text(m1, content.drop_first(), converted);
        }
    }
    assert(collect_all(m, content, converted).text =~= m.text + all_text(content));
}

/// How far a call has come after these events.
pub open spec fn after_events(tool_name: Seq<char>, events: Seq<ToolRunEvent>) -> ToolRunModel
    decreases events.len(),
{
    if events.len() == 0 {
        ToolRunModel::AwaitingInput
    } else {
        run_step(after_events(tool_name, events.drop_last()), tool_name, events.last()).0
    }
}

/// Whether the user agreed among these events.
pub open spec fn was_authorized(events: Seq<ToolRunEvent>) -> bool {
    exists|i: int|
        0 <= i < events.len() && (#[trigger] events[i] matches ToolRunEvent::Authorized(Ok(_)))
}

/// No tool is called before the user has agreed.
pub proof fn no_call_without_authorization(
    tool_name: Seq<char>,
    events: Seq<ToolRunEvent>,
    event: ToolRunEvent,
)
    ensures
        run_step(after_events(tool_name, events), tool_name, event).1 is CallTool
            ==> was_authorized(events),
{
    server_is_found_after_authorization(tool_name, events);
}

proof fn server_is_found_after_authorization(tool_name: Seq<char>, events: Seq<ToolRunEvent>)
    ensures
        after_events(tool_name, events) is AwaitingServer ==> was_authorized(events),
    decreases events.len(),
{
    if events.len() > 0 && after_events(tool_name, events) is AwaitingServer {
        let before = after_events(tool_name, events.drop_last());
        if before is AwaitingServer {
            server_is_found_after_authorization(tool_name, events.drop_last());
            let i = choose|i: int|
                0 <= i < events.drop_last().len() && (
                #[trigger] events.drop_last()[i] matches ToolRunEvent::Authorized(Ok(_)));
            assert(events[i] == events.drop_last()[i]);
        } else {
            assert(events[events.len() - 1] matches ToolRunEvent::Authorized(Ok(_)));
        }
    }
}

/// A call that is over stays over.
pub proof fn finished_call_stays_finished(tool_name: Seq<char>, event: ToolRunEvent)
    ensures
        run_step(ToolRunModel::Finished, tool_name, event) == (
            ToolRunModel::Finished,
            ToolRunActionModel::Wait,
        ),
{
}

/// The identifier of a tool is made of three parts, with colons between them.
pub proof fn tool_id_has_three_parts(server_id: Seq<char>, tool_name: Seq<char>)
    ensures
        tool_id(server_id, tool_name) == seq!['m', 'c', 'p'] + seq![':'] + server_id + seq![':']
            + tool_name,
{
    reveal_strlit("mcp:");
    reveal_strlit(":");
    assert("mcp:"@ =~= seq!['m', 'c', 'p'] + seq![':']);
    assert(":"@ =~= seq![':']);
}

/// A title names the tool, in backquotes. An argument follows after a blank: up
/// to a hundred and twenty characters of it as they are, and of a longer one so
/// many with an ellipsis, escaped in either case.
pub proof fn title_names_tool_and_argument(tool_name: Seq<char>, argument: Seq<char>)
    ensures
        title(tool_name, None) == "Run MCP tool "@ + seq!['`'] + tool_name + seq!['`'],
        argument.len() <= 120 ==> title(tool_name, Some(argument)) == title(tool_name, None) + seq![
            ' ',
        ] + escaped(argument),
        argument.len() > 120 ==> title(tool_name, Some(argument)) == title(tool_name, None) + seq![
            ' ',
        ] + escaped(argument.take(120).push('…')),
{
    reveal_strlit("Run MCP tool `");
    reveal_strlit("Run MCP tool ");
    reveal_strlit("` ");
    reveal_strlit("`");
    assert("Run MCP tool `"@ =~= "Run MCP tool "@ + seq!['`']);
    assert("`"@ =~= seq!['`']);
    assert("` "@ =~= seq!['`'] + seq![' ']);
    crate::text::cut_text_keeps_its_front(argument, 120, 0);
    let shown = truncated(argument, 120);
    if argument.len() > 120 {
        assert(shown =~= argument.take(120).push('…'));
    }
    assert(title(tool_name, Some(argument)) =~= title(tool_name, None) + seq![' '] + escaped(shown));
}

/// What the language model is told of a response: each text piece as it is, and
/// each image that was converted, in the order of the pieces, with what
/// converting gave for the images in turn.
pub open spec fn told(
    content: Seq<ToolResponseContent>,
    converted: Seq<Result<Option<LanguageModelImage>, String>>,
) -> Seq<ToolResultContent>
    decreases content.len(),
{
    if content.len() == 0 {
        Seq::empty()
    } else {
        let front = told(content.drop_last(), converted);
        match content.last() {
            ToolResponseContent::Text { text } => front.push(ToolResultContent::Text(text)),
            ToolResponseContent::Image { .. } => match converted[images_in(
                content.drop_last(),
            ) as int] {
                Ok(Some(image)) => front.push(ToolResultContent::Image(image)),
                _ => front,
            },
            _ => front,
        }
    }
}

/// What a response shows: each text piece and each image, in the order of the
/// pieces, whatever became of converting the images.
pub open spec fn shown_of(content: Seq<ToolResponseContent>) -> Seq<acp::ToolCallContent>
    decreases content.len(),
{
    if content.len() == 0 {
        Seq::empty()
    } else {
        let front = shown_of(content.drop_last());
        match content.last() {
            ToolResponseContent::Text { text } => front.push(text_block(text@)),
            ToolResponseContent::Image { data, mime_type } => front.push(
                image_block(data@, mime_type@),
            ),
            _ => front,
        }
    }
}

/// How many pieces of a response are images.
pub open spec fn images_in(content: Seq<ToolResponseContent>) -> nat
    decreases content.len(),
{
    if content.len() == 0 {
        0
    } else if content.last() is Image {
        images_in(content.drop_last()) + 1
    } else {
        images_in(content.drop_last())
    }
}

/// How many pieces of a response are texts.
pub open spec fn texts_in(content: Seq<ToolResponseContent>) -> nat
    decreases content.len(),
{
    if content.len() == 0 {
        0
    } else if content.last() is Text {
        texts_in(content.drop_last()) + 1
    } else {
        texts_in(content.drop_last())
    }
}

proof fn images_from_the_front(content: Seq<ToolResponseContent>)
    ensures
        image_count(content) == images_in(content),
        content.len() > 0 ==> images_in(content) == images_in(content.drop_first()) + if content[0] is Image {
            1int
        } else {
            0
        },
    decreases content.len(),
{
    if content.len() == 1 {
        assert(content.drop_first() =~= Seq::<ToolResponseContent>::empty());
        assert(content.drop_last() =~= Seq::<ToolResponseContent>::empty());
        assert(images_in(content.drop_first()) == 0);
        assert(images_in(content.drop_last()) == 0);
        assert(image_count(content.drop_first()) == 0);
    } else if content.len() > 1 {
        images_from_the_front(content.drop_first());
        images_from_the_front(content.drop_last());
        assert(content.drop_first().drop_last() =~= content.drop_last().drop_first());
    }
}

proof fn told_from_the_front(
    content: Seq<ToolResponseContent>,
    converted: Seq<Result<Option<LanguageModelImage>, String>>,
)
    requires
        content.len() > 0,
        images_in(content) <= converted.len(),
    ensures
        ({
            let rest = told(
                content.drop_first(),
                if content[0] is Image {
                    converted.drop_first()
                } else {
                    converted
                },
            );
            told(content, converted) == match content[0] {
                ToolResponseContent::Text { text } => seq![ToolResultContent::Text(text)] + rest,
                ToolResponseContent::Image { .. } => match converted[0] {
                    Ok(Some(image)) => seq![ToolResultContent::Image(image)] + rest,
                    _ => rest,
                },
                _ => rest,
            }
        }),
        shown_of(content) == match content[0] {
            ToolResponseContent::Text { text } => seq![text_block(text@)] + shown_of(
                content.drop_first(),
            ),
            ToolResponseContent::Image { data, mime_type } => seq![
                image_block(data@, mime_type@),
            ] + shown_of(content.drop_first()),
            _ => shown_of(content.drop_first()),
        },
    decreases content.len(),
{
    let rest_converted = if content[0] is Image {
        converted.drop_first()
    } else {
        converted
    };
    if content.len() == 1 {
        assert(content.drop_first() =~= Seq::<ToolResponseContent>::empty());
        assert(content.drop_last() =~= Seq::<ToolResponseContent>::empty());
        assert(images_in(content.drop_last()) == 0);
        assert(told(content.drop_last(), converted) =~= Seq::<ToolResultContent>::empty());
        assert(shown_of(content.drop_last()) =~= Seq::<acp::ToolCallContent>::empty());
        assert(told(content.drop_first(), rest_converted) =~= Seq::<ToolResultContent>::empty());
        assert(shown_of(content.drop_first()) =~= Seq::<acp::ToolCallContent>::empty());
        match content[0] {
            ToolResponseContent::Text { text } => {
                assert(told(content, converted) =~= seq![ToolResultContent::Text(text)]);
                assert(shown_of(content) =~= seq![text_block(text@)]);
            },
            ToolResponseContent::Image { data, mime_type } => {
                assert(shown_of(content) =~= seq![image_block(data@, mime_type@)]);
                if let Ok(Some(image)) = converted[0] {
                    assert(told(content, converted) =~= seq![ToolResultContent::Image(image)]);
                }
            },
            _ => {},
        }
    } else {
        let front = content.drop_last();
        assert(front.drop_first() =~= content.drop_first().drop_last());
        images_from_the_front(front);
        told_from_the_front(front, converted);
        assert(content.drop_first().last() == content.last());
        let inner = content.drop_first().drop_last();
        if content.last() is Image {
            let k = images_in(front) as int;
            let j = images_in(inner) as int;
            assert(0 <= k < converted.len());
            if content[0] is Image {
                assert(j == k - 1);
                assert(rest_converted[j] == converted[k]);
            } else {
                assert(j == k);
            }
        }
        let whole = told(content, converted);
        let rest = told(content.drop_first(), rest_converted);
        match content[0] {
            ToolResponseContent::Text { text } => {
                assert(whole =~= seq![ToolResultContent::Text(text)] + rest);
                assert(shown_of(content) =~= seq![text_block(text@)] + shown_of(
                    content.drop_first(),
                ));
            },
            ToolResponseContent::Image { data, mime_type } => {
                assert(shown_of(content) =~= seq![image_block(data@, mime_type@)] + shown_of(
                    content.drop_first(),
                ));
                if let Ok(Some(image)) = converted[0] {
                    assert(whole =~= seq![ToolResultContent::Image(image)] + rest);
                }
            },
            _ => {},
        }
    }
}

proof fn collected_is_told_and_shown(
    m: CollectedModel,
    content: Seq<ToolResponseContent>,
    converted: Seq<Result<Option<LanguageModelImage>, String>>,
)
    requires
        images_in(content) <= converted.len(),
    ensures
        collect_all(m, content, converted).llm_output == m.llm_output + told(content, converted),
        collect_all(m, content, converted).shown == m.shown + shown_of(content),
    decreases content.len(),
{
    if content.len() == 0 {
        assert(m.llm_output + told(content, converted) =~= m.llm_output);
        assert(m.shown + shown_of(content) =~= m.shown);
    } else {
        told_from_the_front(content, converted);
        images_from_the_front(content);
        let m1 = with_piece(m, content[0]);
        if content[0] is Image {
            let m2 = with_image(m1, converted[0]);
            collected_is_told_and_shown(m2, content.drop_first(), converted.drop_first());
        } else {
            collected_is_told_and_shown(m1, content.drop_first(), converted);
        }
        let all = collect_all(m, content, converted);
        assert(all.llm_output =~= m.llm_output + told(content, converted));
        assert(all.shown =~= m.shown + shown_of(content));
    }
}

/// A call that succeeds says the whole response. The language model is told
/// every text piece and every image that could be converted, in the order in
/// which the server sent them; the call shows every text piece and every image;
/// and its raw output is the texts, one after the other. Where there is nothing
/// to show, nothing is updated.
pub proof fn whole_response_is_told_and_shown(
    tool_name: Seq<char>,
    response: ToolResponse,
    converted: Seq<Result<Option<LanguageModelImage>, String>>,
)
    requires
        response.is_error != Some(true),
        images_in(response.content@) == converted.len(),
    ensures
        after_conversions(
            run_step(ToolRunModel::AwaitingResponse, tool_name, ToolRunEvent::Response(Ok(response))),
            tool_name,
            converted,
        ) == (
            ToolRunModel::Finished,
            ToolRunActionModel::Succeed {
                text: Some(all_text(response.content@)),
                llm_output: told(response.content@, converted),
                update: if shown_of(response.content@).len() == 0 {
                    None
                } else {
                    Some(content_update(shown_of(response.content@)))
                },
            },
        ),
{
    let content = response.content@;
    images_from_the_front(content);
    response_is_collected_in_full(tool_name, response, converted);
    collected_is_told_and_shown(nothing(), content, converted);
    raw_output_is_all_text(nothing(), content, converted);
    let all = collect_all(nothing(), content, converted);
    assert(all.llm_output =~= told(content, converted));
    assert(all.shown =~= shown_of(content));
    assert(all.text =~= all_text(content));
}

/// Where all pieces of a response are texts, the language model is told so many
/// pieces, each of them as it is, and all of them are shown.
pub proof fn texts_are_told_one_for_one(
    content: Seq<ToolResponseContent>,
    converted: Seq<Result<Option<LanguageModelImage>, String>>,
    i: int,
)
    requires
        forall|j: int| 0 <= j < content.len() ==> (#[trigger] content[j]) is Text,
        0 <= i < content.len(),
    ensures
        told(content, converted).len() == content.len(),
        told(content, converted)[i] == ToolResultContent::Text(content[i]->text),
        shown_of(content).len() == content.len(),
        shown_of(content)[i] == text_block(content[i]->text@),
    decreases content.len(),
{
    let front = content.drop_last();
    assert(content[content.len() - 1] is Text);
    if front.len() == 0 {
        assert(told(front, converted).len() == 0);
        assert(shown_of(front).len() == 0);
    } else {
        assert forall|j: int| 0 <= j < front.len() implies (#[trigger] front[j]) is Text by {
            assert(front[j] == content[j]);
        }
        texts_are_told_one_for_one(
            front,
            converted,
            if i < front.len() {
                i
            } else {
                0
            },
        );
        assert(front[0] == content[0]);
        if i < front.len() {
            assert(front[i] == content[i]);
        }
    }
}

/// The language model is told as many pieces as there are texts, and images
/// that were converted; what is shown is as many as there are texts and images.
pub proof fn nothing_told_is_lost(
    content: Seq<ToolResponseContent>,
    converted: Seq<Result<Option<LanguageModelImage>, String>>,
)
    requires
        images_in(content) == converted.len(),
        forall|k: int| 0 <= k < converted.len() ==> (#[trigger] converted[k]) matches Ok(Some(_)),
    ensures
        told(content, converted).len() == texts_in(content) + images_in(content),
        shown_of(content).len() == texts_in(content) + images_in(content),
    decreases content.len(),
{
    pieces_told_add_up(content, converted);
}

proof fn pieces_told_add_up(
    content: Seq<ToolResponseContent>,
    converted: Seq<Result<Option<LanguageModelImage>, String>>,
)
    requires
        images_in(content) <= converted.len(),
        forall|k: int| 0 <= k < converted.len() ==> (#[trigger] converted[k]) matches Ok(Some(_)),
    ensures
        told(content, converted).len() == texts_in(content) + images_in(content),
        shown_of(content).len() == texts_in(content) + images_in(content),
    decreases content.len(),
{
    if content.len() > 0 {
        pieces_told_add_up(content.drop_last(), converted);
        if content.last() is Image {
            let k = images_in(content.drop_last()) as int;
            assert(0 <= k < converted.len());
            assert(converted[k] matches Ok(Some(_)));
        }
    }
}

/// The text of a response is the texts of its pieces in order, with nothing
/// between them; pieces that are no text add nothing.
pub proof fn text_is_the_texts_in_order(
    content: Seq<ToolResponseContent>,
    piece: ToolResponseContent,
)
    ensures
        all_text(Seq::<ToolResponseContent>::empty()) == Seq::<char>::empty(),
        all_text(content.push(piece)) == match piece {
            ToolResponseContent::Text { text } => all_text(content) + text@,
            _ => all_text(content),
        },
{
    assert(content.push(piece).drop_last() =~= content);
    assert(all_text(content) + Seq::<char>::empty() =~= all_text(content));
}

/// A response that says that it is an error fails the call with the text of the
/// response, whatever else it holds.
pub proof fn error_response_fails_the_call(tool_name: Seq<char>, response: ToolResponse)
    requires
        response.is_error == Some(true),
    ensures
        run_step(ToolRunModel::AwaitingResponse, tool_name, ToolRunEvent::Response(Ok(response))) == (
            ToolRunModel::Finished,
            ToolRunActionModel::Fail(all_text(response.content@)),
        ),
{
}

/// With its input, the user's consent and a server that is initialized, the
/// tool is called by its name, with the members of the input as arguments; an
/// input that is no object has none.
pub proof fn call_is_made_with_the_input(tool_name: Seq<char>, input: serde_json::Value)
    ensures
        ({
            let asked = run_step(
                ToolRunModel::AwaitingInput,
                tool_name,
                ToolRunEvent::Input(Ok(input)),
            );
            let agreed = run_step(asked.0, tool_name, ToolRunEvent::Authorized(Ok(())));
            let called = run_step(agreed.0, tool_name, ToolRunEvent::Server(Ok(true)));
            &&& asked.1 is AwaitAuthorization
            &&& agreed.1 is FindServer
            &&& called.1 == (ToolRunActionModel::CallTool {
                name: tool_name,
                arguments: json_members(input),
            })
            &&& called.0 is AwaitingResponse
        }),
{
}

/// Whatever goes wrong on the way fails the call, with what went wrong: the
/// input, the consent, the server, the request. So does the user who cancels.
pub proof fn failure_on_the_way_fails_the_call(
    tool_name: Seq<char>,
    input: serde_json::Value,
    error: String,
)
    ensures
        ({
            let over = |message: Seq<char>|
                (ToolRunModel::Finished, ToolRunActionModel::Fail(message));
            let authorizing = ToolRunModel::AwaitingAuthorization { input };
            let finding = ToolRunModel::AwaitingServer { input };
            let calling = ToolRunModel::AwaitingResponse;
            &&& run_step(
                ToolRunModel::AwaitingInput,
                tool_name,
                ToolRunEvent::Input(Err(error)),
            ) == over(error@)
            &&& run_step(authorizing, tool_name, ToolRunEvent::Authorized(Err(error))) == over(
                error@,
            )
            &&& run_step(finding, tool_name, ToolRunEvent::Server(Err(error))) == over(error@)
            &&& run_step(finding, tool_name, ToolRunEvent::Server(Ok(false))) == over(
                "Context server not initialized"@,
            )
            &&& run_step(calling, tool_name, ToolRunEvent::Response(Err(error))) == over(error@)
            &&& run_step(calling, tool_name, ToolRunEvent::CancelledByUser) == over(
                "MCP tool cancelled by user"@,
            )
        }),
{
}

/// What a call does not wait for leaves it as it is, and waiting.
pub proof fn unawaited_event_changes_nothing(
    run: ToolRunModel,
    tool_name: Seq<char>,
    event: ToolRunEvent,
)
    requires
        run is AwaitingInput ==> !(event is Input),
        run is AwaitingAuthorization ==> !(event is Authorized),
        run is AwaitingServer ==> !(event is Server),
        run is AwaitingResponse ==> !(event is Response || event is CancelledByUser),
        run is ConvertingImage ==> !(event is ImageConverted),
    ensures
        run_step(run, tool_name, event) == (run, ToolRunActionModel::Wait),
{
}

/// Images are converted one by one, each before the pieces behind it are looked
/// at: the image that is handed out is the first of those that are left.
pub proof fn images_are_converted_in_turn(
    tool_name: Seq<char>,
    response: ToolResponse,
    i: int,
)
    requires
        response.is_error != Some(true),
        0 <= i < response.content@.len(),
        response.content@[i] is Image,
        forall|j: int| 0 <= j < i ==> !((#[trigger] response.content@[j]) is Image),
    ensures
        run_step(
            ToolRunModel::AwaitingResponse,
            tool_name,
            ToolRunEvent::Response(Ok(response)),
        ).1 == (ToolRunActionModel::ConvertImage {
            data: response.content@[i]->data@,
            mime_type: response.content@[i]->mime_type@,
        }),
{
    first_image_is_next(response.content@, 0, i);
}

proof fn first_image_is_next(content: Seq<ToolResponseContent>, from: int, i: int)
    requires
        0 <= from <= i < content.len(),
        content[i] is Image,
        forall|j: int| from <= j < i ==> !((#[trigger] content[j]) is Image),
    ensures
        next_image(content, from) == i,
    decreases i - from,
{
    if from < i {
        first_image_is_next(content, from + 1, i);
    }
}

/// What a call asks for is what its model says: the tool and its arguments, the
/// image that is to be converted, the message, the output.
pub proof fn asked_is_what_the_model_says(
    name: String,
    arguments: Vec<(String, serde_json::Value)>,
    data: String,
    mime_type: String,
    output: AgentToolOutput,
    update: Option<acp::ToolCallUpdateFields>,
)
    ensures
        (ToolRunAction::CallTool { name, arguments: Some(arguments) })@ matches
            ToolRunActionModel::CallTool { name: called, arguments: given } && called == name@
            && given == Some(
            arguments@.map_values(|member: (String, serde_json::Value)| (member.0@, member.1)),
        ),
        (ToolRunAction::CallTool { name, arguments: None })@ matches ToolRunActionModel::CallTool {
            arguments: given,
            ..
        } && given is None,
        (ToolRunAction::ConvertImage { data, mime_type })@ == (ToolRunActionModel::ConvertImage {
            data: data@,
            mime_type: mime_type@,
        }),
        ToolRunAction::Fail(name)@ == ToolRunActionModel::Fail(name@),
        (ToolRunAction::Succeed { output, update })@ == (ToolRunActionModel::Succeed {
            text: json_text(output.raw_output),
            llm_output: output.llm_output@,
            update,
        }),
        ToolRunAction::Wait@ is Wait,
        ToolRunAction::AwaitAuthorization@ is AwaitAuthorization,
        ToolRunAction::FindServer@ is FindServer,
{
}

} // verus!
