use agent_client_protocol::schema::v1 as acp;
use agent_runtime::context_server_tool::{
    format_mcp_initial_title, mcp_title, mcp_tool_id, ContextServerTool, LanguageModelImage, Tool,
    ToolResponse, ToolResponseContent, ToolResultContent, ToolRun, ToolRunAction, ToolRunEvent,
    MAX_INLINE_ARG_LEN,
};
use agent_runtime::json::{complete_schema, single_string_arg};
use agent_runtime::markdown::markdown_escaped;
use agent_runtime::text::{
    ends_with, join, lines_of, same_text, split_at_each, starts_with, trim, truncate_chars,
    truncate_within_char_limit,
};

fn object(members: Vec<(&str, serde_json::Value)>) -> serde_json::Value {
    let mut map = serde_json::Map::new();
    for (name, value) in members {
        map.insert(name.to_string(), value);
    }
    serde_json::Value::Object(map)
}

fn string(text: &str) -> serde_json::Value {
    serde_json::Value::String(text.to_string())
}

fn echo_tool() -> ContextServerTool {
    ContextServerTool::new(
        "files".to_string(),
        Tool {
            name: "echo".to_string(),
            description: None,
            input_schema: serde_json::Value::Null,
        },
    )
}

#[test]
fn test_mcp_tool_id_format() {
    assert_eq!(
        mcp_tool_id("filesystem", "read_file"),
        "mcp:filesystem:read_file"
    );
    assert_eq!(
        mcp_tool_id("github", "create_issue"),
        "mcp:github:create_issue"
    );
    assert_eq!(
        mcp_tool_id("my-custom-server", "do_something"),
        "mcp:my-custom-server:do_something"
    );
    assert_eq!(mcp_tool_id("my_server", "my_tool"), "mcp:my_server:my_tool");
}

#[test]
fn different_tools_have_different_ids() {
    assert_ne!(mcp_tool_id("a", "b_c"), mcp_tool_id("a_b", "c"));
    assert_ne!(mcp_tool_id("a", "b"), mcp_tool_id("b", "a"));
}

#[test]
fn test_format_mcp_initial_title_inlines_single_string_arg() {
    let input = object(vec![("url", string("https://example.com/page"))]);
    assert_eq!(
        format_mcp_initial_title("open_url_in_browser", &input),
        "Run MCP tool `open_url_in_browser` https://example.com/page"
    );
}

#[test]
fn test_format_mcp_initial_title_no_args() {
    let input = object(vec![]);
    assert_eq!(
        format_mcp_initial_title("cleanup", &input),
        "Run MCP tool `cleanup`"
    );
}

#[test]
fn test_format_mcp_initial_title_null_input() {
    assert_eq!(
        format_mcp_initial_title("cleanup", &serde_json::Value::Null),
        "Run MCP tool `cleanup`"
    );
}

#[test]
fn test_format_mcp_initial_title_multiple_fields_falls_back() {
    let input = object(vec![("x", string("a")), ("y", string("b"))]);
    assert_eq!(
        format_mcp_initial_title("do_thing", &input),
        "Run MCP tool `do_thing`"
    );
}

#[test]
fn test_format_mcp_initial_title_non_string_field_falls_back() {
    let input = object(vec![("count", serde_json::Value::from(42))]);
    assert_eq!(
        format_mcp_initial_title("tick", &input),
        "Run MCP tool `tick`"
    );
}

#[test]
fn test_format_mcp_initial_title_truncates_long_values() {
    let long = "x".repeat(MAX_INLINE_ARG_LEN + 50);
    let input = object(vec![("q", string(&long))]);
    let title = format_mcp_initial_title("search", &input);
    assert!(
        title.ends_with('…'),
        "expected truncation ellipsis, got: {title}"
    );
    assert!(title.chars().count() < MAX_INLINE_ARG_LEN + 50);
}

#[test]
fn test_format_mcp_initial_title_escapes_markdown_in_value() {
    let input = object(vec![("q", string("**bold** _italic_"))]);
    let title = format_mcp_initial_title("search", &input);
    assert!(title.contains("\\*"), "expected \\*, got: {title}");
    assert!(title.contains("\\_"), "expected \\_, got: {title}");
    assert_eq!(
        title,
        "Run MCP tool `search` \\*\\*bold\\*\\* \\_italic\\_"
    );
}

#[test]
fn test_truncate_chars_boundary() {
    assert_eq!(truncate_chars("abc", 3), "abc");
    assert_eq!(truncate_chars("abcd", 3), "abc…");
}

#[test]
fn test_truncate_chars_handles_multibyte() {
    assert_eq!(truncate_chars("café", 4), "café");
    assert_eq!(truncate_chars("café", 3), "caf…");
}

#[test]
fn test_single_string_arg_ignores_empty_string() {
    let input = object(vec![("q", string(""))]);
    assert_eq!(single_string_arg(&input), Some(""));
}

#[test]
fn single_string_arg_needs_an_object() {
    assert_eq!(single_string_arg(&string("text")), None);
    assert_eq!(
        single_string_arg(&serde_json::Value::Array(vec![string("text")])),
        None
    );
}

#[test]
fn titles_without_an_argument() {
    assert_eq!(mcp_title("t", None), "Run MCP tool `t`");
    assert_eq!(mcp_title("t", Some("")), "Run MCP tool `t` ");
}

#[test]
fn truncation_within_a_limit_counts_the_ellipsis() {
    assert_eq!(truncate_within_char_limit("abcd", 4), "abcd");
    assert_eq!(truncate_within_char_limit("abcd", 3), "ab…");
    assert_eq!(truncate_within_char_limit("abcd", 1), "…");
    assert_eq!(truncate_within_char_limit("abcd", 0), "");
    assert_eq!(truncate_within_char_limit("", 0), "");
}

#[test]
fn white_space_is_trimmed_like_the_standard_library_does() {
    for text in ["", "  ", "a", " a\u{3000}b\t\r\n", "\u{a0}x\u{2029}", "\u{200b}y\u{200b}"] {
        assert_eq!(trim(text), text.trim());
        assert_eq!(trim(trim(text)), trim(text));
    }
}

#[test]
fn lines_and_parts_are_those_of_the_standard_library() {
    for text in ["", "\n", "a", "a\n", "a\r\nb", "a\n\nb\r", "\r\n\r\n", "é\nß\n"] {
        let expected: Vec<String> = text.lines().map(|line| line.to_string()).collect();
        assert_eq!(lines_of(text), expected);
        let parts: Vec<String> = text.split('\n').map(|part| part.to_string()).collect();
        assert_eq!(split_at_each(text, '\n'), parts);
        assert_eq!(join(&parts, "\n"), text);
    }
}

#[test]
fn texts_are_compared_by_their_characters() {
    assert!(same_text("é", "é"));
    assert!(!same_text("é", "e"));
    assert!(!same_text("ab", "a"));
    assert!(starts_with("0::/a", "0::"));
    assert!(!starts_with("0:", "0::"));
    assert!(ends_with("zed.service", ".service"));
    assert!(ends_with("x", ""));
    assert!(!ends_with("scope", ".scope"));
}

#[test]
fn markdown_is_escaped() {
    assert_eq!(markdown_escaped("plain text."), "plain text.");
    assert_eq!(markdown_escaped("<b>&`\\"), "&lt;b&gt;\\&\\`\\\\");
    assert_eq!(markdown_escaped("# a + b = c - d"), "\\# a \\+ b \\= c \\- d");
}

#[test]
fn blank_schemas_are_completed() {
    let completed = object(vec![
        ("type", string("object")),
        ("properties", serde_json::Value::Array(vec![])),
    ]);
    assert_eq!(complete_schema(serde_json::Value::Null), completed);
    assert_eq!(complete_schema(object(vec![])), completed);
    let schema = object(vec![("type", string("string"))]);
    assert_eq!(complete_schema(schema.clone()), schema);
    assert_eq!(complete_schema(string("")), string(""));
    assert_eq!(
        complete_schema(serde_json::Value::Array(vec![])),
        serde_json::Value::Array(vec![])
    );
}

#[test]
fn tools_describe_themselves() {
    let tool = ContextServerTool::new(
        "files".to_string(),
        Tool {
            name: "echo".to_string(),
            description: Some("Says it again".to_string()),
            input_schema: serde_json::Value::Null,
        },
    );
    assert_eq!(tool.name(), "echo");
    assert_eq!(tool.description(), "Says it again");
    assert_eq!(echo_tool().description(), "");
    assert_eq!(
        tool.initial_title(&object(vec![("path", string("a/b"))])),
        "Run MCP tool `echo` a/b"
    );
    let authorization = tool.authorization();
    assert_eq!(authorization.title, "Run MCP tool `echo`");
    assert_eq!(authorization.tool_id, "mcp:files:echo");
    assert_eq!(authorization.display_name, "echo");
    assert_eq!(
        tool.input_schema(Err("unsupported".to_string())),
        Err("unsupported".to_string())
    );
    assert_eq!(
        tool.input_schema(Ok(object(vec![("type", string("object"))]))),
        Ok(object(vec![("type", string("object"))]))
    );
}

fn run_until_called(input: serde_json::Value) -> (ToolRun, ToolRunAction) {
    let tool = echo_tool();
    let (run, action) = ToolRun::new().step(&tool, ToolRunEvent::Input(Ok(input)));
    assert!(matches!(action, ToolRunAction::AwaitAuthorization));
    let (run, action) = run.step(&tool, ToolRunEvent::Authorized(Ok(())));
    assert!(matches!(action, ToolRunAction::FindServer));
    run.step(&tool, ToolRunEvent::Server(Ok(true)))
}

fn failure(action: ToolRunAction) -> String {
    match action {
        ToolRunAction::Fail(message) => message,
        _ => panic!("the call should have failed"),
    }
}

#[test]
fn calls_pass_their_arguments_on() {
    let input = object(vec![("b", string("1")), ("a", serde_json::Value::Null)]);
    match run_until_called(input).1 {
        ToolRunAction::CallTool { name, arguments } => {
            assert_eq!(name, "echo");
            assert_eq!(
                arguments,
                Some(vec![
                    ("b".to_string(), string("1")),
                    ("a".to_string(), serde_json::Value::Null)
                ])
            );
        }
        _ => panic!("the tool should be called"),
    }
    match run_until_called(string("no object")).1 {
        ToolRunAction::CallTool { arguments, .. } => assert_eq!(arguments, None),
        _ => panic!("the tool should be called"),
    }
}

#[test]
fn calls_fail_where_they_cannot_go_on() {
    let tool = echo_tool();
    let (run, action) = ToolRun::new().step(&tool, ToolRunEvent::Input(Err("no input".into())));
    assert_eq!(failure(action), "no input");
    let (_, action) = run.step(&tool, ToolRunEvent::Authorized(Ok(())));
    assert!(matches!(action, ToolRunAction::Wait));

    let null = serde_json::Value::Null;
    let (run, _) = ToolRun::new().step(&tool, ToolRunEvent::Input(Ok(null.clone())));
    let (_, action) = run.step(&tool, ToolRunEvent::Authorized(Err("denied".into())));
    assert_eq!(failure(action), "denied");

    let (run, _) = ToolRun::new().step(&tool, ToolRunEvent::Input(Ok(null.clone())));
    let (run, _) = run.step(&tool, ToolRunEvent::Authorized(Ok(())));
    let (_, action) = run.step(&tool, ToolRunEvent::Server(Ok(false)));
    assert_eq!(failure(action), "Context server not initialized");

    let (run, _) = ToolRun::new().step(&tool, ToolRunEvent::Input(Ok(null.clone())));
    let (run, _) = run.step(&tool, ToolRunEvent::Authorized(Ok(())));
    let (_, action) = run.step(&tool, ToolRunEvent::Server(Err("gone".into())));
    assert_eq!(failure(action), "gone");

    let (run, _) = run_until_called(null.clone());
    let (_, action) = run.step(&tool, ToolRunEvent::CancelledByUser);
    assert_eq!(failure(action), "MCP tool cancelled by user");

    let (run, _) = run_until_called(null.clone());
    let (_, action) = run.step(&tool, ToolRunEvent::Response(Err("broken pipe".into())));
    assert_eq!(failure(action), "broken pipe");

    let (run, _) = run_until_called(null);
    let response = ToolResponse {
        content: vec![
            ToolResponseContent::Text { text: "it ".into() },
            ToolResponseContent::Audio,
            ToolResponseContent::Text { text: "failed".into() },
        ],
        is_error: Some(true),
    };
    let (_, action) = run.step(&tool, ToolRunEvent::Response(Ok(response)));
    assert_eq!(failure(action), "it failed");
}

#[test]
fn no_tool_is_called_before_the_user_agreed() {
    let tool = echo_tool();
    let (run, action) = ToolRun::new().step(&tool, ToolRunEvent::Server(Ok(true)));
    assert!(matches!(action, ToolRunAction::Wait));
    let (run, _) = run.step(&tool, ToolRunEvent::Input(Ok(serde_json::Value::Null)));
    let (_, action) = run.step(&tool, ToolRunEvent::Server(Ok(true)));
    assert!(matches!(action, ToolRunAction::Wait));
}

fn shown_text(text: &str) -> acp::ToolCallContent {
    acp::ToolCallContent::Content(acp::Content::new(acp::ContentBlock::Text(
        acp::TextContent::new(text),
    )))
}

fn shown_image(data: &str, mime_type: &str) -> acp::ToolCallContent {
    acp::ToolCallContent::Content(acp::Content::new(acp::ContentBlock::Image(
        acp::ImageContent::new(data, mime_type),
    )))
}

#[test]
fn responses_are_collected_in_full() {
    let tool = echo_tool();
    let (run, _) = run_until_called(serde_json::Value::Null);
    let response = ToolResponse {
        content: vec![
            ToolResponseContent::Text { text: "one".into() },
            ToolResponseContent::Image { data: "AAAA".into(), mime_type: "image/png".into() },
            ToolResponseContent::Resource,
            ToolResponseContent::Image { data: "BBBB".into(), mime_type: "image/x".into() },
            ToolResponseContent::ResourceLink,
            ToolResponseContent::Text { text: "two".into() },
        ],
        is_error: None,
    };
    let (run, action) = run.step(&tool, ToolRunEvent::Response(Ok(response)));
    match action {
        ToolRunAction::ConvertImage { data, mime_type } => {
            assert_eq!((data.as_str(), mime_type.as_str()), ("AAAA", "image/png"));
        }
        _ => panic!("the first image should be converted"),
    }
    let image = LanguageModelImage { source: "converted".into() };
    let (run, action) = run.step(&tool, ToolRunEvent::ImageConverted(Ok(Some(image))));
    match action {
        ToolRunAction::ConvertImage { data, .. } => assert_eq!(data, "BBBB"),
        _ => panic!("the second image should be converted"),
    }
    let (run, action) = run.step(&tool, ToolRunEvent::ImageConverted(Ok(None)));
    match action {
        ToolRunAction::Succeed { output, update } => {
            assert_eq!(output.raw_output, string("onetwo"));
            assert_eq!(output.llm_output.len(), 3);
            assert!(matches!(&output.llm_output[0], ToolResultContent::Text(text) if text == "one"));
            assert!(matches!(&output.llm_output[1], ToolResultContent::Image(image)
                if image.source == "converted"));
            assert!(matches!(&output.llm_output[2], ToolResultContent::Text(text) if text == "two"));
            let expected = acp::ToolCallUpdateFields::new().content(vec![
                shown_text("one"),
                shown_image("AAAA", "image/png"),
                shown_image("BBBB", "image/x"),
                shown_text("two"),
            ]);
            assert_eq!(update, Some(expected));
        }
        _ => panic!("the call should have succeeded"),
    }
    let (_, action) = run.step(&tool, ToolRunEvent::CancelledByUser);
    assert!(matches!(action, ToolRunAction::Wait));
}

#[test]
fn responses_without_anything_to_show_send_no_update() {
    let tool = echo_tool();
    let (run, _) = run_until_called(serde_json::Value::Null);
    let response = ToolResponse { content: vec![ToolResponseContent::Audio], is_error: Some(false) };
    match run.step(&tool, ToolRunEvent::Response(Ok(response))).1 {
        ToolRunAction::Succeed { output, update } => {
            assert_eq!(output.raw_output, string(""));
            assert!(output.llm_output.is_empty());
            assert_eq!(update, None);
        }
        _ => panic!("the call should have succeeded"),
    }
}
