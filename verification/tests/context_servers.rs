use agent_runtime::context_server::{
    get_prompt, poll_context_server, restart_requested, running_context_server, search_deadline,
    ContextServerStatus, PromptsGetParams, ServerSearch, ServerSearchError, ServerSearchEvent,
    ServerSearchRun, CONTEXT_SERVER_RESTART_POLL_INTERVAL, CONTEXT_SERVER_RESTART_TIMEOUT,
};
use agent_runtime::context_server_registry::{
    ContextServerId, ContextServerRegistry, ContextServerRegistryEvent, LoadRequest, Prompt,
    RunningServer, ServerClient,
};
use agent_runtime::context_server_tool::Tool;
use agent_runtime::instructions::{
    normalize_server_instructions, render_context_server_instructions,
    CONTEXT_SERVER_INSTRUCTIONS_HEADER, MAX_CONTEXT_SERVER_INSTRUCTIONS_CHARS,
    MAX_SERVER_INSTRUCTIONS_CHARS,
};

#[test]
fn test_normalize_server_instructions_trims_and_caps_unicode() {
    assert_eq!(
        normalize_server_instructions("  use the index  "),
        Some("use the index".to_string())
    );
    assert_eq!(normalize_server_instructions(" \n "), None);

    let long = "é".repeat(MAX_SERVER_INSTRUCTIONS_CHARS + 10);
    let normalized = normalize_server_instructions(&long).expect("nonempty instructions");
    assert_eq!(normalized.chars().count(), MAX_SERVER_INSTRUCTIONS_CHARS);
    assert!(normalized.ends_with('…'));
}

#[test]
fn test_rendered_server_instructions_are_labeled_sorted_and_capped() {
    let long = "x".repeat(MAX_SERVER_INSTRUCTIONS_CHARS);
    let rendered = render_context_server_instructions(vec![
        ("z-server", long.as_str()),
        ("a-server", "first"),
        ("m-server", long.as_str()),
        ("n-server", long.as_str()),
        ("o-server", long.as_str()),
        ("p-server", long.as_str()),
    ])
    .expect("rendered instructions");

    assert!(rendered.starts_with(CONTEXT_SERVER_INSTRUCTIONS_HEADER));
    assert!(rendered.contains("untrusted"));
    assert!(
        rendered.find("### a-server").expect("a-server included")
            < rendered.find("### m-server").expect("m-server included")
    );
    assert!(rendered.chars().count() <= MAX_CONTEXT_SERVER_INSTRUCTIONS_CHARS);
    assert_eq!(rendered.chars().count(), MAX_CONTEXT_SERVER_INSTRUCTIONS_CHARS);
}

#[test]
fn instructions_that_fit_are_rendered_in_full_whatever_their_order() {
    let expected = format!("{CONTEXT_SERVER_INSTRUCTIONS_HEADER}\n\n### a\nfirst\n\n### b\nsecond");
    let forth = render_context_server_instructions(vec![("a", "first"), ("b", "second")]);
    let back = render_context_server_instructions(vec![("b", "second"), ("a", "first")]);
    assert_eq!(forth, Some(expected));
    assert_eq!(forth, back);
    assert_eq!(render_context_server_instructions(vec![]), None);
}

fn id(name: &str) -> ContextServerId {
    ContextServerId(name.to_string())
}

fn running(name: &str, tools: bool, prompts: bool, instructions: Option<&str>) -> RunningServer {
    RunningServer {
        id: id(name),
        client: Some(ServerClient {
            tools,
            prompts,
            instructions: instructions.map(|text| text.to_string()),
        }),
    }
}

fn tool(name: &str) -> Tool {
    Tool {
        name: name.to_string(),
        description: None,
        input_schema: serde_json::Value::Null,
    }
}

fn prompt(name: &str) -> Prompt {
    Prompt {
        name: name.to_string(),
        description: None,
        rest: serde_json::Value::String(format!("all about {name}")),
    }
}

#[test]
fn prompts_are_handed_on_whole() {
    let (mut registry, loads) = ContextServerRegistry::new(
        7,
        vec![RunningServer {
            id: id("s"),
            client: Some(ServerClient { tools: false, prompts: true, instructions: None }),
        }],
    );
    assert_eq!(loads, vec![LoadRequest::Prompts { server_id: id("s"), load: 0 }]);
    registry.prompts_loaded(&id("s"), 0, Some(vec![prompt("p")]));
    assert_eq!(registry.find_prompt(None, "p").unwrap().prompt, prompt("p"));
    assert_eq!(registry.prompts()[0].prompt, prompt("p"));
}

fn tool_names(registry: &ContextServerRegistry, server: &ContextServerId) -> Vec<String> {
    registry
        .tools_for_server(server)
        .iter()
        .map(|tool| tool.name())
        .collect()
}

#[test]
fn disconnected_server_keeps_tools_and_restarts_on_demand() {
    let server = id("idle-server");
    let first = running("idle-server", true, false, None);
    let (mut registry, loads) =
        ContextServerRegistry::new(7, vec![running("idle-server", true, false, None)]);
    assert_eq!(registry.server_store(), 7);
    assert_eq!(
        loads,
        vec![LoadRequest::Tools { server_id: id("idle-server"), load: 0 }]
    );
    let effects = registry.tools_loaded(&server, 0, Some(vec![tool("echo")]));
    assert!(effects.notify);
    assert_eq!(effects.events, vec![ContextServerRegistryEvent::ToolsChanged]);
    assert_eq!(registry.tools_for_server(&server).len(), 1);

    let lost = ContextServerStatus::Error("connection closed".to_string());
    let (loads, effects) = registry.handle_context_server_store_event(&server, &lost, None);
    assert!(loads.is_empty());
    assert!(effects.notify);
    assert!(effects.events.is_empty());
    assert_eq!(
        registry.tools_for_server(&server).len(),
        1,
        "disconnected server must retain its discovered tools for on-demand restart"
    );

    let mut restarts = 0;
    let (search, action) = ServerSearchRun::new().step(
        ServerSearchEvent::Looked { status: Some(lost), available: false },
        0,
    );
    if action == Some(ServerSearch::Restart) {
        restarts += 1;
    }
    let (search, action) = search.step(ServerSearchEvent::RestartRequested(Ok(())), 5);
    assert_eq!(action, Some(ServerSearch::Poll));
    let (search, action) = search.step(
        ServerSearchEvent::Looked {
            status: Some(ContextServerStatus::Starting),
            available: false,
        },
        6,
    );
    assert_eq!(
        action,
        Some(ServerSearch::Wait(CONTEXT_SERVER_RESTART_POLL_INTERVAL))
    );
    let (loads, effects) = registry.handle_context_server_store_event(
        &server,
        &ContextServerStatus::Running,
        Some(&first),
    );
    assert_eq!(
        loads,
        vec![LoadRequest::Tools { server_id: id("idle-server"), load: 1 }]
    );
    assert!(!effects.notify);
    assert_eq!(registry.tools_for_server(&server).len(), 1);
    let (_, action) = search.step(
        ServerSearchEvent::Looked {
            status: Some(ContextServerStatus::Running),
            available: true,
        },
        7,
    );
    assert_eq!(
        action,
        Some(ServerSearch::Found),
        "disconnected server should restart on demand"
    );
    assert_eq!(restarts, 1);
    registry.tools_loaded(&server, 1, Some(vec![tool("echo")]));
    assert_eq!(registry.tools_for_server(&server).len(), 1);
}

#[test]
fn tools_are_listed_by_name_and_later_ones_win() {
    let (mut registry, _) = ContextServerRegistry::new(0, vec![running("s", true, true, None)]);
    let twice = Tool {
        name: "a".to_string(),
        description: Some("later".to_string()),
        input_schema: serde_json::Value::Null,
    };
    registry.tools_loaded(&id("s"), 0, Some(vec![tool("c"), tool("a"), tool("b"), twice]));
    assert_eq!(tool_names(&registry, &id("s")), vec!["a", "b", "c"]);
    assert_eq!(registry.tools_for_server(&id("s"))[0].description(), "later");
    assert!(registry.tools_for_server(&id("other")).is_empty());
    let servers = registry.servers();
    assert_eq!(servers.len(), 1);
    assert_eq!(servers[0].0 .0, "s");
    assert_eq!(servers[0].1.len(), 3);
    assert_eq!(servers[0].1.key_at(1), "b");
}

#[test]
fn only_the_latest_answer_counts() {
    let server = running("s", true, true, None);
    let (mut registry, loads) = ContextServerRegistry::new(0, vec![running("s", true, true, None)]);
    assert_eq!(loads.len(), 2);
    assert_eq!(registry.tools_list_changed(&id("s"), Some(&server)), Some(2));
    let effects = registry.tools_loaded(&id("s"), 0, Some(vec![tool("stale")]));
    assert!(!effects.notify);
    assert!(tool_names(&registry, &id("s")).is_empty());
    registry.tools_loaded(&id("s"), 2, Some(vec![tool("fresh")]));
    registry.tools_loaded(&id("s"), 2, Some(vec![tool("again")]));
    assert_eq!(tool_names(&registry, &id("s")), vec!["fresh"]);

    registry.prompts_loaded(&id("s"), 1, Some(vec![prompt("p")]));
    assert!(registry.find_prompt(None, "p").is_some());
    assert_eq!(registry.tools_list_changed(&id("s"), Some(&server)), Some(3));
    let effects = registry.tools_loaded(&id("s"), 3, None);
    assert!(!effects.notify);
    assert!(tool_names(&registry, &id("s")).is_empty());
    assert_eq!(registry.tools_list_changed(&id("unknown"), Some(&server)), None);
}

#[test]
fn stopped_servers_are_forgotten() {
    for status in [
        ContextServerStatus::Stopped,
        ContextServerStatus::AuthRequired,
        ContextServerStatus::ClientSecretRequired,
    ] {
        let (mut registry, _) = ContextServerRegistry::new(
            0,
            vec![running("a", true, true, None), running("b", true, false, None)],
        );
        registry.tools_loaded(&id("a"), 0, Some(vec![tool("t")]));
        registry.prompts_loaded(&id("a"), 1, Some(vec![prompt("p")]));
        registry.tools_loaded(&id("b"), 2, Some(vec![tool("u")]));
        let (loads, effects) = registry.handle_context_server_store_event(&id("a"), &status, None);
        assert!(loads.is_empty());
        assert!(effects.notify);
        assert_eq!(
            effects.events,
            vec![
                ContextServerRegistryEvent::ToolsChanged,
                ContextServerRegistryEvent::PromptsChanged
            ]
        );
        assert!(tool_names(&registry, &id("a")).is_empty());
        assert_eq!(tool_names(&registry, &id("b")), vec!["u"]);
        let (_, effects) = registry.handle_context_server_store_event(&id("a"), &status, None);
        assert!(effects.notify);
        assert!(effects.events.is_empty());
    }
}

#[test]
fn servers_that_are_starting_change_nothing() {
    let (mut registry, _) = ContextServerRegistry::new(0, vec![]);
    for status in [ContextServerStatus::Starting, ContextServerStatus::Authenticating] {
        let (loads, effects) = registry.handle_context_server_store_event(&id("a"), &status, None);
        assert!(loads.is_empty());
        assert!(!effects.notify);
        assert!(registry.servers().is_empty());
    }
    let unready = RunningServer { id: id("a"), client: None };
    let (loads, _) = registry.handle_context_server_store_event(
        &id("a"),
        &ContextServerStatus::Running,
        Some(&unready),
    );
    assert!(loads.is_empty());
    assert_eq!(registry.servers().len(), 1);
}

#[test]
fn answers_of_failed_servers_are_ignored() {
    let (mut registry, _) = ContextServerRegistry::new(0, vec![running("a", true, true, None)]);
    let failed = ContextServerStatus::Error("x".to_string());
    registry.handle_context_server_store_event(&id("a"), &failed, None);
    registry.tools_loaded(&id("a"), 0, Some(vec![tool("t")]));
    registry.prompts_loaded(&id("a"), 1, Some(vec![prompt("p")]));
    assert!(tool_names(&registry, &id("a")).is_empty());
    assert!(registry.prompts().is_empty());
    let server = running("a", true, true, None);
    assert_eq!(registry.tools_list_changed(&id("a"), Some(&server)), None);
}

#[test]
fn prompts_are_found_by_server_and_by_name() {
    let (mut registry, _) = ContextServerRegistry::new(
        0,
        vec![running("a", false, true, None), running("b", false, true, None)],
    );
    registry.prompts_loaded(&id("a"), 0, Some(vec![prompt("y"), prompt("x")]));
    let effects = registry.prompts_loaded(&id("b"), 1, Some(vec![prompt("z")]));
    assert_eq!(effects.events, vec![ContextServerRegistryEvent::PromptsChanged]);
    let mut listed: Vec<(String, String)> = registry
        .prompts()
        .iter()
        .map(|prompt| (prompt.server_id.0.clone(), prompt.prompt.name.clone()))
        .collect();
    let position = |name: &str| listed.iter().position(|listed| listed.1 == name);
    assert!(position("x") < position("y"));
    listed.sort();
    assert_eq!(
        listed,
        vec![
            ("a".to_string(), "x".to_string()),
            ("a".to_string(), "y".to_string()),
            ("b".to_string(), "z".to_string())
        ]
    );
    assert_eq!(registry.find_prompt(None, "z").unwrap().server_id, id("b"));
    assert!(registry.find_prompt(Some(&id("a")), "z").is_none());
    assert!(registry.find_prompt(Some(&id("b")), "z").is_some());
    assert!(registry.find_prompt(Some(&id("c")), "z").is_none());
    assert!(registry.find_prompt(None, "w").is_none());
}

#[test]
fn instructions_are_rendered_for_all_servers() {
    let (registry, _) = ContextServerRegistry::new(
        0,
        vec![
            running("b", false, false, Some("  be brief ")),
            running("c", false, false, Some("   ")),
            running("a", false, false, Some("ask first")),
            running("d", false, false, None),
        ],
    );
    assert_eq!(
        registry.rendered_instructions(),
        Some(format!(
            "{CONTEXT_SERVER_INSTRUCTIONS_HEADER}\n\n### a\nask first\n\n### b\nbe brief"
        ))
    );
    let (registry, _) = ContextServerRegistry::new(0, vec![running("d", true, true, None)]);
    assert_eq!(registry.rendered_instructions(), None);
}

#[test]
fn searches_begin_by_status() {
    let begin = |status: Option<ContextServerStatus>, available: bool| {
        running_context_server(&status, available)
    };
    assert_eq!(begin(Some(ContextServerStatus::Running), true), ServerSearch::Found);
    assert_eq!(
        begin(Some(ContextServerStatus::Running), false),
        ServerSearch::Fail(ServerSearchError::Unavailable)
    );
    assert_eq!(
        begin(Some(ContextServerStatus::Error("x".into())), true),
        ServerSearch::Restart
    );
    assert_eq!(begin(Some(ContextServerStatus::Starting), true), ServerSearch::Poll);
    assert_eq!(
        begin(Some(ContextServerStatus::Stopped), false),
        ServerSearch::Fail(ServerSearchError::IsStopped)
    );
    for status in [
        ContextServerStatus::AuthRequired,
        ContextServerStatus::ClientSecretRequired,
        ContextServerStatus::Authenticating,
    ] {
        assert_eq!(
            begin(Some(status), false),
            ServerSearch::Fail(ServerSearchError::AuthenticationRequired)
        );
    }
    assert_eq!(begin(None, true), ServerSearch::Fail(ServerSearchError::NotFound));
    assert_eq!(
        restart_requested(Err("no such server".into())),
        ServerSearch::Fail(ServerSearchError::CannotRestart("no such server".into()))
    );
}

#[test]
fn searches_go_on_until_the_deadline() {
    let deadline = search_deadline(100);
    assert_eq!(deadline, 100 + CONTEXT_SERVER_RESTART_TIMEOUT);
    let look = |status: Option<ContextServerStatus>, now: u64| {
        poll_context_server(&status, false, now, deadline)
    };
    assert_eq!(
        look(Some(ContextServerStatus::Starting), deadline - 1),
        ServerSearch::Wait(CONTEXT_SERVER_RESTART_POLL_INTERVAL)
    );
    assert_eq!(
        look(Some(ContextServerStatus::Starting), deadline),
        ServerSearch::Fail(ServerSearchError::TimedOut)
    );
    assert_eq!(
        look(Some(ContextServerStatus::Error("boom".into())), 0),
        ServerSearch::Fail(ServerSearchError::FailedToRestart("boom".into()))
    );
    assert_eq!(
        look(Some(ContextServerStatus::Stopped), 0),
        ServerSearch::Fail(ServerSearchError::Stopped)
    );
    assert_eq!(
        look(Some(ContextServerStatus::Running), 0),
        ServerSearch::Fail(ServerSearchError::Unavailable)
    );
    assert_eq!(
        look(Some(ContextServerStatus::Authenticating), 0),
        ServerSearch::Fail(ServerSearchError::AuthenticationRequired)
    );
    assert_eq!(look(None, 0), ServerSearch::Fail(ServerSearchError::NotFound));
    assert_eq!(
        poll_context_server(&None, true, u64::MAX, deadline),
        ServerSearch::Found
    );
}

#[test]
fn search_errors_are_reported_in_words() {
    let messages = [
        (ServerSearchError::NotFound, "Context server not found"),
        (ServerSearchError::IsStopped, "Context server is stopped"),
        (ServerSearchError::Stopped, "Context server stopped"),
        (
            ServerSearchError::AuthenticationRequired,
            "Context server requires authentication",
        ),
        (
            ServerSearchError::Unavailable,
            "Context server is marked running but is unavailable",
        ),
        (ServerSearchError::CannotRestart("why".into()), "why"),
        (
            ServerSearchError::FailedToRestart("why".into()),
            "Context server failed to restart: why",
        ),
        (ServerSearchError::TimedOut, "Timed out restarting context server"),
    ];
    for (error, message) in messages {
        assert_eq!(error.message(), message);
    }
}

#[test]
fn prompts_are_asked_for_with_their_arguments() {
    assert_eq!(
        get_prompt(Ok(true), "greet", vec![]),
        Ok(PromptsGetParams { name: "greet".into(), arguments: None })
    );
    let arguments = vec![("who".to_string(), "you".to_string())];
    assert_eq!(
        get_prompt(Ok(true), "greet", arguments.clone()),
        Ok(PromptsGetParams { name: "greet".into(), arguments: Some(arguments) })
    );
    assert_eq!(
        get_prompt(Ok(false), "greet", vec![]),
        Err("Context server not initialized".to_string())
    );
    assert_eq!(
        get_prompt(Err(ServerSearchError::TimedOut), "greet", vec![]),
        Err("Timed out restarting context server".to_string())
    );
}

#[test]
fn searches_look_a_bounded_number_of_times() {
    let mut now = 0;
    let mut event = ServerSearchEvent::Looked {
        status: Some(ContextServerStatus::Starting),
        available: false,
    };
    let mut search = ServerSearchRun::new();
    let mut waits = 0;
    loop {
        let (next, action) = search.step(event, now);
        search = next;
        match action {
            Some(ServerSearch::Poll) => {}
            Some(ServerSearch::Wait(interval)) => {
                waits += 1;
                now += interval;
            }
            Some(ServerSearch::Fail(error)) => {
                assert_eq!(error, ServerSearchError::TimedOut);
                break;
            }
            action => panic!("unexpected action: {action:?}"),
        }
        event = ServerSearchEvent::Looked {
            status: Some(ContextServerStatus::Starting),
            available: false,
        };
    }
    assert_eq!(waits, CONTEXT_SERVER_RESTART_TIMEOUT / CONTEXT_SERVER_RESTART_POLL_INTERVAL);
}

#[test]
fn rendered_instructions_do_not_depend_on_who_came_first() {
    let servers = |names: [&str; 3]| {
        let running = names
            .iter()
            .map(|name| running(name, false, false, Some(&format!("text of {name}"))))
            .collect();
        ContextServerRegistry::new(0, running).0.rendered_instructions()
    };
    assert_eq!(servers(["a", "b", "c"]), servers(["c", "a", "b"]));
    assert!(servers(["a", "b", "c"]).unwrap().ends_with("### c\ntext of c"));
}
