use agent_runtime::process::child::{Child, ProcessGroup, ProcessTree, TreeKill};
use agent_runtime::stdio_transport::{
    LinePump, MessageWriter, ModelContextServerBinary, PumpAction, PumpEvent, ReapAction,
    ReapEvent, ReapOutcome, Reaper, ServerStatus, StdioTransport, WriterAction, WriterEvent,
    REAP_ATTEMPTS, REAP_POLL_INTERVAL,
};

#[test]
fn lines_are_passed_on_until_the_stream_ends() {
    let mut pump = LinePump::handle_input();
    for line in ["one\n", "two\r\n", "\n"] {
        assert_eq!(pump.action(), PumpAction::ReadLine);
        pump.step(PumpEvent::Read(Some(line.to_string())));
        assert_eq!(pump.action(), PumpAction::Send(line.to_string()));
        pump.step(PumpEvent::Sent(true));
    }
    pump.step(PumpEvent::Read(Some(String::new())));
    assert_eq!(pump.action(), PumpAction::SignalClosed);
    pump.step(PumpEvent::Signalled);
    assert_eq!(pump.action(), PumpAction::Stop);
    pump.step(PumpEvent::Read(Some("late\n".to_string())));
    assert_eq!(pump.action(), PumpAction::Stop);
}

#[test]
fn pumps_end_where_nobody_listens_or_reading_fails() {
    let mut pump = LinePump::handle_err();
    pump.step(PumpEvent::Read(None));
    assert_eq!(pump.action(), PumpAction::Stop);

    let mut pump = LinePump::handle_input();
    pump.step(PumpEvent::Read(Some("x\n".to_string())));
    pump.step(PumpEvent::Sent(false));
    assert_eq!(pump.action(), PumpAction::SignalClosed);

    let mut pump = LinePump::handle_err();
    pump.step(PumpEvent::Sent(false));
    assert_eq!(pump.action(), PumpAction::ReadLine);
}

#[test]
fn messages_are_framed_by_lines() {
    let mut writer = MessageWriter::handle_output();
    let mut written = String::new();
    let mut flushed = Vec::new();
    let mut messages = vec!["first", "second"].into_iter();
    let result = loop {
        match writer.action() {
            WriterAction::Receive => {
                let message = messages.next().map(|message| message.to_string());
                writer.step(WriterEvent::Received(message));
            }
            WriterAction::Write(text) => {
                written.push_str(&text);
                writer.step(WriterEvent::Done(Ok(())));
            }
            WriterAction::WriteNewline => {
                written.push('\n');
                writer.step(WriterEvent::Done(Ok(())));
            }
            WriterAction::Flush => {
                flushed.push(written.clone());
                writer.step(WriterEvent::Done(Ok(())));
            }
            WriterAction::Finish(result) => break result,
        }
    };
    assert_eq!(result, Ok(()));
    assert_eq!(flushed, vec!["first\n", "first\nsecond\n"]);
}

#[test]
fn writers_end_with_the_first_failure() {
    for steps_before in 0..3 {
        let mut writer = MessageWriter::handle_output();
        writer.step(WriterEvent::Received(Some("m".to_string())));
        for _ in 0..steps_before {
            writer.step(WriterEvent::Done(Ok(())));
        }
        writer.step(WriterEvent::Done(Err("closed".to_string())));
        assert_eq!(writer.action(), WriterAction::Finish(Err("closed".to_string())));
    }
}

#[test]
fn server_that_exits_on_its_own_is_reaped() {
    let mut reaper = Reaper::reap_after_exit();
    assert_eq!(reaper.action(), ReapAction::AwaitStdoutClosed);
    reaper = reaper.step(ReapEvent::StdoutClosed(true));
    for _ in 0..3 {
        assert_eq!(reaper.action(), ReapAction::Poll);
        reaper = reaper.step(ReapEvent::Status(ServerStatus::Running));
        assert_eq!(reaper.action(), ReapAction::Sleep(REAP_POLL_INTERVAL));
        reaper = reaper.step(ReapEvent::Elapsed);
    }
    reaper = reaper.step(ReapEvent::Status(ServerStatus::Exited));
    assert_eq!(reaper.action(), ReapAction::Finish(ReapOutcome::Collected));
}

#[test]
fn reaping_is_given_up_after_so_many_looks() {
    let mut reaper = Reaper::reap_after_exit().step(ReapEvent::StdoutClosed(true));
    let mut looks = 0;
    while reaper.action() == ReapAction::Poll {
        looks += 1;
        reaper = reaper.step(ReapEvent::Status(ServerStatus::Running));
        reaper = reaper.step(ReapEvent::Elapsed);
    }
    assert_eq!(looks, REAP_ATTEMPTS);
    assert_eq!(reaper.action(), ReapAction::Finish(ReapOutcome::GaveUp));
    assert_eq!(REAP_ATTEMPTS as u64 * REAP_POLL_INTERVAL, 10_000_000_000);
}

#[test]
fn reaping_ends_where_nothing_can_be_found_out() {
    let reaper = Reaper::reap_after_exit().step(ReapEvent::StdoutClosed(false));
    assert_eq!(reaper.action(), ReapAction::Finish(ReapOutcome::Abandoned));
    let reaper = Reaper::reap_after_exit()
        .step(ReapEvent::StdoutClosed(true))
        .step(ReapEvent::Status(ServerStatus::Unknown));
    assert_eq!(reaper.action(), ReapAction::Finish(ReapOutcome::Failed));
}

#[test]
fn servers_are_launched_as_configured() {
    let binary = ModelContextServerBinary {
        executable: "sh".to_string(),
        args: vec!["-c".to_string(), "exit 0".to_string()],
        env: None,
        timeout: None,
    };
    let (transport, launch) = StdioTransport::new(binary, &None);
    assert_eq!(launch.program, "sh");
    assert_eq!(launch.args, vec!["-c", "exit 0"]);
    assert!(launch.env.is_empty());
    assert_eq!(launch.current_dir, None);
    assert_eq!(transport.output.action(), WriterAction::Receive);
    assert_eq!(transport.input.action(), PumpAction::ReadLine);
    assert_eq!(transport.errors.action(), PumpAction::ReadLine);
    assert_eq!(transport.exit_watch.action(), ReapAction::AwaitStdoutClosed);

    let binary = ModelContextServerBinary {
        executable: "node".to_string(),
        args: vec![],
        env: Some(vec![("A".to_string(), "1".to_string())]),
        timeout: Some(5),
    };
    let (_, launch) = StdioTransport::new(binary, &Some("/work".to_string()));
    assert_eq!(launch.env, vec![("A".to_string(), "1".to_string())]);
    assert_eq!(launch.current_dir, Some("/work".to_string()));
}

#[test]
fn servers_are_killed_with_their_transport() {
    let binary = ModelContextServerBinary {
        executable: "server".to_string(),
        args: vec![],
        env: None,
        timeout: None,
    };
    let (_, launch) = StdioTransport::new(binary, &None);
    let tree = ProcessTree::Session(ProcessGroup::new());
    let mut server = Child::spawn(tree, Ok(5), &launch.program).ok().unwrap();
    assert!(matches!(StdioTransport::close(&mut server), TreeKill::CloseLifeline));
}

#[test]
fn lines_are_taken_in_order_until_the_end() {
    // What is read, whether lines are taken, and what is passed on and taken.
    let line = |text: &str| Some(text.to_string());
    let cases: Vec<(Vec<Option<String>>, usize, Vec<&str>)> = vec![
        (vec![line("a\n"), line("b\n"), line(""), line("c\n")], 9, vec!["a\n", "b\n"]),
        (vec![line("a\n"), None, line("b\n")], 9, vec!["a\n"]),
        (vec![line("a\n"), line("b\n"), line("c\n")], 1, vec!["a\n"]),
        (vec![line("\n"), line("a"), line("")], 9, vec!["\n", "a"]),
        (vec![None], 9, vec![]),
    ];
    for (reads, room, expected) in cases {
        let mut reads = reads.into_iter();
        let mut taken: Vec<String> = Vec::new();
        let mut signals = 0;
        let mut pump = LinePump::handle_input();
        loop {
            let event = match pump.action() {
                PumpAction::ReadLine => PumpEvent::Read(reads.next().unwrap()),
                PumpAction::Send(line) => {
                    let fits = taken.len() < room;
                    if fits {
                        taken.push(line);
                    }
                    PumpEvent::Sent(fits)
                }
                PumpAction::SignalClosed => {
                    signals += 1;
                    PumpEvent::Signalled
                }
                PumpAction::Stop => break,
            };
            pump.step(event);
        }
        assert_eq!(taken, expected);
        assert_eq!(signals, 1);
    }
}
