use agent_runtime::process::cgroup::{
    Cgroup, CgroupKill, CgroupSpawn, KillAction, KillEvent, WriteOutcome,
};
use agent_runtime::process::cgroup_location::{cgroup_name, current_cgroup_dir, find_scope_site};
use agent_runtime::process::child::{
    Child, JobStage, JoinPlan, ProcessGroup, ProcessTree, TreeKill,
};
use agent_runtime::process::command::{
    CGROUP_WATCHDOG_SCRIPT, SCOPE_HOLDER_SCRIPT, SESSION_WATCHDOG_SCRIPT,
};
use agent_runtime::process::error::ProcessError;
use agent_runtime::process::join::{write_cgroup_procs, JoinStep, PidLine, RawWrite, JOIN_MESSAGE};
use agent_runtime::process::setup::{
    Setup, SetupAction, SetupEvent, SCOPE_POLL_INTERVAL, SCOPE_TIMEOUT,
};
use agent_runtime::process::trusted_executable::{
    trusted_executable, ExecutableAction, ExecutableEvent, FileMetadata,
};
use agent_runtime::process::unix_path::{last_segment, path_below, path_up_to, strip_path};

fn message(result: Result<String, ProcessError>) -> String {
    match result {
        Ok(text) => format!("ok {text}"),
        Err(error) => error.full_message(),
    }
}

#[test]
fn paths_are_put_together_like_the_standard_library_does() {
    for base in ["", "/", "/a", "/a/", "a"] {
        for path in ["", "b", "/b", "b/c"] {
            let expected = std::path::Path::new(base).join(path);
            assert_eq!(path_below(base, path), expected.to_str().unwrap());
        }
    }
}

#[test]
fn paths_are_taken_apart_like_the_standard_library_does() {
    for path in ["/", "/a", "/a/b/", "//a//b//", "/./a/./b/.", "/a/b/..", "/a/./"] {
        let std_path = std::path::Path::new(path);
        assert_eq!(
            last_segment(path).as_deref(),
            std_path.file_name().and_then(|name| name.to_str()),
            "{path}"
        );
        assert_eq!(
            strip_path(path),
            std_path.strip_prefix("/").unwrap().to_str().unwrap(),
            "{path}"
        );
    }
    for path in ["/a/app.slice/b", "/app.slice/x/app.slice/b.scope", "/app.slice", "/a/b"] {
        let expected = std::path::Path::new(path)
            .ancestors()
            .find(|ancestor| ancestor.file_name().is_some_and(|name| name == "app.slice"))
            .and_then(|ancestor| ancestor.to_str());
        assert_eq!(path_up_to(path, "app.slice").as_deref(), expected, "{path}");
    }
}

#[test]
fn the_own_control_group_is_found() {
    assert_eq!(
        message(current_cgroup_dir("0::/user.slice/app.slice/zed.scope\n")),
        "ok /sys/fs/cgroup/user.slice/app.slice/zed.scope"
    );
    assert_eq!(
        message(current_cgroup_dir("12:cpu:/x\r\n0::/a\r\n0::/b\n")),
        "ok /sys/fs/cgroup/a"
    );
    assert_eq!(message(current_cgroup_dir("0::/")), "ok /sys/fs/cgroup/");
    assert_eq!(
        message(current_cgroup_dir("1:name=systemd:/\n")),
        "process is not in a unified cgroup v2 hierarchy"
    );
    assert_eq!(
        message(current_cgroup_dir("0::/../other\n")),
        "self cgroup path contains parent traversal"
    );
    assert_eq!(
        message(current_cgroup_dir("0::relative\n")),
        "self cgroup path is not absolute: prefix not found"
    );
    assert_eq!(
        message(current_cgroup_dir("0::/..hidden/a..b\n")),
        "ok /sys/fs/cgroup/..hidden/a..b"
    );
}

#[test]
fn control_groups_are_named_apart() {
    assert_eq!(cgroup_name(1234, 0xabcdef, 7), "zed-process-1234-abcdef-7");
    assert_eq!(
        cgroup_name(0, u128::MAX, u64::MAX),
        format!("zed-process-0-{:x}-{}", u128::MAX, u64::MAX)
    );
    assert_ne!(cgroup_name(1, 1, 11), cgroup_name(1, 11, 1));
}

#[test]
fn scopes_go_next_to_their_unit() {
    let site = find_scope_site("/sys/fs/cgroup/user/app.slice/zed.scope").unwrap();
    assert_eq!(
        site,
        ("/sys/fs/cgroup/user/app.slice".to_string(), "zed.scope".to_string())
    );
    assert!(find_scope_site("/sys/fs/cgroup/app.slice/x/y.service").is_ok());
    let error = |current: &str| find_scope_site(current).unwrap_err().full_message();
    assert_eq!(
        error("/sys/fs/cgroup/system.slice/zed.service"),
        "current cgroup is not within app.slice"
    );
    assert_eq!(
        error("/sys/fs/cgroup/app.slice/group"),
        "current cgroup is not a systemd unit"
    );
    assert_eq!(
        error("/sys/fs/cgroup/app.slice/.."),
        "current cgroup has no systemd unit name"
    );
}

const TRUSTED: FileMetadata = FileMetadata { is_file: true, uid: 0, mode: 0o100755 };

#[test]
fn executables_are_looked_for_in_order() {
    let mut search = trusted_executable("sh");
    for path in ["/bin/sh", "/usr/bin/sh"] {
        assert_eq!(search.action(), ExecutableAction::CheckFile(path.to_string()));
        search = search.step(ExecutableEvent::IsFile(false));
    }
    assert_eq!(
        search.action(),
        ExecutableAction::CheckFile("/run/current-system/sw/bin/sh".to_string())
    );
    search = search.step(ExecutableEvent::IsFile(true));
    assert_eq!(
        search.action(),
        ExecutableAction::Resolve("/run/current-system/sw/bin/sh".to_string())
    );
    search = search.step(ExecutableEvent::Resolved(Ok("/nix/store/bash".to_string())));
    assert_eq!(search.action(), ExecutableAction::Inspect("/nix/store/bash".to_string()));
    search = search.step(ExecutableEvent::Inspected(Ok(TRUSTED)));
    assert_eq!(search.action(), ExecutableAction::Found("/nix/store/bash".to_string()));
    search = search.step(ExecutableEvent::IsFile(false));
    assert_eq!(search.action(), ExecutableAction::Found("/nix/store/bash".to_string()));
}

fn search_failure(events: Vec<ExecutableEvent>) -> String {
    let mut search = trusted_executable("ps");
    for event in events {
        search = search.step(event);
    }
    match search.action() {
        ExecutableAction::Fail(error) => error.full_message(),
        action => panic!("unexpected action: {action:?}"),
    }
}

#[test]
fn executables_that_others_can_change_are_refused() {
    assert_eq!(
        search_failure(vec![
            ExecutableEvent::IsFile(false),
            ExecutableEvent::IsFile(false),
            ExecutableEvent::IsFile(false),
        ]),
        "failed to locate ps"
    );
    assert_eq!(
        search_failure(vec![
            ExecutableEvent::IsFile(true),
            ExecutableEvent::Resolved(Err("loop".to_string())),
        ]),
        "failed to resolve /bin/ps: loop"
    );
    assert_eq!(
        search_failure(vec![
            ExecutableEvent::IsFile(true),
            ExecutableEvent::Resolved(Ok("/usr/bin/ps".to_string())),
            ExecutableEvent::Inspected(Err("gone".to_string())),
        ]),
        "failed to inspect /usr/bin/ps: gone"
    );
    for metadata in [
        FileMetadata { is_file: false, ..TRUSTED },
        FileMetadata { uid: 1000, ..TRUSTED },
        FileMetadata { mode: 0o100775, ..TRUSTED },
        FileMetadata { mode: 0o100757, ..TRUSTED },
    ] {
        assert_eq!(
            search_failure(vec![
                ExecutableEvent::IsFile(true),
                ExecutableEvent::Resolved(Ok("/usr/bin/ps".to_string())),
                ExecutableEvent::Inspected(Ok(metadata)),
            ]),
            "refusing untrusted executable /usr/bin/ps"
        );
    }
}

fn text(text: &str) -> SetupEvent {
    SetupEvent::Text(Ok(text.to_string()))
}

fn done() -> SetupEvent {
    SetupEvent::Done(Ok(()))
}

fn refused(cause: &str) -> SetupEvent {
    SetupEvent::Done(Err(cause.to_string()))
}

fn located(name: &str) -> SetupEvent {
    SetupEvent::Located(Ok(format!("/bin/{name}")))
}

const NAME: &str = "zed-process-10-ff-1";

fn direct_events() -> Vec<(SetupAction, SetupEvent)> {
    let path = format!("/sys/fs/cgroup/g/{NAME}");
    vec![
        (SetupAction::ReadText("/proc/self/cgroup".into()), text("0::/g\n")),
        (
            SetupAction::CheckFile("/sys/fs/cgroup/g/cgroup.kill".into()),
            SetupEvent::Answer(true),
        ),
        (SetupAction::CreateDir(path.clone()), done()),
        (SetupAction::ReadText(format!("{path}/cgroup.type")), text("domain\n")),
        (SetupAction::OpenProcs(format!("{path}/cgroup.procs")), done()),
        (SetupAction::DuplicateProcs, done()),
        (SetupAction::CreateLifeline, done()),
        (SetupAction::Locate("sh".into()), located("sh")),
        (SetupAction::Locate("rmdir".into()), located("rmdir")),
        (SetupAction::Locate("find".into()), located("find")),
        (SetupAction::Locate("sleep".into()), located("sleep")),
    ]
}

#[test]
fn control_groups_are_set_up_directly() {
    let mut setup = Setup::spawn_direct(10, 255, 1);
    for (action, event) in direct_events() {
        assert_eq!(setup.action(), action);
        setup.step(event);
    }
    let path = format!("/sys/fs/cgroup/g/{NAME}");
    assert_eq!(setup.path(), path);
    match setup.action() {
        SetupAction::SpawnWatchdog(command) => {
            assert_eq!(command.program, "/bin/sh");
            assert_eq!(
                command.args,
                vec![
                    "-c",
                    CGROUP_WATCHDOG_SCRIPT,
                    "zed-cgroup-watchdog",
                    &path,
                    "/bin/rmdir",
                    "/bin/find",
                    "/bin/sleep"
                ]
            );
        }
        action => panic!("unexpected action: {action:?}"),
    }
    setup.step(done());
    assert_eq!(setup.action(), SetupAction::Succeed);
    setup.step(refused("late"));
    assert_eq!(setup.action(), SetupAction::Succeed);
    assert!(setup.failure().is_none());
}

/// Runs a direct setup up to a step, has that step answered otherwise, and
/// returns what is asked for then, and the error at the end.
fn direct_failure(steps: usize, event: SetupEvent) -> (SetupAction, String) {
    let mut setup = Setup::spawn_direct(10, 255, 1);
    for (_, event) in direct_events().into_iter().take(steps) {
        setup.step(event);
    }
    setup.step(event);
    let action = setup.action();
    if let SetupAction::RemoveDir(_) = &action {
        setup.step(done());
    }
    (action, setup.failure().unwrap().full_message())
}

#[test]
fn failed_direct_setups_remove_what_they_made() {
    let not_made = |steps, event| {
        let (action, error) = direct_failure(steps, event);
        assert!(matches!(action, SetupAction::Fail(_)));
        error
    };
    assert_eq!(
        not_made(0, SetupEvent::Text(Err("denied".into()))),
        "failed to read self cgroup: denied"
    );
    assert_eq!(
        not_made(0, text("")),
        "process is not in a unified cgroup v2 hierarchy"
    );
    assert_eq!(
        not_made(1, SetupEvent::Answer(false)),
        "current cgroup does not support cgroup.kill"
    );
    assert_eq!(
        not_made(2, refused("exists")),
        format!("failed to create cgroup /sys/fs/cgroup/g/{NAME}: exists")
    );
    let made = |steps, event| {
        let (action, error) = direct_failure(steps, event);
        assert_eq!(
            action,
            SetupAction::RemoveDir(format!("/sys/fs/cgroup/g/{NAME}"))
        );
        error
    };
    assert_eq!(
        made(3, SetupEvent::Text(Err("x".into()))),
        "failed to read cgroup.type: x"
    );
    assert_eq!(made(3, text(" threaded\n")), "unsupported cgroup type: threaded");
    assert_eq!(made(4, refused("x")), "failed to open cgroup.procs: x");
    assert_eq!(made(5, refused("x")), "failed to duplicate cgroup.procs: x");
    assert_eq!(made(6, refused("x")), "failed to create cgroup lifeline: x");
    let missing = ProcessError::new("failed to locate find".to_string());
    assert_eq!(made(9, SetupEvent::Located(Err(missing))), "failed to locate find");
    assert_eq!(made(11, refused("x")), "failed to spawn cgroup watchdog: x");
}

const SCOPE: &str = "/sys/fs/cgroup/app.slice/zed-process-10-ff-1.scope";

fn systemd_events() -> Vec<(SetupAction, SetupEvent)> {
    vec![
        (
            SetupAction::ReadText("/proc/self/cgroup".into()),
            text("0::/app.slice/zed.scope\n"),
        ),
        (SetupAction::Locate("systemd-run".into()), located("systemd-run")),
        (SetupAction::Locate("sh".into()), located("sh")),
        (SetupAction::Locate("sleep".into()), located("sleep")),
    ]
}

fn waiting_systemd_setup() -> Setup {
    let mut setup = Setup::spawn_systemd(10, 255, 1);
    for (action, event) in systemd_events() {
        assert_eq!(setup.action(), action);
        setup.step(event);
    }
    match setup.action() {
        SetupAction::SpawnHolder(command) => {
            assert_eq!(command.program, "/bin/systemd-run");
            assert_eq!(
                command.args,
                vec![
                    "--user",
                    "--scope",
                    "--quiet",
                    "--collect",
                    "--slice=app.slice",
                    "--unit=zed-process-10-ff-1",
                    "--property=PartOf=zed.scope",
                    "--",
                    "/bin/sh",
                    "-c",
                    SCOPE_HOLDER_SCRIPT,
                    "zed-systemd-scope-holder",
                    "/bin/sleep"
                ]
            );
        }
        action => panic!("unexpected action: {action:?}"),
    }
    setup.step(SetupEvent::Started(Ok(77)));
    assert_eq!(setup.action(), SetupAction::ReadClock);
    setup.step(SetupEvent::Clock(1_000));
    setup
}

#[test]
fn control_groups_are_set_up_by_the_service_manager() {
    let mut setup = waiting_systemd_setup();
    let members = SetupAction::ReadText(format!("{SCOPE}/cgroup.procs"));
    for answer in [SetupEvent::Text(Err("missing".into())), text("7\n770\n")] {
        assert_eq!(setup.action(), members);
        setup.step(answer);
        assert_eq!(setup.action(), SetupAction::ReadClock);
        setup.step(SetupEvent::Clock(999 + SCOPE_TIMEOUT));
        assert_eq!(setup.action(), SetupAction::Sleep(SCOPE_POLL_INTERVAL));
        setup.step(done());
    }
    assert_eq!(setup.action(), members);
    setup.step(text("12\n77\n"));
    assert_eq!(
        setup.action(),
        SetupAction::ReadText(format!("{SCOPE}/cgroup.type"))
    );
    setup.step(text("domain"));
    setup.step(done());
    setup.step(done());
    setup.step(done());
    assert_eq!(setup.action(), SetupAction::Locate("rmdir".into()));
    setup.step(located("rmdir"));
    setup.step(located("find"));
    match setup.action() {
        SetupAction::SpawnWatchdog(command) => {
            assert_eq!(command.args[2], "zed-systemd-cgroup-watchdog");
            assert_eq!(command.args[3], SCOPE);
            assert_eq!(command.args[6], "/bin/sleep");
        }
        action => panic!("unexpected action: {action:?}"),
    }
    setup.step(done());
    assert_eq!(setup.action(), SetupAction::Succeed);
    assert_eq!(setup.path(), SCOPE);
}

#[test]
fn scope_holders_are_killed_after_a_failure() {
    let mut setup = waiting_systemd_setup();
    setup.step(text(""));
    setup.step(SetupEvent::Clock(1_000 + SCOPE_TIMEOUT));
    assert_eq!(setup.action(), SetupAction::CheckExists(SCOPE.into()));
    setup.step(SetupEvent::Answer(true));
    assert_eq!(
        setup.action(),
        SetupAction::WriteText { path: format!("{SCOPE}/cgroup.kill"), text: "1".into() }
    );
    setup.step(refused("denied"));
    assert_eq!(setup.action(), SetupAction::KillGroup(77));
    setup.step(refused("no such process"));
    assert_eq!(setup.action(), SetupAction::KillHolder);
    setup.step(refused("no such process"));
    assert_eq!(
        setup.failure().unwrap().full_message(),
        "timed out waiting for transient scope holder migration"
    );

    let mut setup = waiting_systemd_setup();
    setup.step(text("77"));
    setup.step(text("threaded\n"));
    setup.step(SetupEvent::Answer(false));
    assert_eq!(setup.action(), SetupAction::KillGroup(77));
    setup.step(done());
    assert_eq!(
        setup.failure().unwrap().full_message(),
        "unsupported transient scope cgroup type: threaded"
    );
}

#[test]
fn service_manager_setups_say_why_they_failed() {
    let mut setup = Setup::spawn_systemd(10, 255, 1);
    setup.step(text("0::/elsewhere/zed.scope\n"));
    assert_eq!(
        setup.failure().unwrap().full_message(),
        "current cgroup is not within app.slice"
    );
    let mut setup = Setup::spawn_systemd(10, 255, 1);
    for (_, event) in systemd_events() {
        setup.step(event);
    }
    setup.step(SetupEvent::Started(Err("no bus".into())));
    assert_eq!(
        setup.failure().unwrap().full_message(),
        "failed to spawn systemd scope holder: no bus"
    );
    for (steps, expected) in [
        (0, "failed to open transient scope cgroup.procs: x"),
        (1, "failed to duplicate transient scope cgroup.procs: x"),
        (2, "failed to create transient scope lifeline: x"),
    ] {
        let mut setup = waiting_systemd_setup();
        setup.step(text("77"));
        setup.step(text("domain"));
        for _ in 0..steps {
            setup.step(done());
        }
        setup.step(refused("x"));
        setup.step(SetupEvent::Answer(false));
        setup.step(done());
        assert_eq!(setup.failure().unwrap().full_message(), expected);
    }
}

#[test]
fn control_groups_are_come_by_in_two_ways() {
    let mut spawn = CgroupSpawn::new(10, 255, 1);
    spawn.step(text("0::/app.slice/zed.scope\n"));
    spawn.step(SetupEvent::Answer(false));
    assert_eq!(spawn.action(), SetupAction::ReadText("/proc/self/cgroup".into()));
    spawn.step(text("0::/nowhere\n"));
    match spawn.action() {
        SetupAction::Fail(error) => assert_eq!(
            error.chain,
            vec![
                "direct cgroup setup failed (current cgroup does not support cgroup.kill); \
                 systemd transient scope setup also failed",
                "current cgroup is not within app.slice"
            ]
        ),
        action => panic!("unexpected action: {action:?}"),
    }
    assert!(spawn.finish().is_none());
}

fn direct_cgroup() -> Cgroup {
    let mut spawn = CgroupSpawn::new(10, 255, 1);
    for (_, event) in direct_events() {
        spawn.step(event);
    }
    spawn.step(done());
    spawn.finish().expect("the control group is set up")
}

fn answers(mut kill: CgroupKill, events: Vec<KillEvent>) -> KillAction {
    for event in events {
        kill.step(event);
    }
    kill.action()
}

fn wrote(outcome: WriteOutcome) -> KillEvent {
    KillEvent::Wrote(outcome)
}

#[test]
fn control_groups_are_thawed_and_killed() {
    let path = format!("/sys/fs/cgroup/g/{NAME}");
    let mut cgroup = direct_cgroup();
    assert_eq!(cgroup.path(), path);
    assert!(cgroup.release().is_some());
    let mut kill = cgroup.kill();
    assert_eq!(kill.action(), KillAction::CheckExists(path.clone()));
    kill.step(KillEvent::Answer(true));
    assert_eq!(kill.action(), KillAction::CheckExists(format!("{path}/cgroup.freeze")));
    kill.step(KillEvent::Answer(true));
    assert_eq!(
        kill.action(),
        KillAction::WriteText { path: format!("{path}/cgroup.freeze"), text: "0".into() }
    );
    kill.step(wrote(WriteOutcome::Written));
    assert_eq!(
        kill.action(),
        KillAction::WriteText { path: format!("{path}/cgroup.kill"), text: "1".into() }
    );
    kill.step(wrote(WriteOutcome::Written));
    assert_eq!(kill.action(), KillAction::CloseLifeline);
    kill.step(KillEvent::Closed);
    assert_eq!(kill.action(), KillAction::Finish(Ok(())));
    assert!(cgroup.release().is_none());
}

#[test]
fn lifelines_are_closed_whatever_came_of_killing() {
    let exists = || KillEvent::Answer(true);
    let absent = || KillEvent::Answer(false);
    let result = |events: Vec<KillEvent>| {
        let mut with_close = events;
        with_close.push(KillEvent::Closed);
        match answers(direct_cgroup().kill(), with_close) {
            KillAction::Finish(Ok(())) => "killed".to_string(),
            KillAction::Finish(Err(error)) => error.full_message(),
            action => panic!("unexpected action: {action:?}"),
        }
    };
    assert_eq!(result(vec![absent()]), "killed");
    assert_eq!(result(vec![exists(), exists(), wrote(WriteOutcome::NotFound)]), "killed");
    assert_eq!(result(vec![exists(), absent(), wrote(WriteOutcome::NotFound)]), "killed");
    assert_eq!(
        result(vec![exists(), exists(), wrote(WriteOutcome::Failed("denied".into()))]),
        "failed to thaw process cgroup: denied"
    );
    assert_eq!(
        result(vec![exists(), absent(), wrote(WriteOutcome::Failed("denied".into()))]),
        "failed to kill process cgroup: denied"
    );
    let release = direct_cgroup().release().unwrap();
    assert_eq!(answers(release, vec![absent()]), KillAction::Finish(Ok(())));
}

#[test]
fn sessions_are_set_up() {
    let mut setup = Setup::spawn_session();
    assert_eq!(setup.action(), SetupAction::Locate("sh".into()));
    setup.step(located("sh"));
    let given = Setup::spawn_session_with_program("/bin/sh");
    assert_eq!(setup.action(), given.action());
    assert_eq!(setup.action(), SetupAction::CreateLifeline);
    setup.step(done());
    assert_eq!(setup.action(), SetupAction::DuplicateLifeline);
    setup.step(done());
    for name in ["ps", "awk", "sleep"] {
        assert_eq!(setup.action(), SetupAction::Locate(name.into()));
        setup.step(located(name));
    }
    match setup.action() {
        SetupAction::SpawnWatchdog(command) => {
            assert_eq!(command.program, "/bin/sh");
            assert_eq!(
                command.args,
                vec![
                    "-c",
                    SESSION_WATCHDOG_SCRIPT,
                    "zed-process-watchdog",
                    "/bin/ps",
                    "/bin/awk",
                    "/bin/sleep"
                ]
            );
        }
        action => panic!("unexpected action: {action:?}"),
    }
    setup.step(done());
    assert_eq!(setup.action(), SetupAction::Succeed);
}

#[test]
fn test_watchdog_spawn_failure_prevents_target_spawn() {
    let mut setup = Setup::spawn_session_with_program("/zed-test-missing-shell");
    setup.step(done());
    setup.step(done());
    setup.step(located("ps"));
    setup.step(located("awk"));
    setup.step(located("sleep"));
    assert!(matches!(setup.action(), SetupAction::SpawnWatchdog(command)
        if command.program == "/zed-test-missing-shell"));
    setup.step(refused("not found"));
    let error = setup.failure().expect("missing watchdog program should fail");
    assert_eq!(error.chain[0], "failed to spawn process watchdog");
    for (steps, expected) in [
        (0, "failed to create process lifeline: x"),
        (1, "failed to duplicate process lifeline: x"),
    ] {
        let mut setup = Setup::spawn_session_with_program("sh");
        for _ in 0..steps {
            setup.step(done());
        }
        setup.step(refused("x"));
        assert_eq!(setup.failure().unwrap().full_message(), expected);
    }
}

#[test]
fn sessions_end_with_their_lifeline() {
    let mut group = ProcessGroup::new();
    assert!(group.configure_command().is_ok());
    group.kill();
    assert_eq!(
        group.configure_command().unwrap_err().full_message(),
        "process lifeline closed before target spawn"
    );
}

#[test]
fn children_are_started_in_their_group() {
    let tree = ProcessTree::Cgroup(direct_cgroup());
    assert_eq!(tree.configure_command(), Ok(JoinPlan::JoinCgroup));
    assert!(tree.cgroup_path().unwrap().ends_with(NAME));
    let mut child = Child::spawn(tree, Ok(42), "sleep").ok().unwrap();
    assert_eq!(child.id(), 42);
    assert!(child.release().is_some());
    assert!(matches!(child.kill(), TreeKill::Cgroup(_)));
    assert!(child.release().is_none());

    let tree = ProcessTree::Session(ProcessGroup::new());
    assert_eq!(tree.configure_command(), Ok(JoinPlan::ReportLeader));
    assert_eq!(tree.cgroup_path(), None);
    let mut child = Child::spawn(tree, Ok(43), "sleep").ok().unwrap();
    assert!(matches!(child.kill(), TreeKill::CloseLifeline));
    assert!(matches!(child.kill(), TreeKill::CloseLifeline));
    assert!(child.release().is_none());

    let error = Child::spawn(ProcessTree::Job(false), Err("not found".into()), "\"x\"").err();
    assert_eq!(
        error.unwrap().full_message(),
        "failed to spawn command \"x\": not found"
    );
}

#[test]
fn groups_are_come_by_for_children() {
    let mut spawn = Child::spawn_in_session();
    spawn.step(located("sh"));
    for _ in 0..2 {
        spawn.step(done());
    }
    for name in ["ps", "awk", "sleep"] {
        spawn.step(located(name));
    }
    assert!(spawn.finish().is_none());
    spawn.step(done());
    assert!(matches!(spawn.finish(), Some(ProcessTree::Session(_))));

    let mut spawn = Child::spawn_in_cgroup(10, 255, 1);
    for (action, event) in direct_events() {
        assert_eq!(spawn.action(), action);
        spawn.step(event);
    }
    spawn.step(done());
    assert!(matches!(spawn.finish(), Some(ProcessTree::Cgroup(_))));
}

#[test]
fn jobs_hold_a_child_only_where_all_went_well() {
    let mut job = JobStage::new();
    for expected in ["Create", "Limit", "Open", "Assign"] {
        assert_eq!(format!("{job:?}"), expected);
        assert!(job.finish().is_none());
        job = job.step(Ok(()));
    }
    assert_eq!(job, JobStage::CloseProcess(Ok(())));
    job = job.step(Err("ignored".into()));
    let mut tree = job.finish().unwrap();
    assert!(matches!(tree, ProcessTree::Job(true)));
    assert_eq!(tree.configure_command(), Ok(JoinPlan::Nothing));
    assert!(matches!(tree.kill(), TreeKill::TerminateJob));
}

#[test]
fn jobs_are_closed_after_a_failure() {
    for (steps, closes, expected) in [
        (0, 0, "failed to create job object: x"),
        (1, 1, "failed to set job object limits: x"),
        (2, 1, "failed to open process: x"),
        (3, 2, "failed to assign process to job object: x"),
    ] {
        let mut job = JobStage::new();
        for _ in 0..steps {
            job = job.step(Ok(()));
        }
        job = job.step(Err("x".into()));
        for _ in 0..closes {
            assert!(job.finish().is_none());
            job = job.step(Ok(()));
        }
        match &job {
            JobStage::Unassigned(error) => assert_eq!(error.full_message(), expected),
            stage => panic!("unexpected stage: {stage:?}"),
        }
        let mut tree = job.finish().unwrap();
        assert!(matches!(tree.kill(), TreeKill::KillProcess));
    }
}

#[test]
fn processes_join_control_groups_in_one_write() {
    assert_eq!(&JOIN_MESSAGE, b"0\n");
    assert_eq!(write_cgroup_procs(RawWrite::Written(2)), JoinStep::Done);
    assert_eq!(write_cgroup_procs(RawWrite::Written(1)), JoinStep::ShortWrite);
    assert_eq!(write_cgroup_procs(RawWrite::Interrupted), JoinStep::Write);
    assert_eq!(write_cgroup_procs(RawWrite::Failed(13)), JoinStep::Fail(13));
}

#[test]
fn leaders_report_themselves_in_parts() {
    for pid in [0, 1, 9, 10, 4_194_304, u32::MAX] {
        assert_eq!(PidLine::new(pid).remaining(), format!("{pid}\n").as_bytes());
    }
    let mut line = PidLine::new(12345);
    let mut received = Vec::new();
    for taken in [1, 3, 2] {
        assert_eq!(line.step(RawWrite::Interrupted), JoinStep::Write);
        received.extend_from_slice(&line.remaining()[..taken]);
        let step = line.step(RawWrite::Written(taken));
        assert_eq!(step == JoinStep::Done, received.len() == 6);
    }
    assert_eq!(received, b"12345\n");
    assert_eq!(PidLine::new(7).step(RawWrite::Failed(32)), JoinStep::Fail(32));
}

#[test]
fn scopes_are_not_taken_over_without_holder_and_domain() {
    let located = || SetupEvent::Located(Ok("/bin/tool".to_string()));
    let good = |setup: &mut Setup| {
        for _ in 0..3 {
            setup.step(done());
        }
        setup.step(located());
        setup.step(located());
        setup.step(done());
    };
    let mut setup = waiting_systemd_setup();
    setup.step(text("1\n77\n"));
    setup.step(text("domain\n"));
    good(&mut setup);
    assert_eq!(setup.action(), SetupAction::Succeed);
    for (members, kind) in [("1\n7\n", "domain"), ("77", "threaded"), ("177", "domain")] {
        let mut setup = waiting_systemd_setup();
        setup.step(text(members));
        setup.step(text(kind));
        good(&mut setup);
        assert_ne!(setup.action(), SetupAction::Succeed);
    }
}
