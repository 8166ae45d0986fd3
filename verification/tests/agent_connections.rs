use agent_runtime::agent_connection_store::{
    current_retirement, finish_connection, retirement_reported, start_connection, watch_retirement,
    Agent, AgentConnectedState, AgentConnection, AgentConnectionEntry, AgentConnectionEntryEvent,
    AgentConnectionStatus, AgentConnectionStore, ConnectError, ConnectStep, ConnectionWait,
    LoadError, RetirementWatch, INITIAL_RESTART_DELAY, MAX_RESTART_DELAY,
    STABLE_CONNECTION_DURATION,
};

fn custom(id: &str) -> Agent {
    Agent::Custom { id: id.to_string() }
}

fn connection(handle: u64) -> AgentConnection {
    AgentConnection {
        handle,
        agent_id: "test".to_string(),
        agent_version: Some("1.0".to_string()),
        is_acp: true,
        reports_retirement: true,
    }
}

fn connect(store: &mut AgentConnectionStore, key: &Agent, entry: usize, at: u64) {
    let state = finish_connection(Ok(connection(entry as u64)), at).unwrap();
    let effects = store.connected(key, entry, state);
    assert!(effects.notify && effects.notify_entry);
}

#[test]
fn retired_connection_is_replaced_with_crash_loop_backoff() {
    let mut now: u64 = 1_000;
    let mut connect_count = 0;
    let mut store = AgentConnectionStore::new(3);
    assert_eq!(store.project(), 3);
    let key = custom("Test");

    let first = store.request_connection(key.clone(), None, now);
    assert_eq!(first.restart_delay, Some(0));
    assert_eq!(start_connection(0), ConnectStep::Connect);
    connect_count += 1;
    connect(&mut store, &key, first.entry, now);
    assert!(matches!(
        store.read_entry(first.entry),
        Some(AgentConnectionEntry::Connected(_))
    ));
    assert_eq!(connect_count, 1);

    let exited = LoadError::Exited { status: 1 };
    store.retired(&key, first.entry, now, exited.clone(), now);
    assert!(
        store.entry(&key).is_none(),
        "retired connection must be removed from the registry"
    );
    assert_eq!(
        store.read_entry(first.entry),
        Some(&AgentConnectionEntry::Error { error: exited.clone() })
    );

    let second = store.request_connection(key.clone(), None, now);
    assert_eq!(
        second.restart_delay,
        Some(INITIAL_RESTART_DELAY),
        "first crash must delay the replacement by one second"
    );
    assert_eq!(
        start_connection(INITIAL_RESTART_DELAY),
        ConnectStep::Delay(INITIAL_RESTART_DELAY)
    );
    now += INITIAL_RESTART_DELAY;
    connect_count += 1;
    connect(&mut store, &key, second.entry, now);
    assert_eq!(connect_count, 2);

    store.retired(&key, second.entry, now, exited, now);
    let third = store.request_connection(key.clone(), None, now);
    assert_eq!(
        third.restart_delay,
        Some(2 * INITIAL_RESTART_DELAY),
        "second crash must increase the delay to two seconds"
    );
    now += 2 * INITIAL_RESTART_DELAY;
    connect_count += 1;
    connect(&mut store, &key, third.entry, now);
    assert!(matches!(
        store.read_entry(third.entry),
        Some(AgentConnectionEntry::Connected(_))
    ));
    assert_eq!(connect_count, 3);
}

#[test]
fn delays_double_up_to_the_longest() {
    let mut store = AgentConnectionStore::new(0);
    let key = custom("a");
    let mut delays = Vec::new();
    for _ in 0..8 {
        let requested = store.request_connection(key.clone(), None, 0);
        delays.push(requested.restart_delay.unwrap() / INITIAL_RESTART_DELAY);
        store.connect_failed(&key, requested.entry, LoadError::Other("x".into()), 0);
    }
    assert_eq!(delays, vec![0, 1, 2, 4, 8, 16, 30, 30]);
    assert_eq!(MAX_RESTART_DELAY, 30 * INITIAL_RESTART_DELAY);
    let other = store.request_connection(custom("b"), None, 0);
    assert_eq!(other.restart_delay, Some(0));
}

#[test]
fn delays_run_out() {
    let mut store = AgentConnectionStore::new(0);
    let key = custom("a");
    let first = store.request_connection(key.clone(), None, 0);
    store.connect_failed(&key, first.entry, LoadError::Other("x".into()), 100);
    let second = store.request_connection(key.clone(), None, 400);
    assert_eq!(second.restart_delay, Some(INITIAL_RESTART_DELAY - 300));
    store.new_version(&key, second.entry, Some("2".into()));
    let third = store.request_connection(key.clone(), None, 100 + INITIAL_RESTART_DELAY);
    assert_eq!(third.restart_delay, Some(0));
}

#[test]
fn stable_connections_clear_the_failures() {
    let mut store = AgentConnectionStore::new(0);
    let key = custom("a");
    let first = store.request_connection(key.clone(), None, 0);
    store.connect_failed(&key, first.entry, LoadError::Other("x".into()), 0);
    let second = store.request_connection(key.clone(), None, 0);
    connect(&mut store, &key, second.entry, 10);
    let late = 10 + STABLE_CONNECTION_DURATION;
    store.retired(&key, second.entry, 10, LoadError::Exited { status: 0 }, late);
    let third = store.request_connection(key, None, late);
    assert_eq!(third.restart_delay, Some(0));
}

#[test]
fn requests_find_retired_connections() {
    let mut store = AgentConnectionStore::new(0);
    let key = custom("a");
    let first = store.request_connection(key.clone(), None, 0);
    connect(&mut store, &key, first.entry, 0);
    let kept = store.request_connection(key.clone(), None, 1);
    assert_eq!((kept.entry, kept.restart_delay), (first.entry, None));
    let error = LoadError::Exited { status: 9 };
    let replaced = store.request_connection(key.clone(), Some(error), 1);
    assert_ne!(replaced.entry, first.entry);
    assert_eq!(replaced.restart_delay, Some(INITIAL_RESTART_DELAY));
    assert_eq!(store.entry(&key), Some(replaced.entry));
}

#[test]
fn connections_that_report_nothing_are_never_found_retired() {
    let mut store = AgentConnectionStore::new(0);
    let key = custom("a");
    let first = store.request_connection(key.clone(), None, 0);
    let silent = AgentConnection { reports_retirement: false, ..connection(0) };
    let state = AgentConnectedState { connection: silent, connected_at: 0 };
    store.connected(&key, first.entry, state);
    let kept = store.request_connection(key, Some(LoadError::Exited { status: 1 }), 1);
    assert_eq!((kept.entry, kept.restart_delay), (first.entry, None));
}

#[test]
fn attempts_under_way_are_kept() {
    let mut store = AgentConnectionStore::new(0);
    let first = store.request_connection(Agent::NativeAgent, None, 0);
    let again = store.restart_connection(Agent::NativeAgent, 0);
    assert_eq!((again.entry, again.restart_delay), (first.entry, None));
    connect(&mut store, &Agent::NativeAgent, first.entry, 0);
    let restarted = store.restart_connection(Agent::NativeAgent, 0);
    assert_ne!(restarted.entry, first.entry);
    assert_eq!(restarted.restart_delay, Some(0));
    let state = AgentConnectedState { connection: connection(9), connected_at: 0 };
    let effects = store.connected(&Agent::NativeAgent, first.entry, state);
    assert!(!effects.notify);
    assert_eq!(
        store.connection_status(&Agent::NativeAgent),
        AgentConnectionStatus::Connecting
    );
}

#[test]
fn entries_say_what_to_wait_for() {
    let mut store = AgentConnectionStore::new(0);
    let key = custom("a");
    assert_eq!(store.connection_status(&key), AgentConnectionStatus::Disconnected);
    assert_eq!(store.agent_version(&key), None);
    let first = store.request_connection(key.clone(), None, 0);
    assert_eq!(
        store.read_entry(first.entry).unwrap().wait_for_connection(),
        ConnectionWait::Pending { connect_task: first.entry }
    );
    assert_eq!(store.agent_version(&key), None);
    connect(&mut store, &key, first.entry, 5);
    assert_eq!(store.connection_status(&key), AgentConnectionStatus::Connected);
    assert_eq!(store.agent_version(&key), Some("1.0".to_string()));
    let state = AgentConnectedState { connection: connection(0), connected_at: 5 };
    assert_eq!(
        store.read_entry(first.entry).unwrap().wait_for_connection(),
        ConnectionWait::Ready(Ok(state))
    );
    let failed = AgentConnectionEntry::Error { error: LoadError::Other("x".into()) };
    assert_eq!(failed.status(), AgentConnectionStatus::Disconnected);
    assert_eq!(
        failed.wait_for_connection(),
        ConnectionWait::Ready(Err(LoadError::Other("x".into())))
    );
}

#[test]
fn active_connections_speak_the_protocol() {
    let mut store = AgentConnectionStore::new(0);
    for (i, name) in ["a", "b", "c"].iter().enumerate() {
        let key = custom(name);
        let requested = store.request_connection(key.clone(), None, 0);
        if i < 2 {
            let mut connection = connection(i as u64);
            connection.is_acp = i == 1;
            let state = AgentConnectedState { connection, connected_at: 0 };
            store.connected(&key, requested.entry, state);
        }
    }
    let active = store.active_acp_connections();
    assert_eq!(active.len(), 1);
    assert_eq!((active[0].agent_id.as_str(), active[0].connection), ("test", 1));
}

#[test]
fn news_reach_those_who_listen() {
    let mut store = AgentConnectionStore::new(0);
    let key = custom("a");
    let first = store.request_connection(key.clone(), None, 0);
    let effects = store.loading_status(&key, first.entry, Some("unpacking".into()));
    assert!(effects.notify);
    assert_eq!(
        effects.emitted,
        Some(AgentConnectionEntryEvent::LoadingStatusChanged(Some("unpacking".into())))
    );
    let (effects, goes_on) = store.new_version(&key, first.entry, None);
    assert!(goes_on && !effects.notify);
    let (effects, goes_on) = store.new_version(&key, first.entry, Some("2.0".into()));
    assert!(!goes_on && effects.notify);
    assert_eq!(
        effects.emitted,
        Some(AgentConnectionEntryEvent::NewVersionAvailable("2.0".into()))
    );
    assert_eq!(store.entry(&key), None);
    let effects = store.loading_status(&key, first.entry, None);
    assert!(!effects.notify && effects.emitted.is_none());
    store.release(first.entry);
    assert!(store.read_entry(first.entry).is_none());
}

#[test]
fn agents_that_are_not_configured_any_more_are_dropped() {
    let mut store = AgentConnectionStore::new(0);
    for key in [Agent::NativeAgent, custom("a"), custom("b")] {
        store.request_connection(key, None, 0);
    }
    let effects = store.handle_agent_servers_updated(&vec!["b".to_string()]);
    assert!(effects.notify);
    assert!(store.entry(&Agent::NativeAgent).is_some());
    assert!(store.entry(&custom("a")).is_none());
    assert!(store.entry(&custom("b")).is_some());
}

#[test]
fn attempts_come_to_an_outcome() {
    assert_eq!(
        finish_connection(Err(ConnectError::Load(LoadError::Exited { status: 2 })), 0),
        Err(LoadError::Exited { status: 2 })
    );
    assert_eq!(
        finish_connection(Err(ConnectError::Other("refused".into())), 0),
        Err(LoadError::Other("refused".into()))
    );
    assert_eq!(finish_connection(Ok(connection(4)), 8).unwrap().connected_at, 8);
}

#[test]
fn retirement_is_watched_for() {
    let silent = AgentConnection { reports_retirement: false, ..connection(0) };
    let error = LoadError::Reported("retired".into());
    assert_eq!(watch_retirement(&silent, Some(error.clone())), RetirementWatch::Stop);
    assert_eq!(watch_retirement(&connection(0), None), RetirementWatch::Wait);
    assert_eq!(
        watch_retirement(&connection(0), Some(error.clone())),
        RetirementWatch::Retire(error.clone())
    );
    assert_eq!(
        retirement_reported(Ok(Some(error.clone()))),
        RetirementWatch::Retire(error.clone())
    );
    assert_eq!(retirement_reported(Ok(None)), RetirementWatch::Stop);
    assert_eq!(retirement_reported(Err(())), RetirementWatch::Stop);
    assert_eq!(current_retirement(&silent, &Some(error.clone())), None);
    assert_eq!(
        current_retirement(&connection(0), &Some(error.clone())),
        Some(error)
    );
    assert_eq!(current_retirement(&connection(0), &None), None);
}

#[test]
fn watchers_are_told_of_new_attempts_only() {
    let mut store = AgentConnectionStore::new(0);
    let key = custom("a");
    let first = store.request_connection(key.clone(), None, 0);
    assert!(first.notify());
    assert!(!store.request_connection(key.clone(), None, 0).notify());
    assert!(!store.restart_connection(key.clone(), 0).notify());
    connect(&mut store, &key, first.entry, 0);
    assert!(!store.request_connection(key.clone(), None, 0).notify());
    let second = store.restart_connection(key.clone(), 0);
    assert!(second.notify());
    assert_ne!(second.entry, first.entry);
    let third = store.request_connection(custom("b"), None, 0);
    assert!(third.notify());
    assert!(third.entry != first.entry && third.entry != second.entry);
}

#[test]
fn news_of_a_dropped_entry_are_ignored() {
    let mut store = AgentConnectionStore::new(0);
    let key = custom("a");
    let entry = store.request_connection(key.clone(), None, 0).entry;
    store.handle_agent_servers_updated(&vec![]);
    assert_eq!(store.entry(&key), None);

    let state = finish_connection(Ok(connection(1)), 0).unwrap();
    let error = || LoadError::Other("late".to_string());
    let effects = vec![
        store.connected(&key, entry, state),
        store.connect_failed(&key, entry, error(), 0),
        store.retired(&key, entry, 0, error(), 0),
        store.new_version(&key, entry, Some("2.0".to_string())).0,
        store.loading_status(&key, entry, Some("almost there".to_string())),
    ];
    for effect in effects {
        assert!(!effect.notify && !effect.notify_entry && effect.emitted.is_none());
    }
    assert_eq!(
        store.read_entry(entry),
        Some(&AgentConnectionEntry::Connecting { connect_task: entry })
    );
    let again = store.request_connection(key.clone(), None, 0);
    assert_eq!(again.restart_delay, Some(0));
    assert_ne!(again.entry, entry);
}

#[test]
fn news_of_a_replaced_entry_are_ignored() {
    let mut store = AgentConnectionStore::new(0);
    let key = custom("a");
    let first = store.request_connection(key.clone(), None, 0).entry;
    connect(&mut store, &key, first, 0);
    let second = store.restart_connection(key.clone(), 0).entry;
    let (effects, go_on) = store.new_version(&key, first, Some("2.0".to_string()));
    assert!(!effects.notify && effects.emitted.is_none() && !go_on);
    let effects = store.retired(&key, first, 0, LoadError::Exited { status: 1 }, 0);
    assert!(!effects.notify && !effects.notify_entry);
    assert_eq!(store.entry(&key), Some(second));
}

#[test]
fn short_connections_count_as_failures() {
    let key = custom("a");
    // How long the connection held, and the delay of the next attempt.
    let cases = [
        (100, 100 + STABLE_CONNECTION_DURATION, 0),
        (100, 99 + STABLE_CONNECTION_DURATION, 2 * INITIAL_RESTART_DELAY),
        (100, 99, 2 * INITIAL_RESTART_DELAY),
    ];
    for (connected_at, now, delay) in cases {
        let mut store = AgentConnectionStore::new(0);
        let failed = store.request_connection(key.clone(), None, 0).entry;
        store.connect_failed(&key, failed, LoadError::Other("x".to_string()), 0);
        let entry = store.request_connection(key.clone(), None, connected_at).entry;
        connect(&mut store, &key, entry, connected_at);
        store.retired(&key, entry, connected_at, LoadError::Exited { status: 1 }, now);
        assert_eq!(store.request_connection(key.clone(), None, now).restart_delay, Some(delay));
    }
}

#[test]
fn failure_after_a_stable_connection_is_the_first() {
    let mut store = AgentConnectionStore::new(0);
    let key = custom("a");
    for _ in 0..3 {
        let entry = store.request_connection(key.clone(), None, 0).entry;
        store.connect_failed(&key, entry, LoadError::Other("x".to_string()), 0);
    }
    let entry = store.request_connection(key.clone(), None, 0).entry;
    connect(&mut store, &key, entry, 0);
    let now = STABLE_CONNECTION_DURATION;
    store.retired(&key, entry, 0, LoadError::Exited { status: 1 }, now);
    let entry = store.request_connection(key.clone(), None, now).entry;
    store.connect_failed(&key, entry, LoadError::Other("x".to_string()), now);
    assert_eq!(
        store.request_connection(key.clone(), None, now).restart_delay,
        Some(INITIAL_RESTART_DELAY)
    );
}

#[test]
fn expired_delay_keeps_the_count() {
    let mut store = AgentConnectionStore::new(0);
    let key = custom("a");
    let entry = store.request_connection(key.clone(), None, 0).entry;
    store.connect_failed(&key, entry, LoadError::Other("x".to_string()), 0);

    // Asked twice at one time, the delay is the same.
    let half = INITIAL_RESTART_DELAY / 2;
    let entry = store.request_connection(key.clone(), None, half).entry;
    connect(&mut store, &key, entry, half);
    for _ in 0..2 {
        let restarted = store.restart_connection(key.clone(), half);
        assert_eq!(restarted.restart_delay, Some(INITIAL_RESTART_DELAY - half));
        connect(&mut store, &key, restarted.entry, half);
    }
    for now in [INITIAL_RESTART_DELAY, INITIAL_RESTART_DELAY, 0] {
        let restarted = store.restart_connection(key.clone(), now);
        assert_eq!(restarted.restart_delay, Some(0));
        connect(&mut store, &key, restarted.entry, now);
    }
    let entry = store.entry(&key).unwrap();
    let now = INITIAL_RESTART_DELAY;
    store.retired(&key, entry, now, LoadError::Exited { status: 1 }, now);
    assert_eq!(
        store.request_connection(key.clone(), None, now).restart_delay,
        Some(2 * INITIAL_RESTART_DELAY)
    );
}

#[test]
fn failures_are_recorded_one_by_one() {
    let mut store = AgentConnectionStore::new(0);
    let (key, other) = (custom("a"), custom("b"));
    store.record_connection_failure(&other, 5);
    let second = INITIAL_RESTART_DELAY;
    for seconds in [1, 2, 4, 8, 16, 30, 30] {
        store.record_connection_failure(&key, 7);
        assert_eq!(store.restart_delay(&key, 7), seconds * second);
        assert_eq!(store.restart_delay(&key, 7), seconds * second);
        assert_eq!(store.restart_delay(&key, 7 + seconds * second - 1), 1);
    }
    assert_eq!(store.restart_delay(&key, 7 + MAX_RESTART_DELAY), 0);
    assert_eq!(store.restart_delay(&key, 0), 0, "a time that has passed is forgotten");
    assert_eq!(store.restart_delay(&other, 5), second);
    store.record_connection_failure(&key, 9);
    assert_eq!(store.restart_delay(&key, 9), MAX_RESTART_DELAY, "the failures are not");
    store.record_retirement(&key, 10, 10 + STABLE_CONNECTION_DURATION);
    assert_eq!(store.restart_delay(&key, 0), 0);
    store.record_retirement(&key, 10, 9);
    assert_eq!(store.restart_delay(&key, 9), second);
}

#[test]
fn late_clocks_matter_only_where_a_failure_counts() {
    let mut store = AgentConnectionStore::new(0);
    let key = custom("a");
    let late = u64::MAX;
    let entry = store.request_connection(key.clone(), None, late).entry;
    let other = store.request_connection(custom("b"), None, late).entry;
    let error = || LoadError::Other("x".to_string());
    assert!(!store.connect_failed(&key, other, error(), late).notify);
    assert!(!store.retired(&key, other, late, error(), late).notify);
    connect(&mut store, &key, entry, 0);
    assert_eq!(store.restart_connection(key.clone(), late).restart_delay, Some(0));
    // The first failure calls for one second only.
    store.record_connection_failure(&key, late - INITIAL_RESTART_DELAY);
    assert_eq!(store.restart_delay(&key, late - 1), 1);
}
