use gtfo_log_tracker::game_data::{Location, StoryLog};
use gtfo_log_tracker::read_set::ReadIdSet;
use gtfo_log_tracker::reconcile::{local_read_ids, next_source, NextSource, Options};
use gtfo_log_tracker::watcher::{
    events_from_lines, fold_event, start, step, ChangeKind, GameEvent, WatchCommand, WatchInput,
    WatchState,
};

fn log(id: u32, name: &str) -> StoryLog {
    StoryLog {
        id,
        locations: vec![Location {
            rundown: 1,
            level: "A1".to_string(),
            zones: vec![18],
            name: name.to_string(),
        }],
    }
}

fn catalog() -> Vec<StoryLog> {
    vec![log(12, "6K5-D5Y-RKL"), log(42, "HS3-7FT-AV0")]
}

fn lines(list: &[&str]) -> Vec<String> {
    list.iter().map(|s| s.to_string()).collect()
}

fn sorted(set: &ReadIdSet) -> Vec<u32> {
    let mut v = set.to_vec();
    v.sort();
    v
}

fn show(events: &[GameEvent]) -> Vec<String> {
    events.iter().map(|e| format!("{e:?}")).collect()
}

const LOG_FILE: &str = "GTFO.2023.12.22.00.25.30_X_CLIENT.txt";

fn changed(kind: ChangeKind, name: &str) -> WatchInput {
    WatchInput::Changed(kind, Some(name.to_string()))
}

#[test]
fn watch_starts_by_establishing() {
    let (state, command) = start();
    assert_eq!(state, WatchState::NotWatching);
    assert!(matches!(command, WatchCommand::Establish));
    let (state, events, command) = step(state, WatchInput::Established, &catalog());
    assert_eq!(state, WatchState::Watching);
    assert!(events.is_empty());
    assert!(matches!(command, WatchCommand::Await));
}

#[test]
fn watch_that_cannot_be_established_fails_for_good() {
    let logs = catalog();
    let broken = WatchInput::Broken("no such directory".to_string());
    let (state, events, command) = step(WatchState::NotWatching, broken, &logs);
    assert_eq!(state, WatchState::Failed("no such directory".to_string()));
    assert!(events.is_empty());
    assert!(matches!(command, WatchCommand::GiveUp(cause) if cause == "no such directory"));
    for input in [
        WatchInput::Established,
        WatchInput::Broken("again".to_string()),
        changed(ChangeKind::Modified, LOG_FILE),
        WatchInput::Other,
        WatchInput::Lines(lines(&["HS3-7FT-AV0"])),
        WatchInput::Unreadable,
    ] {
        let failed = WatchState::Failed("no such directory".to_string());
        let (state, events, command) = step(failed, input, &logs);
        assert_eq!(state, WatchState::Failed("no such directory".to_string()));
        assert!(events.is_empty());
        assert!(matches!(command, WatchCommand::Halt));
    }
}

#[test]
fn only_session_logs_are_read() {
    let logs = catalog();
    for kind in [ChangeKind::Created, ChangeKind::Modified] {
        let (state, events, command) = step(WatchState::Watching, changed(kind, LOG_FILE), &logs);
        assert_eq!(state, WatchState::Watching);
        assert!(events.is_empty());
        assert!(matches!(command, WatchCommand::Read(name) if name == LOG_FILE));
    }
    for input in [
        changed(ChangeKind::Modified, "Player.log"),
        changed(ChangeKind::Other, LOG_FILE),
        WatchInput::Changed(ChangeKind::Created, None),
    ] {
        let (state, events, command) = step(WatchState::Watching, input, &logs);
        assert_eq!(state, WatchState::Watching);
        assert!(events.is_empty());
        assert!(matches!(command, WatchCommand::Await));
    }
}

#[test]
fn nothing_is_handed_on_without_lines() {
    let logs = catalog();
    for input in [WatchInput::Other, WatchInput::Unreadable, WatchInput::Established] {
        let (state, events, command) = step(WatchState::Watching, input, &logs);
        assert_eq!(state, WatchState::Watching);
        assert!(events.is_empty());
        assert!(matches!(command, WatchCommand::Await));
    }
    let (state, events, command) =
        step(WatchState::NotWatching, WatchInput::Lines(lines(&["HS3-7FT-AV0"])), &logs);
    assert_eq!(state, WatchState::NotWatching);
    assert!(events.is_empty());
    assert!(matches!(command, WatchCommand::Establish));
    let broken = WatchInput::Broken("gone".to_string());
    let (state, _, command) = step(WatchState::Watching, broken, &logs);
    assert_eq!(state, WatchState::Failed("gone".to_string()));
    assert!(matches!(command, WatchCommand::GiveUp(cause) if cause == "gone"));
}

#[test]
fn events_come_in_order_log_then_level() {
    let logs = catalog();
    let file = lines(&["SelectActiveExpedition Local_32,1,0", "read HS3-7FT-AV0"]);
    let events = events_from_lines(&file, &logs);
    assert_eq!(show(&events), vec!["LogRead(42)", "LevelSelected(\"R1A1\")"]);
    let events = events_from_lines(&lines(&["SelectActiveExpedition Local_32,1,0"]), &logs);
    assert_eq!(show(&events), vec!["LevelSelected(\"R1A1\")"]);
    assert!(events_from_lines(&lines(&["nothing"]), &logs).is_empty());
}

#[test]
fn appended_read_is_reported_once_and_taken_in_once() {
    let logs = catalog();
    let mut known = ReadIdSet::from_ids(&vec![12]);
    let mut file = lines(&["read 6K5-D5Y-RKL"]);
    file.push("read HS3-7FT-AV0".to_string());

    let (state, _, command) =
        step(WatchState::Watching, changed(ChangeKind::Modified, LOG_FILE), &logs);
    assert!(matches!(command, WatchCommand::Read(_)));
    let (state, events, _) = step(state, WatchInput::Lines(file.clone()), &logs);
    assert_eq!(show(&events), vec!["LogRead(42)"]);
    for e in &events {
        fold_event(&mut known, e);
    }
    assert_eq!(sorted(&known), vec![12, 42]);

    file.push("something unrelated".to_string());
    let (_, events, _) = step(state, WatchInput::Lines(file), &logs);
    assert_eq!(show(&events), vec!["LogRead(42)"]);
    for e in &events {
        fold_event(&mut known, e);
    }
    assert_eq!(sorted(&known), vec![12, 42]);
    assert_eq!(known.len(), 2);
}

#[test]
fn level_events_leave_the_set_alone() {
    let mut known = ReadIdSet::new();
    fold_event(&mut known, &GameEvent::LevelSelected("R1A1".to_string()));
    assert_eq!(known.len(), 0);
    fold_event(&mut known, &GameEvent::LogRead(3));
    assert!(known.contains(3));
    assert!(!known.contains(4));
}

#[test]
fn read_set_holds_each_id_once() {
    let mut set = ReadIdSet::new();
    assert_eq!(set.len(), 0);
    assert!(set.insert(5));
    assert!(!set.insert(5));
    assert!(set.insert(9));
    assert_eq!(set.len(), 2);
    assert_eq!(sorted(&set), vec![5, 9]);
    let set = ReadIdSet::from_ids(&vec![3, 1, 3, 2, 1]);
    assert_eq!(sorted(&set), vec![1, 2, 3]);
    assert_eq!(set.len(), 3);
    assert!(set.contains(2));
    assert!(!set.contains(4));
}

#[test]
fn initial_state_from_one_session_log() {
    let logs = catalog();
    let file = lines(&[
        "Logs Read: 2 / 50 | IDs: [5, 9]",
        "read 6K5-D5Y-RKL",
        "Logs Read: 2 / 50 | IDs: [5, 9]",
    ]);
    let set = local_read_ids(&file, &logs);
    assert_eq!(sorted(&set), vec![5, 9, 12]);
}

#[test]
fn source_is_remote_only_where_asked_for() {
    assert!(matches!(next_source(false, None), NextSource::Local(None)));
    assert!(matches!(next_source(false, Some(Ok(vec![1]))), NextSource::Local(None)));
    assert!(matches!(next_source(false, Some(Err("x".to_string()))), NextSource::Local(None)));
    assert!(matches!(next_source(true, None), NextSource::Remote));
}

#[test]
fn remote_ids_are_final_and_failure_falls_back() {
    match next_source(true, Some(Ok(vec![7, 7, 8]))) {
        NextSource::Done(set) => assert_eq!(sorted(&set), vec![7, 8]),
        _ => panic!("the ids of the service were not taken"),
    }
    match next_source(true, Some(Err("no network".to_string()))) {
        NextSource::Local(Some(w)) => assert_eq!(
            w,
            "Unable to read log data from PlayFab: no network. Falling back to parsing log files."
        ),
        _ => panic!("no fallback to the session log"),
    }
}

#[test]
fn default_options_ask_for_nothing() {
    let o = Options::default();
    assert_eq!(o.gtfo_path, "");
    assert!(!o.use_playfab);
}

#[test]
fn initial_state_from_a_directory_with_one_session_log() {
    let logs = catalog();
    let names = lines(&[LOG_FILE]);
    let path = gtfo_log_tracker::file_name::select_log_file("/data", &names, false).unwrap();
    assert_eq!(path, "/data/GTFO.2023.12.22.00.25.30_X_CLIENT.txt");
    let file = lines(&["Logs Read: 2 / 50 | IDs: [5, 9]", "opened 6K5-D5Y-RKL"]);
    match next_source(false, None) {
        NextSource::Local(None) => {}
        _ => panic!("the session log was not asked for"),
    }
    let set = local_read_ids(&file, &logs);
    assert_eq!(sorted(&set), vec![5, 9, 12]);
    assert_eq!(set.len(), 3);
}
