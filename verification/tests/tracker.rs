use gtfo_log_tracker::game_data::{Location, StoryLog};
use gtfo_log_tracker::read_set::ReadIdSet;
use gtfo_log_tracker::rows::{visible_rows, Row};
use gtfo_log_tracker::tracker::{GtfoLogTracker, MainView, Message};
use gtfo_log_tracker::watcher::GameEvent;

fn loc(rundown: u8, level: &str, zones: &[u16], name: &str) -> Location {
    Location { rundown, level: level.to_string(), zones: zones.to_vec(), name: name.to_string() }
}

fn catalog() -> Vec<StoryLog> {
    vec![
        StoryLog { id: 101, locations: vec![loc(1, "A1", &[0], "ABC-DEF")] },
        StoryLog {
            id: 202,
            locations: vec![loc(2, "B3", &[50, 51], "XYZ-123"), loc(7, "C1", &[9], "Hello")],
        },
        StoryLog { id: 303, locations: vec![] },
    ]
}

fn loaded() -> GtfoLogTracker {
    let mut t = GtfoLogTracker::new();
    t.update(Message::DataLoaded(catalog(), ReadIdSet::from_ids(&vec![101]), "/logs".to_string()));
    t
}

fn view(t: &GtfoLogTracker) -> &MainView {
    match t {
        GtfoLogTracker::Loaded(v) => v,
        _ => panic!("the tracker holds no data"),
    }
}

fn names(rows: &[Row]) -> Vec<&str> {
    rows.iter().map(|r| r.name.as_str()).collect()
}

fn rows_of(t: &GtfoLogTracker) -> Vec<Row> {
    let v = view(t);
    visible_rows(&v.all_logs, &v.read_log_ids, v.hide_read, &v.filter)
}

#[test]
fn tracker_starts_loading_and_takes_data() {
    let t = GtfoLogTracker::new();
    assert!(matches!(t, GtfoLogTracker::Loading));
    assert_eq!(t.title(), "GTFO Log Tracker");
    let t = loaded();
    let v = view(&t);
    assert_eq!(v.all_logs.len(), 3);
    assert_eq!(v.read_log_ids.to_vec(), vec![101]);
    assert_eq!(v.gtfo_path, "/logs");
    assert!(!v.hide_read);
    assert!(v.auto_filter);
    assert_eq!(v.filter, "");
}

#[test]
fn messages_before_data_change_nothing() {
    let mut t = GtfoLogTracker::new();
    t.update(Message::NewLogRead(5));
    t.update(Message::FilterChanged("x".to_string()));
    t.update(Message::LevelChanged("R1A1".to_string()));
    t.update(Message::ToggleHideRead(true));
    assert!(matches!(t, GtfoLogTracker::Loading));
    t.update(Message::Error("no data".to_string()));
    assert!(matches!(&t, GtfoLogTracker::Error(e) if e == "no data"));
    t.update(Message::NewLogRead(5));
    assert!(matches!(&t, GtfoLogTracker::Error(e) if e == "no data"));
}

#[test]
fn new_reads_join_the_read_ids_once() {
    let mut t = loaded();
    t.update(Message::from_event(GameEvent::LogRead(202)));
    t.update(Message::from_event(GameEvent::LogRead(202)));
    t.update(Message::NewLogRead(101));
    let mut ids = view(&t).read_log_ids.to_vec();
    ids.sort();
    assert_eq!(ids, vec![101, 202]);
}

#[test]
fn level_becomes_the_filter_only_while_it_is_followed() {
    let mut t = loaded();
    t.update(Message::from_event(GameEvent::LevelSelected("R2B3".to_string())));
    assert_eq!(view(&t).filter, "R2B3");
    t.update(Message::ToggleAutoFilter(false));
    t.update(Message::LevelChanged("R7C1".to_string()));
    assert_eq!(view(&t).filter, "R2B3");
    t.update(Message::FilterChanged("abc".to_string()));
    assert_eq!(view(&t).filter, "abc");
    t.update(Message::ToggleAutoFilter(true));
    t.update(Message::LevelChanged("R7C1".to_string()));
    assert_eq!(view(&t).filter, "R7C1");
    assert!(!view(&t).hide_read);
    t.update(Message::ToggleHideRead(true));
    assert!(view(&t).hide_read);
}

#[test]
fn table_shows_the_rows_that_pass() {
    let mut t = loaded();
    assert_eq!(names(&rows_of(&t)), vec!["ABC-DEF", "XYZ-123", "Hello"]);
    let rows = rows_of(&t);
    assert!(rows[0].read);
    assert!(!rows[1].read);
    assert_eq!(rows[0].zone, "Outside");
    assert_eq!(rows[1].zone, "50, 51");
    assert_eq!(rows[1].level, "R2B3");

    t.update(Message::ToggleHideRead(true));
    assert_eq!(names(&rows_of(&t)), vec!["XYZ-123", "Hello"]);
    t.update(Message::ToggleHideRead(false));

    for (filter, expected) in [
        ("r2b3", vec!["XYZ-123"]),
        ("R2", vec!["XYZ-123"]),
        ("hELLO", vec!["Hello"]),
        ("outside", vec!["ABC-DEF"]),
        ("0", vec!["ABC-DEF", "XYZ-123", "Hello"]),
        ("51", vec!["XYZ-123"]),
        ("0, 5", vec!["XYZ-123"]),
        ("202", vec!["XYZ-123", "Hello"]),
        ("c", vec!["ABC-DEF", "Hello"]),
        ("nothing", vec![]),
    ] {
        t.update(Message::FilterChanged(filter.to_string()));
        assert_eq!(names(&rows_of(&t)), expected, "filter {filter}");
    }
}
