use gtfo_log_tracker::game_data::{Location, StoryLog};
use gtfo_log_tracker::read_set::ReadIdSet;
use gtfo_log_tracker::reconcile::{data_path_arg, get_options};
use gtfo_log_tracker::rows::{comma_join, map_log_to_rows};
use gtfo_log_tracker::text::{chars_of, join, parse_number, split_chars, trim_at};

fn args(list: &[&str]) -> Vec<String> {
    list.iter().map(|s| s.to_string()).collect()
}

#[test]
fn numbers_are_joined_with_comma_and_space() {
    assert_eq!(comma_join(&[]), "");
    assert_eq!(comma_join(&[7]), "7");
    assert_eq!(comma_join(&[0, 10, 65535]), "0, 10, 65535");
}

#[test]
fn a_log_gives_one_row_for_each_location() {
    let log = StoryLog {
        id: 31,
        locations: vec![
            Location {
                rundown: 1,
                level: "B2".to_string(),
                zones: vec![0],
                name: "AAA-BBB".to_string(),
            },
            Location {
                rundown: 7,
                level: "C1".to_string(),
                zones: vec![48, 49],
                name: "CCC-DDD".to_string(),
            },
            Location { rundown: 8, level: "".to_string(), zones: vec![], name: "".to_string() },
            Location {
                rundown: 2,
                level: "A1".to_string(),
                zones: vec![0, 0],
                name: "E".to_string(),
            },
        ],
    };
    let rows = map_log_to_rows(&log, &ReadIdSet::from_ids(&vec![30, 31]));
    assert_eq!(rows.len(), 4);
    assert_eq!(rows[0].level, "R1B2");
    assert_eq!(rows[0].zone, "Outside");
    assert_eq!(rows[0].name, "AAA-BBB");
    assert_eq!(rows[0].id, 31);
    assert!(rows[0].read);
    assert_eq!(rows[1].level, "R7C1");
    assert_eq!(rows[1].zone, "48, 49");
    assert_eq!(rows[1].name, "CCC-DDD");
    assert_eq!(rows[2].level, "R8");
    assert_eq!(rows[2].zone, "");
    assert_eq!(rows[3].zone, "0, 0");
    let rows = map_log_to_rows(&log, &ReadIdSet::new());
    assert!(rows.iter().all(|r| !r.read && r.id == 31));
}

#[test]
fn options_come_from_the_arguments() {
    let a = args(&["prog", "--playfab", "--data-path", "/logs", "--data-path", "/other"]);
    assert_eq!(data_path_arg(&a), Some("/logs".to_string()));
    let o = get_options(&a, Some("/found".to_string())).unwrap();
    assert_eq!(o.gtfo_path, "/logs");
    assert!(o.use_playfab);

    let a = args(&["prog", "--data-path"]);
    assert_eq!(data_path_arg(&a), None);
    let o = get_options(&a, Some("/found".to_string())).unwrap();
    assert_eq!(o.gtfo_path, "/found");
    assert!(!o.use_playfab);

    let a = args(&["prog", "--playfab=1", "--data-path=/x"]);
    let e = get_options(&a, None).unwrap_err();
    assert_eq!(e, "Couldn't get GTFO user data path");
    let e = get_options(&Vec::new(), None).unwrap_err();
    assert_eq!(e, "Couldn't get GTFO user data path");
}

#[test]
fn paths_are_joined_with_one_slash() {
    assert_eq!(join("/a", "b"), "/a/b");
    assert_eq!(join("/a/", "b"), "/a/b");
    assert_eq!(join("", "b"), "b");
    assert_eq!(join("/a", "/b"), "/b");
    assert_eq!(join("/a", ""), "/a/");
}

#[test]
fn text_is_split_trimmed_and_read_as_numbers() {
    let parts: Vec<String> =
        split_chars(&chars_of("a,,b,"), ',').iter().map(|p| p.iter().collect()).collect();
    assert_eq!(parts, vec!["a", "", "b", ""]);
    assert_eq!(split_chars(&chars_of(""), ',').len(), 1);
    let s = chars_of(" \t x y\u{2003}\n");
    assert_eq!(trim_at(&s, 0, s.len()), (3, 6));
    let blank = chars_of(" \r\n ");
    let (a, b) = trim_at(&blank, 0, blank.len());
    assert_eq!(a, b);
    assert_eq!(parse_number(&chars_of("255"), 255), Some(255));
    assert_eq!(parse_number(&chars_of("256"), 255), None);
    assert_eq!(parse_number(&chars_of("+0"), 255), Some(0));
    assert_eq!(parse_number(&chars_of("+"), 255), None);
    assert_eq!(parse_number(&chars_of(""), 255), None);
    assert_eq!(parse_number(&chars_of("1_0"), 255), None);
    assert_eq!(parse_number(&chars_of("٣"), 255), None);
}
