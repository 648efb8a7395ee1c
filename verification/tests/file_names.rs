use gtfo_log_tracker::file_name::{
    file_contains_log_ids, parse_file_name, select_index, select_log_file, Timestamp,
};

fn names(list: &[&str]) -> Vec<String> {
    list.iter().map(|s| s.to_string()).collect()
}

#[test]
fn matches_client_file() {
    let result = file_contains_log_ids("GTFO.2023.12.22.00.25.30_NoName_CLIENT.txt");

    assert!(result)
}

#[test]
fn matches_master_file() {
    let result = file_contains_log_ids("GTFO.2023.12.22.00.25.30_NoName_MASTER.txt");

    assert!(result)
}

#[test]
fn matches_single_player_file() {
    let result = file_contains_log_ids("GTFO.2023.12.22.00.25.30_NICKNAME_NETSTATUS.txt");

    assert!(result)
}

#[test]
fn can_parse_if_valid_file_name() {
    let file_name = "GTFO.2023.12.22.00.25.30_NoName_CLIENT.txt";

    let date = parse_file_name(file_name).expect("failed to parse date");

    assert_eq!(date.year, 2023);
    assert_eq!(time::Month::try_from(date.month).unwrap(), time::Month::December);
    assert_eq!(date.day, 22);
    assert_eq!(date.hour, 0);
    assert_eq!(date.minute, 25);
    assert_eq!(date.second, 30);
}

#[test]
fn rejects_other_file_names() {
    assert!(!file_contains_log_ids("Player.log"));
    assert!(!file_contains_log_ids(""));
    assert!(!file_contains_log_ids("GTFO.2023.12.22.00.25.30_NoName_CLIENT.log"));
    assert!(!file_contains_log_ids("GTFO.2023.12.22.00.25_NoName_CLIENT.txt"));
    assert!(!file_contains_log_ids("GTFO.2023.12.22.00.25.3x_NoName_CLIENT.txt"));
    assert!(!file_contains_log_ids("GTFO.2023.12.22.00.25.30-NoName_CLIENT.txt"));
    assert!(!file_contains_log_ids("GTFO.2023.12.22.00.25.30_No\nName.txt"));
}

#[test]
fn accepts_any_middle_and_surroundings() {
    assert!(file_contains_log_ids("GTFO.2023.12.22.00.25.30_.txt"));
    assert!(file_contains_log_ids("old-GTFO.2023.12.22.00.25.30_x.txt.bak"));
    assert!(file_contains_log_ids("GTFO.9999.99.99.99.99.99_x.txt"));
}

#[test]
fn timestamp_does_not_depend_on_middle() {
    let a = parse_file_name("GTFO.2024.02.29.23.59.59_NoName_CLIENT.txt");
    let b = parse_file_name("GTFO.2024.02.29.23.59.59_someone else_MASTER.txt");
    let expected =
        Timestamp { year: 2024, month: 2, day: 29, hour: 23, minute: 59, second: 59 };
    assert_eq!(a, Some(expected));
    assert_eq!(b, Some(expected));
}

#[test]
fn timestamp_of_first_name_in_text() {
    let t = parse_file_name("xGTFO.2021.01.02.03.04.05_a.txt GTFO.2022.01.02.03.04.05_b.txt");
    assert_eq!(
        t,
        Some(Timestamp { year: 2021, month: 1, day: 2, hour: 3, minute: 4, second: 5 })
    );
}

#[test]
fn invalid_calendar_values_give_no_timestamp() {
    assert_eq!(parse_file_name("GTFO.2023.13.01.00.00.00_x.txt"), None);
    assert_eq!(parse_file_name("GTFO.2023.00.01.00.00.00_x.txt"), None);
    assert_eq!(parse_file_name("GTFO.2023.02.29.00.00.00_x.txt"), None);
    assert_eq!(parse_file_name("GTFO.2023.04.31.00.00.00_x.txt"), None);
    assert_eq!(parse_file_name("GTFO.2023.01.00.00.00.00_x.txt"), None);
    assert_eq!(parse_file_name("GTFO.2023.01.01.24.00.00_x.txt"), None);
    assert_eq!(parse_file_name("GTFO.2023.01.01.00.60.00_x.txt"), None);
    assert_eq!(parse_file_name("GTFO.2023.01.01.00.00.60_x.txt"), None);
    assert_eq!(parse_file_name("GTFO.1900.02.29.00.00.00_x.txt"), None);
    assert_eq!(parse_file_name("Player.log"), None);
}

#[test]
fn leap_days_and_bounds_are_accepted() {
    assert!(parse_file_name("GTFO.2000.02.29.00.00.00_x.txt").is_some());
    assert!(parse_file_name("GTFO.2023.02.28.00.00.00_x.txt").is_some());
    assert!(parse_file_name("GTFO.2023.12.31.23.59.59_x.txt").is_some());
    assert!(parse_file_name("GTFO.0000.01.01.00.00.00_x.txt").is_some());
    assert!(parse_file_name("GTFO.9999.04.30.00.00.00_x.txt").is_some());
}

#[test]
fn timestamps_are_ordered_field_by_field() {
    let a = Timestamp { year: 2023, month: 12, day: 22, hour: 0, minute: 25, second: 30 };
    let b = Timestamp { year: 2023, month: 12, day: 22, hour: 0, minute: 25, second: 31 };
    let c = Timestamp { year: 2024, month: 1, day: 1, hour: 0, minute: 0, second: 0 };
    assert!(a.is_earlier(&b));
    assert!(!b.is_earlier(&a));
    assert!(!a.is_earlier(&a));
    assert!(b.is_earlier(&c));
    assert!(!c.is_earlier(&a));
}

#[test]
fn selects_the_later_of_two_files() {
    let early = "GTFO.2023.12.22.00.25.30_A_CLIENT.txt";
    let late = "GTFO.2023.12.22.00.25.31_B_CLIENT.txt";
    assert_eq!(
        select_log_file("/logs", &names(&[early, late]), false).unwrap(),
        format!("/logs/{late}")
    );
    assert_eq!(
        select_log_file("/logs", &names(&[late, early]), true).unwrap(),
        format!("/logs/{late}")
    );
}

#[test]
fn selects_among_many_and_skips_invalid_ones() {
    let list = names(&[
        "notes.txt",
        "GTFO.2023.01.01.00.00.00_a.txt",
        "GTFO.2023.13.01.00.00.00_b.txt",
        "GTFO.2023.06.15.12.00.00_c.txt",
        "GTFO.2022.12.31.23.59.59_d.txt",
        "Player.log",
    ]);
    assert_eq!(select_index(&list), Some(3));
    assert_eq!(
        select_log_file("dir/", &list, true).unwrap(),
        "dir/GTFO.2023.06.15.12.00.00_c.txt"
    );
}

#[test]
fn equal_timestamps_give_the_last_listed() {
    let list = names(&["GTFO.2023.01.01.00.00.00_a.txt", "GTFO.2023.01.01.00.00.00_b.txt"]);
    assert_eq!(select_index(&list), Some(1));
}

#[test]
fn falls_back_to_player_log() {
    let list = names(&["Player.log", "readme.md"]);
    assert_eq!(select_index(&list), None);
    assert_eq!(select_log_file("/logs", &list, true).unwrap(), "/logs/Player.log");
    assert_eq!(select_log_file("", &Vec::new(), true).unwrap(), "Player.log");
}

#[test]
fn fails_with_the_directory_when_nothing_is_found() {
    let list = names(&["readme.md", "GTFO.2023.13.01.00.00.00_b.txt"]);
    let err = select_log_file("/some/dir", &list, false).unwrap_err();
    assert_eq!(err.dir, "/some/dir");
    assert_eq!(
        err.message(),
        "Couldn't find any CLIENT/MASTER.txt files or Player.log in '/some/dir'"
    );
}
