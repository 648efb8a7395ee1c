use gtfo_log_tracker::game_data::{get_id_from_name, get_level_from_local, Location, StoryLog};

fn log(id: u32, names: &[&str]) -> StoryLog {
    StoryLog {
        id,
        locations: names
            .iter()
            .map(|n| Location {
                rundown: 1,
                level: "A1".to_string(),
                zones: vec![0],
                name: n.to_string(),
            })
            .collect(),
    }
}

#[test]
fn resolves_level_tokens() {
    assert_eq!(get_level_from_local("Local_32,1,0"), Some("R1A1".to_string()));
    assert_eq!(get_level_from_local("Local_99,1,0"), None);
    assert_eq!(get_level_from_local("Local_32,9,0"), None);
    assert_eq!(get_level_from_local("bad"), None);
}

#[test]
fn resolves_every_area_and_tier() {
    assert_eq!(get_level_from_local("Local_32,2,0"), Some("R1B1".to_string()));
    assert_eq!(get_level_from_local("Local_33,3,1"), Some("R2C2".to_string()));
    assert_eq!(get_level_from_local("Local_34,4,2"), Some("R3D3".to_string()));
    assert_eq!(get_level_from_local("Local_37,5,3"), Some("R4E4".to_string()));
    assert_eq!(get_level_from_local("Local_38,1,4"), Some("R5A5".to_string()));
    assert_eq!(get_level_from_local("Local_41,1,5"), Some("R6A6".to_string()));
    assert_eq!(get_level_from_local("Local_31,1,6"), Some("R7A7".to_string()));
    assert_eq!(get_level_from_local("Local_35,1,9"), Some("R8A10".to_string()));
}

#[test]
fn level_token_edge_cases() {
    assert_eq!(get_level_from_local(""), None);
    assert_eq!(get_level_from_local("Local_32,1"), None);
    assert_eq!(get_level_from_local("Local_32,1,0,0"), None);
    assert_eq!(get_level_from_local("Local_32,1,"), None);
    assert_eq!(get_level_from_local("Local_32,1,x"), None);
    assert_eq!(get_level_from_local("Local_32,1,-1"), None);
    assert_eq!(get_level_from_local("Local_32,0,0"), None);
    assert_eq!(get_level_from_local("Local_32,6,0"), None);
    assert_eq!(get_level_from_local("Local_32,11,0"), None);
    assert_eq!(get_level_from_local("local_32,1,0"), None);
    assert_eq!(get_level_from_local("Local_32 ,1,0"), None);
    assert_eq!(get_level_from_local("Local_32,1, 0"), None);
    assert_eq!(get_level_from_local("Local_32,1,256"), None);
    assert_eq!(get_level_from_local("Local_32,1,254"), Some("R1A255".to_string()));
    assert_eq!(get_level_from_local("Local_32,1,255"), Some("R1A256".to_string()));
    assert_eq!(get_level_from_local("Local_32,1,+7"), Some("R1A8".to_string()));
    assert_eq!(get_level_from_local("Local_32,1,007"), Some("R1A8".to_string()));
}

#[test]
fn resolves_names_to_the_first_entry() {
    let logs = vec![
        log(1, &["ABC-DEF"]),
        log(2, &["XYZ-123", "DUP-NAME"]),
        log(3, &["DUP-NAME"]),
        log(4, &[]),
    ];
    assert_eq!(get_id_from_name("ABC-DEF", &logs), Some(1));
    assert_eq!(get_id_from_name("XYZ-123", &logs), Some(2));
    assert_eq!(get_id_from_name("DUP-NAME", &logs), Some(2));
    assert_eq!(get_id_from_name("ABC-DE", &logs), None);
    assert_eq!(get_id_from_name("abc-def", &logs), None);
    assert_eq!(get_id_from_name("", &logs), None);
    assert_eq!(get_id_from_name("ABC-DEF", &[]), None);
}
