use gtfo_log_tracker::play_fab::{
    login_outcome, login_request, parse_ids, to_hex, user_data_outcome, ApiResponse,
    ErrorDetails, LoginRequest, LoginResponse, ReadLogs, UserData, UserDataResponse,
};

#[test]
fn can_parse_empty_string() {
    let ids = parse_ids("");

    assert_eq!(ids.len(), 0);
}

#[test]
fn can_parse_empty_array() {
    let ids = parse_ids("[]");

    assert_eq!(ids.len(), 0);
}

#[test]
fn can_parse_array() {
    let ids = parse_ids("[12345]");

    assert_eq!(ids.len(), 1);
    assert_eq!(ids[0], 12345);
}

#[test]
fn can_parse_single_item() {
    let ids = parse_ids("12345");

    assert_eq!(ids.len(), 1);
    assert_eq!(ids[0], 12345);
}

#[test]
fn can_parse_comma_seperated() {
    let ids = parse_ids("12345, 54321");

    assert_eq!(ids.len(), 2);
    assert_eq!(ids[0], 12345);
    assert_eq!(ids[1], 54321);
}

#[test]
fn ignores_invalid_numbers() {
    let ids = parse_ids("12345, abc");

    assert_eq!(ids.len(), 1);
    assert_eq!(ids[0], 12345);
}

#[test]
fn can_handle_whitespace() {
    let ids = parse_ids("\r\n  12345,\r\n  54321\r\n");

    assert_eq!(ids.len(), 2);
    assert_eq!(ids[0], 12345);
    assert_eq!(ids[1], 54321);
}

#[test]
fn all_three_forms_give_the_same_ids() {
    assert_eq!(parse_ids("[1,2,3]"), vec![1, 2, 3]);
    assert_eq!(parse_ids("1, 2, 3"), vec![1, 2, 3]);
    assert_eq!(parse_ids("[1, 2, 3]"), vec![1, 2, 3]);
    assert_eq!(parse_ids("1"), vec![1]);
    assert_eq!(parse_ids("[1]"), vec![1]);
}

#[test]
fn id_list_edge_cases() {
    assert_eq!(parse_ids("[1,2"), vec![2]);
    assert_eq!(parse_ids("1,2]"), vec![1]);
    assert_eq!(parse_ids("["), Vec::<u32>::new());
    assert_eq!(parse_ids("1,,2,"), vec![1, 2]);
    assert_eq!(parse_ids("+7, 007, -1, 1 2"), vec![7, 7]);
    assert_eq!(parse_ids("4294967295, 4294967296"), vec![4294967295]);
    assert_eq!(parse_ids("99999999999999999999999, 5"), vec![5]);
    assert_eq!(parse_ids("\u{a0}8\u{3000}, +"), vec![8]);
    assert_eq!(parse_ids("3, 3, 3"), vec![3, 3, 3]);
}

#[test]
fn writes_bytes_as_upper_case_hex() {
    assert_eq!(to_hex(&[]), "");
    assert_eq!(to_hex(&[0]), "00");
    assert_eq!(to_hex(&[0x0a, 0xff, 0x10, 0x9c]), "0AFF109C");
    assert_eq!(to_hex(&[1, 2, 3]), "010203");
}

#[test]
fn login_request_holds_title_and_ticket() {
    let req = LoginRequest::new("8f9", "ABCD".to_string());
    assert_eq!(req.title_id, "8f9");
    assert!(!req.create_account);
    assert_eq!(req.steam_ticket, "ABCD");
    assert!(!req.ticket_is_service_specific);

    let req = login_request(&[0xde, 0xad, 0x01]);
    assert_eq!(req.title_id, "8f9");
    assert!(!req.create_account);
    assert_eq!(req.steam_ticket, "DEAD01");
    assert!(!req.ticket_is_service_specific);
}

fn refusal() -> ErrorDetails {
    ErrorDetails {
        code: 401,
        error: "NotAuthenticated".to_string(),
        error_code: "1074".to_string(),
        error_details: "none".to_string(),
        error_message: "ticket expired".to_string(),
        status: "Unauthorized".to_string(),
    }
}

const REFUSAL_TEXT: &str = "HTTP: 401 - Unauthorized { error: NotAuthenticated, error_code: 1074, error_details: none, error_message: ticket expired }";

#[test]
fn refusal_is_written_as_one_line() {
    assert_eq!(refusal().message(), REFUSAL_TEXT);
    let mut zero = refusal();
    zero.code = 0;
    assert!(zero.message().starts_with("HTTP: 0 - "));
    zero.code = 65535;
    assert!(zero.message().starts_with("HTTP: 65535 - "));
}

#[test]
fn login_reply_gives_ticket_or_refusal() {
    let ok = ApiResponse::Success { data: LoginResponse { session_ticket: "T1".to_string() } };
    assert_eq!(login_outcome(ok).ok().unwrap().0, "T1");
    let err = login_outcome(ApiResponse::Error(refusal())).err().unwrap();
    assert_eq!(err, REFUSAL_TEXT);
}

#[test]
fn user_data_reply_gives_ids_or_refusal() {
    let ok = ApiResponse::Success {
        data: UserDataResponse {
            data: UserData { read_logs: ReadLogs { value: parse_ids("[4, 5]") } },
        },
    };
    assert_eq!(user_data_outcome(ok).unwrap().read_logs.value, vec![4, 5]);
    let err = user_data_outcome(ApiResponse::Error(refusal())).unwrap_err();
    assert_eq!(err, REFUSAL_TEXT);
}

#[test]
fn service_addresses() {
    assert_eq!(
        gtfo_log_tracker::play_fab::login_url(),
        "https://8f9.playfabapi.com/Client/LoginWithSteam"
    );
    assert_eq!(
        gtfo_log_tracker::play_fab::user_data_url(),
        "https://8f9.playfabapi.com/Client/GetUserData"
    );
    assert_eq!(gtfo_log_tracker::play_fab::SESSION_HEADER, "X-Authorization");
}
