use gtfo_log_tracker::play_fab::{
    ApiResponse, ErrorDetails, LoginResponse, ReadLogs, UserData, UserDataResponse,
};
use gtfo_log_tracker::remote::{begin, step, RemoteCommand, RemoteInput, RemoteState};

fn refusal() -> ErrorDetails {
    ErrorDetails {
        code: 400,
        error: "BadRequest".to_string(),
        error_code: "1000".to_string(),
        error_details: "d".to_string(),
        error_message: "m".to_string(),
        status: "Bad Request".to_string(),
    }
}

const REFUSAL_TEXT: &str =
    "HTTP: 400 - Bad Request { error: BadRequest, error_code: 1000, error_details: d, error_message: m }";

fn login_ok() -> RemoteInput {
    RemoteInput::LoginReply(Ok(ApiResponse::Success {
        data: LoginResponse { session_ticket: "S-1".to_string() },
    }))
}

fn data_ok(ids: Vec<u32>) -> RemoteInput {
    RemoteInput::UserDataReply(Ok(ApiResponse::Success {
        data: UserDataResponse { data: UserData { read_logs: ReadLogs { value: ids } } },
    }))
}

fn run(inputs: Vec<RemoteInput>) -> (RemoteState, Vec<RemoteCommand>) {
    let (mut state, first) = begin();
    let mut commands = vec![first];
    for input in inputs {
        let (next, command) = step(state, input);
        state = next;
        commands.push(command);
    }
    (state, commands)
}

fn releases(commands: &[RemoteCommand]) -> usize {
    commands.iter().filter(|c| matches!(c, RemoteCommand::ReleaseTicket)).count()
}

#[test]
fn exchange_that_succeeds() {
    let (state, commands) = run(vec![
        RemoteInput::Ticket(vec![0xab, 0x01]),
        login_ok(),
        data_ok(vec![1, 2, 3]),
        RemoteInput::Released,
    ]);
    assert!(matches!(state, RemoteState::Finished));
    assert_eq!(commands.len(), 5);
    assert!(matches!(commands[0], RemoteCommand::AcquireTicket));
    match &commands[1] {
        RemoteCommand::Login(req) => {
            assert_eq!(req.title_id, "8f9");
            assert_eq!(req.steam_ticket, "AB01");
            assert!(!req.create_account);
            assert!(!req.ticket_is_service_specific);
        }
        _ => panic!("no login"),
    }
    assert!(matches!(&commands[2], RemoteCommand::GetUserData(t) if t.0 == "S-1"));
    assert!(matches!(commands[3], RemoteCommand::ReleaseTicket));
    assert!(matches!(&commands[4], RemoteCommand::Finish(Ok(ids)) if *ids == vec![1, 2, 3]));
    assert_eq!(releases(&commands), 1);
}

#[test]
fn platform_failure_ends_without_release() {
    let (state, commands) = run(vec![RemoteInput::PlatformFailed("not running".to_string())]);
    assert!(matches!(state, RemoteState::Finished));
    assert!(matches!(
        &commands[1],
        RemoteCommand::Finish(Err(e)) if e == "Failed to init Steam - not running"
    ));
    assert_eq!(releases(&commands), 0);
}

#[test]
fn refused_login_releases_once() {
    let (state, commands) = run(vec![
        RemoteInput::Ticket(vec![1]),
        RemoteInput::LoginReply(Ok(ApiResponse::Error(refusal()))),
        RemoteInput::Released,
    ]);
    assert!(matches!(state, RemoteState::Finished));
    assert!(matches!(commands[2], RemoteCommand::ReleaseTicket));
    assert!(matches!(&commands[3], RemoteCommand::Finish(Err(e)) if e == REFUSAL_TEXT));
    assert_eq!(releases(&commands), 1);
}

#[test]
fn failed_transport_releases_once() {
    let (_, commands) = run(vec![
        RemoteInput::Ticket(vec![1]),
        RemoteInput::LoginReply(Err("timed out".to_string())),
        RemoteInput::Released,
    ]);
    assert!(matches!(&commands[3], RemoteCommand::Finish(Err(e)) if e == "timed out"));
    assert_eq!(releases(&commands), 1);

    let (_, commands) = run(vec![
        RemoteInput::Ticket(vec![1]),
        login_ok(),
        RemoteInput::UserDataReply(Err("reset".to_string())),
        RemoteInput::Released,
    ]);
    assert!(matches!(&commands[4], RemoteCommand::Finish(Err(e)) if e == "reset"));
    assert_eq!(releases(&commands), 1);

    let (_, commands) = run(vec![
        RemoteInput::Ticket(vec![1]),
        login_ok(),
        RemoteInput::UserDataReply(Ok(ApiResponse::Error(refusal()))),
        RemoteInput::Released,
    ]);
    assert!(matches!(&commands[4], RemoteCommand::Finish(Err(e)) if e == REFUSAL_TEXT));
    assert_eq!(releases(&commands), 1);
}

#[test]
fn inputs_that_answer_nothing_are_passed_over() {
    let (state, commands) = run(vec![
        RemoteInput::Released,
        login_ok(),
        RemoteInput::Ticket(vec![1]),
        RemoteInput::Ticket(vec![2]),
        data_ok(vec![9]),
        login_ok(),
        login_ok(),
        data_ok(vec![4]),
        data_ok(vec![5]),
        RemoteInput::Ticket(vec![3]),
        RemoteInput::Released,
        RemoteInput::Released,
        data_ok(vec![6]),
    ]);
    assert!(matches!(state, RemoteState::Finished));
    let waits = commands.iter().filter(|c| matches!(c, RemoteCommand::Wait)).count();
    assert_eq!(waits, 9);
    assert_eq!(releases(&commands), 1);
    let finishes: Vec<&RemoteCommand> =
        commands.iter().filter(|c| matches!(c, RemoteCommand::Finish(_))).collect();
    assert_eq!(finishes.len(), 1);
    assert!(matches!(finishes[0], RemoteCommand::Finish(Ok(ids)) if *ids == vec![4]));
}
