//! The exchange with the platform and the remote service that fetches the
//! read ids, as a state machine: a ticket from the platform, a login with
//! it, the player's data, and the release of the ticket, which happens once
//! on every path on which a ticket was given.

use crate::play_fab::{
    hex_of, login_outcome, login_request, user_data_outcome, ApiResponse, LoginRequest,
    LoginResponse, SessionTicket, UserDataResponse, GTFO_TITLE_ID,
};
use vstd::prelude::*;
use vstd::string::*;

verus! {

/// How an exchange ends: with the read ids, or with the cause of a failure.
pub type Outcome = Result<Vec<u32>, String>;

/// An outcome as a plain value.
pub open spec fn outcome_view(o: Outcome) -> Result<Seq<u32>, Seq<char>> {
    match o {
        Ok(ids) => Ok(ids@),
        Err(cause) => Err(cause@),
    }
}

/// Where an exchange stands: what it waits for.
pub enum RemoteState {
    /// For the platform's ticket.
    AwaitingTicket,
    /// For the reply to the login. The ticket is held.
    AwaitingLogin,
    /// For the reply with the player's data. The ticket is held.
    AwaitingUserData,
    /// For the release of the ticket, with the outcome that is then final.
    AwaitingRelease(Outcome),
    /// For nothing: the exchange has ended.
    Finished,
}

/// What happened outside since the last step.
pub enum RemoteInput {
    /// The platform gave a ticket.
    Ticket(Vec<u8>),
    /// The platform could not be reached: the cause.
    PlatformFailed(String),
    /// The login was answered, or the request failed on the way.
    LoginReply(Result<ApiResponse<LoginResponse>, String>),
    /// The request for the player's data was answered, or failed on the way.
    UserDataReply(Result<ApiResponse<UserDataResponse>, String>),
    /// The ticket was released.
    Released,
}

/// What to do outside before the next step.
pub enum RemoteCommand {
    /// Ask the platform for a ticket.
    AcquireTicket,
    /// Send the login request.
    Login(LoginRequest),
    /// Ask for the player's data, with the session ticket as credential.
    GetUserData(SessionTicket),
    /// Release the platform's ticket.
    ReleaseTicket,
    /// Nothing more: this is the outcome.
    Finish(Outcome),
    /// Nothing new: go on waiting for what was asked.
    Wait,
}

/// Whether the platform's ticket is held in this state.
pub open spec fn holds_ticket(state: RemoteState) -> bool {
    state is AwaitingLogin || state is AwaitingUserData || state is AwaitingRelease
}

/// The text that tells that the platform could not be reached.
pub open spec fn platform_failure(cause: Seq<char>) -> Seq<char> {
    "Failed to init Steam - "@ + cause
}

/// The outcome that a reply with the player's data, or its failure, gives.
pub open spec fn user_data_outcome_view(
    reply: Result<ApiResponse<UserDataResponse>, String>,
) -> Result<Seq<u32>, Seq<char>> {
    match reply {
        Ok(ApiResponse::Success { data }) => Ok(data.data.read_logs.value@),
        Ok(ApiResponse::Error(e)) => Err(e.message_text()),
        Err(cause) => Err(cause@),
    }
}

/// The cause of failure that a login reply, or its failure, gives, if any.
pub open spec fn login_failure(reply: Result<ApiResponse<LoginResponse>, String>) -> Option<
    Seq<char>,
> {
    match reply {
        Ok(ApiResponse::Success { data }) => None,
        Ok(ApiResponse::Error(e)) => Some(e.message_text()),
        Err(cause) => Some(cause@),
    }
}

/// Whether `(next, command)` is what a step gives from `state` on `input`.
pub open spec fn is_step(
    state: RemoteState,
    input: RemoteInput,
    next: RemoteState,
    command: RemoteCommand,
) -> bool {
    match (state, input) {
        (RemoteState::AwaitingTicket, RemoteInput::Ticket(bytes)) => {
            &&& next is AwaitingLogin
            &&& command matches RemoteCommand::Login(req)
            &&& req.title_id@ == GTFO_TITLE_ID@
            &&& !req.create_account
            &&& req.steam_ticket@ == hex_of(bytes@)
            &&& !req.ticket_is_service_specific
        },
        (RemoteState::AwaitingTicket, RemoteInput::PlatformFailed(cause)) => {
            &&& next is Finished
            &&& command matches RemoteCommand::Finish(o)
            &&& outcome_view(o) == Err::<Seq<u32>, Seq<char>>(platform_failure(cause@))
        },
        (RemoteState::AwaitingLogin, RemoteInput::LoginReply(reply)) => match login_failure(
            reply,
        ) {
            None => {
                &&& next is AwaitingUserData
                &&& command matches RemoteCommand::GetUserData(ticket)
                &&& reply matches Ok(ApiResponse::Success { data })
                &&& ticket.0 == data.session_ticket
            },
            Some(cause) => {
                &&& next matches RemoteState::AwaitingRelease(o)
                &&& outcome_view(o) == Err::<Seq<u32>, Seq<char>>(cause)
                &&& command is ReleaseTicket
            },
        },
        (RemoteState::AwaitingUserData, RemoteInput::UserDataReply(reply)) => {
            &&& next matches RemoteState::AwaitingRelease(o)
            &&& outcome_view(o) == user_data_outcome_view(reply)
            &&& command is ReleaseTicket
        },
        (RemoteState::AwaitingRelease(held), RemoteInput::Released) => {
            &&& next is Finished
            &&& command matches RemoteCommand::Finish(o)
            &&& o == held
        },
        (state, _) => next == state && command is Wait,
    }
}

/// The state and the command with which an exchange begins.
pub fn begin() -> (r: (RemoteState, RemoteCommand))
    ensures
        r.0 is AwaitingTicket,
        r.1 is AcquireTicket,
{
    (RemoteState::AwaitingTicket, RemoteCommand::AcquireTicket)
}

/// One step of the exchange: from the state and what happened outside to
/// the next state and what to do next. An input that answers nothing that
/// was asked is passed over. The ticket is released exactly when a state
/// that waits for a reply with the ticket held is left, and the exchange
/// ends only with no ticket held.
pub fn step(state: RemoteState, input: RemoteInput) -> (r: (RemoteState, RemoteCommand))
    ensures
        is_step(state, input, r.0, r.1),
        r.1 is ReleaseTicket <==> r.0 is AwaitingRelease && !(state is AwaitingRelease),
        r.1 is Finish <==> r.0 is Finished && !(state is Finished),
        r.0 is Finished && holds_ticket(state) ==> state is AwaitingRelease && input is Released,
        holds_ticket(state) ==> holds_ticket(r.0) || r.0 is Finished,
        state is Finished ==> r.0 is Finished && r.1 is Wait,
        !(r.1 is AcquireTicket),
{
    match state {
        RemoteState::AwaitingTicket => match input {
            RemoteInput::Ticket(bytes) => (
                RemoteState::AwaitingLogin,
                RemoteCommand::Login(login_request(bytes.as_slice())),
            ),
            RemoteInput::PlatformFailed(cause) => {
                let text = String::from_str("Failed to init Steam - ").concat(cause.as_str());
                (RemoteState::Finished, RemoteCommand::Finish(Err(text)))
            },
            _ => (RemoteState::AwaitingTicket, RemoteCommand::Wait),
        },
        RemoteState::AwaitingLogin => match input {
            RemoteInput::LoginReply(reply) => match reply {
                Ok(answer) => match login_outcome(answer) {
                    Ok(ticket) => (
                        RemoteState::AwaitingUserData,
                        RemoteCommand::GetUserData(ticket),
                    ),
                    Err(refusal) => (
                        RemoteState::AwaitingRelease(Err(refusal)),
                        RemoteCommand::ReleaseTicket,
                    ),
                },
                Err(cause) => (
                    RemoteState::AwaitingRelease(Err(cause)),
                    RemoteCommand::ReleaseTicket,
                ),
            },
            _ => (RemoteState::AwaitingLogin, RemoteCommand::Wait),
        },
        RemoteState::AwaitingUserData => match input {
            RemoteInput::UserDataReply(reply) => match reply {
                Ok(answer) => match user_data_outcome(answer) {
                    Ok(data) => (
                        RemoteState::AwaitingRelease(Ok(data.read_logs.value)),
                        RemoteCommand::ReleaseTicket,
                    ),
                    Err(refusal) => (
                        RemoteState::AwaitingRelease(Err(refusal)),
                        RemoteCommand::ReleaseTicket,
                    ),
                },
                Err(cause) => (
                    RemoteState::AwaitingRelease(Err(cause)),
                    RemoteCommand::ReleaseTicket,
                ),
            },
            _ => (RemoteState::AwaitingUserData, RemoteCommand::Wait),
        },
        RemoteState::AwaitingRelease(held) => match input {
            RemoteInput::Released => (RemoteState::Finished, RemoteCommand::Finish(held)),
            _ => (RemoteState::AwaitingRelease(held), RemoteCommand::Wait),
        },
        RemoteState::Finished => (RemoteState::Finished, RemoteCommand::Wait),
    }
}

} // verus!
