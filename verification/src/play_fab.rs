//! The values exchanged with the remote player-data service: the login
//! request, the replies, and the list of read ids as the service writes it.

use crate::text::{
    chars_of, decimal, ids_in, ids_of, push_decimal, push_str, slice_of, string_of,
};
use vstd::prelude::*;
use vstd::string::*;

verus! {

/// The title under which the game is known to the service.
pub const GTFO_TITLE_ID: &'static str = "8f9";

/// The header that carries the session ticket.
pub const SESSION_HEADER: &'static str = "X-Authorization";

/// The address of one of the service's calls for the game's title.
pub open spec fn endpoint(call: Seq<char>) -> Seq<char> {
    "https://"@ + GTFO_TITLE_ID@ + ".playfabapi.com/Client/"@ + call
}

/// The address to which the login request is posted.
pub fn login_url() -> (r: String)
    ensures
        r@ == endpoint("LoginWithSteam"@),
{
    let r = String::from_str("https://").concat(GTFO_TITLE_ID);
    let r = r.concat(".playfabapi.com/Client/");
    r.concat("LoginWithSteam")
}

/// The address to which the request for the player's data is posted.
pub fn user_data_url() -> (r: String)
    ensures
        r@ == endpoint("GetUserData"@),
{
    let r = String::from_str("https://").concat(GTFO_TITLE_ID);
    let r = r.concat(".playfabapi.com/Client/");
    r.concat("GetUserData")
}

/// What the service reports when it refuses a request.
#[derive(Debug)]
pub struct ErrorDetails {
    pub code: u16,
    pub error: String,
    pub error_code: String,
    pub error_details: String,
    pub error_message: String,
    pub status: String,
}

impl ErrorDetails {
    /// The refusal as one line of text.
    pub open spec fn message_text(self) -> Seq<char> {
        "HTTP: "@ + decimal(self.code as nat) + " - "@ + self.status@ + " { error: "@
            + self.error@ + ", error_code: "@ + self.error_code@ + ", error_details: "@
            + self.error_details@ + ", error_message: "@ + self.error_message@ + " }"@
    }

    /// Writes the refusal as one line of text.
    pub fn message(&self) -> (r: String)
        ensures
            r@ == self.message_text(),
    {
        let mut out: Vec<char> = Vec::new();
        push_str(&mut out, "HTTP: ");
        push_decimal(&mut out, self.code as u32);
        push_str(&mut out, " - ");
        push_str(&mut out, self.status.as_str());
        push_str(&mut out, " { error: ");
        push_str(&mut out, self.error.as_str());
        push_str(&mut out, ", error_code: ");
        push_str(&mut out, self.error_code.as_str());
        push_str(&mut out, ", error_details: ");
        push_str(&mut out, self.error_details.as_str());
        push_str(&mut out, ", error_message: ");
        push_str(&mut out, self.error_message.as_str());
        push_str(&mut out, " }");
        assert(out@ =~= self.message_text());
        assert(out@.subrange(0, out@.len() as int) == out@);
        string_of(&out, 0, out.len())
    }
}

/// A reply of the service: the data asked for, or a refusal.
#[derive(Debug)]
pub enum ApiResponse<T> {
    Success { data: T },
    Error(ErrorDetails),
}

/// The body of a login request.
pub struct LoginRequest {
    pub title_id: String,
    pub create_account: bool,
    pub steam_ticket: String,
    pub ticket_is_service_specific: bool,
}

impl LoginRequest {
    /// A request to log in to an account that exists, with a ticket that is
    /// not bound to one service.
    pub fn new(title_id: &str, steam_ticket: String) -> (r: LoginRequest)
        ensures
            r.title_id@ == title_id@,
            r.create_account == false,
            r.steam_ticket == steam_ticket,
            r.ticket_is_service_specific == false,
    {
        LoginRequest {
            title_id: String::from_str(title_id),
            create_account: false,
            steam_ticket,
            ticket_is_service_specific: false,
        }
    }
}

/// The data of a login reply.
#[derive(Debug)]
pub struct LoginResponse {
    pub session_ticket: String,
}

/// The data of a user-data reply.
#[derive(Debug)]
pub struct UserDataResponse {
    pub data: UserData,
}

/// What the service keeps of a player.
#[derive(Debug)]
pub struct UserData {
    pub read_logs: ReadLogs,
}

/// The ids of the logs that the player has read.
#[derive(Debug)]
pub struct ReadLogs {
    pub value: Vec<u32>,
}

/// The credential of a session with the service.
pub struct SessionTicket(pub String);

/// The upper-case hexadecimal digit of a number below sixteen.
pub open spec fn hex_digit(d: nat) -> char {
    if d == 0 {
        '0'
    } else if d == 1 {
        '1'
    } else if d == 2 {
        '2'
    } else if d == 3 {
        '3'
    } else if d == 4 {
        '4'
    } else if d == 5 {
        '5'
    } else if d == 6 {
        '6'
    } else if d == 7 {
        '7'
    } else if d == 8 {
        '8'
    } else if d == 9 {
        '9'
    } else if d == 10 {
        'A'
    } else if d == 11 {
        'B'
    } else if d == 12 {
        'C'
    } else if d == 13 {
        'D'
    } else if d == 14 {
        'E'
    } else {
        'F'
    }
}

/// The bytes written as upper-case hexadecimal digits, two for each byte.
pub open spec fn hex_of(bytes: Seq<u8>) -> Seq<char>
    decreases bytes.len(),
{
    if bytes.len() == 0 {
        Seq::empty()
    } else {
        hex_of(bytes.drop_last()).push(hex_digit((bytes.last() / 16) as nat)).push(
            hex_digit((bytes.last() % 16) as nat),
        )
    }
}

fn hex_char(d: u8) -> (c: char)
    requires
        d < 16,
    ensures
        c == hex_digit(d as nat),
{
    if d == 0 {
        '0'
    } else if d == 1 {
        '1'
    } else if d == 2 {
        '2'
    } else if d == 3 {
        '3'
    } else if d == 4 {
        '4'
    } else if d == 5 {
        '5'
    } else if d == 6 {
        '6'
    } else if d == 7 {
        '7'
    } else if d == 8 {
        '8'
    } else if d == 9 {
        '9'
    } else if d == 10 {
        'A'
    } else if d == 11 {
        'B'
    } else if d == 12 {
        'C'
    } else if d == 13 {
        'D'
    } else if d == 14 {
        'E'
    } else {
        'F'
    }
}

/// Writes bytes as upper-case hexadecimal digits, two for each byte.
pub fn to_hex(bytes: &[u8]) -> (r: String)
    ensures
        r@ == hex_of(bytes@),
        r@.len() == 2 * bytes@.len(),
{
    let mut out = String::new();
    let mut i: usize = 0;
    assert(bytes@.subrange(0, 0) =~= Seq::<u8>::empty());
    while i < bytes.len()
        invariant
            i <= bytes@.len(),
            out@ == hex_of(bytes@.subrange(0, i as int)),
            out@.len() == 2 * i,
        decreases bytes@.len() - i,
    {
        let b = bytes[i];
        assert(bytes@.subrange(0, i + 1).drop_last() == bytes@.subrange(0, i as int));
        out.push(hex_char(b / 16));
        out.push(hex_char(b % 16));
        i += 1;
    }
    assert(bytes@.subrange(0, i as int) == bytes@);
    out
}

/// The list inside the brackets, where the text starts with `[` and ends
/// with `]`; else the text itself.
pub open spec fn unbracketed(s: Seq<char>) -> Seq<char> {
    if s.len() > 0 && s[0] == '[' && s.last() == ']' {
        s.subrange(1, s.len() - 1)
    } else {
        s
    }
}

/// Reads the ids that the service lists in a text: a comma-separated list,
/// in brackets or not, or a single number. What is no number between two
/// commas is passed over.
pub fn parse_ids(ids_str: &str) -> (r: Vec<u32>)
    ensures
        r@ == ids_in(unbracketed(ids_str@)),
{
    let s = chars_of(ids_str);
    let n = s.len();
    if n > 0 && s[0] == '[' && s[n - 1] == ']' {
        let inner = slice_of(&s, 1, n - 1);
        ids_of(&inner)
    } else {
        ids_of(&s)
    }
}

/// A list reads the same in brackets and without them.
pub proof fn lemma_brackets_do_not_matter(list: Seq<char>)
    ensures
        ids_in(unbracketed(seq!['['] + list + seq![']'])) == ids_in(list),
{
    let s = seq!['['] + list + seq![']'];
    assert(s.subrange(1, s.len() - 1) =~= list);
}

/// The request that logs in with the ticket that the platform gave.
pub fn login_request(steam_ticket: &[u8]) -> (r: LoginRequest)
    ensures
        r.title_id@ == GTFO_TITLE_ID@,
        r.create_account == false,
        r.steam_ticket@ == hex_of(steam_ticket@),
        r.ticket_is_service_specific == false,
{
    LoginRequest::new(GTFO_TITLE_ID, to_hex(steam_ticket))
}

/// What a login reply gives: the session ticket, or the refusal as text.
pub fn login_outcome(res: ApiResponse<LoginResponse>) -> (r: Result<SessionTicket, String>)
    ensures
        match res {
            ApiResponse::Success { data } => r is Ok && r->Ok_0.0 == data.session_ticket,
            ApiResponse::Error(e) => r is Err && r->Err_0@ == e.message_text(),
        },
{
    match res {
        ApiResponse::Success { data } => Ok(SessionTicket(data.session_ticket)),
        ApiResponse::Error(e) => Err(e.message()),
    }
}

/// What a user-data reply gives: the player's data, or the refusal as text.
pub fn user_data_outcome(res: ApiResponse<UserDataResponse>) -> (r: Result<UserData, String>)
    ensures
        match res {
            ApiResponse::Success { data } => r is Ok && r->Ok_0 == data.data,
            ApiResponse::Error(e) => r is Err && r->Err_0@ == e.message_text(),
        },
{
    match res {
        ApiResponse::Success { data } => Ok(data.data),
        ApiResponse::Error(e) => Err(e.message()),
    }
}

} // verus!
