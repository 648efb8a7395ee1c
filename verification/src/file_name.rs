//! Session-log file names: their shape, the timestamp they carry, and the
//! choice of the most recent session log of a directory.

use crate::text::{
    all_digits, char_is_digit, chars_of, digit_value, digits_number, digits_value, is_digit, join,
    join_path,
};
use vstd::prelude::*;
use vstd::string::*;

verus! {

/// The length of `GTFO.`, the nineteen characters of the timestamp and `_`.
pub const HEAD_LEN: usize = 25;

/// Whether `s[from..to]` lies in `s` and holds decimal digits only.
pub open spec fn digits_in(s: Seq<char>, from: int, to: int) -> bool {
    0 <= from <= to <= s.len() && forall|k: int| from <= k < to ==> is_digit(#[trigger] s[k])
}

/// Whether `GTFO.YYYY.MM.DD.hh.mm.ss_` stands in `s` at index `at`, each
/// letter of the timestamp being a decimal digit.
pub open spec fn head_at(s: Seq<char>, at: int) -> bool {
    &&& 0 <= at
    &&& at + 25 <= s.len()
    &&& s[at] == 'G'
    &&& s[at + 1] == 'T'
    &&& s[at + 2] == 'F'
    &&& s[at + 3] == 'O'
    &&& s[at + 4] == '.'
    &&& digits_in(s, at + 5, at + 9)
    &&& s[at + 9] == '.'
    &&& digits_in(s, at + 10, at + 12)
    &&& s[at + 12] == '.'
    &&& digits_in(s, at + 13, at + 15)
    &&& s[at + 15] == '.'
    &&& digits_in(s, at + 16, at + 18)
    &&& s[at + 18] == '.'
    &&& digits_in(s, at + 19, at + 21)
    &&& s[at + 21] == '.'
    &&& digits_in(s, at + 22, at + 24)
    &&& s[at + 24] == '_'
}

/// Whether `.txt` stands in `s` at index `at`.
pub open spec fn suffix_at(s: Seq<char>, at: int) -> bool {
    &&& 0 <= at
    &&& at + 4 <= s.len()
    &&& s[at] == '.'
    &&& s[at + 1] == 't'
    &&& s[at + 2] == 'x'
    &&& s[at + 3] == 't'
}

/// Whether `s[from..to]` holds no line feed.
pub open spec fn one_line(s: Seq<char>, from: int, to: int) -> bool {
    forall|k: int| from <= k < to ==> #[trigger] s[k] != '\n'
}

/// Whether a session-log name starts in `s` at index `at`: the head, then
/// any text without a line feed, then `.txt`.
pub open spec fn log_name_at(s: Seq<char>, at: int) -> bool {
    head_at(s, at) && exists|j: int|
        at + 25 <= j && #[trigger] suffix_at(s, j) && one_line(s, at + 25, j)
}

/// The first index from `from` on at which a session-log name starts.
pub open spec fn find_log_name(s: Seq<char>, from: int) -> Option<int>
    decreases s.len() - from,
{
    if from >= s.len() {
        None
    } else if log_name_at(s, from) {
        Some(from)
    } else {
        find_log_name(s, from + 1)
    }
}

/// Whether a session-log name stands somewhere in `s`: such a file may hold
/// log ids.
pub open spec fn is_log_name(s: Seq<char>) -> bool {
    exists|at: int| #[trigger] log_name_at(s, at)
}

/// `find_log_name` finds nothing exactly where no session-log name starts
/// at the index `from` or later.
pub proof fn lemma_none_found(s: Seq<char>, from: int)
    requires
        0 <= from,
    ensures
        find_log_name(s, from) is None <==> forall|k: int|
            from <= k ==> !#[trigger] log_name_at(s, k),
    decreases s.len() - from,
{
    if from < s.len() {
        if !log_name_at(s, from) {
            lemma_none_found(s, from + 1);
        }
    }
}

fn all_digits_in(s: &Vec<char>, from: usize, to: usize) -> (r: bool)
    requires
        from <= to <= s@.len(),
    ensures
        r == digits_in(s@, from as int, to as int),
{
    let mut i: usize = from;
    while i < to
        invariant
            from <= i <= to <= s@.len(),
            forall|k: int| from <= k < i ==> is_digit(#[trigger] s@[k]),
        decreases to - i,
    {
        if !char_is_digit(s[i]) {
            return false;
        }
        i += 1;
    }
    true
}

fn is_head_at(s: &Vec<char>, at: usize) -> (r: bool)
    ensures
        r == head_at(s@, at as int),
{
    if at > s.len() || s.len() - at < HEAD_LEN {
        return false;
    }
    s[at] == 'G' && s[at + 1] == 'T' && s[at + 2] == 'F' && s[at + 3] == 'O' && s[at + 4] == '.'
        && all_digits_in(s, at + 5, at + 9) && s[at + 9] == '.' && all_digits_in(
        s,
        at + 10,
        at + 12,
    ) && s[at + 12] == '.' && all_digits_in(s, at + 13, at + 15) && s[at + 15] == '.'
        && all_digits_in(s, at + 16, at + 18) && s[at + 18] == '.' && all_digits_in(
        s,
        at + 19,
        at + 21,
    ) && s[at + 21] == '.' && all_digits_in(s, at + 22, at + 24) && s[at + 24] == '_'
}

fn is_suffix_at(s: &Vec<char>, at: usize) -> (r: bool)
    ensures
        r == suffix_at(s@, at as int),
{
    if at > s.len() || s.len() - at < 4 {
        return false;
    }
    s[at] == '.' && s[at + 1] == 't' && s[at + 2] == 'x' && s[at + 3] == 't'
}

fn is_log_name_at(s: &Vec<char>, at: usize) -> (r: bool)
    ensures
        r == log_name_at(s@, at as int),
{
    if !is_head_at(s, at) {
        return false;
    }
    let n = s.len();
    let mut j: usize = at + HEAD_LEN;
    while j < n
        invariant
            at + 25 <= j <= s@.len(),
            n == s@.len(),
            head_at(s@, at as int),
            forall|k: int| at + 25 <= k < j ==> !suffix_at(s@, k),
            one_line(s@, at + 25, j as int),
        decreases s@.len() - j,
    {
        if is_suffix_at(s, j) {
            return true;
        }
        if s[j] == '\n' {
            assert forall|k: int| at + 25 <= k && one_line(s@, at + 25, k) implies !suffix_at(
                s@,
                k,
            ) by {
                if k > j {
                    assert(s@[j as int] == '\n');
                }
            }
            return false;
        }
        j += 1;
    }
    false
}

/// Finds the first index at which a session-log name starts.
pub fn find_log_name_in(s: &Vec<char>) -> (r: Option<usize>)
    ensures
        match r {
            Some(at) => find_log_name(s@, 0) == Some(at as int),
            None => find_log_name(s@, 0) is None,
        },
{
    let mut at: usize = 0;
    while at < s.len()
        invariant
            at <= s@.len(),
            find_log_name(s@, at as int) == find_log_name(s@, 0),
        decreases s@.len() - at,
    {
        if is_log_name_at(s, at) {
            return Some(at);
        }
        at += 1;
    }
    None
}

/// Tells whether the file of this name may hold log ids: whether a
/// session-log name stands somewhere in it.
pub fn file_contains_log_ids(file_name: &str) -> (r: bool)
    ensures
        r == is_log_name(file_name@),
{
    let s = chars_of(file_name);
    proof {
        lemma_none_found(s@, 0);
        if find_log_name(s@, 0) is Some {
            lemma_found_is_log_name(s@, 0, find_log_name(s@, 0)->0);
        }
    }
    find_log_name_in(&s).is_some()
}

/// A calendar date and a time of day.
#[derive(Clone, Copy, Debug, PartialEq, Eq, Structural)]
pub struct Timestamp {
    pub year: i32,
    pub month: u8,
    pub day: u8,
    pub hour: u8,
    pub minute: u8,
    pub second: u8,
}

/// Whether the year has a 29th of February in the Gregorian calendar.
pub open spec fn is_leap_year(year: int) -> bool {
    year % 4 == 0 && (year % 100 != 0 || year % 400 == 0)
}

/// The number of days of a month of the Gregorian calendar.
pub open spec fn month_length(year: int, month: int) -> int {
    if month == 2 {
        if is_leap_year(year) {
            29
        } else {
            28
        }
    } else if month == 4 || month == 6 || month == 9 || month == 11 {
        30
    } else {
        31
    }
}

/// Whether the calendar has this day.
pub open spec fn is_calendar_date(year: int, month: int, day: int) -> bool {
    1 <= month <= 12 && 1 <= day <= month_length(year, month)
}

/// Whether the clock shows this time.
pub open spec fn is_clock_time(hour: int, minute: int, second: int) -> bool {
    0 <= hour < 24 && 0 <= minute < 60 && 0 <= second < 60
}

impl Timestamp {
    /// A timestamp names a day of the calendar and a time of the clock.
    pub open spec fn wf(self) -> bool {
        &&& 0 <= self.year <= 9999
        &&& is_calendar_date(self.year as int, self.month as int, self.day as int)
        &&& is_clock_time(self.hour as int, self.minute as int, self.second as int)
    }

    /// Whether `self` lies strictly before `other`.
    pub open spec fn earlier(self, other: Timestamp) -> bool {
        self.year < other.year || (self.year == other.year && (self.month < other.month || (
        self.month == other.month && (self.day < other.day || (self.day == other.day && (self.hour
            < other.hour || (self.hour == other.hour && (self.minute < other.minute || (self.minute
            == other.minute && self.second < other.second)))))))))
    }

    /// Tells whether `self` lies strictly before `other`.
    pub fn is_earlier(&self, other: &Timestamp) -> (r: bool)
        ensures
            r == self.earlier(*other),
    {
        self.year < other.year || (self.year == other.year && (self.month < other.month || (
        self.month == other.month && (self.day < other.day || (self.day == other.day && (self.hour
            < other.hour || (self.hour == other.hour && (self.minute < other.minute || (self.minute
            == other.minute && self.second < other.second)))))))))
    }
}

/// Calls `time::Month::try_from` and `time::Date::from_calendar_date`, which
/// together accept a year from 0 to 9999 with a month and a day exactly when
/// the month is one of the twelve and the day is one of that month in that
/// year of the Gregorian calendar.
#[verifier::external_body]
fn calendar_date_exists(year: i32, month: u8, day: u8) -> (ok: bool)
    requires
        0 <= year <= 9999,
    ensures
        ok == is_calendar_date(year as int, month as int, day as int),
{
    match time::Month::try_from(month) {
        Ok(m) => time::Date::from_calendar_date(year, m, day).is_ok(),
        Err(_) => false,
    }
}

/// Calls `time::Time::from_hms`, which accepts an hour below 24 with a minute
/// and a second below 60, and nothing else.
#[verifier::external_body]
fn clock_time_exists(hour: u8, minute: u8, second: u8) -> (ok: bool)
    ensures
        ok == is_clock_time(hour as int, minute as int, second as int),
{
    time::Time::from_hms(hour, minute, second).is_ok()
}

/// The number that the digits `s[from..to]` write.
pub open spec fn number_at(s: Seq<char>, from: int, to: int) -> nat {
    digits_value(s.subrange(from, to))
}

/// The timestamp that the head at index `at` writes, if it names a day of
/// the calendar and a time of the clock.
pub open spec fn timestamp_at(s: Seq<char>, at: int) -> Option<Timestamp> {
    let year = number_at(s, at + 5, at + 9);
    let month = number_at(s, at + 10, at + 12);
    let day = number_at(s, at + 13, at + 15);
    let hour = number_at(s, at + 16, at + 18);
    let minute = number_at(s, at + 19, at + 21);
    let second = number_at(s, at + 22, at + 24);
    if is_calendar_date(year as int, month as int, day as int) && is_clock_time(
        hour as int,
        minute as int,
        second as int,
    ) {
        Some(
            Timestamp {
                year: year as i32,
                month: month as u8,
                day: day as u8,
                hour: hour as u8,
                minute: minute as u8,
                second: second as u8,
            },
        )
    } else {
        None
    }
}

/// The timestamp of the first session-log name that stands in `s`.
pub open spec fn timestamp_of(s: Seq<char>) -> Option<Timestamp> {
    match find_log_name(s, 0) {
        Some(at) => timestamp_at(s, at),
        None => None,
    }
}

/// Two digits write a number below 100.
pub proof fn lemma_two_digits(s: Seq<char>)
    requires
        s.len() == 2,
        all_digits(s),
    ensures
        digits_value(s) == digit_value(s[0]) * 10 + digit_value(s[1]),
        digits_value(s) <= 99,
{
    reveal_with_fuel(digits_value, 3);
    assert(s.drop_last().last() == s[0]);
    assert(is_digit(s[0]) && is_digit(s[1]));
}

/// Four digits write a number below 10000.
pub proof fn lemma_four_digits(s: Seq<char>)
    requires
        s.len() == 4,
        all_digits(s),
    ensures
        digits_value(s) == digit_value(s[0]) * 1000 + digit_value(s[1]) * 100 + digit_value(s[2])
            * 10 + digit_value(s[3]),
        digits_value(s) <= 9999,
{
    reveal_with_fuel(digits_value, 5);
    assert(s.drop_last().last() == s[2]);
    assert(s.drop_last().drop_last().last() == s[1]);
    assert(s.drop_last().drop_last().drop_last().last() == s[0]);
    assert(is_digit(s[0]) && is_digit(s[1]) && is_digit(s[2]) && is_digit(s[3]));
}

proof fn lemma_digits_in_all(s: Seq<char>, from: int, to: int)
    requires
        digits_in(s, from, to),
    ensures
        all_digits(s.subrange(from, to)),
{
    assert forall|i: int| 0 <= i < to - from implies is_digit(
        #[trigger] s.subrange(from, to)[i],
    ) by {
        assert(s.subrange(from, to)[i] == s[from + i]);
    }
}

fn two_digits_at(s: &Vec<char>, from: usize) -> (r: u8)
    requires
        digits_in(s@, from as int, from + 2),
    ensures
        r == number_at(s@, from as int, from + 2),
{
    proof {
        lemma_digits_in_all(s@, from as int, from + 2);
        lemma_two_digits(s@.subrange(from as int, from + 2));
        assert(from + 2 <= s.len());
    }
    match digits_number(s, from, from + 2, 99) {
        Some(v) => v as u8,
        None => 0,
    }
}

/// The timestamp written by the head that stands in `s` at index `at`.
fn read_timestamp(s: &Vec<char>, at: usize) -> (r: Option<Timestamp>)
    requires
        head_at(s@, at as int),
    ensures
        r == timestamp_at(s@, at as int),
        r is Some ==> r->0.wf(),
{
    proof {
        lemma_digits_in_all(s@, at + 5, at + 9);
        lemma_four_digits(s@.subrange(at + 5, at + 9));
        assert(at + 25 <= s.len());
    }
    let year: i32 = match digits_number(s, at + 5, at + 9, 9999) {
        Some(v) => v as i32,
        None => 0,
    };
    let month = two_digits_at(s, at + 10);
    let day = two_digits_at(s, at + 13);
    let hour = two_digits_at(s, at + 16);
    let minute = two_digits_at(s, at + 19);
    let second = two_digits_at(s, at + 22);
    if calendar_date_exists(year, month, day) && clock_time_exists(hour, minute, second) {
        Some(Timestamp { year, month, day, hour, minute, second })
    } else {
        None
    }
}

/// Reads the timestamp of a session-log file name. A name without the
/// session-log shape has none, and neither has one whose timestamp names no
/// day of the calendar or no time of the clock.
pub fn parse_file_name(file_name: &str) -> (r: Option<Timestamp>)
    ensures
        r == timestamp_of(file_name@),
        r is Some ==> r->0.wf(),
{
    let s = chars_of(file_name);
    match find_log_name_in(&s) {
        Some(at) => {
            proof {
                lemma_found_is_log_name(s@, 0, at as int);
            }
            read_timestamp(&s, at)
        },
        None => None,
    }
}

/// What `find_log_name` finds is the start of a session-log name, and none
/// starts before it.
pub proof fn lemma_found_is_log_name(s: Seq<char>, from: int, at: int)
    requires
        0 <= from,
        find_log_name(s, from) == Some(at),
    ensures
        from <= at < s.len(),
        log_name_at(s, at),
        forall|k: int| from <= k < at ==> !log_name_at(s, k),
    decreases s.len() - from,
{
    if from < s.len() && !log_name_at(s, from) {
        lemma_found_is_log_name(s, from + 1, at);
    }
}

/// The views of the file names of a directory.
pub open spec fn name_views(names: Seq<String>) -> Seq<Seq<char>> {
    names.map_values(|n: String| n@)
}

/// Whether the `i`-th name is that of a session log with a timestamp.
pub open spec fn is_candidate(names: Seq<Seq<char>>, i: int) -> bool {
    0 <= i < names.len() && timestamp_of(names[i]) is Some
}

/// Whether the directory holds a session log with a timestamp.
pub open spec fn has_candidate(names: Seq<Seq<char>>) -> bool {
    exists|i: int| is_candidate(names, i)
}

/// The timestamp of the `i`-th name.
pub open spec fn stamp(names: Seq<Seq<char>>, i: int) -> Timestamp {
    timestamp_of(names[i])->0
}

/// Whether the `i`-th name is the one to read: a session log that none in
/// the directory is later than, and the last listed of those that are as
/// late.
pub open spec fn is_selected(names: Seq<Seq<char>>, i: int) -> bool {
    &&& is_candidate(names, i)
    &&& forall|j: int| #[trigger]
        is_candidate(names, j) ==> if j <= i {
            !stamp(names, i).earlier(stamp(names, j))
        } else {
            stamp(names, j).earlier(stamp(names, i))
        }
}

/// Picks, among the file names of a directory, the session log with the
/// latest timestamp.
pub fn select_index(file_names: &Vec<String>) -> (r: Option<usize>)
    ensures
        match r {
            Some(i) => is_selected(name_views(file_names@), i as int),
            None => !has_candidate(name_views(file_names@)),
        },
{
    let ghost names = name_views(file_names@);
    let mut best: Option<(usize, Timestamp)> = None;
    let mut i: usize = 0;
    while i < file_names.len()
        invariant
            i <= file_names@.len(),
            names == name_views(file_names@),
            match best {
                Some((b, t)) => {
                    &&& b < i
                    &&& timestamp_of(names[b as int]) == Some(t)
                    &&& forall|j: int| #[trigger]
                        is_candidate(names, j) && j < i ==> if j <= b {
                            !t.earlier(stamp(names, j))
                        } else {
                            stamp(names, j).earlier(t)
                        }
                },
                None => forall|j: int| #[trigger] is_candidate(names, j) ==> j >= i,
            },
        decreases file_names@.len() - i,
    {
        assert(names[i as int] == file_names@[i as int]@);
        match parse_file_name(file_names[i].as_str()) {
            Some(t) => {
                let replace = match best {
                    Some((_, bt)) => !t.is_earlier(&bt),
                    None => true,
                };
                if replace {
                    best = Some((i, t));
                }
            },
            None => {},
        }
        i += 1;
    }
    match best {
        Some((b, _)) => Some(b),
        None => None,
    }
}

/// No session log and no `Player.log` was found in the directory `dir`.
#[derive(Debug)]
pub struct NoLogSource {
    pub dir: String,
}

impl NoLogSource {
    /// The text of the error, which names the directory.
    pub open spec fn message_text(self) -> Seq<char> {
        "Couldn't find any CLIENT/MASTER.txt files or Player.log in '"@ + self.dir@ + "'"@
    }

    /// The error as text.
    pub fn message(&self) -> (r: String)
        ensures
            r@ == self.message_text(),
    {
        let r = String::from_str("Couldn't find any CLIENT/MASTER.txt files or Player.log in '");
        let r = r.concat(self.dir.as_str());
        r.concat("'")
    }
}

/// Chooses the log file to read in the directory `dir`, which holds the
/// files `file_names`: the session log with the latest timestamp; where no
/// name is that of a session log with a timestamp, `Player.log` if the
/// directory has it; else nothing, which is an error that names the
/// directory.
pub fn select_log_file(dir: &str, file_names: &Vec<String>, has_player_log: bool) -> (r: Result<
    String,
    NoLogSource,
>)
    ensures
        match r {
            Ok(path) => {
                ||| exists|i: int|
                    is_selected(name_views(file_names@), i) && path@ == join_path(
                        dir@,
                        #[trigger] name_views(file_names@)[i],
                    )
                ||| !has_candidate(name_views(file_names@)) && has_player_log && path@
                    == join_path(dir@, "Player.log"@)
            },
            Err(e) => !has_candidate(name_views(file_names@)) && !has_player_log && e.dir@ == dir@,
        },
{
    match select_index(file_names) {
        Some(i) => {
            assert(name_views(file_names@)[i as int] == file_names@[i as int]@);
            Ok(join(dir, file_names[i].as_str()))
        },
        None => {
            if has_player_log {
                Ok(join(dir, "Player.log"))
            } else {
                Err(NoLogSource { dir: String::from_str(dir) })
            }
        },
    }
}

/// At most one name of a directory is the one to read.
pub proof fn lemma_selection_is_unique(names: Seq<Seq<char>>, i: int, j: int)
    requires
        is_selected(names, i),
        is_selected(names, j),
    ensures
        i == j,
{
    assert(is_candidate(names, i));
    assert(is_candidate(names, j));
}

/// A session log is never chosen while the directory holds one with a later
/// timestamp.
pub proof fn lemma_later_log_wins(names: Seq<Seq<char>>, a: int, b: int)
    requires
        is_candidate(names, a),
        is_candidate(names, b),
        stamp(names, a).earlier(stamp(names, b)),
    ensures
        !is_selected(names, a),
{
    assert(is_candidate(names, b));
}

/// Of two session logs with different timestamps that are alone in a
/// directory, the later one is chosen, in whichever order they are listed.
pub proof fn lemma_later_of_two_is_selected(first: Seq<char>, second: Seq<char>)
    requires
        timestamp_of(first) is Some,
        timestamp_of(second) is Some,
        timestamp_of(first)->0.earlier(timestamp_of(second)->0),
    ensures
        forall|i: int| is_selected(seq![first, second], i) <==> i == 1,
        forall|i: int| is_selected(seq![second, first], i) <==> i == 0,
{
    let x = seq![first, second];
    let y = seq![second, first];
    assert(x[0] == first && x[1] == second);
    assert(y[0] == second && y[1] == first);
    assert(is_candidate(x, 1));
    assert(is_candidate(y, 0));
    assert(is_selected(x, 1));
    assert(is_selected(y, 0));
    assert forall|i: int| is_selected(x, i) implies i == 1 by {
        lemma_selection_is_unique(x, i, 1);
    }
    assert forall|i: int| is_selected(y, i) implies i == 0 by {
        lemma_selection_is_unique(y, i, 0);
    }
}

/// A file name of the session-log shape: `GTFO.`, the nineteen characters of
/// a timestamp, `_`, a middle part, `.txt`.
pub open spec fn log_name(stamp: Seq<char>, middle: Seq<char>) -> Seq<char> {
    seq!['G', 'T', 'F', 'O', '.'] + stamp + seq!['_'] + middle + seq!['.', 't', 'x', 't']
}

/// Whether `stamp` has the shape `YYYY.MM.DD.hh.mm.ss`, in decimal digits.
pub open spec fn is_stamp(stamp: Seq<char>) -> bool {
    &&& stamp.len() == 19
    &&& digits_in(stamp, 0, 4)
    &&& stamp[4] == '.'
    &&& digits_in(stamp, 5, 7)
    &&& stamp[7] == '.'
    &&& digits_in(stamp, 8, 10)
    &&& stamp[10] == '.'
    &&& digits_in(stamp, 11, 13)
    &&& stamp[13] == '.'
    &&& digits_in(stamp, 14, 16)
    &&& stamp[16] == '.'
    &&& digits_in(stamp, 17, 19)
}

/// The timestamp read from a file name of the session-log shape is the one
/// that its nineteen characters write, whatever the middle part holds
/// (a line feed apart): two such names with one timestamp and different
/// middle parts give the same date and time.
pub proof fn lemma_timestamp_ignores_middle(stamp: Seq<char>, middle: Seq<char>)
    requires
        is_stamp(stamp),
        one_line(middle, 0, middle.len() as int),
    ensures
        is_log_name(log_name(stamp, middle)),
        timestamp_of(log_name(stamp, middle)) == timestamp_at(log_name(stamp, Seq::empty()), 0),
{
    let s = log_name(stamp, middle);
    let e = log_name(stamp, Seq::empty());
    assert forall|k: int| 0 <= k < 25 implies s[k] == e[k] by {}
    assert forall|k: int| 5 <= k < 24 implies s[k] == stamp[k - 5] by {}
    assert(head_at(s, 0));
    let j = 25 + middle.len() as int;
    assert(suffix_at(s, j));
    assert forall|k: int| 25 <= k < j implies s[k] != '\n' by {
        assert(s[k] == middle[k - 25]);
    }
    assert(one_line(s, 25, j));
    assert(log_name_at(s, 0));
    assert(s.subrange(5, 9) =~= e.subrange(5, 9));
    assert(s.subrange(10, 12) =~= e.subrange(10, 12));
    assert(s.subrange(13, 15) =~= e.subrange(13, 15));
    assert(s.subrange(16, 18) =~= e.subrange(16, 18));
    assert(s.subrange(19, 21) =~= e.subrange(19, 21));
    assert(s.subrange(22, 24) =~= e.subrange(22, 24));
}

} // verus!
