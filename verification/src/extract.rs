//! The rules that read a line of a session log: the summary of the ids read
//! so far, the display name of a log that was just read, and the token of a
//! level that was just selected.

use crate::file_name::one_line;
use crate::game_data::{
    get_id_from_name, get_level_from_local, id_of_name, level_code, level_code_of, StoryLog,
};
use crate::text::{
    blank_from, char_is_digit, char_is_upper_alnum, chars_of, digit_run, digit_run_length,
    find_char, has_at, ids_in, ids_of, index_of, is_blank_from, is_digit, is_upper_alnum,
    lemma_index_of, line_views, slice_of, starts_at, string_of,
};
use vstd::prelude::*;
use vstd::string::*;

verus! {

/// The number of upper-case letters and digits that follow each other in `s`
/// from index `at` on, counted up to `cap`.
pub open spec fn run_len(s: Seq<char>, at: int, cap: int) -> int
    decreases cap,
{
    if cap <= 0 || at < 0 || at >= s.len() || !is_upper_alnum(s[at]) {
        0
    } else {
        1 + run_len(s, at + 1, cap - 1)
    }
}

/// Where the display name that starts in `s` at index `at` ends, if one
/// starts there: three or four upper-case letters or digits, as many as
/// there are; `-`; three to six more, as many as there are; and, where it
/// follows, `-` with three more.
pub open spec fn name_end(s: Seq<char>, at: int) -> Option<int> {
    let a = run_len(s, at, 4);
    if at < 0 || a < 3 || at + a >= s.len() || s[at + a] != '-' {
        None
    } else {
        let b = run_len(s, at + a + 1, 6);
        let e = at + a + 1 + b;
        if b < 3 {
            None
        } else if e < s.len() && s[e] == '-' && run_len(s, e + 1, 3) == 3 {
            Some(e + 4)
        } else {
            Some(e)
        }
    }
}

/// The bounds of the first display name that starts in `s` at index `from`
/// or later.
pub open spec fn find_name(s: Seq<char>, from: int) -> Option<(int, int)>
    decreases s.len() - from,
{
    if from >= s.len() {
        None
    } else {
        match name_end(s, from) {
            Some(e) => Some((from, e)),
            None => find_name(s, from + 1),
        }
    }
}

/// The first display name in a line.
pub open spec fn read_name(line: Seq<char>) -> Option<Seq<char>> {
    match find_name(line, 0) {
        Some((a, e)) => Some(line.subrange(a, e)),
        None => None,
    }
}

fn run_length(s: &Vec<char>, at: usize, cap: usize) -> (r: usize)
    requires
        at <= s@.len(),
    ensures
        r == run_len(s@, at as int, cap as int),
        r <= cap,
        at + r <= s@.len(),
{
    let n = s.len();
    let mut k: usize = 0;
    while k < cap && at + k < n && char_is_upper_alnum(s[at + k])
        invariant
            k <= cap,
            at + k <= n,
            n == s@.len(),
            run_len(s@, at as int, cap as int) == k + run_len(s@, at + k, cap - k),
        decreases cap - k,
    {
        k += 1;
    }
    k
}

/// Finds where the display name that starts at index `at` ends.
fn name_end_at(s: &Vec<char>, at: usize) -> (r: Option<usize>)
    requires
        at <= s@.len(),
    ensures
        match r {
            Some(e) => name_end(s@, at as int) == Some(e as int) && at < e <= s@.len(),
            None => name_end(s@, at as int) is None,
        },
{
    let n = s.len();
    let a = run_length(s, at, 4);
    if a < 3 || at + a >= n || s[at + a] != '-' {
        return None;
    }
    let b = run_length(s, at + a + 1, 6);
    if b < 3 {
        return None;
    }
    let e = at + a + 1 + b;
    if e < n && s[e] == '-' && run_length(s, e + 1, 3) == 3 {
        Some(e + 4)
    } else {
        Some(e)
    }
}

/// Finds the first display name in a line.
pub fn find_name_in(s: &Vec<char>) -> (r: Option<(usize, usize)>)
    ensures
        match r {
            Some((a, e)) => find_name(s@, 0) == Some((a as int, e as int)) && a < e <= s@.len(),
            None => find_name(s@, 0) is None,
        },
{
    let mut at: usize = 0;
    while at < s.len()
        invariant
            at <= s@.len(),
            find_name(s@, at as int) == find_name(s@, 0),
        decreases s@.len() - at,
    {
        match name_end_at(s, at) {
            Some(e) => {
                return Some((at, e));
            },
            None => {},
        }
        at += 1;
    }
    None
}

/// The fixed words that the rules look for, held as characters.
pub struct Rules {
    marker: Vec<char>,
    area: Vec<char>,
    logs_read: Vec<char>,
    of: Vec<char>,
    ids: Vec<char>,
}

impl Rules {
    /// Each field holds its word.
    pub closed spec fn wf(&self) -> bool {
        &&& self.marker@ == "SelectActiveExpedition"@
        &&& self.area@ == "Local_"@
        &&& self.logs_read@ == "Logs Read: "@
        &&& self.of@ == " / "@
        &&& self.ids@ == " | IDs: ["@
    }

    /// The rules, ready for use.
    pub fn new() -> (r: Rules)
        ensures
            r.wf(),
    {
        Rules {
            marker: chars_of("SelectActiveExpedition"),
            area: chars_of("Local_"),
            logs_read: chars_of("Logs Read: "),
            of: chars_of(" / "),
            ids: chars_of(" | IDs: ["),
        }
    }
}

/// Where the level token that starts in `s` at index `at` ends, if one
/// starts there: `Local_`, one or more digits, as many as there are, and
/// twice a comma with one digit.
pub open spec fn level_token_end(s: Seq<char>, at: int) -> Option<int> {
    let d = at + "Local_"@.len();
    let p = d + digit_run(s, d);
    if has_at(s, at, "Local_"@) && digit_run(s, d) >= 1 && p + 4 <= s.len() && s[p] == ','
        && is_digit(s[p + 1]) && s[p + 2] == ',' && is_digit(s[p + 3]) {
        Some(p + 4)
    } else {
        None
    }
}

/// The last index in `lo..hi` at which a level token starts.
pub open spec fn last_level_token(s: Seq<char>, lo: int, hi: int) -> Option<int>
    decreases hi - lo,
{
    if hi <= lo {
        None
    } else if level_token_end(s, hi - 1) is Some {
        Some(hi - 1)
    } else {
        last_level_token(s, lo, hi - 1)
    }
}

/// The start of the level token that the marker at index `at` announces:
/// the last one that starts behind the marker and before the next line feed.
pub open spec fn level_token_after(s: Seq<char>, at: int) -> Option<int> {
    let from = at + "SelectActiveExpedition"@.len();
    if has_at(s, at, "SelectActiveExpedition"@) {
        last_level_token(s, from, index_of(s, from, '\n'))
    } else {
        None
    }
}

/// The start of the level token that the first marker from index `from` on
/// announces, of those markers that announce one.
pub open spec fn find_level_token(s: Seq<char>, from: int) -> Option<int>
    decreases s.len() - from,
{
    if from >= s.len() {
        None
    } else {
        match level_token_after(s, from) {
            Some(j) => Some(j),
            None => find_level_token(s, from + 1),
        }
    }
}

/// The level token that a line announces.
pub open spec fn level_token(line: Seq<char>) -> Option<Seq<char>> {
    match find_level_token(line, 0) {
        Some(j) => Some(line.subrange(j, level_token_end(line, j)->0)),
        None => None,
    }
}

/// Where the head of a summary that starts in `s` at index `at` ends, if
/// one starts there: `Logs Read: `, a number, ` / `, a number, ` | IDs: [`.
pub open spec fn summary_head_end(s: Seq<char>, at: int) -> Option<int> {
    let a = at + "Logs Read: "@.len();
    let b = a + digit_run(s, a);
    let c = b + " / "@.len();
    let d = c + digit_run(s, c);
    if has_at(s, at, "Logs Read: "@) && digit_run(s, a) >= 1 && has_at(s, b, " / "@) && digit_run(
        s,
        c,
    ) >= 1 && has_at(s, d, " | IDs: ["@) {
        Some(d + " | IDs: ["@.len())
    } else {
        None
    }
}

/// The bounds of the list of the summary that starts in `s` at index `at`,
/// if one starts there: the list runs from the head to the next `]`, behind
/// which the line holds white space only.
pub open spec fn summary_at(s: Seq<char>, at: int) -> Option<(int, int)> {
    match summary_head_end(s, at) {
        Some(b) => {
            let c = index_of(s, b, ']');
            if c < s.len() && blank_from(s, c + 1) {
                Some((b, c))
            } else {
                None
            }
        },
        None => None,
    }
}

/// The bounds of the list of the first summary that starts at index `from`
/// or later.
pub open spec fn find_summary(s: Seq<char>, from: int) -> Option<(int, int)>
    decreases s.len() - from,
{
    if from >= s.len() {
        None
    } else {
        match summary_at(s, from) {
            Some(r) => Some(r),
            None => find_summary(s, from + 1),
        }
    }
}

/// The ids that the summary of a line lists; none where the line holds no
/// summary.
pub open spec fn summary_ids(line: Seq<char>) -> Seq<u32> {
    match find_summary(line, 0) {
        Some((b, c)) => ids_in(line.subrange(b, c)),
        None => Seq::empty(),
    }
}

impl Rules {
    fn level_token_end_at(&self, s: &Vec<char>, at: usize) -> (r: Option<usize>)
        requires
            self.wf(),
        ensures
            match r {
                Some(e) => level_token_end(s@, at as int) == Some(e as int) && at < e <= s@.len(),
                None => level_token_end(s@, at as int) is None,
            },
    {
        let n = s.len();
        if !starts_at(s, at, &self.area) {
            return None;
        }
        let d = at + self.area.len();
        let k = digit_run_length(s, d);
        let p = d + k;
        if k >= 1 && n - p >= 4 && s[p] == ',' && char_is_digit(s[p + 1]) && s[p + 2] == ','
            && char_is_digit(s[p + 3]) {
            Some(p + 4)
        } else {
            None
        }
    }

    fn level_token_after_at(&self, s: &Vec<char>, at: usize) -> (r: Option<usize>)
        requires
            self.wf(),
        ensures
            match r {
                Some(j) => level_token_after(s@, at as int) == Some(j as int) && j < s@.len(),
                None => level_token_after(s@, at as int) is None,
            },
    {
        let n = s.len();
        if !starts_at(s, at, &self.marker) {
            return None;
        }
        let from = at + self.marker.len();
        let end = find_char(s, from, '\n');
        let mut last: Option<usize> = None;
        let mut j: usize = from;
        while j < end
            invariant
                from <= j <= end <= n,
                n == s@.len(),
                self.wf(),
                match last {
                    Some(l) => last_level_token(s@, from as int, j as int) == Some(l as int) && l
                        < j,
                    None => last_level_token(s@, from as int, j as int) is None,
                },
            decreases end - j,
        {
            if self.level_token_end_at(s, j).is_some() {
                last = Some(j);
            }
            j += 1;
        }
        last
    }

    /// Finds the level token that a line announces.
    pub fn find_level_token_in(&self, s: &Vec<char>) -> (r: Option<(usize, usize)>)
        requires
            self.wf(),
        ensures
            match r {
                Some((j, e)) => {
                    &&& find_level_token(s@, 0) == Some(j as int)
                    &&& level_token_end(s@, j as int) == Some(e as int)
                    &&& j < e <= s@.len()
                },
                None => find_level_token(s@, 0) is None,
            },
    {
        let mut at: usize = 0;
        while at < s.len()
            invariant
                at <= s@.len(),
                self.wf(),
                find_level_token(s@, at as int) == find_level_token(s@, 0),
            decreases s@.len() - at,
        {
            match self.level_token_after_at(s, at) {
                Some(j) => {
                    proof {
                        lemma_last_level_token(
                            s@,
                            at + "SelectActiveExpedition"@.len(),
                            index_of(s@, at + "SelectActiveExpedition"@.len(), '\n'),
                        );
                    }
                    match self.level_token_end_at(s, j) {
                        Some(e) => {
                            return Some((j, e));
                        },
                        None => {},
                    }
                },
                None => {},
            }
            at += 1;
        }
        None
    }

    fn summary_head_end_at(&self, s: &Vec<char>, at: usize) -> (r: Option<usize>)
        requires
            self.wf(),
        ensures
            match r {
                Some(b) => summary_head_end(s@, at as int) == Some(b as int) && b <= s@.len(),
                None => summary_head_end(s@, at as int) is None,
            },
    {
        let n = s.len();
        if !starts_at(s, at, &self.logs_read) {
            return None;
        }
        let a = at + self.logs_read.len();
        let m = digit_run_length(s, a);
        let b = a + m;
        if m == 0 || !starts_at(s, b, &self.of) {
            return None;
        }
        let c = b + self.of.len();
        let k = digit_run_length(s, c);
        let d = c + k;
        if k == 0 || !starts_at(s, d, &self.ids) {
            return None;
        }
        Some(d + self.ids.len())
    }

    fn summary_at_index(&self, s: &Vec<char>, at: usize) -> (r: Option<(usize, usize)>)
        requires
            self.wf(),
        ensures
            match r {
                Some((b, c)) => summary_at(s@, at as int) == Some((b as int, c as int)) && b <= c
                    < s@.len(),
                None => summary_at(s@, at as int) is None,
            },
    {
        match self.summary_head_end_at(s, at) {
            Some(b) => {
                let c = find_char(s, b, ']');
                if c < s.len() && is_blank_from(s, c + 1) {
                    Some((b, c))
                } else {
                    None
                }
            },
            None => None,
        }
    }

    /// Finds the list of the summary that a line holds.
    pub fn find_summary_in(&self, s: &Vec<char>) -> (r: Option<(usize, usize)>)
        requires
            self.wf(),
        ensures
            match r {
                Some((b, c)) => find_summary(s@, 0) == Some((b as int, c as int)) && b <= c
                    < s@.len(),
                None => find_summary(s@, 0) is None,
            },
    {
        let mut at: usize = 0;
        while at < s.len()
            invariant
                at <= s@.len(),
                self.wf(),
                find_summary(s@, at as int) == find_summary(s@, 0),
            decreases s@.len() - at,
        {
            match self.summary_at_index(s, at) {
                Some(r) => {
                    return Some(r);
                },
                None => {},
            }
            at += 1;
        }
        None
    }
}

/// What `last_level_token` finds is the start of a level token in `lo..hi`,
/// and none starts behind it there.
pub proof fn lemma_last_level_token(s: Seq<char>, lo: int, hi: int)
    ensures
        match last_level_token(s, lo, hi) {
            Some(j) => lo <= j < hi && level_token_end(s, j) is Some && forall|k: int|
                j < k < hi ==> level_token_end(s, k) is None,
            None => forall|k: int| lo <= k < hi ==> level_token_end(s, k) is None,
        },
    decreases hi - lo,
{
    if hi > lo && level_token_end(s, hi - 1) is None {
        lemma_last_level_token(s, lo, hi - 1);
    }
}

/// The id that the first display name of a line resolves to in the catalog.
pub open spec fn named_id(line: Seq<char>, logs: Seq<StoryLog>) -> Option<u32> {
    match read_name(line) {
        Some(name) => id_of_name(logs, name),
        None => None,
    }
}

/// The ids that one line gives: those of its summary, then the one of its
/// first display name, where the catalog knows that name.
pub open spec fn line_ids(line: Seq<char>, logs: Seq<StoryLog>) -> Seq<u32> {
    summary_ids(line) + (match named_id(line, logs) {
        Some(id) => seq![id],
        None => Seq::empty(),
    })
}

/// The ids that the lines give, line after line. An id may occur many times.
pub open spec fn read_ids(lines: Seq<Seq<char>>, logs: Seq<StoryLog>) -> Seq<u32>
    decreases lines.len(),
{
    if lines.len() == 0 {
        Seq::empty()
    } else {
        read_ids(lines.drop_last(), logs) + line_ids(lines.last(), logs)
    }
}

/// The id of the last line whose first display name the catalog knows. A
/// line without a display name, or with one that the catalog does not know,
/// is passed over.
pub open spec fn latest_id(lines: Seq<Seq<char>>, logs: Seq<StoryLog>) -> Option<u32>
    decreases lines.len(),
{
    if lines.len() == 0 {
        None
    } else {
        match named_id(lines.last(), logs) {
            Some(id) => Some(id),
            None => latest_id(lines.drop_last(), logs),
        }
    }
}

/// The level code of the level token that a line announces, if it announces
/// one that has a code.
pub open spec fn announced_level(line: Seq<char>) -> Option<Seq<char>> {
    match level_token(line) {
        Some(token) => level_code(token),
        None => None,
    }
}

/// The level code of the last line that announces a level token with a
/// code. A line that announces no token, or one without a code, is passed
/// over.
pub open spec fn latest_level(lines: Seq<Seq<char>>) -> Option<Seq<char>>
    decreases lines.len(),
{
    if lines.len() == 0 {
        None
    } else {
        match announced_level(lines.last()) {
            Some(code) => Some(code),
            None => latest_level(lines.drop_last()),
        }
    }
}

/// Resolves the display name that a rule matched.
pub fn try_get_log_id(matched: &str, all_logs: &[StoryLog]) -> (r: Option<u32>)
    ensures
        r == id_of_name(all_logs@, matched@),
{
    get_id_from_name(matched, all_logs)
}

/// Resolves the level token that a rule matched.
pub fn try_get_new_level(matched: &str) -> (r: Option<String>)
    ensures
        match r {
            Some(code) => level_code(matched@) == Some(code@),
            None => level_code(matched@) is None,
        },
{
    get_level_from_local(matched)
}

fn append_ids(out: &mut Vec<u32>, more: &Vec<u32>)
    ensures
        final(out)@ == old(out)@ + more@,
{
    let n = more.len();
    let mut i: usize = 0;
    assert(out@ =~= old(out)@ + more@.subrange(0, 0));
    while i < n
        invariant
            i <= n,
            n == more@.len(),
            out@ == old(out)@ + more@.subrange(0, i as int),
        decreases n - i,
    {
        out.push(more[i]);
        assert(out@ =~= old(out)@ + more@.subrange(0, i + 1));
        i += 1;
    }
    assert(more@.subrange(0, n as int) == more@);
}

/// The id that the catalog gives to the first display name of a line.
fn id_of_line(s: &Vec<char>, logs: &[StoryLog]) -> (r: Option<u32>)
    ensures
        r == named_id(s@, logs@),
{
    match find_name_in(s) {
        Some((a, e)) => {
            let name = string_of(s, a, e);
            get_id_from_name(name.as_str(), logs)
        },
        None => None,
    }
}

/// The level code of the level token that a line announces.
fn level_of_line(rules: &Rules, s: &Vec<char>) -> (r: Option<Vec<char>>)
    requires
        rules.wf(),
    ensures
        match r {
            Some(code) => announced_level(s@) == Some(code@),
            None => announced_level(s@) is None,
        },
{
    match rules.find_level_token_in(s) {
        Some((j, e)) => {
            let token = slice_of(s, j, e);
            level_code_of(&token)
        },
        None => None,
    }
}

/// Reads the ids of a session log that is given line by line: of each
/// line the ids that its summary lists, then the id of its first display
/// name, where the catalog knows that name. Later display names of a line
/// are not looked at.
pub fn parse_read_ids(lines: &Vec<String>, logs: &[StoryLog]) -> (r: Vec<u32>)
    ensures
        r@ == read_ids(line_views(lines@), logs@),
{
    let rules = Rules::new();
    read_ids_with(&rules, lines, logs)
}

/// Reads the ids of a session log as `parse_read_ids` does, with rules that
/// the caller keeps.
pub fn read_ids_with(rules: &Rules, lines: &Vec<String>, logs: &[StoryLog]) -> (r: Vec<u32>)
    requires
        rules.wf(),
    ensures
        r@ == read_ids(line_views(lines@), logs@),
{
    let ghost all = line_views(lines@);
    let mut out: Vec<u32> = Vec::new();
    let mut i: usize = 0;
    assert(all.subrange(0, 0) =~= Seq::<Seq<char>>::empty());
    while i < lines.len()
        invariant
            i <= lines@.len(),
            rules.wf(),
            all == line_views(lines@),
            out@ == read_ids(all.subrange(0, i as int), logs@),
        decreases lines@.len() - i,
    {
        let s = chars_of(lines[i].as_str());
        proof {
            assert(all[i as int] == s@);
            assert(all.subrange(0, i + 1).drop_last() == all.subrange(0, i as int));
            assert(all.subrange(0, i + 1).last() == s@);
        }
        let ghost before = out@;
        match rules.find_summary_in(&s) {
            Some((b, c)) => {
                let list = slice_of(&s, b, c);
                let ids = ids_of(&list);
                append_ids(&mut out, &ids);
            },
            None => {},
        }
        assert(out@ =~= before + summary_ids(s@));
        match id_of_line(&s, logs) {
            Some(id) => {
                out.push(id);
            },
            None => {},
        }
        assert(out@ =~= before + line_ids(s@, logs@));
        i += 1;
    }
    assert(all.subrange(0, i as int) == all);
    out
}

/// Reads what a session log that is given line by line holds last: the id
/// of the last line whose first display name the catalog knows, and the
/// level code of the last line that announces a level token with a code.
/// Display names that the catalog does not know and tokens without a code
/// are passed over: they hide nothing that an earlier line gave.
pub fn get_latest_data(lines: &Vec<String>, all_logs: &[StoryLog]) -> (r: (
    Option<u32>,
    Option<String>,
))
    ensures
        r.0 == latest_id(line_views(lines@), all_logs@),
        match r.1 {
            Some(code) => latest_level(line_views(lines@)) == Some(code@),
            None => latest_level(line_views(lines@)) is None,
        },
{
    let rules = Rules::new();
    latest_data_with(&rules, lines, all_logs)
}

/// Reads what a session log holds last as `get_latest_data` does, with
/// rules that the caller keeps.
pub fn latest_data_with(rules: &Rules, lines: &Vec<String>, all_logs: &[StoryLog]) -> (r: (
    Option<u32>,
    Option<String>,
))
    requires
        rules.wf(),
    ensures
        r.0 == latest_id(line_views(lines@), all_logs@),
        match r.1 {
            Some(code) => latest_level(line_views(lines@)) == Some(code@),
            None => latest_level(line_views(lines@)) is None,
        },
{
    let ghost all = line_views(lines@);
    let mut id: Option<u32> = None;
    let mut level: Option<Vec<char>> = None;
    let mut i: usize = 0;
    assert(all.subrange(0, 0) =~= Seq::<Seq<char>>::empty());
    while i < lines.len()
        invariant
            i <= lines@.len(),
            rules.wf(),
            all == line_views(lines@),
            id == latest_id(all.subrange(0, i as int), all_logs@),
            match level {
                Some(code) => latest_level(all.subrange(0, i as int)) == Some(code@),
                None => latest_level(all.subrange(0, i as int)) is None,
            },
        decreases lines@.len() - i,
    {
        let s = chars_of(lines[i].as_str());
        proof {
            assert(all[i as int] == s@);
            assert(all.subrange(0, i + 1).drop_last() == all.subrange(0, i as int));
            assert(all.subrange(0, i + 1).last() == s@);
        }
        match id_of_line(&s, all_logs) {
            Some(found) => {
                id = Some(found);
            },
            None => {},
        }
        match level_of_line(rules, &s) {
            Some(code) => {
                level = Some(code);
            },
            None => {},
        }
        i += 1;
    }
    assert(all.subrange(0, i as int) == all);
    let code = match level {
        Some(c) => {
            assert(c@.subrange(0, c@.len() as int) == c@);
            Some(string_of(&c, 0, c.len()))
        },
        None => None,
    };
    (id, code)
}

/// What `find_name` finds is the first display name from `from` on: one
/// starts there, and none starts between `from` and it.
pub proof fn lemma_first_name(s: Seq<char>, from: int)
    requires
        0 <= from,
    ensures
        match find_name(s, from) {
            Some((a, e)) => {
                &&& from <= a < s.len()
                &&& name_end(s, a) == Some(e)
                &&& forall|k: int| from <= k < a ==> name_end(s, k) is None
            },
            None => forall|k: int| from <= k ==> name_end(s, k) is None,
        },
    decreases s.len() - from,
{
    if from < s.len() {
        if name_end(s, from) is None {
            lemma_first_name(s, from + 1);
        }
    }
}

/// What `find_summary` finds is the first summary from `from` on: one
/// starts there, and none starts between `from` and it.
pub proof fn lemma_first_summary(s: Seq<char>, from: int)
    requires
        0 <= from,
    ensures
        match find_summary(s, from) {
            Some(r) => exists|a: int|
                from <= a < s.len() && #[trigger] summary_at(s, a) == Some(r) && forall|k: int|
                    from <= k < a ==> summary_at(s, k) is None,
            None => forall|k: int| from <= k ==> summary_at(s, k) is None,
        },
    decreases s.len() - from,
{
    reveal_strlit("Logs Read: ");
    if from < s.len() {
        if summary_at(s, from) is None {
            lemma_first_summary(s, from + 1);
            match find_summary(s, from) {
                Some(r) => {
                    let a = choose|a: int|
                        from + 1 <= a < s.len() && #[trigger] summary_at(s, a) == Some(r)
                            && forall|k: int| from + 1 <= k < a ==> summary_at(s, k) is None;
                    assert(from <= a < s.len() && summary_at(s, a) == Some(r) && forall|k: int|
                        from <= k < a ==> summary_at(s, k) is None);
                },
                None => {},
            }
        } else {
            assert(summary_at(s, from) == find_summary(s, from));
        }
    }
}

/// Whether the marker that stands in `s` at index `m` announces the level
/// token that starts at index `j`: the token starts behind the marker, with
/// no line feed between the two.
pub open spec fn announces(s: Seq<char>, m: int, j: int) -> bool {
    &&& has_at(s, m, "SelectActiveExpedition"@)
    &&& m + "SelectActiveExpedition"@.len() <= j
    &&& level_token_end(s, j) is Some
    &&& one_line(s, m + "SelectActiveExpedition"@.len(), j)
}

/// What `level_token_after` gives for a marker is the last level token that
/// the marker announces.
pub proof fn lemma_level_token_after(s: Seq<char>, m: int)
    requires
        0 <= m,
    ensures
        match level_token_after(s, m) {
            Some(j) => announces(s, m, j) && forall|k: int| k > j ==> !announces(s, m, k),
            None => forall|k: int| !announces(s, m, k),
        },
{
    reveal_strlit("Local_");
    let from = m + "SelectActiveExpedition"@.len();
    if has_at(s, m, "SelectActiveExpedition"@) {
        let end = index_of(s, from, '\n');
        lemma_index_of(s, from, '\n');
        lemma_last_level_token(s, from, end);
        assert forall|k: int| k >= end implies !announces(s, m, k) by {
            if end < s.len() {
                if k == end {
                    if level_token_end(s, k) is Some {
                        assert(s.subrange(k, k + 6) == "Local_"@);
                        assert(s.subrange(k, k + 6)[0] == 'L');
                    }
                } else {
                    assert(s[end] == '\n');
                }
            }
        }
    }
}

/// What `find_level_token` finds is the last level token that a marker
/// announces, for the first marker from `from` on that announces one.
pub proof fn lemma_first_level_token(s: Seq<char>, from: int)
    requires
        0 <= from,
    ensures
        match find_level_token(s, from) {
            Some(j) => exists|m: int|
                {
                    &&& from <= m
                    &&& #[trigger] announces(s, m, j)
                    &&& forall|k: int| k > j ==> !announces(s, m, k)
                    &&& forall|m2: int, k: int| from <= m2 < m ==> !announces(s, m2, k)
                },
            None => forall|m: int, k: int| from <= m ==> !announces(s, m, k),
        },
    decreases s.len() - from,
{
    reveal_strlit("SelectActiveExpedition");
    if from < s.len() {
        lemma_level_token_after(s, from);
        match level_token_after(s, from) {
            Some(j) => {
                assert(announces(s, from, j));
            },
            None => {
                lemma_first_level_token(s, from + 1);
                match find_level_token(s, from) {
                    Some(j) => {
                        let m = choose|m: int|
                            {
                                &&& from + 1 <= m
                                &&& #[trigger] announces(s, m, j)
                                &&& forall|k: int| k > j ==> !announces(s, m, k)
                                &&& forall|m2: int, k: int|
                                    from + 1 <= m2 < m ==> !announces(s, m2, k)
                            };
                        assert forall|m2: int, k: int| from <= m2 < m implies !announces(
                            s,
                            m2,
                            k,
                        ) by {
                            if m2 > from {
                                assert(from + 1 <= m2 < m);
                            }
                        }
                        assert(announces(s, m, j));
                    },
                    None => {
                        assert forall|m: int, k: int| from <= m implies !announces(s, m, k) by {
                            if m > from {
                                assert(from + 1 <= m);
                            }
                        }
                    },
                }
            },
        }
    }
}

/// A run of `run_len` holds upper-case letters and digits only, lies in
/// the text, and is no longer than `cap`.
pub proof fn lemma_run_len(s: Seq<char>, at: int, cap: int)
    requires
        0 <= at,
    ensures
        0 <= run_len(s, at, cap),
        run_len(s, at, cap) <= cap || cap < 0,
        at + run_len(s, at, cap) <= s.len() || run_len(s, at, cap) == 0,
        forall|k: int| at <= k < at + run_len(s, at, cap) ==> is_upper_alnum(s[k]),
    decreases cap,
{
    if !(cap <= 0 || at >= s.len() || !is_upper_alnum(s[at])) {
        lemma_run_len(s, at + 1, cap - 1);
    }
}

/// A display name is between seven and fifteen characters long and holds
/// upper-case letters, digits and `-` only.
pub proof fn lemma_name_shape(s: Seq<char>, at: int)
    requires
        name_end(s, at) is Some,
    ensures
        at + 7 <= name_end(s, at)->0 <= at + 15,
        name_end(s, at)->0 <= s.len(),
        forall|k: int| at <= k < name_end(s, at)->0 ==> is_upper_alnum(s[k]) || s[k] == '-',
{
    let a = run_len(s, at, 4);
    lemma_run_len(s, at, 4);
    let b = run_len(s, at + a + 1, 6);
    lemma_run_len(s, at + a + 1, 6);
    let e = at + a + 1 + b;
    if e < s.len() && s[e] == '-' {
        lemma_run_len(s, e + 1, 3);
    }
}

/// The latest id is that of the last line whose first display name the
/// catalog knows: no line behind it gives an id. There is none exactly
/// where no line gives one.
pub proof fn lemma_latest_id(lines: Seq<Seq<char>>, logs: Seq<StoryLog>)
    ensures
        match latest_id(lines, logs) {
            Some(id) => exists|i: int|
                {
                    &&& 0 <= i < lines.len()
                    &&& named_id(#[trigger] lines[i], logs) == Some(id)
                    &&& forall|j: int| i < j < lines.len() ==> named_id(lines[j], logs) is None
                },
            None => forall|i: int| 0 <= i < lines.len() ==> named_id(lines[i], logs) is None,
        },
    decreases lines.len(),
{
    if lines.len() > 0 {
        let head = lines.drop_last();
        if named_id(lines.last(), logs) is None {
            lemma_latest_id(head, logs);
            match latest_id(head, logs) {
                Some(id) => {
                    let i = choose|i: int|
                        {
                            &&& 0 <= i < head.len()
                            &&& named_id(#[trigger] head[i], logs) == Some(id)
                            &&& forall|j: int|
                                i < j < head.len() ==> named_id(head[j], logs) is None
                        };
                    assert(lines[i] == head[i]);
                    assert forall|j: int| i < j < lines.len() implies named_id(lines[j], logs)
                        is None by {
                        if j < head.len() {
                            assert(lines[j] == head[j]);
                        }
                    }
                },
                None => {
                    assert forall|i: int| 0 <= i < lines.len() implies named_id(lines[i], logs)
                        is None by {
                        if i < head.len() {
                            assert(lines[i] == head[i]);
                        }
                    }
                },
            }
        } else {
            assert(named_id(lines[lines.len() - 1], logs) == latest_id(lines, logs));
        }
    }
}

/// The latest level is that of the last line that announces a level token
/// with a code: no line behind it announces one. There is none exactly
/// where no line announces one.
pub proof fn lemma_latest_level(lines: Seq<Seq<char>>)
    ensures
        match latest_level(lines) {
            Some(code) => exists|i: int|
                {
                    &&& 0 <= i < lines.len()
                    &&& announced_level(#[trigger] lines[i]) == Some(code)
                    &&& forall|j: int| i < j < lines.len() ==> announced_level(lines[j]) is None
                },
            None => forall|i: int| 0 <= i < lines.len() ==> announced_level(lines[i]) is None,
        },
    decreases lines.len(),
{
    if lines.len() > 0 {
        let head = lines.drop_last();
        if announced_level(lines.last()) is None {
            lemma_latest_level(head);
            match latest_level(head) {
                Some(code) => {
                    let i = choose|i: int|
                        {
                            &&& 0 <= i < head.len()
                            &&& announced_level(#[trigger] head[i]) == Some(code)
                            &&& forall|j: int|
                                i < j < head.len() ==> announced_level(head[j]) is None
                        };
                    assert(lines[i] == head[i]);
                    assert forall|j: int| i < j < lines.len() implies announced_level(lines[j])
                        is None by {
                        if j < head.len() {
                            assert(lines[j] == head[j]);
                        }
                    }
                },
                None => {
                    assert forall|i: int| 0 <= i < lines.len() implies announced_level(lines[i])
                        is None by {
                        if i < head.len() {
                            assert(lines[i] == head[i]);
                        }
                    }
                },
            }
        } else {
            assert(announced_level(lines[lines.len() - 1]) == latest_level(lines));
        }
    }
}

/// An id is among the ids that the lines give exactly where the summary of
/// one of the lines lists it or the first display name of one of the lines
/// resolves to it.
pub proof fn lemma_read_ids_members(lines: Seq<Seq<char>>, logs: Seq<StoryLog>, v: u32)
    ensures
        read_ids(lines, logs).contains(v) <==> exists|i: int|
            0 <= i < lines.len() && (summary_ids(#[trigger] lines[i]).contains(v) || named_id(
                lines[i],
                logs,
            ) == Some(v)),
    decreases lines.len(),
{
    if lines.len() > 0 {
        let head = lines.drop_last();
        let last = lines.last();
        lemma_read_ids_members(head, logs, v);
        let a = read_ids(head, logs);
        let b = line_ids(last, logs);
        assert(read_ids(lines, logs) == a + b);
        let tail = match named_id(last, logs) {
            Some(id) => seq![id],
            None => Seq::<u32>::empty(),
        };
        assert(b == summary_ids(last) + tail);
        if (a + b).contains(v) {
            let k = choose|k: int| 0 <= k < (a + b).len() && (a + b)[k] == v;
            if k < a.len() {
                assert(a[k] == v);
                assert(a.contains(v));
                let i = choose|i: int|
                    0 <= i < head.len() && (summary_ids(#[trigger] head[i]).contains(v)
                        || named_id(head[i], logs) == Some(v));
                assert(lines[i] == head[i]);
            } else {
                let m = k - a.len();
                assert(b[m] == v);
                if m < summary_ids(last).len() {
                    assert(summary_ids(last)[m] == v);
                    assert(summary_ids(last).contains(v));
                } else {
                    assert(tail[m - summary_ids(last).len()] == v);
                }
                assert(lines[lines.len() - 1] == last);
            }
        }
        if exists|i: int|
            0 <= i < lines.len() && (summary_ids(#[trigger] lines[i]).contains(v) || named_id(
                lines[i],
                logs,
            ) == Some(v)) {
            let i = choose|i: int|
                0 <= i < lines.len() && (summary_ids(#[trigger] lines[i]).contains(v) || named_id(
                    lines[i],
                    logs,
                ) == Some(v));
            if i < head.len() {
                assert(head[i] == lines[i]);
                assert(a.contains(v));
                let k = choose|k: int| 0 <= k < a.len() && a[k] == v;
                assert((a + b)[k] == v);
            } else {
                assert(lines[i] == last);
                if summary_ids(last).contains(v) {
                    let m = choose|m: int|
                        0 <= m < summary_ids(last).len() && summary_ids(last)[m] == v;
                    assert(b[m] == v);
                    assert((a + b)[a.len() + m] == v);
                } else {
                    assert(tail == seq![v]);
                    assert(b[summary_ids(last).len() as int] == v);
                    assert((a + b)[(a.len() + summary_ids(last).len()) as int] == v);
                }
            }
        }
    }
}

} // verus!
