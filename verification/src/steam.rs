//! Where the game keeps its data under a Steam installation on Linux: the
//! library that holds the game, read from Steam's list of library folders,
//! and the paths below it.

use crate::text::{
    chars_of, decimal, find_char, has_at, index_of, join, join_path, line_views, push_decimal,
    starts_at, string_of, trim_start, trim_start_at,
};
use vstd::prelude::*;
use vstd::string::*;

verus! {

/// The id of the game on the platform.
pub const GTFO_APP_ID: u32 = 493520;

/// The index behind the `k`-th double quote of `s` from index `from` on;
/// where `s` holds fewer, the index behind the last of them.
pub open spec fn after_quotes(s: Seq<char>, from: int, k: nat) -> int
    decreases k,
{
    if k == 0 {
        from
    } else {
        let q = index_of(s, from, '"');
        if q >= s.len() {
            from
        } else {
            after_quotes(s, q + 1, (k - 1) as nat)
        }
    }
}

/// The path that a `"path"` line names: what stands behind the third double
/// quote of the line, without its last character, which closes the path.
pub open spec fn path_in(line: Seq<char>) -> Seq<char> {
    let a = after_quotes(line, 0, 3);
    if 0 <= a < line.len() {
        line.subrange(a, line.len() - 1)
    } else {
        Seq::empty()
    }
}

/// Whether the line, leading white space apart, starts with `"path"`.
pub open spec fn is_path_line(line: Seq<char>) -> bool {
    has_at(trim_start(line), 0, "\"path\""@)
}

/// Whether the line, leading white space apart, starts with a double quote
/// and the number of the application.
pub open spec fn is_app_line(line: Seq<char>, app_id: u32) -> bool {
    has_at(trim_start(line), 0, seq!['"'] + decimal(app_id as nat))
}

/// The path of the library whose list of applications names `app_id`
/// first: the path of the last `"path"` line before the first line that
/// names the application. `last` is the path seen before `lines`.
pub open spec fn library_path(
    lines: Seq<Seq<char>>,
    app_id: u32,
    last: Option<Seq<char>>,
) -> Option<Seq<char>>
    decreases lines.len(),
{
    if lines.len() == 0 {
        None
    } else if is_path_line(lines[0]) {
        library_path(lines.drop_first(), app_id, Some(path_in(lines[0])))
    } else if is_app_line(lines[0], app_id) {
        last
    } else {
        library_path(lines.drop_first(), app_id, last)
    }
}

fn index_after_quotes(s: &Vec<char>, k: usize) -> (r: usize)
    ensures
        r == after_quotes(s@, 0, k as nat),
        r <= s@.len(),
{
    let n = s.len();
    let mut pos: usize = 0;
    let mut left: usize = k;
    while left > 0
        invariant
            pos <= n,
            n == s@.len(),
            after_quotes(s@, pos as int, left as nat) == after_quotes(s@, 0, k as nat),
        decreases left,
    {
        let q = find_char(s, pos, '"');
        if q >= n {
            return pos;
        }
        pos = q + 1;
        left -= 1;
    }
    pos
}

fn path_of_line(s: &Vec<char>) -> (r: Vec<char>)
    ensures
        r@ == path_in(s@),
{
    let a = index_after_quotes(s, 3);
    let mut out: Vec<char> = Vec::new();
    if a < s.len() {
        let mut i: usize = a;
        while i < s.len() - 1
            invariant
                a <= i <= s@.len() - 1,
                out@ == s@.subrange(a as int, i as int),
            decreases s@.len() - i,
        {
            out.push(s[i]);
            i += 1;
        }
    }
    out
}

/// Finds, in Steam's list of library folders given line by line, the path
/// of the library that holds the application.
pub fn parse_library_path(app_id: u32, lines: &Vec<String>) -> (r: Option<String>)
    ensures
        match r {
            Some(p) => library_path(line_views(lines@), app_id, None) == Some(p@),
            None => library_path(line_views(lines@), app_id, None) is None,
        },
{
    let path_word = chars_of("\"path\"");
    let mut app_word: Vec<char> = Vec::new();
    app_word.push('"');
    push_decimal(&mut app_word, app_id);
    assert(app_word@ =~= seq!['"'] + decimal(app_id as nat));
    let ghost all = line_views(lines@);
    let mut last: Option<Vec<char>> = None;
    let mut i: usize = 0;
    assert(all.subrange(0, all.len() as int) == all);
    while i < lines.len()
        invariant
            i <= lines@.len(),
            all == line_views(lines@),
            all.len() == lines@.len(),
            path_word@ == "\"path\""@,
            app_word@ == seq!['"'] + decimal(app_id as nat),
            library_path(
                all.subrange(i as int, all.len() as int),
                app_id,
                match last {
                    Some(p) => Some(p@),
                    None => None,
                },
            ) == library_path(all, app_id, None),
        decreases lines@.len() - i,
    {
        let s = chars_of(lines[i].as_str());
        let t = trim_start_at(&s, 0, s.len());
        proof {
            let rest = all.subrange(i as int, all.len() as int);
            assert(rest[0] == s@);
            assert(rest.drop_first() == all.subrange(i + 1, all.len() as int));
            assert(s@.subrange(0, s@.len() as int) == s@);
            let tail = s@.subrange(t as int, s@.len() as int);
            assert(tail == trim_start(s@));
            assert(has_at(tail, 0, path_word@) == has_at(s@, t as int, path_word@)) by {
                if t + path_word@.len() <= s@.len() {
                    assert(tail.subrange(0, path_word@.len() as int) =~= s@.subrange(
                        t as int,
                        t + path_word@.len(),
                    ));
                }
            }
            assert(has_at(tail, 0, app_word@) == has_at(s@, t as int, app_word@)) by {
                if t + app_word@.len() <= s@.len() {
                    assert(tail.subrange(0, app_word@.len() as int) =~= s@.subrange(
                        t as int,
                        t + app_word@.len(),
                    ));
                }
            }
        }
        if starts_at(&s, t, &path_word) {
            last = Some(path_of_line(&s));
        } else if starts_at(&s, t, &app_word) {
            return match last {
                Some(p) => {
                    assert(p@.subrange(0, p@.len() as int) == p@);
                    Some(string_of(&p, 0, p.len()))
                },
                None => None,
            };
        }
        i += 1;
    }
    None
}

/// Where Steam may keep its list of library folders below a home directory.
pub fn library_list_paths(home: &str) -> (r: Vec<String>)
    ensures
        r@.len() == 2,
        r@[0]@ == join_path(join_path(home@, ".steam/steam/steamapps/"@), "libraryfolders.vdf"@),
        r@[1]@ == join_path(
            join_path(home@, ".local/share/Steam/steamapps/"@),
            "libraryfolders.vdf"@,
        ),
{
    let a = join(home, ".steam/steam/steamapps/");
    let b = join(home, ".local/share/Steam/steamapps/");
    let mut r: Vec<String> = Vec::new();
    r.push(join(a.as_str(), "libraryfolders.vdf"));
    r.push(join(b.as_str(), "libraryfolders.vdf"));
    r
}

/// The directory below a library in which the game, run under Proton,
/// keeps its application data.
pub open spec fn app_data_below(library: Seq<char>) -> Seq<char> {
    join_path(library, "steamapps/compatdata/493520/pfx/drive_c/users/steamuser/AppData"@)
}

/// The index of the first list of library folders that could be read and
/// that names a library for the game.
pub open spec fn first_library(lists: Seq<Option<Vec<String>>>, from: int) -> Option<int>
    decreases lists.len() - from,
{
    if from < 0 || from >= lists.len() {
        None
    } else if lists[from] is Some && library_path(line_views(lists[from]->0@), GTFO_APP_ID, None)
        is Some {
        Some(from)
    } else {
        first_library(lists, from + 1)
    }
}

/// Finds the game's application data directory from Steam's lists of
/// library folders, each given line by line, or as `None` where the list
/// could not be read: the first list that names a library for the game
/// decides.
pub fn find_proton_app_data_path(lists: &Vec<Option<Vec<String>>>) -> (r: Option<String>)
    ensures
        match first_library(lists@, 0) {
            Some(i) => r is Some && r->0@ == app_data_below(
                library_path(line_views(lists@[i]->0@), GTFO_APP_ID, None)->0,
            ),
            None => r is None,
        },
{
    let mut i: usize = 0;
    while i < lists.len()
        invariant
            i <= lists@.len(),
            first_library(lists@, i as int) == first_library(lists@, 0),
        decreases lists@.len() - i,
    {
        match &lists[i] {
            Some(lines) => {
                match parse_library_path(GTFO_APP_ID, lines) {
                    Some(p) => {
                        return Some(
                            join(
                                p.as_str(),
                                "steamapps/compatdata/493520/pfx/drive_c/users/steamuser/AppData",
                            ),
                        );
                    },
                    None => {},
                }
            },
            None => {},
        }
        i += 1;
    }
    None
}

} // verus!
