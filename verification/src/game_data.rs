//! The catalog of story logs and the two resolvers that read it: from a
//! display name to a log id, and from a level token to a level code.

use crate::text::{
    chars_eq_str, chars_of, decimal, join, join_path, parse_bounded, parse_number, push_decimal,
    split, split_chars, string_of, views,
};
use vstd::prelude::*;
use vstd::string::*;

verus! {

/// One place where a story log can be found.
#[derive(Debug, Clone)]
pub struct Location {
    pub rundown: u8,
    pub level: String,
    pub zones: Vec<u16>,
    pub name: String,
}

/// A story log and the places where it can be found.
#[derive(Debug, Clone)]
pub struct StoryLog {
    pub id: u32,
    pub locations: Vec<Location>,
}

/// Whether one of the log's locations carries exactly this display name.
pub open spec fn is_named(log: StoryLog, name: Seq<char>) -> bool {
    exists|j: int| 0 <= j < log.locations@.len() && (#[trigger] log.locations@[j]).name@ == name
}

/// The id of the first log of the catalog that carries the display name.
pub open spec fn id_of_name(logs: Seq<StoryLog>, name: Seq<char>) -> Option<u32>
    decreases logs.len(),
{
    if logs.len() == 0 {
        None
    } else if is_named(logs[0], name) {
        Some(logs[0].id)
    } else {
        id_of_name(logs.drop_first(), name)
    }
}

/// The id that a name resolves to is that of the first log of the catalog
/// that carries the name; a name that no log carries resolves to nothing.
pub proof fn lemma_first_named(logs: Seq<StoryLog>, name: Seq<char>)
    ensures
        match id_of_name(logs, name) {
            Some(id) => exists|i: int|
                {
                    &&& 0 <= i < logs.len()
                    &&& is_named(#[trigger] logs[i], name)
                    &&& logs[i].id == id
                    &&& forall|k: int| 0 <= k < i ==> !is_named(logs[k], name)
                },
            None => forall|i: int| 0 <= i < logs.len() ==> !is_named(logs[i], name),
        },
    decreases logs.len(),
{
    if logs.len() > 0 {
        if is_named(logs[0], name) {
            assert(is_named(logs[0], name) && logs[0].id == id_of_name(logs, name)->0);
        } else {
            let rest = logs.drop_first();
            lemma_first_named(rest, name);
            match id_of_name(rest, name) {
                Some(id) => {
                    let i = choose|i: int|
                        {
                            &&& 0 <= i < rest.len()
                            &&& is_named(#[trigger] rest[i], name)
                            &&& rest[i].id == id
                            &&& forall|k: int| 0 <= k < i ==> !is_named(rest[k], name)
                        };
                    assert(logs[i + 1] == rest[i]);
                    assert forall|k: int| 0 <= k < i + 1 implies !is_named(logs[k], name) by {
                        if k > 0 {
                            assert(logs[k] == rest[k - 1]);
                        }
                    }
                    assert(is_named(logs[i + 1], name) && logs[i + 1].id == id);
                },
                None => {
                    assert forall|i: int| 0 <= i < logs.len() implies !is_named(logs[i], name) by {
                        if i > 0 {
                            assert(logs[i] == rest[i - 1]);
                        }
                    }
                },
            }
        }
    }
}

fn log_is_named(log: &StoryLog, name: &String) -> (r: bool)
    ensures
        r == is_named(*log, name@),
{
    let mut j: usize = 0;
    while j < log.locations.len()
        invariant
            j <= log.locations@.len(),
            forall|k: int| 0 <= k < j ==> (#[trigger] log.locations@[k]).name@ != name@,
        decreases log.locations@.len() - j,
    {
        if log.locations[j].name == *name {
            return true;
        }
        j += 1;
    }
    false
}

/// Resolves a display name to the id of the first catalog entry that has a
/// location of exactly that name.
pub fn get_id_from_name(name: &str, logs: &[StoryLog]) -> (r: Option<u32>)
    ensures
        r == id_of_name(logs@, name@),
{
    let owned = String::from_str(name);
    let mut i: usize = 0;
    assert(logs@.subrange(0, logs@.len() as int) == logs@);
    while i < logs.len()
        invariant
            i <= logs@.len(),
            owned@ == name@,
            id_of_name(logs@.subrange(i as int, logs@.len() as int), name@) == id_of_name(
                logs@,
                name@,
            ),
        decreases logs@.len() - i,
    {
        let ghost rest = logs@.subrange(i as int, logs@.len() as int);
        assert(rest[0] == logs@[i as int]);
        assert(rest.drop_first() == logs@.subrange(i + 1, logs@.len() as int));
        if log_is_named(&logs[i], &owned) {
            return Some(logs[i].id);
        }
        i += 1;
    }
    None
}

/// The rundown that an area code stands for.
pub open spec fn rundown_of(area: Seq<char>) -> Option<nat> {
    if area == "Local_32"@ {
        Some(1)
    } else if area == "Local_33"@ {
        Some(2)
    } else if area == "Local_34"@ {
        Some(3)
    } else if area == "Local_37"@ {
        Some(4)
    } else if area == "Local_38"@ {
        Some(5)
    } else if area == "Local_41"@ {
        Some(6)
    } else if area == "Local_31"@ {
        Some(7)
    } else if area == "Local_35"@ {
        Some(8)
    } else {
        None
    }
}

/// The tier letter that a tier digit stands for.
pub open spec fn tier_of(digit: Seq<char>) -> Option<char> {
    if digit.len() != 1 {
        None
    } else if digit[0] == '1' {
        Some('A')
    } else if digit[0] == '2' {
        Some('B')
    } else if digit[0] == '3' {
        Some('C')
    } else if digit[0] == '4' {
        Some('D')
    } else if digit[0] == '5' {
        Some('E')
    } else {
        None
    }
}

/// The level code `R<rundown><tier><expedition>` that the token
/// `<area>,<tier digit>,<expedition>` stands for. The expedition is written
/// zero-based in the token, as a number of at most 255, and one-based in the
/// code.
pub open spec fn level_code(token: Seq<char>) -> Option<Seq<char>> {
    let parts = split(token, ',');
    if parts.len() != 3 {
        None
    } else {
        match (rundown_of(parts[0]), tier_of(parts[1]), parse_bounded(parts[2], 255)) {
            (Some(r), Some(t), Some(e)) => Some(
                seq!['R'] + decimal(r) + seq![t] + decimal(e + 1),
            ),
            _ => None,
        }
    }
}

fn rundown_number(area: &Vec<char>) -> (r: Option<u32>)
    ensures
        match r {
            Some(n) => rundown_of(area@) == Some(n as nat),
            None => rundown_of(area@) is None,
        },
{
    if chars_eq_str(area, "Local_32") {
        Some(1)
    } else if chars_eq_str(area, "Local_33") {
        Some(2)
    } else if chars_eq_str(area, "Local_34") {
        Some(3)
    } else if chars_eq_str(area, "Local_37") {
        Some(4)
    } else if chars_eq_str(area, "Local_38") {
        Some(5)
    } else if chars_eq_str(area, "Local_41") {
        Some(6)
    } else if chars_eq_str(area, "Local_31") {
        Some(7)
    } else if chars_eq_str(area, "Local_35") {
        Some(8)
    } else {
        None
    }
}

fn tier_letter(digit: &Vec<char>) -> (r: Option<char>)
    ensures
        r == tier_of(digit@),
{
    if digit.len() != 1 {
        return None;
    }
    let c = digit[0];
    if c == '1' {
        Some('A')
    } else if c == '2' {
        Some('B')
    } else if c == '3' {
        Some('C')
    } else if c == '4' {
        Some('D')
    } else if c == '5' {
        Some('E')
    } else {
        None
    }
}

/// The level code of a level token given as characters.
pub fn level_code_of(token: &Vec<char>) -> (r: Option<Vec<char>>)
    ensures
        match r {
            Some(code) => level_code(token@) == Some(code@),
            None => level_code(token@) is None,
        },
{
    let parts = split_chars(token, ',');
    proof {
        assert(views(parts@).len() == parts@.len());
    }
    if parts.len() != 3 {
        return None;
    }
    assert(views(parts@)[0] == parts@[0]@);
    assert(views(parts@)[1] == parts@[1]@);
    assert(views(parts@)[2] == parts@[2]@);
    let rundown = match rundown_number(&parts[0]) {
        Some(r) => r,
        None => {
            return None;
        },
    };
    let tier = match tier_letter(&parts[1]) {
        Some(t) => t,
        None => {
            return None;
        },
    };
    let expedition = match parse_number(&parts[2], 255) {
        Some(e) => e,
        None => {
            return None;
        },
    };
    let mut code: Vec<char> = Vec::new();
    code.push('R');
    push_decimal(&mut code, rundown);
    code.push(tier);
    push_decimal(&mut code, expedition + 1);
    assert(code@ =~= seq!['R'] + decimal(rundown as nat) + seq![tier] + decimal(
        (expedition + 1) as nat,
    ));
    Some(code)
}

/// Resolves a level token such as `Local_32,2,0` to its level code, here
/// `R1B1`. A token that is not three comma-separated parts, or that has an
/// unknown area code, an unknown tier digit or an expedition that is no
/// number of at most 255, has no code.
pub fn get_level_from_local(id: &str) -> (r: Option<String>)
    ensures
        match r {
            Some(code) => level_code(id@) == Some(code@),
            None => level_code(id@) is None,
        },
{
    let token = chars_of(id);
    match level_code_of(&token) {
        Some(code) => {
            let s = string_of(&code, 0, code.len());
            assert(code@.subrange(0, code@.len() as int) == code@);
            Some(s)
        },
        None => None,
    }
}

/// The game's data directory below the application data directory of its
/// user; without the latter there is none, which is an error.
pub fn find_user_data_path(app_data: Option<String>) -> (r: Result<String, String>)
    ensures
        match app_data {
            Some(p) => r is Ok && r->Ok_0@ == join_path(
                p@,
                "LocalLow/10 Chambers Collective/GTFO"@,
            ),
            None => r is Err && r->Err_0@ == "Couldn't find compatdata AppData path"@,
        },
{
    match app_data {
        Some(p) => Ok(join(p.as_str(), "LocalLow/10 Chambers Collective/GTFO")),
        None => Err(String::from_str("Couldn't find compatdata AppData path")),
    }
}

} // verus!
