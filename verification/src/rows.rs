//! The catalog as rows of a table, one for each location of each log.

use crate::game_data::{Location, StoryLog};
use crate::read_set::ReadIdSet;
use crate::text::{chars_of, decimal, has_at, push_decimal, push_str, starts_at, string_of};
use vstd::prelude::*;
use vstd::string::*;

verus! {

/// One row of the table.
#[derive(Debug)]
pub struct Row {
    pub level: String,
    pub zone: String,
    pub name: String,
    pub id: u32,
    pub read: bool,
}

/// The numbers in decimal, with a comma and a space between two of them.
pub open spec fn comma_joined(nums: Seq<u16>) -> Seq<char>
    decreases nums.len(),
{
    if nums.len() == 0 {
        Seq::empty()
    } else if nums.len() == 1 {
        decimal(nums[0] as nat)
    } else {
        comma_joined(nums.drop_last()) + seq![',', ' '] + decimal(nums.last() as nat)
    }
}

fn comma_join_chars(nums: &[u16]) -> (out: Vec<char>)
    ensures
        out@ == comma_joined(nums@),
{
    let mut out: Vec<char> = Vec::new();
    let mut i: usize = 0;
    assert(nums@.subrange(0, 0) =~= Seq::<u16>::empty());
    while i < nums.len()
        invariant
            i <= nums@.len(),
            out@ == comma_joined(nums@.subrange(0, i as int)),
        decreases nums@.len() - i,
    {
        let ghost head = nums@.subrange(0, i + 1);
        assert(head.drop_last() == nums@.subrange(0, i as int));
        assert(head.last() == nums@[i as int]);
        if i > 0 {
            out.push(',');
            out.push(' ');
        }
        let ghost mid = out@;
        push_decimal(&mut out, nums[i] as u32);
        assert(out@ =~= comma_joined(head)) by {
            if i > 0 {
                assert(mid =~= comma_joined(head.drop_last()) + seq![',', ' ']);
            } else {
                assert(mid =~= Seq::<char>::empty());
            }
        }
        i += 1;
    }
    assert(nums@.subrange(0, i as int) == nums@);
    out
}

/// Writes the numbers in decimal, with `, ` between two of them.
pub fn comma_join(nums: &[u16]) -> (r: String)
    ensures
        r@ == comma_joined(nums@),
{
    let out = comma_join_chars(nums);
    assert(out@.subrange(0, out@.len() as int) == out@);
    string_of(&out, 0, out.len())
}

/// The zones of a location as text: `Outside` for the single zone 0.
pub open spec fn zone_text(zones: Seq<u16>) -> Seq<char> {
    if zones.len() == 1 && zones[0] == 0 {
        "Outside"@
    } else {
        comma_joined(zones)
    }
}

/// A `Row` as a plain value.
pub struct RowView {
    pub level: Seq<char>,
    pub zone: Seq<char>,
    pub name: Seq<char>,
    pub id: u32,
    pub read: bool,
}

impl View for Row {
    type V = RowView;

    open spec fn view(&self) -> RowView {
        RowView {
            level: self.level@,
            zone: self.zone@,
            name: self.name@,
            id: self.id,
            read: self.read,
        }
    }
}

/// The views of a list of rows.
pub open spec fn row_views(rows: Seq<Row>) -> Seq<RowView> {
    rows.map_values(|r: Row| r@)
}

/// The row that shows a location of the log `id`.
pub open spec fn row_for(id: u32, read: bool, loc: Location) -> RowView {
    RowView {
        level: seq!['R'] + decimal(loc.rundown as nat) + loc.level@,
        zone: zone_text(loc.zones@),
        name: loc.name@,
        id,
        read,
    }
}

/// The rows of a log: one for each of its locations, in their order.
pub open spec fn log_rows(log: StoryLog, read: bool) -> Seq<RowView> {
    Seq::new(log.locations@.len(), |i: int| row_for(log.id, read, log.locations@[i]))
}

fn row_of(id: u32, read: bool, loc: &Location) -> (row: Row)
    ensures
        row@ == row_for(id, read, *loc),
{
    let mut level: Vec<char> = Vec::new();
    level.push('R');
    push_decimal(&mut level, loc.rundown as u32);
    push_str(&mut level, loc.level.as_str());
    assert(level@ =~= seq!['R'] + decimal(loc.rundown as nat) + loc.level@);
    assert(level@.subrange(0, level@.len() as int) == level@);
    let zone = if loc.zones.len() == 1 && loc.zones[0] == 0 {
        String::from_str("Outside")
    } else {
        comma_join(loc.zones.as_slice())
    };
    Row {
        level: string_of(&level, 0, level.len()),
        zone,
        name: loc.name.clone(),
        id,
        read,
    }
}

/// The rows of a log: one for each of its locations, in their order, each
/// marked as read where the id of the log is among the read ids.
pub fn map_log_to_rows(log: &StoryLog, read_log_ids: &ReadIdSet) -> (rows: Vec<Row>)
    ensures
        row_views(rows@) == log_rows(*log, read_log_ids@.contains(log.id)),
{
    let read = read_log_ids.contains(log.id);
    let mut rows: Vec<Row> = Vec::new();
    let mut i: usize = 0;
    while i < log.locations.len()
        invariant
            i <= log.locations@.len(),
            rows@.len() == i,
            read == read_log_ids@.contains(log.id),
            forall|k: int|
                0 <= k < i ==> (#[trigger] rows@[k])@ == row_for(log.id, read, log.locations@[k]),
        decreases log.locations@.len() - i,
    {
        rows.push(row_of(log.id, read, &log.locations[i]));
        i += 1;
    }
    assert(row_views(rows@) =~= log_rows(*log, read));
    rows
}

/// The lower-case form of an ASCII upper-case letter; any other character
/// itself.
pub open spec fn lower(c: char) -> char {
    if 'A' <= c <= 'Z' {
        ((c as u8) + 32) as char
    } else {
        c
    }
}

/// The text with its ASCII upper-case letters in lower case.
pub open spec fn lowered(s: Seq<char>) -> Seq<char> {
    Seq::new(s.len(), |i: int| lower(s[i]))
}

/// Whether `needle` stands somewhere in `hay`.
pub open spec fn holds(hay: Seq<char>, needle: Seq<char>) -> bool {
    exists|i: int| #[trigger] has_at(hay, i, needle)
}

/// Whether a row passes the filter: an empty filter lets every row pass;
/// another one those whose level, name or zone holds it, letter case apart,
/// or whose id holds it in lower case.
pub open spec fn passes(row: RowView, filter: Seq<char>) -> bool {
    filter.len() == 0 || holds(lowered(row.level), lowered(filter)) || holds(
        lowered(row.name),
        lowered(filter),
    ) || holds(lowered(row.zone), lowered(filter)) || holds(
        decimal(row.id as nat),
        lowered(filter),
    )
}

/// The rows that pass the filter, in their order.
pub open spec fn passing(rows: Seq<RowView>, filter: Seq<char>) -> Seq<RowView>
    decreases rows.len(),
{
    if rows.len() == 0 {
        Seq::empty()
    } else if passes(rows.last(), filter) {
        passing(rows.drop_last(), filter).push(rows.last())
    } else {
        passing(rows.drop_last(), filter)
    }
}

/// The rows of the table: those of each log in the order of the catalog,
/// without the logs that were read where these are hidden, and without the
/// rows that do not pass the filter.
pub open spec fn table_rows(
    logs: Seq<StoryLog>,
    read: Set<u32>,
    hide_read: bool,
    filter: Seq<char>,
) -> Seq<RowView>
    decreases logs.len(),
{
    if logs.len() == 0 {
        Seq::empty()
    } else {
        let log = logs.last();
        table_rows(logs.drop_last(), read, hide_read, filter) + (if hide_read && read.contains(
            log.id,
        ) {
            Seq::empty()
        } else {
            passing(log_rows(log, read.contains(log.id)), filter)
        })
    }
}

fn lowered_chars(s: &Vec<char>) -> (r: Vec<char>)
    ensures
        r@ == lowered(s@),
{
    let mut r: Vec<char> = Vec::new();
    let mut i: usize = 0;
    while i < s.len()
        invariant
            i <= s@.len(),
            r@.len() == i,
            forall|k: int| 0 <= k < i ==> r@[k] == lower(s@[k]),
        decreases s@.len() - i,
    {
        let c = s[i];
        let x: u32 = c as u32;
        if 0x41 <= x && x <= 0x5A {
            r.push(((x + 32) as u8) as char);
        } else {
            r.push(c);
        }
        i += 1;
    }
    assert(r@ =~= lowered(s@));
    r
}

fn holds_chars(hay: &Vec<char>, needle: &Vec<char>) -> (r: bool)
    ensures
        r == holds(hay@, needle@),
{
    let n = hay.len();
    let mut i: usize = 0;
    while i < n
        invariant
            i <= n,
            n == hay@.len(),
            forall|k: int| 0 <= k < i ==> !has_at(hay@, k, needle@),
        decreases n - i,
    {
        if starts_at(hay, i, needle) {
            return true;
        }
        i += 1;
    }
    starts_at(hay, n, needle)
}

fn row_passes(row: &Row, filter: &Vec<char>) -> (r: bool)
    requires
        filter@.len() > 0,
    ensures
        r == passes(row@, filter@),
{
    let f = lowered_chars(filter);
    let level = lowered_chars(&chars_of(row.level.as_str()));
    if holds_chars(&level, &f) {
        return true;
    }
    let name = lowered_chars(&chars_of(row.name.as_str()));
    if holds_chars(&name, &f) {
        return true;
    }
    let zone = lowered_chars(&chars_of(row.zone.as_str()));
    if holds_chars(&zone, &f) {
        return true;
    }
    let mut id: Vec<char> = Vec::new();
    push_decimal(&mut id, row.id);
    assert(id@ =~= decimal(row.id as nat));
    holds_chars(&id, &f)
}

/// Lists the rows of the table.
pub fn visible_rows(
    logs: &[StoryLog],
    read_log_ids: &ReadIdSet,
    hide_read: bool,
    filter: &str,
) -> (rows: Vec<Row>)
    ensures
        row_views(rows@) == table_rows(logs@, read_log_ids@, hide_read, filter@),
{
    let f = chars_of(filter);
    let mut out: Vec<Row> = Vec::new();
    let mut i: usize = 0;
    assert(logs@.subrange(0, 0) =~= Seq::<StoryLog>::empty());
    assert(row_views(out@) =~= Seq::<RowView>::empty());
    while i < logs.len()
        invariant
            i <= logs@.len(),
            f@ == filter@,
            row_views(out@) == table_rows(
                logs@.subrange(0, i as int),
                read_log_ids@,
                hide_read,
                filter@,
            ),
        decreases logs@.len() - i,
    {
        let log = &logs[i];
        let ghost head = logs@.subrange(0, i + 1);
        assert(head.drop_last() == logs@.subrange(0, i as int));
        assert(head.last() == *log);
        let read = read_log_ids.contains(log.id);
        if !(hide_read && read) {
            let ghost all = log_rows(*log, read);
            let ghost before = row_views(out@);
            let n = log.locations.len();
            let mut j: usize = 0;
            assert(all.subrange(0, 0) =~= Seq::<RowView>::empty());
            assert(row_views(out@) =~= before + passing(all.subrange(0, 0), f@));
            while j < n
                invariant
                    j <= n,
                    n == log.locations@.len(),
                    f@ == filter@,
                    all == log_rows(*log, read),
                    row_views(out@) == before + passing(all.subrange(0, j as int), f@),
                decreases n - j,
            {
                let ghost old_out = row_views(out@);
                let row = row_of(log.id, read, &log.locations[j]);
                assert(row@ == all[j as int]);
                assert(all.subrange(0, j + 1).drop_last() == all.subrange(0, j as int));
                assert(all.subrange(0, j + 1).last() == all[j as int]);
                let keep = f.len() == 0 || row_passes(&row, &f);
                if keep {
                    out.push(row);
                    assert(row_views(out@) =~= old_out.push(all[j as int]));
                }
                assert(row_views(out@) =~= before + passing(all.subrange(0, j + 1), f@));
                j += 1;
            }
            assert(all.subrange(0, n as int) == all);
        }
        i += 1;
    }
    assert(logs@.subrange(0, i as int) == logs@);
    out
}

} // verus!
