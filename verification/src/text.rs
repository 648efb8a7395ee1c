//! Character-level building blocks: character classes, trimming, splitting,
//! unsigned decimal parsing and rendering.

use vstd::prelude::*;
use vstd::std_specs::iter::IteratorSpec;
use vstd::string::*;

verus! {

/// An ASCII decimal digit.
pub open spec fn is_digit(c: char) -> bool {
    '0' <= c <= '9'
}

/// An ASCII upper-case letter or decimal digit.
pub open spec fn is_upper_alnum(c: char) -> bool {
    ('A' <= c <= 'Z') || is_digit(c)
}

/// A character with the Unicode `White_Space` property.
pub open spec fn is_whitespace(c: char) -> bool {
    let x = c as u32;
    (0x09 <= x <= 0x0D) || x == 0x20 || x == 0x85 || x == 0xA0 || x == 0x1680 || (0x2000 <= x
        <= 0x200A) || x == 0x2028 || x == 0x2029 || x == 0x202F || x == 0x205F || x == 0x3000
}

/// Tells whether the character is an ASCII decimal digit.
pub fn char_is_digit(c: char) -> (r: bool)
    ensures
        r == is_digit(c),
{
    let x: u32 = c as u32;
    0x30 <= x && x <= 0x39
}

/// Tells whether the character is an ASCII upper-case letter or digit.
pub fn char_is_upper_alnum(c: char) -> (r: bool)
    ensures
        r == is_upper_alnum(c),
{
    let x: u32 = c as u32;
    (0x41 <= x && x <= 0x5A) || (0x30 <= x && x <= 0x39)
}

/// Tells whether the character is white space.
pub fn char_is_whitespace(c: char) -> (r: bool)
    ensures
        r == is_whitespace(c),
{
    let x: u32 = c as u32;
    (0x09 <= x && x <= 0x0D) || x == 0x20 || x == 0x85 || x == 0xA0 || x == 0x1680 || (0x2000 <= x
        && x <= 0x200A) || x == 0x2028 || x == 0x2029 || x == 0x202F || x == 0x205F || x == 0x3000
}

/// `String::push` appends the character to the end of the string.
pub assume_specification[ String::push ](s: &mut String, c: char)
    ensures
        final(s)@ == old(s)@.push(c),
;

/// The characters of a string slice, in order.
pub fn chars_of(s: &str) -> (v: Vec<char>)
    ensures
        v@ == s@,
{
    broadcast use vstd::string::group_string_axioms;

    let mut it = s.chars();
    let mut v: Vec<char> = Vec::new();
    assert(it.remaining() == s@);
    loop
        invariant
            it.obeys_prophetic_iter_laws(),
            it.decrease() is Some,
            v@ + it.remaining() == s@,
        decreases it.decrease()->0,
    {
        let ghost before = it.remaining();
        match it.next() {
            Some(c) => {
                v.push(c);
                assert(v@ + it.remaining() =~= s@) by {
                    assert(before =~= seq![c] + before.drop_first());
                }
            },
            None => {
                assert(v@ =~= v@ + before);
                return v;
            },
        }
    }
}

/// The string made of the characters `s[from..to]`.
pub fn string_of(s: &Vec<char>, from: usize, to: usize) -> (r: String)
    requires
        from <= to <= s@.len(),
    ensures
        r@ == s@.subrange(from as int, to as int),
{
    let mut r = String::new();
    let mut i: usize = from;
    while i < to
        invariant
            from <= i <= to <= s@.len(),
            r@ == s@.subrange(from as int, i as int),
        decreases to - i,
    {
        r.push(s[i]);
        i += 1;
    }
    r
}

/// A copy of the characters `s[from..to]`.
pub fn slice_of(s: &Vec<char>, from: usize, to: usize) -> (r: Vec<char>)
    requires
        from <= to <= s@.len(),
    ensures
        r@ == s@.subrange(from as int, to as int),
{
    let mut r: Vec<char> = Vec::new();
    let mut i: usize = from;
    while i < to
        invariant
            from <= i <= to <= s@.len(),
            r@ == s@.subrange(from as int, i as int),
        decreases to - i,
    {
        r.push(s[i]);
        i += 1;
    }
    r
}

/// `s` without its leading white space.
pub open spec fn trim_start(s: Seq<char>) -> Seq<char>
    decreases s.len(),
{
    if s.len() > 0 && is_whitespace(s[0]) {
        trim_start(s.drop_first())
    } else {
        s
    }
}

/// `s` without its trailing white space.
pub open spec fn trim_end(s: Seq<char>) -> Seq<char>
    decreases s.len(),
{
    if s.len() > 0 && is_whitespace(s.last()) {
        trim_end(s.drop_last())
    } else {
        s
    }
}

/// `s` without its leading and trailing white space.
pub open spec fn trim(s: Seq<char>) -> Seq<char> {
    trim_end(trim_start(s))
}

/// The index at which `trim_start(s[from..to])` begins in `s`.
pub fn trim_start_at(s: &Vec<char>, from: usize, to: usize) -> (a: usize)
    requires
        from <= to <= s@.len(),
    ensures
        from <= a <= to,
        s@.subrange(a as int, to as int) == trim_start(s@.subrange(from as int, to as int)),
{
    let mut a: usize = from;
    while a < to && char_is_whitespace(s[a])
        invariant
            from <= a <= to <= s@.len(),
            trim_start(s@.subrange(a as int, to as int)) == trim_start(
                s@.subrange(from as int, to as int),
            ),
        decreases to - a,
    {
        assert(s@.subrange(a as int, to as int).drop_first() == s@.subrange(a + 1, to as int));
        a += 1;
    }
    a
}

/// The index at which `trim_end(s[from..to])` ends in `s`.
pub fn trim_end_at(s: &Vec<char>, from: usize, to: usize) -> (b: usize)
    requires
        from <= to <= s@.len(),
    ensures
        from <= b <= to,
        s@.subrange(from as int, b as int) == trim_end(s@.subrange(from as int, to as int)),
{
    let mut b: usize = to;
    while b > from && char_is_whitespace(s[b - 1])
        invariant
            from <= b <= to <= s@.len(),
            trim_end(s@.subrange(from as int, b as int)) == trim_end(
                s@.subrange(from as int, to as int),
            ),
        decreases b - from,
    {
        assert(s@.subrange(from as int, b as int).drop_last() == s@.subrange(from as int, b - 1));
        b -= 1;
    }
    b
}

/// The bounds in `s` of `trim(s[from..to])`.
pub fn trim_at(s: &Vec<char>, from: usize, to: usize) -> (r: (usize, usize))
    requires
        from <= to <= s@.len(),
    ensures
        from <= r.0 <= r.1 <= to,
        s@.subrange(r.0 as int, to as int) == trim_start(s@.subrange(from as int, to as int)),
        s@.subrange(r.0 as int, r.1 as int) == trim(s@.subrange(from as int, to as int)),
{
    let a = trim_start_at(s, from, to);
    let b = trim_end_at(s, a, to);
    (a, b)
}

/// The pieces of `s` between occurrences of `sep`: one more piece than there
/// are separators, empty pieces included.
pub open spec fn split(s: Seq<char>, sep: char) -> Seq<Seq<char>>
    decreases s.len(),
{
    if s.len() == 0 {
        seq![Seq::<char>::empty()]
    } else {
        let before = split(s.drop_last(), sep);
        if s.last() == sep {
            before.push(Seq::<char>::empty())
        } else {
            before.drop_last().push(before.last().push(s.last()))
        }
    }
}

/// The views of the pieces held in `pieces`.
pub open spec fn views(pieces: Seq<Vec<char>>) -> Seq<Seq<char>> {
    pieces.map_values(|p: Vec<char>| p@)
}

/// Splits `s` at every occurrence of `sep`.
pub fn split_chars(s: &Vec<char>, sep: char) -> (r: Vec<Vec<char>>)
    ensures
        views(r@) == split(s@, sep),
{
    let mut done: Vec<Vec<char>> = Vec::new();
    let mut cur: Vec<char> = Vec::new();
    let mut i: usize = 0;
    assert(s@.subrange(0, 0) =~= Seq::<char>::empty());
    assert(views(done@).push(cur@) =~= split(s@.subrange(0, 0), sep));
    while i < s.len()
        invariant
            i <= s@.len(),
            views(done@).push(cur@) == split(s@.subrange(0, i as int), sep),
        decreases s@.len() - i,
    {
        let c = s[i];
        let ghost before = split(s@.subrange(0, i as int), sep);
        assert(s@.subrange(0, i + 1).drop_last() == s@.subrange(0, i as int));
        assert(before.drop_last() =~= views(done@));
        if c == sep {
            let ghost old_done = done@;
            done.push(cur);
            cur = Vec::new();
            assert(views(done@) =~= views(old_done).push(done@.last()@));
        } else {
            cur.push(c);
        }
        i += 1;
    }
    assert(s@.subrange(0, i as int) == s@);
    let ghost old_done = done@;
    done.push(cur);
    assert(views(done@) =~= views(old_done).push(done@.last()@));
    done
}

/// The value of the decimal digit `c`.
pub open spec fn digit_value(c: char) -> nat {
    (c as u32 - 0x30) as nat
}

/// The number that a sequence of decimal digits writes.
pub open spec fn digits_value(s: Seq<char>) -> nat
    decreases s.len(),
{
    if s.len() == 0 {
        0
    } else {
        digits_value(s.drop_last()) * 10 + digit_value(s.last())
    }
}

/// Whether `s` holds decimal digits only.
pub open spec fn all_digits(s: Seq<char>) -> bool {
    forall|i: int| 0 <= i < s.len() ==> is_digit(#[trigger] s[i])
}

/// What `s` denotes as an unsigned decimal number: an optional `+`, then one
/// or more digits and nothing else.
pub open spec fn unsigned_text(s: Seq<char>) -> Option<nat> {
    let body = if s.len() > 0 && s[0] == '+' {
        s.drop_first()
    } else {
        s
    };
    if body.len() > 0 && all_digits(body) {
        Some(digits_value(body))
    } else {
        None
    }
}

/// The number that `s` denotes, if it denotes one that is at most `max`.
pub open spec fn parse_bounded(s: Seq<char>, max: nat) -> Option<nat> {
    match unsigned_text(s) {
        Some(v) => if v <= max {
            Some(v)
        } else {
            None
        },
        None => None,
    }
}

/// The number that `s` denotes, if it fits in 32 bits.
pub open spec fn parse_u32(s: Seq<char>) -> Option<u32> {
    match parse_bounded(s, 0xFFFF_FFFF) {
        Some(v) => Some(v as u32),
        None => None,
    }
}

/// A prefix of a digit sequence never writes a larger number than the whole.
pub proof fn lemma_digits_value_prefix(s: Seq<char>, k: int)
    requires
        0 <= k <= s.len(),
    ensures
        digits_value(s.subrange(0, k)) <= digits_value(s),
    decreases s.len(),
{
    if k == s.len() {
        assert(s.subrange(0, k) == s);
    } else {
        lemma_digits_value_prefix(s.drop_last(), k);
        assert(s.drop_last().subrange(0, k) == s.subrange(0, k));
    }
}

/// The number written by the digits `s[from..to]`, for a range that holds
/// digits only and writes at most `max`.
pub fn digits_number(s: &Vec<char>, from: usize, to: usize, max: u32) -> (r: Option<u32>)
    requires
        from <= to <= s@.len(),
    ensures
        r == (if all_digits(s@.subrange(from as int, to as int)) && digits_value(
            s@.subrange(from as int, to as int),
        ) <= max {
            Some(digits_value(s@.subrange(from as int, to as int)) as u32)
        } else {
            None
        }),
{
    let ghost whole = s@.subrange(from as int, to as int);
    let mut acc: u64 = 0;
    let mut i: usize = from;
    assert(whole.subrange(0, 0) =~= Seq::<char>::empty());
    while i < to
        invariant
            from <= i <= to <= s@.len(),
            whole == s@.subrange(from as int, to as int),
            all_digits(whole.subrange(0, i - from)),
            acc == digits_value(whole.subrange(0, i - from)),
            acc <= max,
        decreases to - i,
    {
        let c = s[i];
        let ghost next = whole.subrange(0, i + 1 - from);
        assert(next.drop_last() == whole.subrange(0, i - from));
        assert(next.last() == c);
        if !char_is_digit(c) {
            assert(whole[i - from] == c);
            return None;
        }
        let d: u64 = (c as u32 - 0x30) as u64;
        acc = acc * 10 + d;
        if acc > max as u64 {
            proof {
                lemma_digits_value_prefix(whole, i + 1 - from);
            }
            return None;
        }
        assert forall|j: int| 0 <= j < next.len() implies is_digit(#[trigger] next[j]) by {
            if j < i - from {
                assert(next[j] == whole.subrange(0, i - from)[j]);
            }
        }
        i += 1;
    }
    assert(whole.subrange(0, to - from) == whole);
    Some(acc as u32)
}

/// Reads `s` as an unsigned decimal number of at most `max`.
pub fn parse_number(s: &Vec<char>, max: u32) -> (r: Option<u32>)
    ensures
        r == (match parse_bounded(s@, max as nat) {
            Some(v) => Some(v as u32),
            None => None,
        }),
{
    let n = s.len();
    let from: usize = if n > 0 && s[0] == '+' {
        1
    } else {
        0
    };
    assert(s@.subrange(from as int, n as int) =~= (if from == 1 {
        s@.drop_first()
    } else {
        s@
    }));
    if from == n {
        return None;
    }
    digits_number(s, from, n, max)
}

/// The character that writes the decimal digit `d`.
pub open spec fn digit_char(d: nat) -> char {
    if d == 0 {
        '0'
    } else if d == 1 {
        '1'
    } else if d == 2 {
        '2'
    } else if d == 3 {
        '3'
    } else if d == 4 {
        '4'
    } else if d == 5 {
        '5'
    } else if d == 6 {
        '6'
    } else if d == 7 {
        '7'
    } else if d == 8 {
        '8'
    } else {
        '9'
    }
}

/// The shortest decimal writing of `n`.
pub open spec fn decimal(n: nat) -> Seq<char>
    decreases n,
{
    if n < 10 {
        seq![digit_char(n)]
    } else {
        decimal(n / 10).push(digit_char(n % 10))
    }
}

/// Writes a decimal digit.
pub fn digit_to_char(d: u32) -> (c: char)
    requires
        d < 10,
    ensures
        c == digit_char(d as nat),
{
    if d == 0 {
        '0'
    } else if d == 1 {
        '1'
    } else if d == 2 {
        '2'
    } else if d == 3 {
        '3'
    } else if d == 4 {
        '4'
    } else if d == 5 {
        '5'
    } else if d == 6 {
        '6'
    } else if d == 7 {
        '7'
    } else if d == 8 {
        '8'
    } else {
        '9'
    }
}

/// Appends the decimal writing of `n` to `out`.
pub fn push_decimal(out: &mut Vec<char>, n: u32)
    ensures
        final(out)@ == old(out)@ + decimal(n as nat),
    decreases n,
{
    if n < 10 {
        out.push(digit_to_char(n));
        assert(final(out)@ =~= old(out)@ + decimal(n as nat));
    } else {
        push_decimal(out, n / 10);
        out.push(digit_to_char(n % 10));
        assert(final(out)@ =~= old(out)@ + decimal(n as nat));
    }
}

/// Appends the characters of `s` to `out`.
pub fn push_chars(out: &mut Vec<char>, s: &Vec<char>)
    ensures
        final(out)@ == old(out)@ + s@,
{
    let n = s.len();
    let mut i: usize = 0;
    assert(out@ =~= old(out)@ + s@.subrange(0, 0));
    while i < n
        invariant
            i <= n,
            n == s@.len(),
            out@ == old(out)@ + s@.subrange(0, i as int),
        decreases n - i,
    {
        out.push(s[i]);
        assert(out@ =~= old(out)@ + s@.subrange(0, i + 1));
        i += 1;
    }
    assert(s@.subrange(0, n as int) == s@);
}

/// Appends the characters of the string slice `s` to `out`.
pub fn push_str(out: &mut Vec<char>, s: &str)
    ensures
        final(out)@ == old(out)@ + s@,
{
    let chars = chars_of(s);
    push_chars(out, &chars);
}

/// Whether `s` holds the characters of `pat` from index `at` on.
pub open spec fn has_at(s: Seq<char>, at: int, pat: Seq<char>) -> bool {
    0 <= at && at + pat.len() <= s.len() && s.subrange(at, at + pat.len()) == pat
}

/// Tests whether `pat` stands in `s` at index `at`.
pub fn starts_at(s: &Vec<char>, at: usize, pat: &Vec<char>) -> (r: bool)
    ensures
        r == has_at(s@, at as int, pat@),
{
    let n = pat.len();
    if at > s.len() || n > s.len() - at {
        return false;
    }
    let mut i: usize = 0;
    while i < n
        invariant
            i <= n,
            n == pat@.len(),
            at + n <= s.len(),
            s@.subrange(at as int, at + i) == pat@.subrange(0, i as int),
        decreases n - i,
    {
        if s[at + i] != pat[i] {
            assert(s@.subrange(at as int, at + n)[i as int] != pat@[i as int]);
            return false;
        }
        assert(s@.subrange(at as int, at + i + 1) =~= s@.subrange(at as int, at + i).push(
            s@[at + i],
        ));
        assert(pat@.subrange(0, i + 1) =~= pat@.subrange(0, i as int).push(pat@[i as int]));
        i += 1;
    }
    assert(pat@.subrange(0, n as int) == pat@);
    true
}

/// Tests whether `v` holds exactly the characters of `lit`.
pub fn chars_eq_str(v: &Vec<char>, lit: &str) -> (r: bool)
    ensures
        r == (v@ == lit@),
{
    let w = chars_of(lit);
    if v.len() != w.len() {
        return false;
    }
    let r = starts_at(v, 0, &w);
    proof {
        assert(v@.subrange(0, v@.len() as int) == v@);
    }
    r
}

/// The path `rel` taken from the directory `base`, with `/` between the
/// two where `base` does not end in one. A `rel` that starts at the root
/// stands for itself.
pub open spec fn join_path(base: Seq<char>, rel: Seq<char>) -> Seq<char> {
    if rel.len() > 0 && rel[0] == '/' {
        rel
    } else if base.len() == 0 || base.last() == '/' {
        base + rel
    } else {
        base.push('/') + rel
    }
}

/// Joins a directory and a path below it.
pub fn join(base: &str, rel: &str) -> (r: String)
    ensures
        r@ == join_path(base@, rel@),
{
    let b = chars_of(base);
    let p = chars_of(rel);
    let mut out: Vec<char> = Vec::new();
    if p.len() > 0 && p[0] == '/' {
        push_chars(&mut out, &p);
        assert(out@ =~= p@);
    } else {
        push_chars(&mut out, &b);
        if b.len() > 0 && b[b.len() - 1] != '/' {
            out.push('/');
        }
        push_chars(&mut out, &p);
        assert(out@ =~= join_path(b@, p@));
    }
    let r = string_of(&out, 0, out.len());
    assert(out@.subrange(0, out@.len() as int) == out@);
    r
}

/// The views of the lines of a file.
pub open spec fn line_views(lines: Seq<String>) -> Seq<Seq<char>> {
    lines.map_values(|l: String| l@)
}

/// The numbers among the pieces of a list: each piece is trimmed, and one
/// that then writes no number of 32 bits is passed over.
pub open spec fn numbers(pieces: Seq<Seq<char>>) -> Seq<u32>
    decreases pieces.len(),
{
    if pieces.len() == 0 {
        Seq::empty()
    } else {
        numbers(pieces.drop_last()) + (match parse_u32(trim(pieces.last())) {
            Some(v) => seq![v],
            None => Seq::empty(),
        })
    }
}

/// The numbers of a comma-separated list, in the order of the list.
pub open spec fn ids_in(list: Seq<char>) -> Seq<u32> {
    numbers(split(list, ','))
}

/// Reads the numbers of a comma-separated list.
pub fn ids_of(list: &Vec<char>) -> (r: Vec<u32>)
    ensures
        r@ == ids_in(list@),
{
    let pieces = split_chars(list, ',');
    let mut out: Vec<u32> = Vec::new();
    let mut i: usize = 0;
    let ghost all = views(pieces@);
    assert(all.subrange(0, 0) =~= Seq::<Seq<char>>::empty());
    while i < pieces.len()
        invariant
            i <= pieces@.len(),
            all == views(pieces@),
            all.len() == pieces@.len(),
            out@ == numbers(all.subrange(0, i as int)),
        decreases pieces@.len() - i,
    {
        let piece = &pieces[i];
        let (a, b) = trim_at(piece, 0, piece.len());
        let t = slice_of(piece, a, b);
        proof {
            assert(piece@.subrange(0, piece@.len() as int) == piece@);
            assert(all[i as int] == piece@);
            assert(all.subrange(0, i + 1).drop_last() == all.subrange(0, i as int));
            assert(all.subrange(0, i + 1).last() == piece@);
        }
        match parse_number(&t, 0xFFFF_FFFF) {
            Some(v) => {
                out.push(v);
            },
            None => {},
        }
        i += 1;
    }
    assert(all.subrange(0, i as int) == all);
    out
}

/// The number of decimal digits that follow each other in `s` from index
/// `at` on.
pub open spec fn digit_run(s: Seq<char>, at: int) -> int
    decreases s.len() - at,
{
    if at < 0 || at >= s.len() || !is_digit(s[at]) {
        0
    } else {
        1 + digit_run(s, at + 1)
    }
}

/// Counts the decimal digits that follow each other from index `at` on.
pub fn digit_run_length(s: &Vec<char>, at: usize) -> (r: usize)
    requires
        at <= s@.len(),
    ensures
        r == digit_run(s@, at as int),
        at + r <= s@.len(),
{
    let n = s.len();
    let mut k: usize = 0;
    while at + k < n && char_is_digit(s[at + k])
        invariant
            at + k <= n,
            n == s@.len(),
            digit_run(s@, at as int) == k + digit_run(s@, at + k),
        decreases n - k,
    {
        k += 1;
    }
    k
}

/// The first index from `from` on at which `s` holds `c`; the length of `s`
/// if there is none.
pub open spec fn index_of(s: Seq<char>, from: int, c: char) -> int
    decreases s.len() - from,
{
    if from >= s.len() {
        s.len() as int
    } else if from >= 0 && s[from] == c {
        from
    } else {
        index_of(s, from + 1, c)
    }
}

/// `index_of` gives an index that holds `c`, or the length of `s`, and no
/// index between `from` and it holds `c`.
pub proof fn lemma_index_of(s: Seq<char>, from: int, c: char)
    requires
        0 <= from <= s.len(),
    ensures
        from <= index_of(s, from, c) <= s.len(),
        index_of(s, from, c) < s.len() ==> s[index_of(s, from, c)] == c,
        forall|k: int| from <= k < index_of(s, from, c) ==> s[k] != c,
    decreases s.len() - from,
{
    if from < s.len() && s[from] != c {
        lemma_index_of(s, from + 1, c);
    }
}

/// Finds the first index from `from` on that holds `c`.
pub fn find_char(s: &Vec<char>, from: usize, c: char) -> (r: usize)
    requires
        from <= s@.len(),
    ensures
        r == index_of(s@, from as int, c),
        from <= r <= s@.len(),
        r < s@.len() ==> s@[r as int] == c,
        forall|k: int| from <= k < r ==> s@[k] != c,
{
    let n = s.len();
    let mut i: usize = from;
    while i < n && s[i] != c
        invariant
            from <= i <= n,
            n == s@.len(),
            index_of(s@, i as int, c) == index_of(s@, from as int, c),
            forall|k: int| from <= k < i ==> s@[k] != c,
        decreases n - i,
    {
        i += 1;
    }
    i
}

/// Whether `s` holds nothing but white space from index `from` on.
pub open spec fn blank_from(s: Seq<char>, from: int) -> bool {
    forall|k: int| from <= k < s.len() ==> is_whitespace(#[trigger] s[k])
}

/// Tests whether only white space stands from index `from` on.
pub fn is_blank_from(s: &Vec<char>, from: usize) -> (r: bool)
    ensures
        r == blank_from(s@, from as int),
{
    let n = s.len();
    let mut i: usize = from;
    while i < n
        invariant
            from <= i,
            n == s@.len(),
            forall|k: int| from <= k < i && k < n ==> is_whitespace(#[trigger] s@[k]),
        decreases n - i,
    {
        if !char_is_whitespace(s[i]) {
            return false;
        }
        i += 1;
    }
    true
}

/// The pieces written one after the other, with `sep` between two of them.
pub open spec fn joined(pieces: Seq<Seq<char>>, sep: char) -> Seq<char>
    decreases pieces.len(),
{
    if pieces.len() == 0 {
        Seq::empty()
    } else if pieces.len() == 1 {
        pieces[0]
    } else {
        joined(pieces.drop_last(), sep).push(sep) + pieces.last()
    }
}

/// Splitting loses nothing and cuts at every separator: the pieces, joined
/// again with the separator, give the text back, and no piece holds the
/// separator.
pub proof fn lemma_split_joins_back(s: Seq<char>, sep: char)
    ensures
        split(s, sep).len() >= 1,
        joined(split(s, sep), sep) == s,
        forall|i: int, k: int|
            0 <= i < split(s, sep).len() && 0 <= k < split(s, sep)[i].len() ==> split(
                s,
                sep,
            )[i][k] != sep,
    decreases s.len(),
{
    if s.len() > 0 {
        lemma_split_joins_back(s.drop_last(), sep);
        let before = split(s.drop_last(), sep);
        let now = split(s, sep);
        if s.last() == sep {
            assert(now.drop_last() =~= before);
            assert(joined(now, sep) =~= s.drop_last().push(sep));
            assert(s.drop_last().push(sep) =~= s);
            assert forall|i: int, k: int|
                0 <= i < now.len() && 0 <= k < now[i].len() implies now[i][k] != sep by {
                if i < before.len() {
                    assert(now[i] == before[i]);
                }
            }
        } else {
            let last = before.last().push(s.last());
            assert(now.last() == last);
            assert(now.drop_last() =~= before.drop_last());
            if before.len() == 1 {
                assert(before[0] == s.drop_last());
                assert(joined(now, sep) =~= s.drop_last().push(s.last()));
            } else {
                assert(joined(before, sep) == joined(before.drop_last(), sep).push(sep)
                    + before.last());
                assert(joined(now, sep) =~= (joined(before.drop_last(), sep).push(sep)
                    + before.last()).push(s.last()));
            }
            assert(s.drop_last().push(s.last()) =~= s);
            assert forall|i: int, k: int|
                0 <= i < now.len() && 0 <= k < now[i].len() implies now[i][k] != sep by {
                if i < before.len() - 1 {
                    assert(now[i] == before[i]);
                } else if k < before.last().len() {
                    assert(now[i][k] == before.last()[k]);
                }
            }
        }
    }
}

/// Trimming takes white space away from both ends and nothing else: what
/// is left of a text neither starts nor ends with white space, and the text
/// is what is left with white space before and behind it.
pub proof fn lemma_trim(s: Seq<char>)
    ensures
        trim(s).len() > 0 ==> !is_whitespace(trim(s)[0]) && !is_whitespace(trim(s).last()),
        exists|a: int, b: int|
            0 <= a <= b <= s.len() && trim(s) == s.subrange(a, b) && (forall|k: int|
                0 <= k < a ==> is_whitespace(s[k])) && (forall|k: int|
                b <= k < s.len() ==> is_whitespace(s[k])),
{
    lemma_trim_start(s);
    let a = choose|a: int|
        0 <= a <= s.len() && trim_start(s) == s.subrange(a, s.len() as int) && (forall|k: int|
            0 <= k < a ==> is_whitespace(s[k])) && (a < s.len() ==> !is_whitespace(s[a]));
    let t = s.subrange(a, s.len() as int);
    lemma_trim_end(t);
    let n = choose|n: int|
        0 <= n <= t.len() && trim_end(t) == t.subrange(0, n) && (forall|k: int|
            n <= k < t.len() ==> is_whitespace(t[k])) && (n > 0 ==> !is_whitespace(t[n - 1]));
    assert(t.subrange(0, n) =~= s.subrange(a, a + n));
    assert forall|k: int| a + n <= k < s.len() implies is_whitespace(s[k]) by {
        assert(t[k - a] == s[k]);
    }
    if n > 0 {
        assert(trim(s)[0] == s[a]);
        assert(trim(s).last() == t[n - 1]);
    }
    assert(0 <= a <= a + n <= s.len() && trim(s) == s.subrange(a, a + n));
}

/// `trim_start` drops the longest run of white space at the start.
pub proof fn lemma_trim_start(s: Seq<char>)
    ensures
        exists|a: int|
            0 <= a <= s.len() && trim_start(s) == s.subrange(a, s.len() as int) && (forall|k: int|
                0 <= k < a ==> is_whitespace(s[k])) && (a < s.len() ==> !is_whitespace(s[a])),
    decreases s.len(),
{
    if s.len() > 0 && is_whitespace(s[0]) {
        let r = s.drop_first();
        lemma_trim_start(r);
        let a = choose|a: int|
            0 <= a <= r.len() && trim_start(r) == r.subrange(a, r.len() as int) && (forall|k: int|
                0 <= k < a ==> is_whitespace(r[k])) && (a < r.len() ==> !is_whitespace(r[a]));
        assert(r.subrange(a, r.len() as int) =~= s.subrange(a + 1, s.len() as int));
        assert forall|k: int| 0 <= k < a + 1 implies is_whitespace(s[k]) by {
            if k > 0 {
                assert(r[k - 1] == s[k]);
            }
        }
        assert(a + 1 < s.len() ==> r[a] == s[a + 1]);
        assert(0 <= a + 1 <= s.len() && trim_start(s) == s.subrange(a + 1, s.len() as int));
    } else {
        assert(s.subrange(0, s.len() as int) =~= s);
        assert(0 <= 0 <= s.len() && trim_start(s) == s.subrange(0, s.len() as int));
    }
}

/// `trim_end` drops the longest run of white space at the end.
pub proof fn lemma_trim_end(s: Seq<char>)
    ensures
        exists|n: int|
            0 <= n <= s.len() && trim_end(s) == s.subrange(0, n) && (forall|k: int|
                n <= k < s.len() ==> is_whitespace(s[k])) && (n > 0 ==> !is_whitespace(s[n - 1])),
    decreases s.len(),
{
    if s.len() > 0 && is_whitespace(s.last()) {
        let r = s.drop_last();
        lemma_trim_end(r);
        let n = choose|n: int|
            0 <= n <= r.len() && trim_end(r) == r.subrange(0, n) && (forall|k: int|
                n <= k < r.len() ==> is_whitespace(r[k])) && (n > 0 ==> !is_whitespace(r[n - 1]));
        assert(r.subrange(0, n) =~= s.subrange(0, n));
        assert forall|k: int| n <= k < s.len() implies is_whitespace(s[k]) by {
            if k < r.len() {
                assert(r[k] == s[k]);
            }
        }
        assert(n > 0 ==> r[n - 1] == s[n - 1]);
        assert(0 <= n <= s.len() && trim_end(s) == s.subrange(0, n));
    } else {
        assert(s.subrange(0, s.len() as int) =~= s);
        assert(0 <= s.len() <= s.len() && trim_end(s) == s.subrange(0, s.len() as int));
    }
}

/// What `decimal` writes reads back: it holds digits only, at least one,
/// and they write the number.
pub proof fn lemma_decimal_reads_back(n: nat)
    ensures
        decimal(n).len() >= 1,
        all_digits(decimal(n)),
        digits_value(decimal(n)) == n,
        unsigned_text(decimal(n)) == Some(n),
    decreases n,
{
    if n < 10 {
        let d = decimal(n);
        assert(d.len() == 1 && d[0] == digit_char(n));
        assert(d.drop_last() =~= Seq::<char>::empty());
        assert(digits_value(d.drop_last()) == 0);
        assert(digit_value(digit_char(n)) == n);
        assert(d[0] != '+');
    } else {
        lemma_decimal_reads_back(n / 10);
        let h = decimal(n / 10);
        let d = decimal(n);
        assert(d == h.push(digit_char(n % 10)));
        assert(d.drop_last() =~= h);
        assert(digit_value(digit_char(n % 10)) == n % 10);
        assert(is_digit(digit_char(n % 10)));
        assert forall|i: int| 0 <= i < d.len() implies is_digit(#[trigger] d[i]) by {
            if i < h.len() {
                assert(d[i] == h[i]);
            }
        }
        assert(d[0] == h[0]);
        assert(is_digit(h[0]));
    }
}

/// A number is among the numbers of a list exactly where one of the pieces,
/// trimmed, writes it: every piece that writes a number is taken, and what
/// writes none is passed over.
pub proof fn lemma_numbers_members(pieces: Seq<Seq<char>>, v: u32)
    ensures
        numbers(pieces).contains(v) <==> exists|i: int|
            0 <= i < pieces.len() && parse_u32(trim(#[trigger] pieces[i])) == Some(v),
    decreases pieces.len(),
{
    if pieces.len() > 0 {
        let head = pieces.drop_last();
        lemma_numbers_members(head, v);
        let last = match parse_u32(trim(pieces.last())) {
            Some(w) => seq![w],
            None => Seq::<u32>::empty(),
        };
        assert(numbers(pieces) == numbers(head) + last);
        if numbers(pieces).contains(v) {
            let k = choose|k: int| 0 <= k < numbers(pieces).len() && numbers(pieces)[k] == v;
            if k < numbers(head).len() {
                assert(numbers(head)[k] == v);
                assert(numbers(head).contains(v));
                let i = choose|i: int|
                    0 <= i < head.len() && parse_u32(trim(#[trigger] head[i])) == Some(v);
                assert(pieces[i] == head[i]);
            } else {
                assert(last[k - numbers(head).len()] == v);
                assert(parse_u32(trim(pieces[pieces.len() - 1])) == Some(v));
            }
        }
        if exists|i: int|
            0 <= i < pieces.len() && parse_u32(trim(#[trigger] pieces[i])) == Some(v) {
            let i = choose|i: int|
                0 <= i < pieces.len() && parse_u32(trim(#[trigger] pieces[i])) == Some(v);
            if i < head.len() {
                assert(head[i] == pieces[i]);
                assert(numbers(head).contains(v));
                let k = choose|k: int| 0 <= k < numbers(head).len() && numbers(head)[k] == v;
                assert(numbers(pieces)[k] == v);
            } else {
                assert(last == seq![v]);
                assert(numbers(pieces)[numbers(head).len() as int] == v);
            }
        }
    }
}

} // verus!
