//! Character sequences: what the engine joins, trims and hands to the hooks.

use vstd::prelude::*;

verus! {

/// The parts one after the other, with `sep` between each two of them.
pub open spec fn join(parts: Seq<Seq<char>>, sep: Seq<char>) -> Seq<char>
    decreases parts.len(),
{
    if parts.len() == 0 {
        Seq::empty()
    } else if parts.len() == 1 {
        parts[0]
    } else {
        join(parts.drop_last(), sep) + sep + parts.last()
    }
}

/// The parts one after the other.
pub open spec fn concat(parts: Seq<Seq<char>>) -> Seq<char>
    decreases parts.len(),
{
    if parts.len() == 0 {
        Seq::empty()
    } else {
        concat(parts.drop_last()) + parts.last()
    }
}

/// The character sequences that a sequence of strings holds.
pub open spec fn views(strings: Seq<String>) -> Seq<Seq<char>> {
    Seq::new(strings.len(), |i: int| strings[i]@)
}

/// What `char::is_whitespace` returns for a character. It is read for the
/// characters beyond ASCII only.
pub uninterp spec fn is_wide_whitespace(c: char) -> bool;

/// Whether a character is white space. In ASCII the white space is the
/// space and the characters from the tab to the carriage return; beyond
/// ASCII it is what `char::is_whitespace` says.
pub open spec fn is_whitespace(c: char) -> bool {
    if c <= '\x7f' {
        c == ' ' || '\t' <= c <= '\r'
    } else {
        is_wide_whitespace(c)
    }
}

pub open spec fn trim_start(s: Seq<char>) -> Seq<char>
    decreases s.len(),
{
    if s.len() > 0 && is_whitespace(s[0]) {
        trim_start(s.drop_first())
    } else {
        s
    }
}

pub open spec fn trim_end(s: Seq<char>) -> Seq<char>
    decreases s.len(),
{
    if s.len() > 0 && is_whitespace(s.last()) {
        trim_end(s.drop_last())
    } else {
        s
    }
}

/// `s` without the white space at its start and at its end.
pub open spec fn trim(s: Seq<char>) -> Seq<char> {
    trim_end(trim_start(s))
}

/// Where the part of `s[from..to]` starts that `trim` leaves.
pub open spec fn trim_from(s: Seq<char>, from: int, to: int) -> int {
    to - trim_start(s.subrange(from, to)).len()
}

/// Where the part of `s[from..to]` ends that `trim` leaves.
pub open spec fn trim_to(s: Seq<char>, from: int, to: int) -> int {
    trim_from(s, from, to) + trim(s.subrange(from, to)).len()
}

/// Appends one character to a string, as `String::push` does.
#[verifier::external_body]
pub(crate) fn push_char(s: &mut String, c: char)
    ensures
        final(s)@ == old(s)@.push(c),
{
    s.push(c)
}

/// Whether a character is white space, as `char::is_whitespace` tells. In
/// ASCII that is the space and the characters from the tab to the carriage
/// return, and no other; beyond ASCII the result is the same for the same
/// character, and no more is claimed of it.
#[verifier::external_body]
pub(crate) fn whitespace(c: char) -> (b: bool)
    ensures
        c <= '\x7f' ==> b == (c == ' ' || '\t' <= c <= '\r'),
        c > '\x7f' ==> b == is_wide_whitespace(c),
{
    c.is_whitespace()
}

/// The characters of a string, in order.
pub fn chars_of(s: &str) -> (v: Vec<char>)
    ensures
        v@ == s@,
{
    let mut v: Vec<char> = Vec::new();
    for c in iter: s.chars()
        invariant
            iter.seq() == s@,
            v@ == iter.seq().take(iter.index()),
    {
        v.push(c);
    }
    v
}

/// The string made of the characters `from..to` of `chars`.
pub fn string_of(chars: &Vec<char>, from: usize, to: usize) -> (s: String)
    requires
        from <= to <= chars@.len(),
    ensures
        s@ == chars@.subrange(from as int, to as int),
{
    let mut s = String::new();
    let mut i: usize = from;
    while i < to
        invariant
            from <= i <= to <= chars@.len(),
            s@ == chars@.subrange(from as int, i as int),
        decreases to - i,
    {
        push_char(&mut s, chars[i]);
        i += 1;
    }
    s
}

/// Where the part of `chars[from..to]` starts that `trim_start` leaves.
pub fn skip_blanks(chars: &Vec<char>, from: usize, to: usize) -> (start: usize)
    requires
        from <= to <= chars@.len(),
    ensures
        from <= start <= to,
        chars@.subrange(start as int, to as int) == trim_start(
            chars@.subrange(from as int, to as int),
        ),
{
    let mut a: usize = from;
    while a < to && whitespace(chars[a])
        invariant
            from <= a <= to <= chars@.len(),
            trim_start(chars@.subrange(from as int, to as int)) == trim_start(
                chars@.subrange(a as int, to as int),
            ),
        decreases to - a,
    {
        assert(chars@.subrange(a as int, to as int).drop_first() == chars@.subrange(
            a + 1,
            to as int,
        ));
        a += 1;
    }
    a
}

/// Where the part of `chars[from..to]` ends that `trim_end` leaves.
pub fn drop_blanks(chars: &Vec<char>, from: usize, to: usize) -> (end: usize)
    requires
        from <= to <= chars@.len(),
    ensures
        from <= end <= to,
        chars@.subrange(from as int, end as int) == trim_end(
            chars@.subrange(from as int, to as int),
        ),
{
    let mut b: usize = to;
    while from < b && whitespace(chars[b - 1])
        invariant
            from <= b <= to <= chars@.len(),
            trim_end(chars@.subrange(from as int, to as int)) == trim_end(
                chars@.subrange(from as int, b as int),
            ),
        decreases b - from,
    {
        assert(chars@.subrange(from as int, b as int).drop_last() == chars@.subrange(
            from as int,
            b - 1,
        ));
        b -= 1;
    }
    b
}

/// Where the trimmed part of `chars[from..to]` starts and ends.
pub fn trim_range(chars: &Vec<char>, from: usize, to: usize) -> (r: (usize, usize))
    requires
        from <= to <= chars@.len(),
    ensures
        from <= r.0 <= r.1 <= to,
        chars@.subrange(r.0 as int, r.1 as int) == trim(chars@.subrange(from as int, to as int)),
        r.0 == trim_from(chars@, from as int, to as int),
        r.1 == trim_to(chars@, from as int, to as int),
{
    let a = skip_blanks(chars, from, to);
    let b = drop_blanks(chars, a, to);
    (a, b)
}

/// A string without the white space at its start and at its end, as
/// `str::trim` gives it.
pub fn trimmed(s: &str) -> (t: String)
    ensures
        t@ == trim(s@),
{
    let chars = chars_of(s);
    assert(chars@.subrange(0, chars@.len() as int) == chars@);
    let (a, b) = trim_range(&chars, 0, chars.len());
    string_of(&chars, a, b)
}

/// The strings one after the other, with `sep` between each two of them.
pub fn join_strings(parts: &Vec<String>, sep: &str) -> (s: String)
    ensures
        s@ == join(views(parts@), sep@),
{
    let mut s = String::new();
    let mut i: usize = 0;
    while i < parts.len()
        invariant
            i <= parts@.len(),
            s@ == join(views(parts@).take(i as int), sep@),
        decreases parts@.len() - i,
    {
        let ghost before = views(parts@).take(i as int);
        let ghost after = views(parts@).take(i + 1);
        assert(after.drop_last() == before);
        assert(after.last() == parts@[i as int]@);
        if i > 0 {
            s.append(sep);
        }
        s.append(parts[i].as_str());
        assert(s@ == join(after, sep@));
        i += 1;
    }
    assert(views(parts@).take(parts@.len() as int) == views(parts@));
    s
}

/// The strings one after the other.
pub fn concat_strings(parts: &Vec<String>) -> (s: String)
    ensures
        s@ == concat(views(parts@)),
{
    let mut s = String::new();
    let mut i: usize = 0;
    while i < parts.len()
        invariant
            i <= parts@.len(),
            s@ == concat(views(parts@).take(i as int)),
        decreases parts@.len() - i,
    {
        assert(views(parts@).take(i + 1).drop_last() == views(parts@).take(i as int));
        s.append(parts[i].as_str());
        i += 1;
    }
    assert(views(parts@).take(parts@.len() as int) == views(parts@));
    s
}

} // verus!
