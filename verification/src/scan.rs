//! Searching a text for the marks that delimit the constructs.

use vstd::prelude::*;

verus! {

/// Whether `c` stands at `pos`, before `limit`.
pub open spec fn is_at(src: Seq<char>, pos: int, limit: int, c: char) -> bool {
    0 <= pos < limit <= src.len() && src[pos] == c
}

/// Whether `c` stands at `pos` and again right after it, before `limit`.
pub open spec fn is_pair_at(src: Seq<char>, pos: int, limit: int, c: char) -> bool {
    is_at(src, pos, limit, c) && is_at(src, pos + 1, limit, c)
}

/// The first place from `from` on where a single `c` stands, `limit` if
/// there is none. Of two `c` in a row neither is single: the search goes on
/// behind them.
pub open spec fn single_from(src: Seq<char>, from: int, limit: int, c: char) -> int
    decreases limit - from,
{
    if from < 0 || from >= limit || limit > src.len() {
        limit
    } else if is_pair_at(src, from, limit, c) {
        single_from(src, from + 2, limit, c)
    } else if src[from] == c {
        from
    } else {
        single_from(src, from + 1, limit, c)
    }
}

/// The first place in `from..limit` where `c` stands, `limit` if there is
/// none.
pub open spec fn char_from(src: Seq<char>, from: int, limit: int, c: char) -> int
    decreases limit - from,
{
    if from < 0 || from >= limit || limit > src.len() {
        limit
    } else if src[from] == c {
        from
    } else {
        char_from(src, from + 1, limit, c)
    }
}

/// The first place in `from..limit` where two `c` stand in a row, `limit`
/// if there is none.
pub open spec fn pair_from(src: Seq<char>, from: int, limit: int, c: char) -> int
    decreases limit - from,
{
    if from < 0 || from >= limit || limit > src.len() {
        limit
    } else if is_pair_at(src, from, limit, c) {
        from
    } else {
        pair_from(src, from + 1, limit, c)
    }
}

/// Where the run of `c` that starts at `from` ends, at `limit` at the
/// latest.
pub open spec fn run_end(src: Seq<char>, from: int, limit: int, c: char) -> int
    decreases limit - from,
{
    if from < 0 || from >= limit || limit > src.len() || src[from] != c {
        from
    } else {
        run_end(src, from + 1, limit, c)
    }
}

/// Where the line that holds `pos` ends.
pub open spec fn line_end_of(src: Seq<char>, pos: int) -> int {
    char_from(src, pos, src.len() as int, '\n')
}

pub fn at(src: &Vec<char>, pos: usize, limit: usize, c: char) -> (b: bool)
    requires
        limit <= src@.len(),
    ensures
        b == is_at(src@, pos as int, limit as int, c),
{
    pos < limit && src[pos] == c
}

pub fn pair_at(src: &Vec<char>, pos: usize, limit: usize, c: char) -> (b: bool)
    requires
        limit <= src@.len(),
    ensures
        b == is_pair_at(src@, pos as int, limit as int, c),
{
    pos < limit && limit - pos >= 2 && src[pos] == c && src[pos + 1] == c
}

/// Where the line that holds `pos` ends: at the next newline, or at the end
/// of the text.
pub fn line_end(src: &Vec<char>, pos: usize) -> (end: usize)
    requires
        pos <= src@.len(),
    ensures
        end == line_end_of(src@, pos as int),
        pos <= end <= src@.len(),
        end < src@.len() ==> src@[end as int] == '\n',
        forall|i: int| pos <= i < end ==> src@[i] != '\n',
{
    let mut end: usize = pos;
    while end < src.len() && src[end] != '\n'
        invariant
            pos <= end <= src@.len(),
            forall|i: int| pos <= i < end ==> src@[i] != '\n',
            line_end_of(src@, pos as int) == line_end_of(src@, end as int),
        decreases src@.len() - end,
    {
        end += 1;
    }
    end
}

/// The first place in `from..limit` where `c` stands.
pub fn find_char(src: &Vec<char>, from: usize, limit: usize, c: char) -> (found: Option<usize>)
    requires
        from <= limit <= src@.len(),
    ensures
        match found {
            Some(i) => i == char_from(src@, from as int, limit as int, c) && from <= i < limit
                && src@[i as int] == c && forall|j: int| from <= j < i ==> src@[j] != c,
            None => char_from(src@, from as int, limit as int, c) == limit && forall|j: int|
                from <= j < limit ==> src@[j] != c,
        },
{
    let mut i: usize = from;
    while i < limit
        invariant
            from <= i <= limit <= src@.len(),
            forall|j: int| from <= j < i ==> src@[j] != c,
            char_from(src@, from as int, limit as int, c) == char_from(
                src@,
                i as int,
                limit as int,
                c,
            ),
        decreases limit - i,
    {
        if src[i] == c {
            return Some(i);
        }
        i += 1;
    }
    None
}

/// The first place in `from..limit` where two `c` stand in a row.
pub fn find_pair(src: &Vec<char>, from: usize, limit: usize, c: char) -> (found: Option<usize>)
    requires
        from <= limit <= src@.len(),
    ensures
        match found {
            Some(i) => i == pair_from(src@, from as int, limit as int, c) && from <= i
                && is_pair_at(src@, i as int, limit as int, c) && forall|j: int|
                from <= j < i ==> !is_pair_at(src@, j, limit as int, c),
            None => pair_from(src@, from as int, limit as int, c) == limit && forall|j: int|
                from <= j ==> !is_pair_at(src@, j, limit as int, c),
        },
{
    let mut i: usize = from;
    while i < limit
        invariant
            from <= i <= limit <= src@.len(),
            forall|j: int| from <= j < i ==> !is_pair_at(src@, j, limit as int, c),
            pair_from(src@, from as int, limit as int, c) == pair_from(
                src@,
                i as int,
                limit as int,
                c,
            ),
        decreases limit - i,
    {
        if pair_at(src, i, limit, c) {
            return Some(i);
        }
        i += 1;
    }
    None
}

/// The first place in `from..limit` where a single `c` stands.
pub fn find_single(src: &Vec<char>, from: usize, limit: usize, c: char) -> (found: Option<usize>)
    requires
        from <= limit <= src@.len(),
    ensures
        match found {
            Some(i) => from <= i < limit && src@[i as int] == c && i == single_from(
                src@,
                from as int,
                limit as int,
                c,
            ),
            None => single_from(src@, from as int, limit as int, c) == limit,
        },
{
    let mut i: usize = from;
    while i < limit
        invariant
            from <= i <= limit <= src@.len(),
            single_from(src@, from as int, limit as int, c) == single_from(
                src@,
                i as int,
                limit as int,
                c,
            ),
        decreases limit - i,
    {
        if pair_at(src, i, limit, c) {
            i += 2;
        } else if src[i] == c {
            return Some(i);
        } else {
            i += 1;
        }
    }
    None
}

/// Where the run of `c` that starts at `from` ends, at `limit` at the
/// latest.
pub fn skip_run(src: &Vec<char>, from: usize, limit: usize, c: char) -> (end: usize)
    requires
        from <= limit <= src@.len(),
    ensures
        end == run_end(src@, from as int, limit as int, c),
        from <= end <= limit,
        forall|i: int| from <= i < end ==> src@[i] == c,
        end < limit ==> src@[end as int] != c,
{
    let mut end: usize = from;
    while end < limit && src[end] == c
        invariant
            from <= end <= limit <= src@.len(),
            forall|i: int| from <= i < end ==> src@[i] == c,
            run_end(src@, from as int, limit as int, c) == run_end(
                src@,
                end as int,
                limit as int,
                c,
            ),
        decreases limit - end,
    {
        end += 1;
    }
    end
}

/// The search for `c` ends at `k` if `c` stands there, or nothing is left
/// there, and `c` stands nowhere before.
pub proof fn lemma_char_from(src: Seq<char>, from: int, limit: int, c: char, k: int)
    requires
        0 <= from <= k <= limit <= src.len(),
        forall|i: int| from <= i < k ==> src[i] != c,
        k < limit ==> src[k] == c,
    ensures
        char_from(src, from, limit, c) == k,
    decreases k - from,
{
    if from < k {
        lemma_char_from(src, from + 1, limit, c, k);
    }
}

/// The run of `c` from `from` ends at `k` if another character stands
/// there, or nothing is left there, and `c` stands everywhere before.
pub proof fn lemma_run_end(src: Seq<char>, from: int, limit: int, c: char, k: int)
    requires
        0 <= from <= k <= limit <= src.len(),
        forall|i: int| from <= i < k ==> src[i] == c,
        k < limit ==> src[k] != c,
    ensures
        run_end(src, from, limit, c) == k,
    decreases k - from,
{
    if from < k {
        lemma_run_end(src, from + 1, limit, c, k);
    }
}

} // verus!
