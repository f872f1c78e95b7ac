//! The grammar: which tree a text has.
//!
//! A document is a sequence of block constructs and paragraphs. A block
//! construct starts at the start of a line: a header, a code block, a
//! comment, a horizontal separator, a list, a quote or a reference
//! definition. Every other line starts a paragraph, which goes on over the
//! lines that follow as long as they are not empty and start no block
//! construct. Inside a line, the inline constructs are found from left to
//! right; what starts no construct that also closes is text.

use crate::scan::{char_from, is_at, is_pair_at, line_end_of, pair_from, run_end, single_from};
use crate::text::{trim_from, trim_to};
use crate::tree::{branch_tree, leaf_tree, Rule, Tree};
use vstd::prelude::*;

verus! {

/// The nodes `before` and then the metadata pairs written in `cur..to`, if
/// each of these has a colon. The pairs are separated by commas; the key of
/// a pair is what stands before its first colon, the value what stands
/// behind it, both without the white space around them.
pub open spec fn tags_rest(s: Seq<char>, before: Seq<Tree>, cur: int, to: int) -> Option<Seq<Tree>>
    decreases to - cur,
{
    let segment_end = char_from(s, cur, to, ',');
    let colon = char_from(s, cur, segment_end, ':');
    let pair = branch_tree(
        Rule::img_tag,
        cur,
        segment_end,
        seq![
            leaf_tree(Rule::img_tag_key, trim_from(s, cur, colon), trim_to(s, cur, colon)),
            leaf_tree(
                Rule::img_tag_val,
                trim_from(s, colon + 1, segment_end),
                trim_to(s, colon + 1, segment_end),
            ),
        ],
    );
    if cur < 0 || cur > to || to > s.len() || segment_end < cur || colon >= segment_end {
        None
    } else if segment_end < to {
        tags_rest(s, before.push(pair), segment_end + 1, to)
    } else {
        Some(before.push(pair))
    }
}

/// The metadata written in `from..to`.
pub open spec fn tags_tree(s: Seq<char>, from: int, to: int) -> Option<Tree> {
    match tags_rest(s, Seq::empty(), from, to) {
        Some(pairs) => Some(branch_tree(Rule::img_tags, from, to, pairs)),
        None => None,
    }
}

/// The image written at `pos`: `![alt](url)`, and right behind it the
/// metadata in square brackets, where that is there and well written.
pub open spec fn image_tree(s: Seq<char>, pos: int, limit: int) -> Option<Tree> {
    let alt_end = char_from(s, pos + 2, limit, ']');
    let url_end = char_from(s, alt_end + 2, limit, ')');
    let end = url_end + 1;
    let tags_end = char_from(s, end + 1, limit, ']');
    let alt = leaf_tree(Rule::img_alt, pos + 2, alt_end);
    let url = leaf_tree(Rule::url, alt_end + 2, url_end);
    if !(is_at(s, pos, limit, '!') && is_at(s, pos + 1, limit, '[') && alt_end < limit && is_at(
        s,
        alt_end + 1,
        limit,
        '(',
    ) && url_end < limit) {
        None
    } else if is_at(s, end, limit, '[') && tags_end < limit && tags_tree(s, end + 1, tags_end)
        is Some {
        Some(
            branch_tree(
                Rule::image,
                pos,
                tags_end + 1,
                seq![alt, url, tags_tree(s, end + 1, tags_end)->0],
            ),
        )
    } else {
        Some(branch_tree(Rule::image, pos, end, seq![alt, url]))
    }
}

/// The code written at `pos` between two backticks, if it is not empty.
pub open spec fn inline_code_tree(s: Seq<char>, pos: int, limit: int) -> Option<Tree> {
    let close = char_from(s, pos + 1, limit, '`');
    if is_at(s, pos, limit, '`') && close < limit && close != pos + 1 {
        Some(
            branch_tree(
                Rule::inline_code,
                pos,
                close + 1,
                seq![leaf_tree(Rule::code, pos + 1, close)],
            ),
        )
    } else {
        None
    }
}

/// The inline construct written at `pos`, if one starts there and closes
/// before `limit`:
/// code in backticks; an image; bold text between `**` and the next `**`;
/// struck text between `~~` or `--` and the next of the same; italic text
/// between a single `*` and the next single `*`; a link `[label](url)` or
/// `[label][slug]`.
/// What stands inside emphasis or a label is parsed in the same way, and
/// none of them is empty.
pub open spec fn inline_tree(s: Seq<char>, pos: int, limit: int, text_rule: Rule) -> Option<Tree>
    decreases limit - pos, 0int,
{
    if !(0 <= pos < limit <= s.len()) {
        None
    } else {
        let c = s[pos];
        let pair_close = pair_from(s, pos + 2, limit, c);
        let single_close = single_from(s, pos + 1, limit, c);
        let label_end = char_from(s, pos + 1, limit, ']');
        let is_link = is_at(s, label_end + 1, limit, '(');
        let close = char_from(
            s,
            label_end + 2,
            limit,
            if is_link {
                ')'
            } else {
                ']'
            },
        );
        if c == '`' {
            inline_code_tree(s, pos, limit)
        } else if c == '!' {
            image_tree(s, pos, limit)
        } else if c == '*' || c == '~' || c == '-' {
            if is_pair_at(s, pos, limit, c) && pos + 2 < pair_close < limit {
                Some(
                    branch_tree(
                        if c == '*' {
                            Rule::bold
                        } else {
                            Rule::strikethrough
                        },
                        pos,
                        pair_close + 2,
                        inline_rest(s, Seq::empty(), pos + 2, pos + 2, pair_close, text_rule),
                    ),
                )
            } else if c == '*' && !is_pair_at(s, pos, limit, c) && pos + 1 < single_close < limit {
                Some(
                    branch_tree(
                        Rule::italic,
                        pos,
                        single_close + 1,
                        inline_rest(s, Seq::empty(), pos + 1, pos + 1, single_close, text_rule),
                    ),
                )
            } else {
                None
            }
        } else if c == '[' {
            if pos < label_end < limit && (is_link || is_at(s, label_end + 1, limit, '[')) && close
                < limit {
                Some(
                    branch_tree(
                        if is_link {
                            Rule::link
                        } else {
                            Rule::reflink
                        },
                        pos,
                        close + 1,
                        inline_rest(
                            s,
                            Seq::empty(),
                            pos + 1,
                            pos + 1,
                            label_end,
                            Rule::link_text,
                        ).push(
                            leaf_tree(
                                if is_link {
                                    Rule::url
                                } else {
                                    Rule::slug
                                },
                                label_end + 2,
                                close,
                            ),
                        ),
                    ),
                )
            } else {
                None
            }
        } else {
            None
        }
    }
}

/// The nodes `before`, then those of `text_start..limit`, where the search
/// for constructs has come to `cur`: each construct that starts there or
/// later, and a text node of kind `text_rule` for every stretch before,
/// between and behind them.
pub open spec fn inline_rest(
    s: Seq<char>,
    before: Seq<Tree>,
    text_start: int,
    cur: int,
    limit: int,
    text_rule: Rule,
) -> Seq<Tree>
    decreases limit - cur, 1int,
{
    if cur < 0 || cur >= limit {
        if text_start < limit {
            before.push(leaf_tree(text_rule, text_start, limit))
        } else {
            before
        }
    } else {
        match inline_tree(s, cur, limit, text_rule) {
            Some(node) => if cur < node.end <= limit {
                inline_rest(
                    s,
                    if text_start < cur {
                        before.push(leaf_tree(text_rule, text_start, cur)).push(node)
                    } else {
                        before.push(node)
                    },
                    node.end,
                    node.end,
                    limit,
                    text_rule,
                )
            } else {
                before
            },
            None => inline_rest(s, before, text_start, cur + 1, limit, text_rule),
        }
    }
}

/// The nodes of `from..limit`.
pub open spec fn inline_nodes(s: Seq<char>, from: int, limit: int, text_rule: Rule) -> Seq<Tree> {
    inline_rest(s, Seq::empty(), from, from, limit, text_rule)
}

/// The kind of the header of a level.
pub open spec fn header_of(level: int) -> Rule {
    if level == 1 {
        Rule::h1
    } else if level == 2 {
        Rule::h2
    } else if level == 3 {
        Rule::h3
    } else if level == 4 {
        Rule::h4
    } else if level == 5 {
        Rule::h5
    } else {
        Rule::h6
    }
}

/// The header written at `pos`: one to six `#`, whose number is its level,
/// then a space. Its label is the rest of the line, without the spaces at
/// its start.
pub open spec fn header_tree(s: Seq<char>, pos: int) -> Option<Tree> {
    let end = line_end_of(s, pos);
    let marks_end = run_end(s, pos, end, '#');
    let level = marks_end - pos;
    let label_start = run_end(s, marks_end, end, ' ');
    if 1 <= level <= 6 && is_at(s, marks_end, end, ' ') {
        Some(
            branch_tree(
                header_of(level),
                pos,
                end,
                seq![
                    branch_tree(
                        Rule::rich_txt,
                        label_start,
                        end,
                        inline_nodes(s, label_start, end, Rule::text),
                    ),
                ],
            ),
        )
    } else {
        None
    }
}

/// The horizontal separator written at `pos`: a line of three or more `-`
/// and nothing else.
pub open spec fn horiz_sep_tree(s: Seq<char>, pos: int) -> Option<Tree> {
    let end = line_end_of(s, pos);
    if run_end(s, pos, end, '-') == end && end - pos >= 3 {
        Some(leaf_tree(Rule::horiz_sep, pos, end))
    } else {
        None
    }
}

/// Whether a code fence, three backticks, stands at `pos` before `limit`.
pub open spec fn is_fence_at(s: Seq<char>, pos: int, limit: int) -> bool {
    0 <= pos && pos + 3 <= limit <= s.len() && s[pos] == '`' && s[pos + 1] == '`' && s[pos + 2]
        == '`'
}

/// The code block that starts at `pos` and whose lines from `cur` on are
/// still to be read: each line is a `code` node, up to the line that starts
/// with a fence. There is no code block if no such line comes.
pub open spec fn code_rest(s: Seq<char>, pos: int, before: Seq<Tree>, cur: int) -> Option<Tree>
    decreases s.len() - cur,
{
    let end = line_end_of(s, cur);
    if cur < 0 || cur > s.len() || end < cur {
        None
    } else if is_fence_at(s, cur, end) {
        Some(branch_tree(Rule::codeblock, pos, end, before))
    } else if end >= s.len() {
        None
    } else {
        code_rest(s, pos, before.push(leaf_tree(Rule::code, cur, end)), end + 1)
    }
}

/// The code block written at `pos`: a line that starts with a fence, and
/// whose rest names the language if it is not white space only; the lines of code; a
/// line that starts with a fence.
pub open spec fn codeblock_tree(s: Seq<char>, pos: int) -> Option<Tree> {
    let first_end = line_end_of(s, pos);
    let name_start = trim_from(s, pos + 3, first_end);
    let name_end = trim_to(s, pos + 3, first_end);
    if is_fence_at(s, pos, first_end) && first_end < s.len() {
        code_rest(
            s,
            pos,
            if name_start < name_end {
                seq![leaf_tree(Rule::slug, name_start, name_end)]
            } else {
                Seq::empty()
            },
            first_end + 1,
        )
    } else {
        None
    }
}

/// Where the first `-->` from `from` on starts; the length of `s` if there
/// is none.
pub open spec fn comment_end(s: Seq<char>, from: int) -> int
    decreases s.len() - from,
{
    let i = pair_from(s, from, s.len() as int, '-');
    if from < 0 || i < from || i >= s.len() {
        s.len() as int
    } else if is_at(s, i + 2, s.len() as int, '>') {
        i
    } else {
        comment_end(s, i + 1)
    }
}

/// The comment written at `pos`: `<!--`, the text, and the first `-->`
/// behind it. The text is the node's child, without the white space around it.
pub open spec fn comment_tree(s: Seq<char>, pos: int) -> Option<Tree> {
    let close = comment_end(s, pos + 4);
    if 0 <= pos && pos + 4 <= s.len() && s[pos] == '<' && s[pos + 1] == '!' && s[pos + 2] == '-'
        && s[pos + 3] == '-' && close < s.len() {
        Some(
            branch_tree(
                Rule::comment,
                pos,
                close + 3,
                seq![
                    leaf_tree(
                        Rule::comment_text,
                        trim_from(s, pos + 4, close),
                        trim_to(s, pos + 4, close),
                    ),
                ],
            ),
        )
    } else {
        None
    }
}

/// Whether a list element starts at `pos`: a `-` and a space.
pub open spec fn is_element_at(s: Seq<char>, pos: int) -> bool {
    0 <= pos && pos + 2 <= s.len() && s[pos] == '-' && s[pos + 1] == ' '
}

/// The list that starts at `pos` and whose elements from `cur` on are
/// still to be read: one per line, as long as the next line starts one.
pub open spec fn list_rest(s: Seq<char>, pos: int, before: Seq<Tree>, cur: int) -> Tree
    decreases s.len() - cur,
{
    let end = line_end_of(s, cur);
    let element = branch_tree(
        Rule::list_element,
        cur,
        end,
        inline_nodes(s, cur + 2, end, Rule::text),
    );
    if cur <= end < s.len() && is_element_at(s, end + 1) {
        list_rest(s, pos, before.push(element), end + 1)
    } else {
        branch_tree(Rule::list, pos, end, before.push(element))
    }
}

/// The list written at `pos`.
pub open spec fn list_tree(s: Seq<char>, pos: int) -> Option<Tree> {
    if is_element_at(s, pos) {
        Some(list_rest(s, pos, Seq::empty(), pos))
    } else {
        None
    }
}

/// The quote that starts at `pos` and whose lines from `cur` on are still
/// to be read: one `quote_line` per line, without the `>` and the space
/// behind it where the line starts with them, up to the next empty line.
pub open spec fn quote_rest(s: Seq<char>, pos: int, before: Seq<Tree>, cur: int) -> Tree
    decreases s.len() - cur,
{
    let end = line_end_of(s, cur);
    let text_start = if is_at(s, cur, end, '>') {
        if is_at(s, cur + 1, end, ' ') {
            cur + 2
        } else {
            cur + 1
        }
    } else {
        cur
    };
    let line = branch_tree(
        Rule::quote_line,
        text_start,
        end,
        inline_nodes(s, text_start, end, Rule::text),
    );
    if cur <= end && end + 1 < s.len() && s[end + 1] != '\n' {
        quote_rest(s, pos, before.push(line), end + 1)
    } else {
        branch_tree(Rule::quote, pos, end, before.push(line))
    }
}

/// The quote written at `pos`: it starts with `>`.
pub open spec fn quote_tree(s: Seq<char>, pos: int) -> Option<Tree> {
    if is_at(s, pos, s.len() as int, '>') {
        Some(quote_rest(s, pos, Seq::empty(), pos))
    } else {
        None
    }
}

/// The reference definition written at `pos`: `[slug]:` and the url, which
/// is the rest of the line without the white space around it. Neither is empty.
pub open spec fn refurl_tree(s: Seq<char>, pos: int) -> Option<Tree> {
    let end = line_end_of(s, pos);
    let slug_end = char_from(s, pos + 1, end, ']');
    let url_start = trim_from(s, slug_end + 2, end);
    let url_end = trim_to(s, slug_end + 2, end);
    if is_at(s, pos, s.len() as int, '[') && pos + 1 < slug_end < end && is_at(
        s,
        slug_end + 1,
        end,
        ':',
    ) && url_start != url_end {
        Some(
            branch_tree(
                Rule::refurl,
                pos,
                end,
                seq![
                    leaf_tree(Rule::slug, pos + 1, slug_end),
                    leaf_tree(Rule::url, url_start, url_end),
                ],
            ),
        )
    } else {
        None
    }
}

/// The block construct written at `pos`, if one starts there.
pub open spec fn block_tree(s: Seq<char>, pos: int) -> Option<Tree> {
    if !(0 <= pos < s.len()) {
        None
    } else if s[pos] == '#' {
        header_tree(s, pos)
    } else if s[pos] == '`' {
        codeblock_tree(s, pos)
    } else if s[pos] == '<' {
        comment_tree(s, pos)
    } else if s[pos] == '-' {
        if horiz_sep_tree(s, pos) is Some {
            horiz_sep_tree(s, pos)
        } else {
            list_tree(s, pos)
        }
    } else if s[pos] == '>' {
        quote_tree(s, pos)
    } else if s[pos] == '[' {
        refurl_tree(s, pos)
    } else {
        None
    }
}

/// Whether the paragraph whose line ends at `end` goes on in the next line:
/// that line is not empty and starts no block construct.
pub open spec fn paragraph_goes_on(s: Seq<char>, end: int) -> bool {
    0 <= end && end + 1 < s.len() && s[end + 1] != '\n' && block_tree(s, end + 1) is None
}

/// The paragraph that starts at `pos` and whose lines from `cur` on are
/// still to be read: the nodes of each line, and a `paragraph_newline`
/// between each two lines.
pub open spec fn paragraph_rest(s: Seq<char>, pos: int, before: Seq<Tree>, cur: int) -> Tree
    decreases s.len() - cur,
{
    let end = line_end_of(s, cur);
    let inner = inline_rest(s, before, cur, cur, end, Rule::text);
    if cur <= end && paragraph_goes_on(s, end) {
        paragraph_rest(
            s,
            pos,
            inner.push(leaf_tree(Rule::paragraph_newline, end, end + 1)),
            end + 1,
        )
    } else {
        branch_tree(Rule::paragraph, pos, end, inner)
    }
}

/// The paragraph written at `pos`.
pub open spec fn paragraph_tree(s: Seq<char>, pos: int) -> Tree {
    paragraph_rest(s, pos, Seq::empty(), pos)
}

/// The document whose nodes up to `pos` are `before`.
///
/// A block construct is followed by its line's newline, which belongs to
/// no node. Empty lines are a `vertical_space` where they stand between
/// two paragraphs, and belong to no node elsewhere. The last node is the
/// end of the input.
pub open spec fn document_rest(s: Seq<char>, before: Seq<Tree>, pos: int, after_paragraph: bool) -> Tree
    decreases s.len() - pos,
{
    let n = s.len() as int;
    let finished = branch_tree(Rule::file, 0, n, before.push(leaf_tree(Rule::EOI, n, n)));
    if pos < 0 || pos >= n {
        finished
    } else if s[pos] == '\n' {
        let end = run_end(s, pos, n, '\n');
        if end <= pos || end > n {
            finished
        } else if after_paragraph && end - pos >= 2 && end < n && block_tree(s, end) is None {
            document_rest(s, before.push(leaf_tree(Rule::vertical_space, pos, end)), end, false)
        } else {
            document_rest(s, before, end, false)
        }
    } else {
        match block_tree(s, pos) {
            Some(block) => if block.end <= pos || block.end > n {
                finished
            } else if block.end < n && s[block.end] == '\n' {
                document_rest(s, before.push(block), block.end + 1, false)
            } else {
                document_rest(s, before.push(block), block.end, false)
            },
            None => {
                let paragraph = paragraph_tree(s, pos);
                if paragraph.end <= pos || paragraph.end > n {
                    finished
                } else {
                    document_rest(s, before.push(paragraph), paragraph.end, true)
                }
            },
        }
    }
}

/// The tree of a document.
pub open spec fn document_tree(s: Seq<char>) -> Tree {
    document_rest(s, Seq::empty(), 0, false)
}

/// The characters that start no inline construct.
pub open spec fn is_plain(c: char) -> bool {
    c != '`' && c != '!' && c != '*' && c != '~' && c != '-' && c != '['
}

/// A stretch of plain characters is one text node.
pub proof fn lemma_plain_text(
    s: Seq<char>,
    before: Seq<Tree>,
    text_start: int,
    cur: int,
    limit: int,
    text_rule: Rule,
)
    requires
        0 <= text_start <= cur <= limit <= s.len(),
        text_start < limit,
        forall|i: int| cur <= i < limit ==> is_plain(#[trigger] s[i]),
    ensures
        inline_rest(s, before, text_start, cur, limit, text_rule) == before.push(
            leaf_tree(text_rule, text_start, limit),
        ),
    decreases limit - cur,
{
    if cur < limit {
        assert(is_plain(s[cur]));
        assert(inline_tree(s, cur, limit, text_rule) is None);
        lemma_plain_text(s, before, text_start, cur + 1, limit, text_rule);
    }
}

} // verus!
