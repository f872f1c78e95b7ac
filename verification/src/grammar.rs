//! The block constructs of a document, and the document itself.

use crate::errors::Errcode;
use crate::inline::{parse_inline, parse_inline_from, parsed_at};
use crate::scan::{at, find_char, find_pair, line_end, pair_at, skip_run};
use crate::text::{chars_of, trim_range};
use crate::syntax::{
    block_tree, code_rest, codeblock_tree, comment_end, comment_tree, document_rest,
    document_tree, header_of, header_tree, horiz_sep_tree, is_element_at, is_fence_at, list_rest,
    list_tree, paragraph_goes_on, paragraph_rest, paragraph_tree, quote_rest, quote_tree,
    refurl_tree,
};
use crate::tree::{
    all_well_formed, branch, laid_out, leaf, lemma_laid_out_push, same_tree, trees, Node, Rule,
};
use vstd::prelude::*;

verus! {

/// Whether `node` is the tree of the document `src`: it spans the whole
/// text, has the shape that the grammar gives the text, and can be rendered
/// by the engine.
pub open spec fn document_of(node: Node, src: Seq<char>) -> bool {
    &&& node.rule == Rule::file
    &&& node.start == 0
    &&& node.end == src.len()
    &&& node.spans(src)
    &&& node.well_formed()
    &&& node.tree() == document_tree(src)
}

/// The kind of the header of the given level.
pub fn header_rule(level: usize) -> (rule: Rule)
    requires
        1 <= level <= 6,
    ensures
        crate::tree::header_level_of(rule) == level,
        rule == header_of(level as int),
{
    if level == 1 {
        Rule::h1
    } else if level == 2 {
        Rule::h2
    } else if level == 3 {
        Rule::h3
    } else if level == 4 {
        Rule::h4
    } else if level == 5 {
        Rule::h5
    } else {
        Rule::h6
    }
}

/// The header written at `pos`: one to six `#`, a space, and the label up
/// to the end of the line.
pub fn try_header(src: &Vec<char>, pos: usize) -> (found: Option<Node>)
    requires
        pos < src@.len(),
    ensures
        found matches Some(node) ==> parsed_at(node, src@, pos as int, src@.len() as int)
            && crate::tree::header_level_of(node.rule) > 0,
        same_tree(found, header_tree(src@, pos as int)),
{
    let end = line_end(src, pos);
    let marks_end = skip_run(src, pos, end, '#');
    let level = marks_end - pos;
    if level < 1 || level > 6 || !at(src, marks_end, end, ' ') {
        return None;
    }
    let label_start = skip_run(src, marks_end, end, ' ');
    let label = parse_inline(src, label_start, end, Rule::text);
    let rich = branch(src, Rule::rich_txt, label_start, end, label);
    assert(rich.well_formed());
    let mut inner: Vec<Node> = Vec::new();
    proof {
        lemma_laid_out_push(inner@, rich, src@, pos as int, pos as int, end as int);
    }
    inner.push(rich);
    assert(trees(inner@) =~= seq![rich.tree()]);
    let node = branch(src, header_rule(level), pos, end, inner);
    assert(node.well_formed());
    Some(node)
}

/// The horizontal separator written at `pos`: a line of three or more `-`.
pub fn try_horiz_sep(src: &Vec<char>, pos: usize) -> (found: Option<Node>)
    requires
        pos < src@.len(),
    ensures
        found matches Some(node) ==> parsed_at(node, src@, pos as int, src@.len() as int)
            && node.rule == Rule::horiz_sep,
        same_tree(found, horiz_sep_tree(src@, pos as int)),
{
    let end = line_end(src, pos);
    if skip_run(src, pos, end, '-') == end && end - pos >= 3 {
        let node = leaf(src, Rule::horiz_sep, pos, end);
        assert(node.well_formed());
        Some(node)
    } else {
        None
    }
}

/// Whether a code fence, three backticks, stands at `pos` before `limit`.
pub fn fence_at(src: &Vec<char>, pos: usize, limit: usize) -> (b: bool)
    requires
        pos <= limit <= src@.len(),
    ensures
        b == is_fence_at(src@, pos as int, limit as int),
{
    limit - pos >= 3 && src[pos] == '`' && src[pos + 1] == '`' && src[pos + 2] == '`'
}

/// The code block written at `pos`: a line that starts with a fence and may
/// name a language, the lines of code, and a line that starts with a fence.
pub fn try_codeblock(src: &Vec<char>, pos: usize) -> (found: Option<Node>)
    requires
        pos < src@.len(),
    ensures
        found matches Some(node) ==> parsed_at(node, src@, pos as int, src@.len() as int)
            && node.rule == Rule::codeblock,
        same_tree(found, codeblock_tree(src@, pos as int)),
{
    let first_end = line_end(src, pos);
    if !fence_at(src, pos, first_end) || first_end >= src.len() {
        return None;
    }
    let mut inner: Vec<Node> = Vec::new();
    let (name_start, name_end) = trim_range(src, pos + 3, first_end);
    if name_start < name_end {
        let name = leaf(src, Rule::slug, name_start, name_end);
        proof {
            lemma_laid_out_push(inner@, name, src@, pos as int, pos as int, first_end + 1);
        }
        inner.push(name);
    }
    let mut cur: usize = first_end + 1;
    loop
        invariant
            pos < cur <= src@.len(),
            laid_out(inner@, src@, pos as int, cur as int),
            codeblock_tree(src@, pos as int) == code_rest(
                src@,
                pos as int,
                trees(inner@),
                cur as int,
            ),
        decreases src@.len() - cur,
    {
        let end = line_end(src, cur);
        if fence_at(src, cur, end) {
            let node = branch(src, Rule::codeblock, pos, end, inner);
            assert(node.well_formed());
            return Some(node);
        }
        if end >= src.len() {
            return None;
        }
        let line = leaf(src, Rule::code, cur, end);
        proof {
            lemma_laid_out_push(inner@, line, src@, pos as int, cur as int, end + 1);
        }
        inner.push(line);
        cur = end + 1;
    }
}

/// Where the first `-->` from `from` on starts.
pub fn find_comment_end(src: &Vec<char>, from: usize) -> (found: Option<usize>)
    requires
        from <= src@.len(),
    ensures
        found matches Some(i) ==> from <= i && i + 3 <= src@.len() && src@[i as int] == '-'
            && src@[i + 1] == '-' && src@[i + 2] == '>',
        match found {
            Some(i) => i == comment_end(src@, from as int),
            None => comment_end(src@, from as int) == src@.len(),
        },
{
    let mut cur: usize = from;
    loop
        invariant
            from <= cur <= src@.len(),
            comment_end(src@, from as int) == comment_end(src@, cur as int),
        decreases src@.len() - cur,
    {
        match find_pair(src, cur, src.len(), '-') {
            Some(i) => {
                if at(src, i + 2, src.len(), '>') {
                    return Some(i);
                }
                cur = i + 1;
            },
            None => {
                return None;
            },
        }
    }
}

/// The comment written at `pos`: `<!--`, the text, `-->`. The text is the
/// node's child, without the white space around it.
pub fn try_comment(src: &Vec<char>, pos: usize) -> (found: Option<Node>)
    requires
        pos < src@.len(),
    ensures
        found matches Some(node) ==> parsed_at(node, src@, pos as int, src@.len() as int)
            && node.rule == Rule::comment,
        same_tree(found, comment_tree(src@, pos as int)),
{
    if !(src.len() - pos >= 4 && src[pos] == '<' && src[pos + 1] == '!' && pair_at(
        src,
        pos + 2,
        src.len(),
        '-',
    )) {
        return None;
    }
    let close = match find_comment_end(src, pos + 4) {
        Some(i) => i,
        None => {
            return None;
        },
    };
    let (text_start, text_end) = trim_range(src, pos + 4, close);
    let text = leaf(src, Rule::comment_text, text_start, text_end);
    let mut inner: Vec<Node> = Vec::new();
    proof {
        lemma_laid_out_push(inner@, text, src@, pos as int, pos as int, close + 3);
    }
    inner.push(text);
    assert(trees(inner@) =~= seq![text.tree()]);
    let node = branch(src, Rule::comment, pos, close + 3, inner);
    assert(node.well_formed());
    Some(node)
}

/// Whether a list element starts at `pos`: a `-` and a space.
pub fn element_at(src: &Vec<char>, pos: usize) -> (b: bool)
    requires
        pos <= src@.len(),
    ensures
        b == is_element_at(src@, pos as int),
{
    src.len() - pos >= 2 && src[pos] == '-' && src[pos + 1] == ' '
}

/// The list written at `pos`: consecutive lines that each start a list
/// element.
pub fn try_list(src: &Vec<char>, pos: usize) -> (found: Option<Node>)
    requires
        pos < src@.len(),
    ensures
        found matches Some(node) ==> parsed_at(node, src@, pos as int, src@.len() as int)
            && node.rule == Rule::list,
        same_tree(found, list_tree(src@, pos as int)),
{
    if !element_at(src, pos) {
        return None;
    }
    let mut elements: Vec<Node> = Vec::new();
    let mut cur: usize = pos;
    loop
        invariant
            pos <= cur < src@.len(),
            is_element_at(src@, cur as int),
            laid_out(elements@, src@, pos as int, cur as int),
            all_well_formed(elements@),
            list_tree(src@, pos as int) == Some(
                list_rest(src@, pos as int, trees(elements@), cur as int),
            ),
        decreases src@.len() - cur,
    {
        let end = line_end(src, cur);
        assert(end >= cur + 2) by {
            if end < cur + 2 {
                assert(src@[end as int] == '\n');
            }
        }
        let inner = parse_inline(src, cur + 2, end, Rule::text);
        let element = branch(src, Rule::list_element, cur, end, inner);
        assert(element.well_formed());
        proof {
            lemma_laid_out_push(elements@, element, src@, pos as int, cur as int, end as int);
        }
        elements.push(element);
        if end < src.len() && element_at(src, end + 1) {
            assert(laid_out(elements@, src@, pos as int, end + 1));
            cur = end + 1;
        } else {
            let node = branch(src, Rule::list, pos, end, elements);
            assert(node.well_formed());
            return Some(node);
        }
    }
}

/// The quote written at `pos`: a line that starts with `>`, and the lines
/// that follow it up to the next empty one. Each line is a `quote_line`,
/// without its `>` and the space behind it.
pub fn try_quote(src: &Vec<char>, pos: usize) -> (found: Option<Node>)
    requires
        pos < src@.len(),
    ensures
        found matches Some(node) ==> parsed_at(node, src@, pos as int, src@.len() as int)
            && node.rule == Rule::quote,
        same_tree(found, quote_tree(src@, pos as int)),
{
    if src[pos] != '>' {
        return None;
    }
    let mut lines: Vec<Node> = Vec::new();
    let mut cur: usize = pos;
    loop
        invariant
            pos <= cur < src@.len(),
            src@[cur as int] != '\n',
            laid_out(lines@, src@, pos as int, cur as int),
            all_well_formed(lines@),
            forall|i: int| 0 <= i < lines@.len() ==> (#[trigger] lines@[i]).rule == Rule::quote_line,
            quote_tree(src@, pos as int) == Some(
                quote_rest(src@, pos as int, trees(lines@), cur as int),
            ),
        decreases src@.len() - cur,
    {
        let end = line_end(src, cur);
        assert(end > cur) by {
            if end <= cur {
                assert(src@[end as int] == '\n');
            }
        }
        let text_start = if src[cur] == '>' {
            if at(src, cur + 1, end, ' ') {
                cur + 2
            } else {
                cur + 1
            }
        } else {
            cur
        };
        let inner = parse_inline(src, text_start, end, Rule::text);
        let line = branch(src, Rule::quote_line, text_start, end, inner);
        assert(line.well_formed());
        proof {
            lemma_laid_out_push(lines@, line, src@, pos as int, cur as int, end as int);
        }
        lines.push(line);
        if end < src.len() && at(src, end + 1, src.len(), '\n') == false && end + 1 < src.len() {
            assert(laid_out(lines@, src@, pos as int, end + 1));
            cur = end + 1;
        } else {
            let node = branch(src, Rule::quote, pos, end, lines);
            assert(node.well_formed());
            return Some(node);
        }
    }
}

/// The reference definition written at `pos`: `[slug]: url`, the url up to
/// the end of the line and without the white space around it.
pub fn try_refurl(src: &Vec<char>, pos: usize) -> (found: Option<Node>)
    requires
        pos < src@.len(),
    ensures
        found matches Some(node) ==> parsed_at(node, src@, pos as int, src@.len() as int)
            && node.rule == Rule::refurl,
        same_tree(found, refurl_tree(src@, pos as int)),
{
    if src[pos] != '[' {
        return None;
    }
    let end = line_end(src, pos);
    assert(end > pos) by {
        if end <= pos {
            assert(src@[end as int] == '\n');
        }
    }
    let slug_end = match find_char(src, pos + 1, end, ']') {
        Some(i) => i,
        None => {
            return None;
        },
    };
    if slug_end == pos + 1 || !at(src, slug_end + 1, end, ':') {
        return None;
    }
    let (url_start, url_end) = trim_range(src, slug_end + 2, end);
    if url_start == url_end {
        return None;
    }
    let slug = leaf(src, Rule::slug, pos + 1, slug_end);
    let url = leaf(src, Rule::url, url_start, url_end);
    let mut inner: Vec<Node> = Vec::new();
    proof {
        lemma_laid_out_push(inner@, slug, src@, pos as int, pos as int, slug_end as int);
    }
    inner.push(slug);
    proof {
        lemma_laid_out_push(inner@, url, src@, pos as int, slug_end as int, end as int);
    }
    inner.push(url);
    assert(trees(inner@) =~= seq![slug.tree(), url.tree()]);
    let node = branch(src, Rule::refurl, pos, end, inner);
    assert(node.well_formed());
    Some(node)
}

/// The block construct written at `pos`, if one starts there.
pub fn try_block(src: &Vec<char>, pos: usize) -> (found: Option<Node>)
    requires
        pos < src@.len(),
    ensures
        found matches Some(node) ==> parsed_at(node, src@, pos as int, src@.len() as int),
        same_tree(found, block_tree(src@, pos as int)),
{
    let c = src[pos];
    if c == '#' {
        try_header(src, pos)
    } else if c == '`' {
        try_codeblock(src, pos)
    } else if c == '<' {
        try_comment(src, pos)
    } else if c == '-' {
        match try_horiz_sep(src, pos) {
            Some(node) => Some(node),
            None => try_list(src, pos),
        }
    } else if c == '>' {
        try_quote(src, pos)
    } else if c == '[' {
        try_refurl(src, pos)
    } else {
        None
    }
}

/// Whether the paragraph whose line ends at `end` goes on in the next line:
/// that line is not empty and starts no block construct.
pub fn goes_on(src: &Vec<char>, end: usize) -> (b: bool)
    requires
        end <= src@.len(),
    ensures
        b == paragraph_goes_on(src@, end as int),
        b ==> end + 1 < src@.len() <= usize::MAX && src@[end + 1] != '\n',
{
    if end < src.len() && src.len() - end >= 2 && src[end + 1] != '\n' {
        try_block(src, end + 1).is_none()
    } else {
        false
    }
}

/// The paragraph written at `pos`: the lines from there on up to an empty
/// line or a block construct, with a `paragraph_newline` between each two.
pub fn parse_paragraph(src: &Vec<char>, pos: usize) -> (node: Node)
    requires
        pos < src@.len(),
        src@[pos as int] != '\n',
    ensures
        parsed_at(node, src@, pos as int, src@.len() as int),
        node.rule == Rule::paragraph,
        node.tree() == paragraph_tree(src@, pos as int),
{
    let mut inner: Vec<Node> = Vec::new();
    let mut cur: usize = pos;
    loop
        invariant
            pos <= cur < src@.len(),
            src@[cur as int] != '\n',
            laid_out(inner@, src@, pos as int, cur as int),
            all_well_formed(inner@),
            paragraph_tree(src@, pos as int) == paragraph_rest(
                src@,
                pos as int,
                trees(inner@),
                cur as int,
            ),
        decreases src@.len() - cur,
    {
        let end = line_end(src, cur);
        assert(end > cur) by {
            if end <= cur {
                assert(src@[end as int] == '\n');
            }
        }
        inner = parse_inline_from(src, pos, inner, cur, end, Rule::text);
        if goes_on(src, end) {
            let newline = leaf(src, Rule::paragraph_newline, end, end + 1);
            assert(newline.well_formed());
            proof {
                lemma_laid_out_push(inner@, newline, src@, pos as int, end as int, end + 1);
            }
            inner.push(newline);
            cur = end + 1;
        } else {
            let node = branch(src, Rule::paragraph, pos, end, inner);
            assert(node.well_formed());
            return node;
        }
    }
}

/// The tree of a document. Its children are the block constructs and the
/// paragraphs in source order, then the end of the input. A newline before
/// or behind a block construct belongs to no node; empty lines between two
/// paragraphs are a `vertical_space`.
pub fn parse_document(src: &Vec<char>) -> (node: Node)
    ensures
        document_of(node, src@),
{
    let n = src.len();
    let mut inner: Vec<Node> = Vec::new();
    let mut pos: usize = 0;
    let mut after_paragraph = false;
    while pos < n
        invariant
            n == src@.len(),
            pos <= n,
            laid_out(inner@, src@, 0, pos as int),
            all_well_formed(inner@),
            document_tree(src@) == document_rest(
                src@,
                trees(inner@),
                pos as int,
                after_paragraph,
            ),
        decreases n - pos,
    {
        if src[pos] == '\n' {
            let end = skip_run(src, pos, n, '\n');
            if after_paragraph && end - pos >= 2 && end < n && try_block(src, end).is_none() {
                let space = leaf(src, Rule::vertical_space, pos, end);
                assert(space.well_formed());
                proof {
                    lemma_laid_out_push(inner@, space, src@, 0, pos as int, end as int);
                }
                inner.push(space);
            }
            after_paragraph = false;
            pos = end;
        } else {
            match try_block(src, pos) {
                Some(block) => {
                    let end = block.end;
                    proof {
                        lemma_laid_out_push(inner@, block, src@, 0, pos as int, end as int);
                    }
                    inner.push(block);
                    after_paragraph = false;
                    pos = if end < n && src[end] == '\n' {
                        end + 1
                    } else {
                        end
                    };
                },
                None => {
                    let paragraph = parse_paragraph(src, pos);
                    let end = paragraph.end;
                    proof {
                        lemma_laid_out_push(inner@, paragraph, src@, 0, pos as int, end as int);
                    }
                    inner.push(paragraph);
                    after_paragraph = true;
                    pos = end;
                },
            }
        }
    }
    let eoi = leaf(src, Rule::EOI, n, n);
    assert(eoi.well_formed());
    proof {
        lemma_laid_out_push(inner@, eoi, src@, 0, n as int, n as int);
    }
    inner.push(eoi);
    let node = branch(src, Rule::file, 0, n, inner);
    assert(node.well_formed());
    node
}

/// The parser of documents.
pub struct MarkdownParser;

impl MarkdownParser {
    /// Parses `input` as a construct of kind `rule`. A whole document,
    /// `Rule::file`, is the one kind that can be asked for, and every text
    /// is a document.
    pub fn parse(rule: Rule, input: &str) -> (res: Result<Node, Errcode>)
        ensures
            res is Ok <==> rule == Rule::file,
            res matches Ok(node) ==> document_of(node, input@),
            res matches Err(e) ==> e is ParsingError,
    {
        if rule == Rule::file {
            let src = chars_of(input);
            Ok(parse_document(&src))
        } else {
            Err(Errcode::ParsingError(String::from_str("only a whole document can be parsed")))
        }
    }
}

} // verus!
