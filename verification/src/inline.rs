//! The inline constructs of a line: emphasis, code, links and images, with
//! plain text between them.

use crate::scan::{at, find_char, find_pair, find_single, pair_at};
use crate::text::trim_range;
use crate::syntax::{
    image_tree, inline_code_tree, inline_nodes, inline_rest, inline_tree, tags_rest, tags_tree,
};
use crate::tree::{
    all_well_formed, branch, laid_out, leaf, lemma_laid_out_push, same_tree, trees, Node, Rule,
};
use vstd::prelude::*;

verus! {

/// What a successful parse of one construct at `pos` returns: a node that
/// starts there, is not empty, ends by `limit`, and can be rendered.
pub open spec fn parsed_at(node: Node, src: Seq<char>, pos: int, limit: int) -> bool {
    &&& node.spans(src)
    &&& node.well_formed()
    &&& node.start == pos
    &&& pos < node.end <= limit
}

/// The metadata pairs written in `from..to`, separated by commas, key and
/// value of each separated by its first colon. None if a pair has no colon.
pub fn parse_tags(src: &Vec<char>, from: usize, to: usize) -> (tags: Option<Node>)
    requires
        from <= to <= src@.len(),
    ensures
        tags matches Some(node) ==> node.spans(src@) && node.rule == Rule::img_tags && node.start
            == from && node.end == to,
        same_tree(tags, tags_tree(src@, from as int, to as int)),
{
    let mut pairs: Vec<Node> = Vec::new();
    let mut cur: usize = from;
    loop
        invariant
            from <= cur <= to <= src@.len(),
            laid_out(pairs@, src@, from as int, cur as int),
            tags_rest(src@, Seq::empty(), from as int, to as int) == tags_rest(
                src@,
                trees(pairs@),
                cur as int,
                to as int,
            ),
        decreases to - cur,
    {
        let segment_end = match find_char(src, cur, to, ',') {
            Some(comma) => comma,
            None => to,
        };
        let colon = match find_char(src, cur, segment_end, ':') {
            Some(colon) => colon,
            None => {
                return None;
            },
        };
        let (key_start, key_end) = trim_range(src, cur, colon);
        let (value_start, value_end) = trim_range(src, colon + 1, segment_end);
        let key = leaf(src, Rule::img_tag_key, key_start, key_end);
        let value = leaf(src, Rule::img_tag_val, value_start, value_end);
        let mut fields: Vec<Node> = Vec::new();
        proof {
            lemma_laid_out_push(fields@, key, src@, cur as int, cur as int, colon as int);
        }
        fields.push(key);
        proof {
            lemma_laid_out_push(
                fields@,
                value,
                src@,
                cur as int,
                colon as int,
                segment_end as int,
            );
        }
        fields.push(value);
        assert(trees(fields@) =~= seq![key.tree(), value.tree()]);
        let pair = branch(src, Rule::img_tag, cur, segment_end, fields);
        proof {
            lemma_laid_out_push(pairs@, pair, src@, from as int, cur as int, segment_end as int);
        }
        pairs.push(pair);
        if segment_end < to {
            assert(laid_out(pairs@, src@, from as int, segment_end + 1));
            cur = segment_end + 1;
        } else {
            return Some(branch(src, Rule::img_tags, from, to, pairs));
        }
    }
}

/// The image written at `pos`: `![alt](url)`, with its metadata in square
/// brackets right behind it where there is any.
pub fn try_image(src: &Vec<char>, pos: usize, limit: usize) -> (found: Option<Node>)
    requires
        pos < limit <= src@.len(),
    ensures
        found matches Some(node) ==> parsed_at(node, src@, pos as int, limit as int) && node.rule
            == Rule::image,
        same_tree(found, image_tree(src@, pos as int, limit as int)),
{
    if !(src[pos] == '!' && at(src, pos + 1, limit, '[')) {
        return None;
    }
    let alt_end = match find_char(src, pos + 2, limit, ']') {
        Some(i) => i,
        None => {
            return None;
        },
    };
    if !at(src, alt_end + 1, limit, '(') {
        return None;
    }
    let url_end = match find_char(src, alt_end + 2, limit, ')') {
        Some(i) => i,
        None => {
            return None;
        },
    };
    let alt = leaf(src, Rule::img_alt, pos + 2, alt_end);
    let url = leaf(src, Rule::url, alt_end + 2, url_end);
    let mut inner: Vec<Node> = Vec::new();
    proof {
        lemma_laid_out_push(inner@, alt, src@, pos as int, pos as int, alt_end as int);
    }
    inner.push(alt);
    proof {
        lemma_laid_out_push(inner@, url, src@, pos as int, alt_end as int, url_end + 1);
    }
    inner.push(url);
    assert(trees(inner@) =~= seq![alt.tree(), url.tree()]);
    let mut end: usize = url_end + 1;
    if at(src, end, limit, '[') {
        if let Some(tags_end) = find_char(src, end + 1, limit, ']') {
            if let Some(tags) = parse_tags(src, end + 1, tags_end) {
                proof {
                    lemma_laid_out_push(inner@, tags, src@, pos as int, end as int, tags_end + 1);
                }
                inner.push(tags);
                assert(trees(inner@) =~= seq![alt.tree(), url.tree(), tags.tree()]);
                end = tags_end + 1;
            }
        }
    }
    let node = branch(src, Rule::image, pos, end, inner);
    assert(node.well_formed());
    Some(node)
}

/// The code written in backticks at `pos`.
pub fn try_inline_code(src: &Vec<char>, pos: usize, limit: usize) -> (found: Option<Node>)
    requires
        pos < limit <= src@.len(),
    ensures
        found matches Some(node) ==> parsed_at(node, src@, pos as int, limit as int) && node.rule
            == Rule::inline_code,
        same_tree(found, inline_code_tree(src@, pos as int, limit as int)),
{
    if src[pos] != '`' {
        return None;
    }
    let close = match find_char(src, pos + 1, limit, '`') {
        Some(i) => i,
        None => {
            return None;
        },
    };
    if close == pos + 1 {
        return None;
    }
    let code = leaf(src, Rule::code, pos + 1, close);
    let mut inner: Vec<Node> = Vec::new();
    proof {
        lemma_laid_out_push(inner@, code, src@, pos as int, pos as int, close + 1);
    }
    inner.push(code);
    assert(trees(inner@) =~= seq![code.tree()]);
    let node = branch(src, Rule::inline_code, pos, close + 1, inner);
    assert(node.well_formed());
    Some(node)
}

/// The inline construct written at `pos`, if one starts there and closes
/// before `limit`. `text_rule` is the kind of the text nodes inside it.
pub fn try_inline(src: &Vec<char>, pos: usize, limit: usize, text_rule: Rule) -> (found: Option<
    Node,
>)
    requires
        pos < limit <= src@.len(),
        text_rule == Rule::text || text_rule == Rule::link_text,
    ensures
        found matches Some(node) ==> parsed_at(node, src@, pos as int, limit as int),
        same_tree(found, inline_tree(src@, pos as int, limit as int, text_rule)),
    decreases limit - pos, 0int,
{
    let c = src[pos];
    if c == '`' {
        return try_inline_code(src, pos, limit);
    }
    if c == '!' {
        return try_image(src, pos, limit);
    }
    if c == '*' || c == '~' || c == '-' {
        if pair_at(src, pos, limit, c) {
            if let Some(close) = find_pair(src, pos + 2, limit, c) {
                if close > pos + 2 {
                    let inner = parse_inline(src, pos + 2, close, text_rule);
                    let rule = if c == '*' {
                        Rule::bold
                    } else {
                        Rule::strikethrough
                    };
                    let node = branch(src, rule, pos, close + 2, inner);
                    assert(node.well_formed());
                    return Some(node);
                }
            }
        }
        if c == '*' && !pair_at(src, pos, limit, c) {
            if let Some(close) = find_single(src, pos + 1, limit, c) {
                if close > pos + 1 {
                    let inner = parse_inline(src, pos + 1, close, text_rule);
                    let node = branch(src, Rule::italic, pos, close + 1, inner);
                    assert(node.well_formed());
                    return Some(node);
                }
            }
        }
        return None;
    }
    if c == '[' {
        let label_end = match find_char(src, pos + 1, limit, ']') {
            Some(i) => i,
            None => {
                return None;
            },
        };
        let (rule, target_rule, close_mark) = if at(src, label_end + 1, limit, '(') {
            (Rule::link, Rule::url, ')')
        } else if at(src, label_end + 1, limit, '[') {
            (Rule::reflink, Rule::slug, ']')
        } else {
            return None;
        };
        let close = match find_char(src, label_end + 2, limit, close_mark) {
            Some(i) => i,
            None => {
                return None;
            },
        };
        let mut inner = parse_inline(src, pos + 1, label_end, Rule::link_text);
        let target = leaf(src, target_rule, label_end + 2, close);
        let ghost label = inner@;
        proof {
            lemma_laid_out_push(inner@, target, src@, pos as int, label_end as int, close + 1);
        }
        inner.push(target);
        let node = branch(src, rule, pos, close + 1, inner);
        assert forall|i: int| 0 <= i < node.inner@.len() && node.renders_child(i) implies (
        #[trigger] node.inner@[i]).well_formed() by {
            assert(node.inner@[i] == label[i]);
        }
        assert(node.well_formed());
        return Some(node);
    }
    None
}

/// The nodes of `pos..limit`: each construct that starts and closes in
/// there, and a text node of kind `text_rule` for every stretch between
/// them.
pub fn parse_inline(src: &Vec<char>, pos: usize, limit: usize, text_rule: Rule) -> (nodes: Vec<
    Node,
>)
    requires
        pos <= limit <= src@.len(),
        text_rule == Rule::text || text_rule == Rule::link_text,
    ensures
        laid_out(nodes@, src@, pos as int, limit as int),
        all_well_formed(nodes@),
        pos < limit ==> nodes@.len() > 0,
        trees(nodes@) == inline_nodes(src@, pos as int, limit as int, text_rule),
    decreases limit - pos, 2int,
{
    parse_inline_from(src, pos, Vec::new(), pos, limit, text_rule)
}

/// The nodes `before`, which lie in `low..pos`, followed by the nodes of
/// `pos..limit`.
pub fn parse_inline_from(
    src: &Vec<char>,
    low: usize,
    before: Vec<Node>,
    pos: usize,
    limit: usize,
    text_rule: Rule,
) -> (nodes: Vec<Node>)
    requires
        low <= pos <= limit <= src@.len(),
        text_rule == Rule::text || text_rule == Rule::link_text,
        laid_out(before@, src@, low as int, pos as int),
        all_well_formed(before@),
    ensures
        laid_out(nodes@, src@, low as int, limit as int),
        all_well_formed(nodes@),
        nodes@.len() >= before@.len(),
        pos < limit ==> nodes@.len() > before@.len(),
        nodes@.take(before@.len() as int) == before@,
        trees(nodes@) == inline_rest(
            src@,
            trees(before@),
            pos as int,
            pos as int,
            limit as int,
            text_rule,
        ),
    decreases limit - pos, 1int,
{
    let mut nodes = before;
    let mut text_start: usize = pos;
    let mut cur: usize = pos;
    while cur < limit
        invariant
            low <= pos <= text_start <= cur <= limit <= src@.len(),
            text_rule == Rule::text || text_rule == Rule::link_text,
            laid_out(nodes@, src@, low as int, text_start as int),
            all_well_formed(nodes@),
            nodes@.len() >= before@.len(),
            pos < text_start ==> nodes@.len() > before@.len(),
            nodes@.take(before@.len() as int) == before@,
            inline_rest(src@, trees(before@), pos as int, pos as int, limit as int, text_rule)
                == inline_rest(
                src@,
                trees(nodes@),
                text_start as int,
                cur as int,
                limit as int,
                text_rule,
            ),
        decreases limit - cur,
    {
        match try_inline(src, cur, limit, text_rule) {
            Some(node) => {
                if text_start < cur {
                    let text = leaf(src, text_rule, text_start, cur);
                    assert(text.well_formed());
                    proof {
                        lemma_laid_out_push(
                            nodes@,
                            text,
                            src@,
                            low as int,
                            text_start as int,
                            cur as int,
                        );
                    }
                    nodes.push(text);
                }
                let end = node.end;
                proof {
                    lemma_laid_out_push(nodes@, node, src@, low as int, cur as int, end as int);
                }
                nodes.push(node);
                cur = end;
                text_start = end;
                assert(nodes@.take(before@.len() as int) =~= before@);
            },
            None => {
                cur += 1;
            },
        }
    }
    if text_start < limit {
        let text = leaf(src, text_rule, text_start, limit);
        assert(text.well_formed());
        proof {
            lemma_laid_out_push(
                nodes@,
                text,
                src@,
                low as int,
                text_start as int,
                limit as int,
            );
        }
        nodes.push(text);
        assert(nodes@.take(before@.len() as int) =~= before@);
    }
    nodes
}

} // verus!
