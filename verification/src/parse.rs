//! A small line-fed parser: it takes a text character by character and cuts
//! it into headers, separators, links and the raw text between them.

use crate::scan::line_end;
use crate::text::{
    chars_of, drop_blanks, is_whitespace, push_char, skip_blanks, string_of, trim_end, trim_start,
    whitespace,
};
use vstd::prelude::*;

verus! {

pub type MdNodes = Vec<Box<MarkdownNode>>;

#[derive(Debug)]
pub enum MarkdownNode {
    RawText(String),
    Text(MdNodes),
    Header(usize, MdNodes),
    Bold(MdNodes),
    Italic(MdNodes),
    Image(MdNodes, String),
    Strikethrough,
    Link(MdNodes, String),
    /// A link that points to a source.
    LinkReference(MdNodes, String),
    LinkSource(String, String),
}

/// What a node of the parser's result is.
pub enum Shape {
    RawText(Seq<char>),
    /// A header: its level and its text.
    Header(nat, Seq<char>),
    Strikethrough,
    /// A link: its text and its url.
    Link(Seq<char>, Seq<char>),
    /// A node that the parser does not make.
    Other,
}

/// The text of a node list that holds one raw text.
pub open spec fn single_text(nodes: Seq<Box<MarkdownNode>>) -> Option<Seq<char>> {
    if nodes.len() == 1 {
        match *nodes[0] {
            MarkdownNode::RawText(text) => Some(text@),
            _ => None,
        }
    } else {
        None
    }
}

impl MarkdownNode {
    pub open spec fn shape(self) -> Shape {
        match self {
            MarkdownNode::RawText(text) => Shape::RawText(text@),
            MarkdownNode::Strikethrough => Shape::Strikethrough,
            MarkdownNode::Header(level, nodes) => match single_text(nodes@) {
                Some(text) => Shape::Header(level as nat, text),
                None => Shape::Other,
            },
            MarkdownNode::Link(nodes, url) => match single_text(nodes@) {
                Some(text) => Shape::Link(text, url@),
                None => Shape::Other,
            },
            _ => Shape::Other,
        }
    }

    /// Looks for constructs inside this node. There are none to find yet:
    /// the node stays as it is.
    pub fn recursive_detect(&mut self)
        ensures
            *final(self) == *old(self),
    {
    }
}

/// What each of the nodes is.
pub open spec fn shapes(nodes: Seq<MarkdownNode>) -> Seq<Shape> {
    Seq::new(nodes.len(), |i: int| nodes[i].shape())
}

/// The first place from `from` on where `first` stands with `second` right
/// behind it; the length of `s` if there is none.
pub open spec fn first_two(s: Seq<char>, from: int, first: char, second: char) -> int
    decreases s.len() - from,
{
    if from < 0 || from + 1 >= s.len() {
        s.len() as int
    } else if s[from] == first && s[from + 1] == second {
        from
    } else {
        first_two(s, from + 1, first, second)
    }
}

/// The first place from `from` on where a character stands that is not
/// white space; the length of `s` if there is none.
pub open spec fn next_visible(s: Seq<char>, from: int) -> int
    decreases s.len() - from,
{
    if from < 0 || from >= s.len() {
        s.len() as int
    } else if !is_whitespace(s[from]) {
        from
    } else {
        next_visible(s, from + 1)
    }
}

/// Whether a link's text ends at `i`: a `]` stands there, and the next
/// character that is not white space is a `(`.
pub open spec fn closes_label(s: Seq<char>, i: int) -> bool {
    0 <= i < s.len() && s[i] == ']' && next_visible(s, i + 1) < s.len() && s[next_visible(
        s,
        i + 1,
    )] == '('
}

/// The first place from `from` on where a link's text ends; the length of
/// `s` if there is none.
pub open spec fn label_end(s: Seq<char>, from: int) -> int
    decreases s.len() - from,
{
    if from < 0 || from >= s.len() {
        s.len() as int
    } else if closes_label(s, from) {
        from
    } else {
        label_end(s, from + 1)
    }
}

/// How often `c` stands in `s`.
pub open spec fn count(s: Seq<char>, c: char) -> nat
    decreases s.len(),
{
    if s.len() == 0 {
        0
    } else {
        count(s.drop_last(), c) + if s.last() == c {
            1nat
        } else {
            0nat
        }
    }
}

/// The last place where `c` stands in `s`; 0 if there is none.
pub open spec fn last_of(s: Seq<char>, c: char) -> int
    decreases s.len(),
{
    if s.len() == 0 {
        0
    } else if s.last() == c {
        s.len() - 1
    } else {
        last_of(s.drop_last(), c)
    }
}

/// The separator line.
pub open spec fn separator_line() -> Seq<char> {
    seq!['-', '-', '-', '\n']
}

/// The header that `buffer` holds: it starts with `#` and ends with a
/// newline, and its level is where the first `#` with a space behind it
/// stands. Its text is what follows that space, without the white space at its
/// end.
pub open spec fn detect_header(buffer: Seq<char>) -> Option<Shape> {
    let start = first_two(buffer, 0, '#', ' ');
    if buffer.len() > 0 && buffer[0] == '#' && buffer.last() == '\n' && start < buffer.len() {
        Some(Shape::Header((start + 1) as nat, trim_end(buffer.skip(start + 2))))
    } else {
        None
    }
}

/// Where the text of the link in `buffer` ends: at the first `](`; where
/// `buffer` holds none, at the first `]` that white space alone parts from
/// a `(`; the length of `buffer` if there is neither.
pub open spec fn link_text_end(buffer: Seq<char>) -> int {
    if first_two(buffer, 0, ']', '(') < buffer.len() {
        first_two(buffer, 0, ']', '(')
    } else {
        label_end(buffer, 0)
    }
}

/// Where the url of the link in `buffer` starts: behind the `(` that
/// follows the end of the link's text.
pub open spec fn link_url_start(buffer: Seq<char>) -> int {
    if first_two(buffer, 0, ']', '(') < buffer.len() {
        first_two(buffer, 0, ']', '(') + 2
    } else {
        next_visible(buffer, label_end(buffer, 0) + 1) + 1
    }
}

/// The link that `buffer` ends with: `buffer` ends with `)`, a link's text
/// ends somewhere in it, and before that place more `[` than `]` stand.
/// The link's text starts behind the last of those `[`, its url is what
/// stands between the `(` and the end. The result is the raw text before
/// the link, and the link.
pub open spec fn detect_link(buffer: Seq<char>, buffer_now: Seq<char>) -> Option<Seq<Shape>> {
    let text_end = link_text_end(buffer);
    let before = buffer.take(text_end);
    let last_open = last_of(before, '[');
    let url_start = link_url_start(buffer);
    if buffer.len() > 0 && buffer.last() == ')' && first_two(buffer_now, 0, ']', '(')
        < buffer_now.len() && text_end < buffer.len() && count(before, ']') < count(before, '[') {
        Some(
            seq![
                Shape::RawText(buffer.take(last_open)),
                Shape::Link(
                    buffer.subrange(last_open + 1, text_end),
                    buffer.subrange(url_start, buffer.len() - 1),
                ),
            ],
        )
    } else {
        None
    }
}

/// The nodes that `buffer` is cut into, if it holds a header, a separator
/// line or a link by now. `buffer_now` is `buffer` without its white space.
pub open spec fn detect(buffer: Seq<char>, buffer_now: Seq<char>) -> Option<Seq<Shape>> {
    if detect_header(buffer) is Some {
        Some(seq![detect_header(buffer)->0])
    } else if trim_start(buffer) == separator_line() {
        Some(seq![Shape::Strikethrough])
    } else {
        detect_link(buffer, buffer_now)
    }
}

/// The state of the parser while it is fed: the nodes found so far, and
/// the characters read since the last of them, with and without white space.
pub struct Feed {
    pub found: Seq<Shape>,
    pub buffer: Seq<char>,
    pub buffer_now: Seq<char>,
}

/// The state made of its three parts.
pub open spec fn feed_of(found: Seq<Shape>, buffer: Seq<char>, buffer_now: Seq<char>) -> Feed {
    Feed { found, buffer, buffer_now }
}

/// The state after one more character.
pub open spec fn feed_char(f: Feed, c: char) -> Feed {
    let buffer = f.buffer.push(c);
    let buffer_now = if is_whitespace(c) {
        f.buffer_now
    } else {
        f.buffer_now.push(c)
    };
    match detect(buffer, buffer_now) {
        Some(nodes) => Feed { found: f.found + nodes, buffer: Seq::empty(), buffer_now: Seq::empty() },
        None => Feed { found: f.found, buffer, buffer_now },
    }
}

/// The state after the characters of `s`.
pub open spec fn feed_chars(f: Feed, s: Seq<char>) -> Feed
    decreases s.len(),
{
    if s.len() == 0 {
        f
    } else {
        feed_char(feed_chars(f, s.drop_last()), s.last())
    }
}

/// The state after a line: the white space at its start is not fed.
pub open spec fn feed_one_line(f: Feed, line: Seq<char>) -> Feed {
    feed_chars(f, trim_start(line))
}

/// Where the first line of `s` ends: at its first newline, or at its end.
pub open spec fn first_line_end(s: Seq<char>) -> int
    decreases s.len(),
{
    if s.len() == 0 || s[0] == '\n' {
        0
    } else {
        1 + first_line_end(s.drop_first())
    }
}

/// A line without the carriage return at its end, if it has one.
pub open spec fn without_return(line: Seq<char>) -> Seq<char> {
    if line.len() > 0 && line.last() == '\r' {
        line.drop_last()
    } else {
        line
    }
}

/// The state after the text `s`, fed line by line: each line goes without
/// its line end and gets a newline instead.
pub open spec fn feed_text(f: Feed, s: Seq<char>) -> Feed
    decreases s.len(),
{
    if s.len() == 0 {
        f
    } else {
        let end = first_line_end(s);
        let after = feed_one_line(f, without_return(s.take(end)).push('\n'));
        if end < 0 || end >= s.len() {
            after
        } else {
            feed_text(after, s.skip(end + 1))
        }
    }
}

/// The nodes that a text is cut into: those found while it is fed, and the
/// raw text that is left in the end.
pub open spec fn parsed(text: Seq<char>) -> Seq<Shape> {
    let f = feed_text(feed_of(Seq::empty(), Seq::empty(), Seq::empty()), text);
    if f.buffer.len() > 0 {
        f.found.push(Shape::RawText(f.buffer))
    } else {
        f.found
    }
}

pub fn find_two(src: &Vec<char>, from: usize, first: char, second: char) -> (found: usize)
    requires
        from <= src@.len(),
    ensures
        found == first_two(src@, from as int, first, second),
        from <= found <= src@.len(),
        found < src@.len() ==> found + 1 < src@.len() && src@[found as int] == first && src@[found
            + 1] == second,
{
    let mut i: usize = from;
    while i < src.len() && src.len() - i >= 2
        invariant
            from <= i <= src@.len(),
            first_two(src@, from as int, first, second) == first_two(
                src@,
                i as int,
                first,
                second,
            ),
        decreases src@.len() - i,
    {
        if src[i] == first && src[i + 1] == second {
            return i;
        }
        i += 1;
    }
    src.len()
}

pub fn find_visible(src: &Vec<char>, from: usize) -> (found: usize)
    requires
        from <= src@.len(),
    ensures
        found == next_visible(src@, from as int),
        from <= found <= src@.len(),
{
    let mut i: usize = from;
    while i < src.len() && whitespace(src[i])
        invariant
            from <= i <= src@.len(),
            next_visible(src@, from as int) == next_visible(src@, i as int),
        decreases src@.len() - i,
    {
        i += 1;
    }
    i
}

pub fn find_label_end(src: &Vec<char>, from: usize) -> (found: usize)
    requires
        from <= src@.len(),
    ensures
        found == label_end(src@, from as int),
        from <= found <= src@.len(),
        found < src@.len() ==> closes_label(src@, found as int),
{
    let mut i: usize = from;
    while i < src.len()
        invariant
            from <= i <= src@.len(),
            label_end(src@, from as int) == label_end(src@, i as int),
        decreases src@.len() - i,
    {
        if src[i] == ']' {
            let next = find_visible(src, i + 1);
            if next < src.len() && src[next] == '(' {
                return i;
            }
        }
        i += 1;
    }
    src.len()
}

fn wrap_mdnode(node: MarkdownNode) -> (nodes: MdNodes)
    ensures
        nodes@.len() == 1,
        *nodes@[0] == node,
{
    let mut nodes: MdNodes = Vec::new();
    nodes.push(Box::new(node));
    nodes
}

/// Looks for constructs inside each of the nodes.
fn detect_in_all(nodes: &mut Vec<MarkdownNode>)
    ensures
        final(nodes)@ == old(nodes)@,
{
    let mut k: usize = 0;
    while k < nodes.len()
        invariant
            nodes@ == old(nodes)@,
        decreases nodes@.len() - k,
    {
        let mut node = nodes.remove(k);
        node.recursive_detect();
        nodes.insert(k, node);
        assert(nodes@ =~= old(nodes)@);
        k += 1;
    }
}

pub struct MarkdownParser {
    nodes: Vec<MarkdownNode>,
}

impl MarkdownParser {
    /// The nodes found so far.
    pub closed spec fn found(self) -> Seq<Shape> {
        shapes(self.nodes@)
    }

    /// A parser that has found nothing yet.
    pub fn new() -> (parser: MarkdownParser)
        ensures
            parser.found() == Seq::<Shape>::empty(),
    {
        let parser = MarkdownParser { nodes: Vec::new() };
        assert(parser.found() =~= Seq::<Shape>::empty());
        parser
    }

    /// The nodes found so far.
    pub fn into_nodes(self) -> (nodes: Vec<MarkdownNode>)
        ensures
            shapes(nodes@) == self.found(),
    {
        self.nodes
    }

    /// Cuts a text into nodes.
    pub fn parse(md_text: String) -> (nodes: Vec<MarkdownNode>)
        ensures
            shapes(nodes@) == parsed(md_text@),
    {
        let mut parser = Self::new();
        let mut buffer = String::new();
        let mut buffer_now = String::new();
        let src = chars_of(md_text.as_str());
        let n = src.len();
        let ghost start = feed_of(Seq::empty(), Seq::empty(), Seq::empty());
        let mut pos: usize = 0;
        let mut open = n > 0;
        assert(src@.skip(0) =~= src@);
        while open
            invariant
                n == src@.len(),
                pos <= n,
                open ==> pos < n,
                feed_text(start, src@) == (if open {
                    feed_text(
                        feed_of(parser.found(), buffer@, buffer_now@),
                        src@.skip(pos as int),
                    )
                } else {
                    feed_of(parser.found(), buffer@, buffer_now@)
                }),
            decreases n - pos + (if open {
                1int
            } else {
                0int
            }),
        {
            let end = line_end(&src, pos);
            proof {
                lemma_first_line_end(src@, pos as int, end as int);
                assert(src@.skip(pos as int).take(end - pos) =~= src@.subrange(
                    pos as int,
                    end as int,
                ));
            }
            let line_stop = if end > pos && src[end - 1] == '\r' {
                end - 1
            } else {
                end
            };
            assert(src@.subrange(pos as int, line_stop as int) =~= without_return(
                src@.subrange(pos as int, end as int),
            ));
            let mut line = string_of(&src, pos, line_stop);
            push_char(&mut line, '\n');
            parser.feed_line(line, &mut buffer, &mut buffer_now);
            let ghost after = feed_of(parser.found(), buffer@, buffer_now@);
            if end < n {
                assert(src@.skip(pos as int).skip(end - pos + 1) =~= src@.skip(end + 1));
                assert(end + 1 == n ==> feed_text(after, src@.skip(end + 1)) == after);
                pos = end + 1;
                open = pos < n;
            } else {
                open = false;
            }
        }
        if !buffer.as_str().is_empty() {
            let ghost before = shapes(parser.nodes@);
            let node = MarkdownNode::RawText(buffer);
            parser.nodes.push(node);
            assert(shapes(parser.nodes@) =~= before.push(Shape::RawText(buffer@)));
        }
        parser.nodes
    }

    /// Feeds one line, without the white space at its start, character by
    /// character. `buffer` holds the characters read since the last node
    /// was found and `buffer_now` those of them that are not white space: a
    /// character joins them, and where they then hold a construct, its
    /// nodes join those found and both buffers start anew.
    pub fn feed_line(&mut self, line: String, buffer: &mut String, buffer_now: &mut String)
        ensures
            feed_of(final(self).found(), final(buffer)@, final(buffer_now)@) == feed_one_line(
                feed_of(old(self).found(), old(buffer)@, old(buffer_now)@),
                line@,
            ),
    {
        let chars = chars_of(line.as_str());
        let n = chars.len();
        assert(chars@.subrange(0, n as int) =~= chars@);
        let first = skip_blanks(&chars, 0, n);
        let ghost fed = chars@.subrange(first as int, n as int);
        let ghost start = feed_of(old(self).found(), old(buffer)@, old(buffer_now)@);
        let mut i: usize = first;
        assert(fed.take(0) =~= Seq::<char>::empty());
        while i < n
            invariant
                first <= i <= n,
                n == chars@.len(),
                fed == chars@.subrange(first as int, n as int),
                feed_of(self.found(), buffer@, buffer_now@) == feed_chars(
                    start,
                    fed.take(i - first),
                ),
            decreases n - i,
        {
            let c = chars[i];
            proof {
                assert(fed.take(i - first + 1).drop_last() =~= fed.take(i - first));
                assert(fed.take(i - first + 1).last() == c);
            }
            push_char(buffer, c);
            if !whitespace(c) {
                push_char(buffer_now, c);
            }
            match self.detect_node(buffer, buffer_now) {
                Some(mut nodes) => {
                    detect_in_all(&mut nodes);
                    let ghost before = self.nodes@;
                    let ghost added = nodes@;
                    self.nodes.append(&mut nodes);
                    assert(shapes(self.nodes@) =~= shapes(before) + shapes(added));
                    *buffer = String::new();
                    *buffer_now = String::new();
                },
                None => {},
            }
            i += 1;
        }
        assert(fed.take(n - first) =~= fed);
    }

    /// The nodes that `buffer` is cut into, if it holds a header, a
    /// separator line or a link by now.
    pub fn detect_node(&self, buffer: &String, buffer_now: &String) -> (res: Option<
        Vec<MarkdownNode>,
    >)
        ensures
            match res {
                Some(nodes) => detect(buffer@, buffer_now@) == Some(shapes(nodes@)),
                None => detect(buffer@, buffer_now@) is None,
            },
    {
        let src = chars_of(buffer.as_str());
        let now = chars_of(buffer_now.as_str());
        let n = src.len();
        if n == 0 {
            assert(trim_start(src@) =~= src@);
            return None;
        }
        let start = find_two(&src, 0, '#', ' ');
        if src[0] == '#' && src[n - 1] == '\n' && start < n {
            let level = start + 1;
            assert(src@.skip(start + 2) =~= src@.subrange(start + 2, n as int));
            let text_end = drop_blanks(&src, level + 1, n);
            let text = string_of(&src, level + 1, text_end);
            let mut nodes: Vec<MarkdownNode> = Vec::new();
            nodes.push(MarkdownNode::Header(level, wrap_mdnode(MarkdownNode::RawText(text))));
            assert(shapes(nodes@) =~= seq![detect_header(src@)->0]);
            return Some(nodes);
        }
        assert(src@.subrange(0, n as int) =~= src@);
        let visible = skip_blanks(&src, 0, n);
        if n - visible == 4 && src[visible] == '-' && src[visible + 1] == '-' && src[visible + 2]
            == '-' && src[visible + 3] == '\n' {
            let mut nodes: Vec<MarkdownNode> = Vec::new();
            nodes.push(MarkdownNode::Strikethrough);
            assert(src@.subrange(visible as int, n as int) =~= separator_line());
            assert(shapes(nodes@) =~= seq![Shape::Strikethrough]);
            return Some(nodes);
        }
        assert(trim_start(src@) != separator_line()) by {
            let t = src@.subrange(visible as int, n as int);
            if t == separator_line() {
                assert(t.len() == 4);
                assert(t[0] == '-' && t[1] == '-' && t[2] == '-' && t[3] == '\n');
            }
        }
        if src[n - 1] != ')' || find_two(&now, 0, ']', '(') >= now.len() {
            return None;
        }
        let literal = find_two(&src, 0, ']', '(');
        let text_end = if literal < n {
            literal
        } else {
            find_label_end(&src, 0)
        };
        if text_end >= n {
            return None;
        }
        let url_start = if literal < n {
            literal + 2
        } else {
            find_visible(&src, text_end + 1) + 1
        };
        let mut nb_open: usize = 0;
        let mut nb_close: usize = 0;
        let mut last_open: usize = 0;
        let mut ind: usize = 0;
        assert(src@.take(0) =~= Seq::<char>::empty());
        while ind < text_end
            invariant
                ind <= text_end < n,
                n == src@.len(),
                url_start <= n - 1,
                nb_open == count(src@.take(ind as int), '['),
                nb_close == count(src@.take(ind as int), ']'),
                last_open == last_of(src@.take(ind as int), '['),
                nb_open <= ind,
                nb_close <= ind,
                last_open <= ind,
                nb_open > 0 ==> last_open < ind,
            decreases text_end - ind,
        {
            assert(src@.take(ind + 1).drop_last() =~= src@.take(ind as int));
            if src[ind] == '[' {
                nb_open += 1;
                last_open = ind;
            } else if src[ind] == ']' {
                nb_close += 1;
            }
            ind += 1;
        }
        if nb_close < nb_open {
            let text_before = string_of(&src, 0, last_open);
            let node_before = MarkdownNode::RawText(text_before);
            let text_node = wrap_mdnode(
                MarkdownNode::RawText(string_of(&src, last_open + 1, text_end)),
            );
            let url_end = n - 1;
            let node = MarkdownNode::Link(text_node, string_of(&src, url_start, url_end));
            let mut nodes: Vec<MarkdownNode> = Vec::new();
            nodes.push(node_before);
            nodes.push(node);
            assert(src@.take(last_open as int) =~= src@.subrange(0, last_open as int));
            assert(shapes(nodes@) =~= detect_link(src@, now@)->0);
            return Some(nodes);
        }
        None
    }
}

/// The first line of the text from `pos` on ends where the line ends that
/// holds `pos`.
pub proof fn lemma_first_line_end(s: Seq<char>, pos: int, end: int)
    requires
        0 <= pos <= end <= s.len(),
        end < s.len() ==> s[end] == '\n',
        forall|i: int| pos <= i < end ==> s[i] != '\n',
    ensures
        first_line_end(s.skip(pos)) == end - pos,
    decreases end - pos,
{
    let t = s.skip(pos);
    if pos < end {
        assert(t.drop_first() =~= s.skip(pos + 1));
        lemma_first_line_end(s, pos + 1, end);
    }
}

} // verus!
