//! What the engine does to a tree, as a mathematical function of the tree
//! and of what the hooks return.

use crate::hooks::{default_text, line_break, Call, Event};
use crate::text::{concat, join, trim};
use crate::tree::{
    header_level_of, spec_is_container, spec_is_inline, spec_is_raw_text,
    spec_requires_block_wrapping, Node, Rule,
};
use vstd::prelude::*;

verus! {

/// The state that the walk carries from node to node.
#[derive(Clone, Copy, Debug)]
pub struct ParseState {
    /// Whether this is the first pass, which calls the `peek_*` hooks.
    pub peek: bool,
    /// Whether a line break inside a paragraph is pending: the next inline
    /// node then starts with one space.
    pub add_space: bool,
}

impl Default for ParseState {
    /// The state in which the second pass starts.
    fn default() -> (state: ParseState)
        ensures
            !state.peek,
            !state.add_space,
    {
        ParseState { peek: false, add_space: false }
    }
}

impl ParseState {
    /// The state in which the first pass starts.
    pub fn peek() -> (state: ParseState)
        ensures
            state.peek,
            !state.add_space,
    {
        let default = ParseState::default();
        ParseState { peek: true, ..default }
    }

    /// This state with the pending space set to `add_space`.
    pub open spec fn with_space(self, add_space: bool) -> ParseState {
        ParseState { peek: self.peek, add_space }
    }
}

/// What the hooks returned during the walk of one node: `own` is what the
/// node's own hook returned, `inner[i]` holds the same for its child `i`.
pub struct Answers {
    pub own: Seq<char>,
    pub inner: Seq<Answers>,
}

/// The result of walking one node: its text, whether a space is pending
/// after it, and the hook calls that were made, in order.
pub struct Walk {
    pub out: Seq<char>,
    pub add_space: bool,
    pub events: Seq<Event>,
}

/// The result of walking some children of a node one after the other: the
/// text of each, whether a space is pending after the last, and the hook
/// calls that were made, in order.
pub struct Run {
    pub outs: Seq<Seq<char>>,
    pub add_space: bool,
    pub events: Seq<Event>,
}

/// The space that a pending line break puts before an inline node.
pub open spec fn soft_space(lead: bool) -> Seq<char> {
    if lead {
        seq![' ']
    } else {
        Seq::empty()
    }
}

/// What a node stands for once its hook was called. In the first pass the
/// hook returns nothing and the node stands for its default rendering; in
/// the second it stands for what the hook returned, and a block construct
/// for that between one newline before and one behind, whatever the hook
/// returned.
pub open spec fn rendered(st: ParseState, block: bool, call: Call, ret: Seq<char>) -> Seq<char> {
    if st.peek {
        default_text(call)
    } else if block {
        line_break() + ret + line_break()
    } else {
        ret
    }
}

/// The call of a node's hook as it is recorded.
pub open spec fn event_of(st: ParseState, call: Call, ret: Seq<char>) -> Event {
    Event {
        peek: st.peek,
        call,
        ret: if st.peek {
            Seq::empty()
        } else {
            ret
        },
    }
}

/// The walk of a node whose hook is called with `call`, after the calls
/// `before` that its children gave rise to.
pub open spec fn hooked(
    st: ParseState,
    rule: Rule,
    call: Call,
    ret: Seq<char>,
    before: Seq<Event>,
    add_space: bool,
) -> Walk {
    Walk {
        out: soft_space(st.add_space && spec_is_inline(rule)) + rendered(
            st,
            spec_requires_block_wrapping(rule),
            call,
            ret,
        ),
        add_space,
        events: before.push(event_of(st, call, ret)),
    }
}

/// The texts of the nodes `from..` of `lines`, one per line.
pub open spec fn block_text(lines: Seq<Node>, from: int) -> Seq<char> {
    join(Seq::new((lines.len() - from) as nat, |i: int| lines[from + i].text@), line_break())
}

/// The trimmed key and value of the first `k` metadata pairs, as far as each
/// of them has both.
pub open spec fn metadata_upto(pairs: Seq<Node>, k: int) -> Seq<(Seq<char>, Seq<char>)>
    decreases k,
{
    if k <= 0 {
        Seq::empty()
    } else {
        let before = metadata_upto(pairs, k - 1);
        if before.len() == k - 1 && pairs[k - 1].inner@.len() >= 2 {
            before.push((trim(pairs[k - 1].inner@[0].text@), trim(pairs[k - 1].inner@[1].text@)))
        } else {
            before
        }
    }
}

/// The metadata of an image: none without a third child, else the pairs
/// under it.
pub open spec fn metadata(image: Node) -> Seq<(Seq<char>, Seq<char>)> {
    if image.inner@.len() >= 3 {
        metadata_upto(image.inner@[2].inner@, image.inner@[2].inner@.len() as int)
    } else {
        Seq::empty()
    }
}

/// The language of a code block, if its first child names one.
pub open spec fn language(block: Node) -> Option<Seq<char>> {
    if block.inner@.len() > 0 && block.inner@[0].rule == Rule::slug {
        Some(block.inner@[0].text@)
    } else {
        None
    }
}

/// The walk of the first `k` nodes of `nodes`, one after the other: each
/// starts in the state that the one before left.
pub open spec fn walk_run(nodes: Seq<Node>, k: int, st: ParseState, answers: Seq<Answers>) -> Run
    decreases nodes, k,
{
    if 0 < k <= nodes.len() {
        let before = walk_run(nodes, k - 1, st, answers);
        let last = walk(nodes[k - 1], st.with_space(before.add_space), answers[k - 1]);
        Run {
            outs: before.outs.push(last.out),
            add_space: last.add_space,
            events: before.events + last.events,
        }
    } else {
        Run { outs: Seq::empty(), add_space: st.add_space, events: Seq::empty() }
    }
}

/// The walk of one node in state `st`, where the hooks return `ans`.
///
/// An inline node takes the pending space. A text node goes to the text
/// hook, and so does a container without children. A container with
/// children stands for their texts, and the state goes through it from
/// child to child. Every other construct walks the children that its
/// arguments are made of, in a state of its own, and calls its hook.
pub open spec fn walk(node: Node, st: ParseState, ans: Answers) -> Walk
    decreases node,
{
    let rule = node.rule;
    let n = node.inner@.len() as int;
    let below = st.with_space(st.add_space && !spec_is_inline(rule));
    let all = walk_run(node.inner@, n, below, ans.inner);
    let label = walk_run(node.inner@, n - 1, below, ans.inner);
    let none = Seq::<Event>::empty();
    if spec_is_raw_text(rule) || (spec_is_container(rule) && n == 0) {
        hooked(st, rule, Call::Text { text: node.text@ }, ans.own, none, below.add_space)
    } else if spec_is_container(rule) {
        Walk { out: concat(all.outs), add_space: all.add_space, events: all.events }
    } else if header_level_of(rule) > 0 {
        let first = walk_run(node.inner@, 1, below, ans.inner);
        hooked(
            st,
            rule,
            Call::Header { level: header_level_of(rule) as usize, text: concat(first.outs) },
            ans.own,
            first.events,
            below.add_space,
        )
    } else {
        match rule {
            Rule::bold => hooked(
                st,
                rule,
                Call::Bold { text: concat(all.outs) },
                ans.own,
                all.events,
                below.add_space,
            ),
            Rule::italic => hooked(
                st,
                rule,
                Call::Italic { text: concat(all.outs) },
                ans.own,
                all.events,
                below.add_space,
            ),
            Rule::strikethrough => hooked(
                st,
                rule,
                Call::Strikethrough { text: concat(all.outs) },
                ans.own,
                all.events,
                below.add_space,
            ),
            Rule::list_element => hooked(
                st,
                rule,
                Call::ListElement { text: concat(all.outs) },
                ans.own,
                all.events,
                below.add_space,
            ),
            Rule::paragraph => hooked(
                st,
                rule,
                Call::Paragraph { text: concat(all.outs) },
                ans.own,
                all.events,
                below.add_space,
            ),
            Rule::link => hooked(
                st,
                rule,
                Call::Link { text: concat(label.outs), url: node.inner@[n - 1].text@ },
                ans.own,
                label.events,
                below.add_space,
            ),
            Rule::reflink => hooked(
                st,
                rule,
                Call::Reflink { text: concat(label.outs), slug: node.inner@[n - 1].text@ },
                ans.own,
                label.events,
                below.add_space,
            ),
            Rule::refurl => hooked(
                st,
                rule,
                Call::Refurl { slug: node.inner@[0].text@, url: node.inner@[1].text@ },
                ans.own,
                none,
                below.add_space,
            ),
            Rule::quote => hooked(
                st,
                rule,
                Call::Quote { text: join(all.outs, line_break()) },
                ans.own,
                all.events,
                all.add_space,
            ),
            Rule::quote_line => Walk {
                out: concat(all.outs),
                add_space: below.add_space,
                events: all.events,
            },
            Rule::list => hooked(
                st,
                rule,
                Call::List { elements: all.outs },
                ans.own,
                all.events,
                all.add_space,
            ),
            Rule::codeblock => hooked(
                st,
                rule,
                Call::Codeblock {
                    language: language(node),
                    text: block_text(
                        node.inner@,
                        if language(node) is Some {
                            1
                        } else {
                            0
                        },
                    ),
                },
                ans.own,
                none,
                below.add_space,
            ),
            Rule::inline_code => hooked(
                st,
                rule,
                Call::InlineCode { text: node.inner@[0].text@ },
                ans.own,
                none,
                below.add_space,
            ),
            Rule::comment => hooked(
                st,
                rule,
                Call::Comment { text: node.inner@[0].text@ },
                ans.own,
                none,
                below.add_space,
            ),
            Rule::image => hooked(
                st,
                rule,
                Call::Image {
                    alt: node.inner@[0].text@,
                    url: node.inner@[1].text@,
                    tags: metadata(node),
                },
                ans.own,
                none,
                below.add_space,
            ),
            Rule::horiz_sep => hooked(
                st,
                rule,
                Call::HorizontalSeparator,
                ans.own,
                none,
                below.add_space,
            ),
            Rule::vertical_space => hooked(
                st,
                rule,
                Call::VerticalSpace,
                ans.own,
                none,
                below.add_space,
            ),
            Rule::paragraph_newline => Walk { out: Seq::empty(), add_space: true, events: none },
            _ => Walk { out: Seq::empty(), add_space: below.add_space, events: none },
        }
    }
}

} // verus!
