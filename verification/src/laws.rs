//! What holds of every walk and of every rendering.

use crate::grammar::document_of;
use crate::hooks::{line_break, Call, Event};
use crate::scan::{lemma_char_from, lemma_run_end};
use crate::syntax::{block_tree, document_tree, header_of, header_tree, is_plain, lemma_plain_text};
use crate::text::concat;
use crate::transform::{calls_of, first_pass, rendering_of, second_pass, Returned};
use crate::tree::{
    branch_tree, header_level_of, leaf_tree, lemma_tree_children, spec_is_inline,
    spec_requires_block_wrapping, Node, Rule, Tree,
};
use crate::walk::{
    block_text, event_of, language, metadata, rendered, walk, walk_run, Answers, ParseState,
};
use vstd::prelude::*;

verus! {

/// Whether every one of the calls was made in the pass that `peek` names.
pub open spec fn all_in_pass(events: Seq<Event>, peek: bool) -> bool {
    forall|i: int| 0 <= i < events.len() ==> (#[trigger] events[i]).peek == peek
}

/// The walk of some nodes calls the hooks of its pass only.
pub proof fn lemma_run_stays_in_pass(nodes: Seq<Node>, k: int, st: ParseState, answers: Seq<Answers>)
    ensures
        all_in_pass(walk_run(nodes, k, st, answers).events, st.peek),
    decreases nodes, k,
{
    if 0 < k <= nodes.len() {
        let before = walk_run(nodes, k - 1, st, answers);
        lemma_run_stays_in_pass(nodes, k - 1, st, answers);
        lemma_walk_stays_in_pass(nodes[k - 1], st.with_space(before.add_space), answers[k - 1]);
    }
}

/// The walk of a node calls the hooks of its pass only: the `peek_*` hooks
/// in the first pass, the `transform_*` hooks in the second.
pub proof fn lemma_walk_stays_in_pass(node: Node, st: ParseState, ans: Answers)
    ensures
        all_in_pass(walk(node, st, ans).events, st.peek),
    decreases node,
{
    let n = node.inner@.len() as int;
    let below = st.with_space(st.add_space && !spec_is_inline(node.rule));
    lemma_run_stays_in_pass(node.inner@, n, below, ans.inner);
    lemma_run_stays_in_pass(node.inner@, n - 1, below, ans.inner);
    lemma_run_stays_in_pass(node.inner@, 1, below, ans.inner);
}

/// The two passes do not interleave: of the calls that rendering a tree
/// makes, each call of the first pass comes before each call of the second.
pub proof fn lemma_passes_do_not_interleave(tree: Node, returned: Returned)
    ensures
        forall|i: int, j: int|
            #![trigger calls_of(tree, returned)[i], calls_of(tree, returned)[j]]
            0 <= i < calls_of(tree, returned).len() && 0 <= j < calls_of(tree, returned).len()
                && calls_of(tree, returned)[i].peek && !calls_of(tree, returned)[j].peek ==> i
                < j,
{
    lemma_walk_stays_in_pass(tree, first_pass(), returned.first);
    lemma_walk_stays_in_pass(tree, second_pass(), returned.second);
}

/// The first pass ends before the second begins: the calls that rendering
/// a tree makes are those of the first walk, the call that ends the first
/// pass, those of the second walk, and the call that ends the second pass.
pub proof fn lemma_first_pass_completes(tree: Node, returned: Returned)
    ensures
        ({
            let calls = calls_of(tree, returned);
            let first = walk(tree, first_pass(), returned.first).events;
            let second = walk(tree, second_pass(), returned.second).events;
            &&& calls.len() == first.len() + second.len() + 2
            &&& calls.take(first.len() as int) == first
            &&& calls[first.len() as int] == Event {
                peek: true,
                call: Call::Finished,
                ret: returned.first_end,
            }
            &&& calls.subrange(first.len() as int + 1, calls.len() - 1) == second
            &&& calls.last() == Event { peek: false, call: Call::Finished, ret: returned.second_end }
            &&& all_in_pass(first, true)
            &&& all_in_pass(second, false)
        }),
{
    let calls = calls_of(tree, returned);
    let first = walk(tree, first_pass(), returned.first).events;
    let second = walk(tree, second_pass(), returned.second).events;
    lemma_walk_stays_in_pass(tree, first_pass(), returned.first);
    lemma_walk_stays_in_pass(tree, second_pass(), returned.second);
    assert(calls.take(first.len() as int) =~= first);
    assert(calls.subrange(first.len() as int + 1, calls.len() - 1) =~= second);
}

/// In the second pass a block construct stands between exactly one newline
/// before and one behind what its hook returned, whatever that is.
pub proof fn lemma_block_is_wrapped(node: Node, st: ParseState, ans: Answers)
    requires
        spec_requires_block_wrapping(node.rule),
        !st.peek,
    ensures
        walk(node, st, ans).out == line_break() + ans.own + line_break(),
{
    assert(Seq::<char>::empty() + (line_break() + ans.own + line_break()) =~= line_break()
        + ans.own + line_break());
}

/// In the second pass an inline construct with a hook stands for what its
/// hook returned, behind one space where a line break was pending: no
/// newline is put around it.
pub proof fn lemma_inline_is_not_wrapped(node: Node, st: ParseState, ans: Answers)
    requires
        node.rule == Rule::bold || node.rule == Rule::italic || node.rule == Rule::link
            || node.rule == Rule::image || node.rule == Rule::text || node.rule
            == Rule::link_text || node.rule == Rule::code,
        !st.peek,
    ensures
        walk(node, st, ans).out == (if st.add_space {
            seq![' '] + ans.own
        } else {
            ans.own
        }),
{
    assert(Seq::<char>::empty() + ans.own =~= ans.own);
}

/// A list is joined by its hook alone: the hook gets the text of each
/// element, in order, and the list stands for what the hook returned, set
/// between two newlines as every block is, with no separator of the
/// engine's.
pub proof fn lemma_list_is_joined_by_its_hook(node: Node, st: ParseState, ans: Answers)
    requires
        node.rule == Rule::list,
        !st.peek,
    ensures
        walk(node, st, ans).out == line_break() + ans.own + line_break(),
        walk(node, st, ans).events.last() == event_of(
            st,
            Call::List { elements: walk_run(node.inner@, node.inner@.len() as int, st, ans.inner).outs },
            ans.own,
        ),
{
    assert(Seq::<char>::empty() + (line_break() + ans.own + line_break()) =~= line_break()
        + ans.own + line_break());
    assert(st.with_space(st.add_space && !spec_is_inline(node.rule)) == st);
}

/// An image without a metadata block is handed to its hook with no
/// metadata.
pub proof fn lemma_image_without_metadata(node: Node, st: ParseState, ans: Answers)
    requires
        node.rule == Rule::image,
        node.inner@.len() == 2,
    ensures
        metadata(node) == Seq::<(Seq<char>, Seq<char>)>::empty(),
        walk(node, st, ans).events == seq![
            event_of(
                st,
                Call::Image {
                    alt: node.inner@[0].text@,
                    url: node.inner@[1].text@,
                    tags: Seq::empty(),
                },
                ans.own,
            ),
        ],
{
    assert(walk(node, st, ans).events =~= seq![
        event_of(
            st,
            Call::Image { alt: node.inner@[0].text@, url: node.inner@[1].text@, tags: Seq::empty() },
            ans.own,
        ),
    ]);
}

/// A code block is handed to its hook as it is written: the hook gets the
/// language, if the block names one, and the lines of code joined by
/// newlines, with nothing trimmed and no hook called on them.
pub proof fn lemma_code_block_is_verbatim(node: Node, st: ParseState, ans: Answers)
    requires
        node.rule == Rule::codeblock,
    ensures
        walk(node, st, ans).events == seq![
            event_of(
                st,
                Call::Codeblock {
                    language: language(node),
                    text: block_text(
                        node.inner@,
                        if language(node) is Some {
                            1
                        } else {
                            0
                        },
                    ),
                },
                ans.own,
            ),
        ],
        node.inner@.len() == 2 && node.inner@[0].rule == Rule::slug ==> language(node) == Some(
            node.inner@[0].text@,
        ) && block_text(node.inner@, 1) == node.inner@[1].text@,
{
    assert(walk(node, st, ans).events =~= seq![
        event_of(
            st,
            Call::Codeblock {
                language: language(node),
                text: block_text(
                    node.inner@,
                    if language(node) is Some {
                        1
                    } else {
                        0
                    },
                ),
            },
            ans.own,
        ),
    ]);
    if node.inner@.len() == 2 && node.inner@[0].rule == Rule::slug {
        let lines = Seq::new(1, |i: int| node.inner@[1 + i].text@);
        assert(lines.len() == 1 && lines[0] == node.inner@[1].text@);
        assert(block_text(node.inner@, 1) == crate::text::join(lines, line_break()));
    }
}

/// A line break inside a paragraph gives exactly one space: it renders as
/// nothing and leaves a space pending, and the text node that comes next
/// starts with that space and leaves none pending.
pub proof fn lemma_soft_break_gives_one_space(
    newline: Node,
    text: Node,
    st: ParseState,
    a: Answers,
    b: Answers,
)
    requires
        newline.rule == Rule::paragraph_newline,
        text.rule == Rule::text,
        !st.peek,
    ensures
        walk(newline, st, a).out == Seq::<char>::empty(),
        walk(newline, st, a).add_space,
        walk(text, st.with_space(true), b).out == seq![' '] + b.own,
        !walk(text, st.with_space(true), b).add_space,
{
}

/// A header whose label is one text is shown to the hooks in two calls,
/// and in two only: the text goes to the text hook, then the header hook is
/// called once, with the header's level and with what the text stands for.
pub proof fn lemma_header_is_called_once(node: Node, st: ParseState, ans: Answers)
    requires
        header_level_of(node.rule) > 0,
        node.inner@.len() == 1,
        node.inner@[0].rule == Rule::rich_txt,
        node.inner@[0].inner@.len() == 1,
        node.inner@[0].inner@[0].rule == Rule::text,
        !st.add_space,
    ensures
        ({
            let text = node.inner@[0].inner@[0].text@;
            let returned = ans.inner[0].inner[0].own;
            let label = if st.peek {
                text
            } else {
                returned
            };
            let call = Call::Header { level: header_level_of(node.rule) as usize, text: label };
            &&& walk(node, st, ans).events == seq![
                event_of(st, Call::Text { text }, returned),
                event_of(st, call, ans.own),
            ]
            &&& walk(node, st, ans).out == rendered(st, true, call, ans.own)
            &&& !walk(node, st, ans).add_space
        }),
{
    reveal_with_fuel(walk, 3);
    reveal_with_fuel(walk_run, 3);
    let label = node.inner@[0];
    let leaf = label.inner@[0];
    let text = leaf.text@;
    let returned = ans.inner[0].inner[0].own;
    let inner = walk(leaf, st, ans.inner[0].inner[0]);
    assert(inner.events =~= seq![event_of(st, Call::Text { text }, returned)]);
    assert(inner.out =~= (if st.peek {
        text
    } else {
        returned
    }));
    let run = walk_run(label.inner@, 1, st, ans.inner[0].inner);
    assert(run.outs =~= seq![inner.out]);
    assert(run.events =~= inner.events);
    assert(concat(run.outs) =~= inner.out) by {
        reveal_with_fuel(concat, 2);
        assert(run.outs.drop_last() =~= Seq::<Seq<char>>::empty());
    }
    let middle = walk(label, st, ans.inner[0]);
    assert(middle.out == inner.out);
    let first = walk_run(node.inner@, 1, st, ans.inner);
    assert(first.outs =~= seq![middle.out]);
    assert(first.events =~= inner.events);
    assert(concat(first.outs) =~= inner.out) by {
        reveal_with_fuel(concat, 2);
        assert(first.outs.drop_last() =~= Seq::<Seq<char>>::empty());
    }
    let label = if st.peek {
        text
    } else {
        returned
    };
    let call = Call::Header { level: header_level_of(node.rule) as usize, text: label };
    assert(walk(node, st, ans).events =~= seq![
        event_of(st, Call::Text { text }, returned),
        event_of(st, call, ans.own),
    ]);
    assert(walk(node, st, ans).out =~= rendered(st, true, call, ans.own));
}

/// The line of a header: as many `#` as its level, a space, its label.
pub open spec fn header_line(level: int, label: Seq<char>) -> Seq<char> {
    Seq::new(level as nat, |i: int| '#') + seq![' '] + label
}

/// Whether a header's label is one plain text: it is not empty, does not
/// start with a space, and holds no newline and nothing that starts an
/// inline construct.
pub open spec fn is_plain_label(label: Seq<char>) -> bool {
    &&& label.len() > 0
    &&& label[0] != ' '
    &&& forall|i: int| 0 <= i < label.len() ==> is_plain(#[trigger] label[i]) && label[i] != '\n'
}

/// The tree of a document of `n` characters that is one header with a plain
/// label.
pub open spec fn header_document(level: int, n: int) -> Tree {
    branch_tree(
        Rule::file,
        0,
        n,
        seq![
            branch_tree(
                header_of(level),
                0,
                n,
                seq![
                    branch_tree(
                        Rule::rich_txt,
                        level + 1,
                        n,
                        seq![leaf_tree(Rule::text, level + 1, n)],
                    ),
                ],
            ),
            leaf_tree(Rule::EOI, n, n),
        ],
    )
}

/// A line of one to six `#`, a space and a plain label is a document of one
/// header, whose level is the number of `#` and whose label is one text.
pub proof fn lemma_header_line_tree(level: int, label: Seq<char>)
    requires
        1 <= level <= 6,
        is_plain_label(label),
    ensures
        document_tree(header_line(level, label)) == header_document(
            level,
            level + 1 + label.len(),
        ),
{
    let s = header_line(level, label);
    let n = s.len() as int;
    assert(n == level + 1 + label.len());
    assert forall|i: int| 0 <= i < n implies s[i] == (if i < level {
        '#'
    } else if i == level {
        ' '
    } else {
        label[i - level - 1]
    }) by {}
    assert forall|i: int| level + 1 <= i < n implies is_plain(#[trigger] s[i]) by {
        assert(is_plain(label[i - level - 1]));
    }
    assert forall|i: int| 0 <= i < n implies s[i] != '\n' by {
        if i > level {
            assert(is_plain(label[i - level - 1]));
        }
    }
    lemma_char_from(s, 0, n, '\n', n);
    lemma_run_end(s, 0, n, '#', level);
    lemma_run_end(s, level, n, ' ', level + 1);
    lemma_plain_text(s, Seq::empty(), level + 1, level + 1, n, Rule::text);
    let header = branch_tree(
        header_of(level),
        0,
        n,
        seq![
            branch_tree(Rule::rich_txt, level + 1, n, seq![leaf_tree(Rule::text, level + 1, n)]),
        ],
    );
    assert(Seq::<Tree>::empty().push(leaf_tree(Rule::text, level + 1, n)) =~= seq![
        leaf_tree(Rule::text, level + 1, n),
    ]);
    assert(header_tree(s, 0) == Some(header));
    assert(block_tree(s, 0) == Some(header));
    reveal_with_fuel(crate::syntax::document_rest, 3);
    assert(Seq::<Tree>::empty().push(header).push(leaf_tree(Rule::EOI, n, n)) =~= seq![
        header,
        leaf_tree(Rule::EOI, n, n),
    ]);
}

/// Whether a tree is a document of one header of the given level, whose
/// label is the one text `label`.
pub open spec fn is_one_header(tree: Node, level: int, label: Seq<char>) -> bool {
    &&& tree.rule == Rule::file
    &&& tree.inner@.len() == 2
    &&& tree.inner@[1].rule == Rule::EOI
    &&& header_level_of(tree.inner@[0].rule) == level
    &&& level > 0
    &&& tree.inner@[0].inner@.len() == 1
    &&& tree.inner@[0].inner@[0].rule == Rule::rich_txt
    &&& tree.inner@[0].inner@[0].inner@.len() == 1
    &&& tree.inner@[0].inner@[0].inner@[0].rule == Rule::text
    &&& tree.inner@[0].inner@[0].inner@[0].text@ == label
}

/// The tree of a line of one to six `#`, a space and a plain label is a
/// document of one header.
pub proof fn lemma_header_line_node(tree: Node, level: int, label: Seq<char>)
    requires
        1 <= level <= 6,
        is_plain_label(label),
        document_of(tree, header_line(level, label)),
    ensures
        is_one_header(tree, level, label),
{
    let s = header_line(level, label);
    let n = s.len() as int;
    let shape = header_document(level, n);
    lemma_header_line_tree(level, label);
    lemma_tree_children(tree);
    let head = tree.inner@[0];
    assert(head.tree() == shape.inner[0]);
    assert(tree.inner@[1].tree() == shape.inner[1]);
    lemma_tree_children(tree.inner@[1]);
    lemma_tree_children(head);
    let rich = head.inner@[0];
    assert(rich.tree() == shape.inner[0].inner[0]);
    lemma_tree_children(rich);
    let leaf = rich.inner@[0];
    assert(leaf.tree() == shape.inner[0].inner[0].inner[0]);
    lemma_tree_children(leaf);
    assert(head.spans(s));
    assert(rich.spans(s));
    assert(leaf.spans(s));
    assert(leaf.text@ =~= label);
}

/// Rendering a document of one header, whose label is one text, calls in
/// each pass the text hook once and then the header hook once, with the
/// header's level. In the first pass the header hook gets the label as it
/// is written, in the second what the text hook made of it; the rendering
/// is what the header hook returned, between two newlines.
pub proof fn lemma_one_header_calls(
    tree: Node,
    level: int,
    label: Seq<char>,
    returned: Returned,
)
    requires
        is_one_header(tree, level, label),
    ensures
        ({
            let text = returned.second.inner[0].inner[0].inner[0].own;
            let header = returned.second.inner[0].own;
            &&& calls_of(tree, returned) == seq![
                Event { peek: true, call: Call::Text { text: label }, ret: Seq::empty() },
                Event {
                    peek: true,
                    call: Call::Header { level: level as usize, text: label },
                    ret: Seq::empty(),
                },
                Event { peek: true, call: Call::Finished, ret: returned.first_end },
                Event { peek: false, call: Call::Text { text: label }, ret: text },
                Event {
                    peek: false,
                    call: Call::Header { level: level as usize, text },
                    ret: header,
                },
                Event { peek: false, call: Call::Finished, ret: returned.second_end },
            ]
            &&& rendering_of(tree, returned) == line_break() + header + line_break()
        }),
{
    let head = tree.inner@[0];
    lemma_document_of_one_header(tree, first_pass(), returned.first);
    lemma_document_of_one_header(tree, second_pass(), returned.second);
    lemma_header_is_called_once(head, first_pass(), returned.first.inner[0]);
    lemma_header_is_called_once(head, second_pass(), returned.second.inner[0]);
    let first = walk(tree, first_pass(), returned.first).events;
    let second = walk(tree, second_pass(), returned.second).events;
    let text = returned.second.inner[0].inner[0].inner[0].own;
    let header = returned.second.inner[0].own;
    assert(first =~= seq![
        Event { peek: true, call: Call::Text { text: label }, ret: Seq::empty() },
        Event {
            peek: true,
            call: Call::Header { level: level as usize, text: label },
            ret: Seq::empty(),
        },
    ]);
    assert(second =~= seq![
        Event { peek: false, call: Call::Text { text: label }, ret: text },
        Event { peek: false, call: Call::Header { level: level as usize, text }, ret: header },
    ]);
    assert(calls_of(tree, returned) =~= seq![
        Event { peek: true, call: Call::Text { text: label }, ret: Seq::empty() },
        Event {
            peek: true,
            call: Call::Header { level: level as usize, text: label },
            ret: Seq::empty(),
        },
        Event { peek: true, call: Call::Finished, ret: returned.first_end },
        Event { peek: false, call: Call::Text { text: label }, ret: text },
        Event { peek: false, call: Call::Header { level: level as usize, text }, ret: header },
        Event { peek: false, call: Call::Finished, ret: returned.second_end },
    ]);
}

/// Rendering a line of one to six `#`, a space and a plain label calls, in
/// each pass, the text hook once with the label and then the header hook
/// once, with the number of `#` as level.
pub proof fn lemma_header_line_calls(
    tree: Node,
    level: int,
    label: Seq<char>,
    returned: Returned,
)
    requires
        1 <= level <= 6,
        is_plain_label(label),
        document_of(tree, header_line(level, label)),
    ensures
        ({
            let text = returned.second.inner[0].inner[0].inner[0].own;
            let header = returned.second.inner[0].own;
            calls_of(tree, returned) == seq![
                Event { peek: true, call: Call::Text { text: label }, ret: Seq::empty() },
                Event {
                    peek: true,
                    call: Call::Header { level: level as usize, text: label },
                    ret: Seq::empty(),
                },
                Event { peek: true, call: Call::Finished, ret: returned.first_end },
                Event { peek: false, call: Call::Text { text: label }, ret: text },
                Event {
                    peek: false,
                    call: Call::Header { level: level as usize, text },
                    ret: header,
                },
                Event { peek: false, call: Call::Finished, ret: returned.second_end },
            ]
        }),
{
    lemma_header_line_node(tree, level, label);
    lemma_one_header_calls(tree, level, label, returned);
}

/// A document that holds one header with a plain label, and the end of the
/// input, is walked as that header is.
pub proof fn lemma_document_of_one_header(tree: Node, st: ParseState, ans: Answers)
    requires
        tree.rule == Rule::file,
        tree.inner@.len() == 2,
        tree.inner@[1].rule == Rule::EOI,
        header_level_of(tree.inner@[0].rule) > 0,
        tree.inner@[0].inner@.len() == 1,
        tree.inner@[0].inner@[0].rule == Rule::rich_txt,
        tree.inner@[0].inner@[0].inner@.len() == 1,
        tree.inner@[0].inner@[0].inner@[0].rule == Rule::text,
        !st.add_space,
    ensures
        walk(tree, st, ans).events == walk(tree.inner@[0], st, ans.inner[0]).events,
        walk(tree, st, ans).out == walk(tree.inner@[0], st, ans.inner[0]).out,
{
    reveal_with_fuel(walk_run, 3);
    reveal_with_fuel(concat, 3);
    let head = walk(tree.inner@[0], st, ans.inner[0]);
    lemma_header_is_called_once(tree.inner@[0], st, ans.inner[0]);
    let end = walk(tree.inner@[1], st, ans.inner[1]);
    assert(end.events =~= Seq::<Event>::empty());
    assert(end.out =~= Seq::<char>::empty());
    let run = walk_run(tree.inner@, 2, st, ans.inner);
    assert(run.outs =~= seq![head.out, end.out]);
    assert(run.events =~= head.events);
    assert(run.outs.drop_last() =~= seq![head.out]);
    assert(run.outs.drop_last().drop_last() =~= Seq::<Seq<char>>::empty());
    assert(concat(run.outs) =~= head.out);
}

/// Whether a call shows a reference definition to the renderer.
pub open spec fn is_definition(event: Event) -> bool {
    event.peek && event.call is Refurl
}

/// Whether a call has the renderer render a reference link.
pub open spec fn is_use(event: Event) -> bool {
    !event.peek && event.call is Reflink
}

/// Every reference definition is shown to the renderer before any
/// reference link is rendered, wherever the two stand in the document.
pub proof fn lemma_definitions_come_before_uses(tree: Node, returned: Returned)
    ensures
        forall|i: int, j: int|
            #![trigger calls_of(tree, returned)[i], calls_of(tree, returned)[j]]
            0 <= i < calls_of(tree, returned).len() && 0 <= j < calls_of(tree, returned).len()
                && is_definition(calls_of(tree, returned)[i]) && is_use(
                calls_of(tree, returned)[j],
            ) ==> i < j,
{
    lemma_passes_do_not_interleave(tree, returned);
}

/// The calls of a run of nodes hold the calls of each of the nodes.
pub proof fn lemma_run_holds_calls_of_each(
    nodes: Seq<Node>,
    k: int,
    st: ParseState,
    answers: Seq<Answers>,
    i: int,
    event: Event,
)
    requires
        0 <= i < k <= nodes.len(),
        walk(
            nodes[i],
            st.with_space(walk_run(nodes, i, st, answers).add_space),
            answers[i],
        ).events.contains(event),
    ensures
        walk_run(nodes, k, st, answers).events.contains(event),
    decreases k,
{
    let before = walk_run(nodes, k - 1, st, answers);
    let last = walk(nodes[k - 1], st.with_space(before.add_space), answers[k - 1]);
    if i < k - 1 {
        lemma_run_holds_calls_of_each(nodes, k - 1, st, answers, i, event);
        let at = choose|at: int| 0 <= at < before.events.len() && before.events[at] == event;
        assert((before.events + last.events)[at] == event);
    } else {
        let at = choose|at: int| 0 <= at < last.events.len() && last.events[at] == event;
        assert((before.events + last.events)[before.events.len() + at] == event);
    }
}

/// A reference definition of a document is shown to the renderer in the
/// first pass, with its slug and its url, wherever it stands in the
/// document: before or behind the links that use it.
pub proof fn lemma_definition_is_seen(tree: Node, i: int, returned: Returned)
    requires
        tree.rule == Rule::file,
        0 <= i < tree.inner@.len(),
        tree.inner@[i].rule == Rule::refurl,
    ensures
        walk(tree, first_pass(), returned.first).events.contains(
            Event {
                peek: true,
                call: Call::Refurl {
                    slug: tree.inner@[i].inner@[0].text@,
                    url: tree.inner@[i].inner@[1].text@,
                },
                ret: Seq::empty(),
            },
        ),
{
    let st = first_pass();
    let n = tree.inner@.len() as int;
    let definition = tree.inner@[i];
    let event = Event {
        peek: true,
        call: Call::Refurl { slug: definition.inner@[0].text@, url: definition.inner@[1].text@ },
        ret: Seq::empty(),
    };
    let before = walk_run(tree.inner@, i, st, returned.first.inner);
    let own = walk(definition, st.with_space(before.add_space), returned.first.inner[i]);
    assert(own.events =~= seq![event]);
    assert(own.events[0] == event);
    lemma_run_holds_calls_of_each(tree.inner@, n, st, returned.first.inner, i, event);
}

} // verus!
