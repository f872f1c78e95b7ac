//! The engine: it walks a tree, calls the hooks and assembles what they
//! return.

use crate::hooks::{default_text, line_break, Call, Event, MarkdownTransformer};
use crate::text::{concat, concat_strings, join_strings, trimmed, views};
use crate::tree::{
    header_level, is_container, is_inline, is_raw_text, requires_block_wrapping, Node, Rule,
};
use crate::walk::{
    block_text, event_of, language, metadata, metadata_upto, rendered, soft_space, walk, walk_run,
    Answers, ParseState,
};
use std::collections::HashMap;
use vstd::prelude::*;

verus! {

/// A construct as it is handed to its hook: the hook's arguments.
#[derive(Debug)]
pub enum Construct {
    Text(String),
    Header(usize, String),
    Bold(String),
    Italic(String),
    Strikethrough(String),
    Link(String, String),
    Reflink(String, String),
    Refurl(String, String),
    Image(String, String, Vec<(String, String)>),
    Comment(String),
    Quote(String),
    Codeblock(Option<String>, String),
    InlineCode(String),
    HorizontalSeparator,
    List(Vec<String>),
    ListElement(String),
    VerticalSpace,
    Paragraph(String),
}

/// The character sequences that a sequence of pairs of strings holds.
pub open spec fn pair_views(pairs: Seq<(String, String)>) -> Seq<(Seq<char>, Seq<char>)> {
    Seq::new(pairs.len(), |i: int| (pairs[i].0@, pairs[i].1@))
}

impl Construct {
    /// The call that handing this construct to its hook makes.
    pub open spec fn call(self) -> Call {
        match self {
            Construct::Text(text) => Call::Text { text: text@ },
            Construct::Header(level, text) => Call::Header { level, text: text@ },
            Construct::Bold(text) => Call::Bold { text: text@ },
            Construct::Italic(text) => Call::Italic { text: text@ },
            Construct::Strikethrough(text) => Call::Strikethrough { text: text@ },
            Construct::Link(text, url) => Call::Link { text: text@, url: url@ },
            Construct::Reflink(text, slug) => Call::Reflink { text: text@, slug: slug@ },
            Construct::Refurl(slug, url) => Call::Refurl { slug: slug@, url: url@ },
            Construct::Image(alt, url, tags) => Call::Image {
                alt: alt@,
                url: url@,
                tags: pair_views(tags@),
            },
            Construct::Comment(text) => Call::Comment { text: text@ },
            Construct::Quote(text) => Call::Quote { text: text@ },
            Construct::Codeblock(language, text) => Call::Codeblock {
                language: match language {
                    Some(l) => Some(l@),
                    None => None,
                },
                text: text@,
            },
            Construct::InlineCode(text) => Call::InlineCode { text: text@ },
            Construct::HorizontalSeparator => Call::HorizontalSeparator,
            Construct::List(elements) => Call::List { elements: views(elements@) },
            Construct::ListElement(text) => Call::ListElement { text: text@ },
            Construct::VerticalSpace => Call::VerticalSpace,
            Construct::Paragraph(text) => Call::Paragraph { text: text@ },
        }
    }
}

/// What the default hook of a construct renders it as.
pub fn default_rendering(construct: &Construct) -> (s: String)
    ensures
        s@ == default_text(construct.call()),
{
    match construct {
        Construct::Text(text) => text.clone(),
        Construct::Header(_, text) => text.clone(),
        Construct::Bold(text) => text.clone(),
        Construct::Italic(text) => text.clone(),
        Construct::Strikethrough(text) => text.clone(),
        Construct::Link(text, _) => text.clone(),
        Construct::Reflink(text, _) => text.clone(),
        Construct::Refurl(_, _) => String::new(),
        Construct::Image(alt, _, _) => alt.clone(),
        Construct::Comment(text) => text.clone(),
        Construct::Quote(text) => text.clone(),
        Construct::Codeblock(_, text) => text.clone(),
        Construct::InlineCode(text) => text.clone(),
        Construct::HorizontalSeparator => String::new(),
        Construct::List(elements) => {
            proof {
                reveal_strlit(", ");
                assert(", "@ =~= crate::hooks::list_separator());
            }
            join_strings(elements, ", ")
        },
        Construct::ListElement(text) => text.clone(),
        Construct::VerticalSpace => {
            proof {
                reveal_strlit("\n");
                assert("\n"@ =~= line_break());
            }
            String::from_str("\n")
        },
        Construct::Paragraph(text) => text.clone(),
    }
}

/// The mapping made of the first `k` pairs, entered one after the other:
/// of two pairs with one key the later one stays.
pub open spec fn mapping_upto(pairs: Seq<(String, String)>, k: int) -> Map<String, String>
    decreases k,
{
    if k <= 0 {
        Map::empty()
    } else {
        mapping_upto(pairs, k - 1).insert(pairs[k - 1].0, pairs[k - 1].1)
    }
}

/// The mapping that an image hook gets: the pairs are entered one after
/// the other, so that of two pairs with one key the later one stays. What
/// the hash map then holds is known as far as strings hash as the keys of a
/// hash map must.
pub fn to_map(pairs: Vec<(String, String)>) -> (map: HashMap<String, String>)
    ensures
        vstd::std_specs::hash::obeys_key_model::<String>() ==> map@ == mapping_upto(
            pairs@,
            pairs@.len() as int,
        ),
{
    broadcast use vstd::std_specs::hash::group_hash_axioms;

    let mut map: HashMap<String, String> = HashMap::new();
    let mut i: usize = 0;
    while i < pairs.len()
        invariant
            i <= pairs@.len(),
            vstd::std_specs::hash::obeys_key_model::<String>() ==> map@ == mapping_upto(
                pairs@,
                i as int,
            ),
        decreases pairs@.len() - i,
    {
        map.insert(pairs[i].0.clone(), pairs[i].1.clone());
        i += 1;
    }
    map
}

/// Hands a construct to its `peek_*` hook, and returns the record of that
/// call: of what the hook does to the renderer nothing is known.
fn peek_hook<T: MarkdownTransformer>(transformer: &mut T, construct: Construct) -> (event: Ghost<
    Event,
>)
    ensures
        event@ == (Event { peek: true, call: construct.call(), ret: Seq::empty() }),
{
    let ghost call = construct.call();
    match construct {
        Construct::Text(text) => transformer.peek_text(text),
        Construct::Header(level, text) => transformer.peek_header(level, text),
        Construct::Bold(text) => transformer.peek_bold(text),
        Construct::Italic(text) => transformer.peek_italic(text),
        Construct::Strikethrough(text) => transformer.peek_strikethrough(text),
        Construct::Link(text, url) => transformer.peek_link(text, url),
        Construct::Reflink(text, slug) => transformer.peek_reflink(text, slug),
        Construct::Refurl(slug, url) => transformer.peek_refurl(slug, url),
        Construct::Image(alt, url, tags) => transformer.peek_image(alt, url, to_map(tags)),
        Construct::Comment(text) => transformer.peek_comment(text),
        Construct::Quote(text) => transformer.peek_quote(text),
        Construct::Codeblock(language, text) => transformer.peek_codeblock(language, text),
        Construct::InlineCode(text) => transformer.peek_inline_code(text),
        Construct::HorizontalSeparator => transformer.peek_horizontal_separator(),
        Construct::List(elements) => transformer.peek_list(elements),
        Construct::ListElement(text) => transformer.peek_list_element(text),
        Construct::VerticalSpace => transformer.peek_vertical_space(),
        Construct::Paragraph(text) => transformer.peek_paragraph(text),
    }
    Ghost(Event { peek: true, call, ret: Seq::empty() })
}

/// Hands a construct to its `transform_*` hook, and returns what the hook
/// returned with the record of that call: of the text that a hook returns
/// nothing is known.
fn transform_hook<T: MarkdownTransformer>(transformer: &mut T, construct: Construct) -> (res: (
    String,
    Ghost<Event>,
))
    ensures
        res.1@ == (Event { peek: false, call: construct.call(), ret: res.0@ }),
{
    let ghost call = construct.call();
    let out = match construct {
        Construct::Text(text) => transformer.transform_text(text),
        Construct::Header(level, text) => transformer.transform_header(level, text),
        Construct::Bold(text) => transformer.transform_bold(text),
        Construct::Italic(text) => transformer.transform_italic(text),
        Construct::Strikethrough(text) => transformer.transform_strikethrough(text),
        Construct::Link(text, url) => transformer.transform_link(text, url),
        Construct::Reflink(text, slug) => transformer.transform_reflink(text, slug),
        Construct::Refurl(slug, url) => transformer.transform_refurl(slug, url),
        Construct::Image(alt, url, tags) => transformer.transform_image(alt, url, to_map(tags)),
        Construct::Comment(text) => transformer.transform_comment(text),
        Construct::Quote(text) => transformer.transform_quote(text),
        Construct::Codeblock(language, text) => transformer.transform_codeblock(language, text),
        Construct::InlineCode(text) => transformer.transform_inline_code(text),
        Construct::HorizontalSeparator => transformer.transform_horizontal_separator(),
        Construct::List(elements) => transformer.transform_list(elements),
        Construct::ListElement(text) => transformer.transform_list_element(text),
        Construct::VerticalSpace => transformer.transform_vertical_space(),
        Construct::Paragraph(text) => transformer.transform_paragraph(text),
    };
    (out, Ghost(Event { peek: false, call, ret: out@ }))
}

/// What a node stands for, given what its hook returned (in the first pass:
/// given its default rendering): an inline node that takes a pending space
/// starts with it, and in the second pass a block construct is set between
/// two newlines.
pub fn assemble(state: &ParseState, rule: Rule, body: String) -> (text: String)
    ensures
        text@ == soft_space(state.add_space && is_inline(rule)) + (if !state.peek
            && requires_block_wrapping(rule) {
            line_break() + body@ + line_break()
        } else {
            body@
        }),
{
    proof {
        reveal_strlit(" ");
        reveal_strlit("\n");
        assert(" "@ =~= seq![' ']);
        assert("\n"@ =~= line_break());
    }
    let lead = state.add_space && is_inline(rule);
    let wrap = !state.peek && requires_block_wrapping(rule);
    if !lead && !wrap {
        assert(Seq::<char>::empty() + body@ =~= body@);
        return body;
    }
    let mut text = String::new();
    if lead {
        text.append(" ");
    }
    if wrap {
        text.append("\n");
    }
    text.append(body.as_str());
    if wrap {
        text.append("\n");
    }
    assert(text@ =~= soft_space(lead) + (if wrap {
        line_break() + body@ + line_break()
    } else {
        body@
    }));
    text
}

/// The texts of the nodes `from..` of `lines`, one per line and as they are.
pub fn get_whole_block(lines: &Vec<Node>, from: usize) -> (text: String)
    requires
        from <= lines@.len(),
    ensures
        text@ == block_text(lines@, from as int),
{
    let mut texts: Vec<String> = Vec::new();
    let mut i: usize = from;
    while i < lines.len()
        invariant
            from <= i <= lines@.len(),
            views(texts@) == Seq::new((i - from) as nat, |j: int| lines@[from + j].text@),
        decreases lines@.len() - i,
    {
        let ghost seen = views(texts@);
        let line = lines[i].text.clone();
        texts.push(line);
        assert(views(texts@) =~= seen.push(lines@[i as int].text@));
        i += 1;
        assert(views(texts@) =~= Seq::new((i - from) as nat, |j: int| lines@[from + j].text@));
    }
    proof {
        reveal_strlit("\n");
        assert("\n"@ =~= line_break());
    }
    join_strings(&texts, "\n")
}

/// The metadata pairs under `tags`, key and value trimmed, up to the first
/// pair that lacks one of the two.
pub fn get_metadata(tags: &Node) -> (pairs: Vec<(String, String)>)
    ensures
        pair_views(pairs@) == metadata_upto(tags.inner@, tags.inner@.len() as int),
{
    let mut pairs: Vec<(String, String)> = Vec::new();
    let mut i: usize = 0;
    let mut open = true;
    while i < tags.inner.len()
        invariant
            i <= tags.inner@.len(),
            pair_views(pairs@) == metadata_upto(tags.inner@, i as int),
            open <==> pairs@.len() == i,
            pairs@.len() <= i,
        decreases tags.inner@.len() - i,
    {
        let pair = &tags.inner[i];
        if open && pair.inner.len() >= 2 {
            let key = trimmed(pair.inner[0].text.as_str());
            let value = trimmed(pair.inner[1].text.as_str());
            let ghost before = pair_views(pairs@);
            pairs.push((key, value));
            assert(pair_views(pairs@) =~= before.push((key@, value@)));
        } else {
            open = false;
        }
        i += 1;
    }
    pairs
}

/// Walking the first `k` nodes reads the first `k` answers only.
pub proof fn lemma_run_reads_prefix(
    nodes: Seq<Node>,
    k: int,
    st: ParseState,
    a: Seq<Answers>,
    b: Seq<Answers>,
)
    requires
        forall|i: int| 0 <= i < k ==> a[i] == b[i],
    ensures
        walk_run(nodes, k, st, a) == walk_run(nodes, k, st, b),
    decreases k,
{
    if 0 < k <= nodes.len() {
        lemma_run_reads_prefix(nodes, k - 1, st, a, b);
    }
}

/// The engine at work on one document: the renderer whose hooks it calls,
/// and the record of the calls made so far.
pub struct TransformFramework<'a, T> {
    pub transformer: &'a mut T,
    pub log: Ghost<Seq<Event>>,
}

impl<'a, T: MarkdownTransformer> TransformFramework<'a, T> {
    pub fn new(transformer: &'a mut T) -> (framework: TransformFramework<'a, T>)
        ensures
            framework.log@ == Seq::<Event>::empty(),
    {
        TransformFramework { transformer, log: Ghost(Seq::empty()) }
    }

    /// Calls the hook of a construct, the `peek_*` or the `transform_*` one
    /// as the pass asks, and records the call. Returns what the node of kind
    /// `rule` then stands for, and what the hook returned.
    pub fn call_hook(&mut self, state: &ParseState, rule: Rule, construct: Construct) -> (res: (
        String,
        Ghost<Seq<char>>,
    ))
        ensures
            res.0@ == soft_space(state.add_space && is_inline(rule)) + rendered(
                *state,
                requires_block_wrapping(rule),
                construct.call(),
                res.1@,
            ),
            final(self).log@ == old(self).log@.push(event_of(*state, construct.call(), res.1@)),
    {
        if state.peek {
            let body = default_rendering(&construct);
            let event = peek_hook(self.transformer, construct);
            proof {
                self.log@ = self.log@.push(event@);
            }
            (assemble(state, rule, body), Ghost(Seq::empty()))
        } else {
            let (body, event) = transform_hook(self.transformer, construct);
            proof {
                self.log@ = self.log@.push(event@);
            }
            let ghost ret = body@;
            (assemble(state, rule, body), Ghost(ret))
        }
    }

    /// Hands a text to the text hook.
    pub fn act_on_raw_text(&mut self, state: &ParseState, rule: Rule, text: String) -> (res: (
        String,
        Ghost<Seq<char>>,
    ))
        ensures
            res.0@ == soft_space(state.add_space && is_inline(rule)) + rendered(
                *state,
                requires_block_wrapping(rule),
                Call::Text { text: text@ },
                res.1@,
            ),
            final(self).log@ == old(self).log@.push(
                event_of(*state, Call::Text { text: text@ }, res.1@),
            ),
    {
        self.call_hook(state, rule, Construct::Text(text))
    }

    /// Walks the first `nb` of `nodes` one after the other, on a copy of the
    /// state, and returns their texts joined with nothing between them. The
    /// copy goes from each node to the next; the caller's state stays as it
    /// is, so that a space left pending behind the last node is dropped.
    pub fn get_inner_elements(&mut self, state: &ParseState, nb: usize, nodes: &Vec<Node>) -> (res:
        (String, Ghost<Seq<Answers>>))
        requires
            nb <= nodes@.len(),
            forall|i: int| 0 <= i < nb ==> (#[trigger] nodes@[i]).well_formed(),
        ensures
            ({
                let run = walk_run(nodes@, nb as int, *state, res.1@);
                &&& res.0@ == concat(run.outs)
                &&& final(self).log@ == old(self).log@ + run.events
            }),
        decreases nodes, nb, 1int,
    {
        let mut child_state = *state;
        let (outs, answers) = self.act_on_each(&mut child_state, nb, nodes);
        (concat_strings(&outs), answers)
    }

    /// Walks the first `nb` of `nodes` one after the other and returns the
    /// text of each. The state goes from each node to the next and on to
    /// the caller.
    pub fn act_on_each(&mut self, state: &mut ParseState, nb: usize, nodes: &Vec<Node>) -> (res: (
        Vec<String>,
        Ghost<Seq<Answers>>,
    ))
        requires
            nb <= nodes@.len(),
            forall|i: int| 0 <= i < nb ==> (#[trigger] nodes@[i]).well_formed(),
        ensures
            ({
                let run = walk_run(nodes@, nb as int, *old(state), res.1@);
                &&& views(res.0@) == run.outs
                &&& *final(state) == old(state).with_space(run.add_space)
                &&& final(self).log@ == old(self).log@ + run.events
            }),
        decreases nodes, nb, 0int,
    {
        let mut outs: Vec<String> = Vec::new();
        let ghost mut answers: Seq<Answers> = Seq::empty();
        let ghost entry = *state;
        let mut i: usize = 0;
        assert(views(outs@) =~= Seq::<Seq<char>>::empty());
        assert(self.log@ =~= old(self).log@ + Seq::<Event>::empty());
        while i < nb
            invariant
                i <= nb <= nodes@.len(),
                forall|j: int| 0 <= j < nb ==> (#[trigger] nodes@[j]).well_formed(),
                answers.len() == i,
                views(outs@) == walk_run(nodes@, i as int, entry, answers).outs,
                *state == entry.with_space(walk_run(nodes@, i as int, entry, answers).add_space),
                self.log@ == old(self).log@ + walk_run(nodes@, i as int, entry, answers).events,
            decreases nb - i,
        {
            let ghost before = walk_run(nodes@, i as int, entry, answers);
            let ghost seen = views(outs@);
            let ghost log_before = self.log@;
            let (text, answer) = self.act_on_pair(state, &nodes[i]);
            proof {
                let longer = answers.push(answer@);
                lemma_run_reads_prefix(nodes@, i as int, entry, answers, longer);
                answers = longer;
                let last = walk(nodes@[i as int], entry.with_space(before.add_space), answer@);
                assert(self.log@ =~= old(self).log@ + (before.events + last.events));
            }
            outs.push(text);
            assert(views(outs@) =~= seen.push(text@));
            i += 1;
        }
        (outs, Ghost(answers))
    }

    /// Walks one node: calls the hooks of the constructs under it, in
    /// source order, and returns the node's text.
    pub fn act_on_pair(&mut self, state: &mut ParseState, node: &Node) -> (res: (
        String,
        Ghost<Answers>,
    ))
        requires
            node.well_formed(),
        ensures
            ({
                let w = walk(*node, *old(state), res.1@);
                &&& res.0@ == w.out
                &&& *final(state) == old(state).with_space(w.add_space)
                &&& final(self).log@ == old(self).log@ + w.events
            }),
        decreases node,
    {
        let rule = node.rule;
        let n = node.inner.len();
        let entry = *state;
        if state.add_space && is_inline(rule) {
            state.add_space = false;
        }
        let ghost below = *state;
        let ghost log0 = self.log@;
        let ghost none = Seq::<Answers>::empty();
        if is_raw_text(rule) || (is_container(rule) && n == 0) {
            let (text, ret) = self.act_on_raw_text(&entry, rule, node.text.clone());
            assert(self.log@ =~= log0 + Seq::<Event>::empty().push(
                event_of(entry, Call::Text { text: node.text@ }, ret@),
            ));
            return (text, Ghost(Answers { own: ret@, inner: none }));
        }
        if is_container(rule) {
            let (outs, answers) = self.act_on_each(state, n, &node.inner);
            return (concat_strings(&outs), Ghost(Answers { own: Seq::empty(), inner: answers@ }));
        }
        if rule == Rule::quote || rule == Rule::list {
            let (outs, answers) = self.act_on_each(state, n, &node.inner);
            let ghost run = walk_run(node.inner@, n as int, below, answers@);
            let construct = if rule == Rule::quote {
                proof {
                    reveal_strlit("\n");
                    assert("\n"@ =~= line_break());
                }
                Construct::Quote(join_strings(&outs, "\n"))
            } else {
                Construct::List(outs)
            };
            let (text, ret) = self.call_hook(&entry, rule, construct);
            assert(self.log@ =~= log0 + run.events.push(event_of(entry, construct.call(), ret@)));
            return (text, Ghost(Answers { own: ret@, inner: answers@ }));
        }
        let level = header_level(rule);
        let walked: usize = if level > 0 {
            1
        } else if rule == Rule::link || rule == Rule::reflink {
            n - 1
        } else if rule == Rule::bold || rule == Rule::italic || rule == Rule::strikethrough || rule
            == Rule::list_element || rule == Rule::paragraph || rule == Rule::quote_line {
            n
        } else {
            0
        };
        let (label, answers) = self.get_inner_elements(state, walked, &node.inner);
        let ghost run = walk_run(node.inner@, walked as int, below, answers@);
        let construct = if level > 0 {
            Construct::Header(level, label)
        } else {
            match rule {
                Rule::bold => Construct::Bold(label),
                Rule::italic => Construct::Italic(label),
                Rule::strikethrough => Construct::Strikethrough(label),
                Rule::list_element => Construct::ListElement(label),
                Rule::paragraph => Construct::Paragraph(label),
                Rule::link => Construct::Link(label, node.inner[n - 1].text.clone()),
                Rule::reflink => Construct::Reflink(label, node.inner[n - 1].text.clone()),
                Rule::refurl => Construct::Refurl(
                    node.inner[0].text.clone(),
                    node.inner[1].text.clone(),
                ),
                Rule::codeblock => {
                    if n > 0 && node.inner[0].rule == Rule::slug {
                        Construct::Codeblock(
                            Some(node.inner[0].text.clone()),
                            get_whole_block(&node.inner, 1),
                        )
                    } else {
                        Construct::Codeblock(None, get_whole_block(&node.inner, 0))
                    }
                },
                Rule::inline_code => Construct::InlineCode(node.inner[0].text.clone()),
                Rule::comment => Construct::Comment(node.inner[0].text.clone()),
                Rule::image => {
                    let tags = if n >= 3 {
                        get_metadata(&node.inner[2])
                    } else {
                        Vec::new()
                    };
                    assert(pair_views(tags@) =~= metadata(*node));
                    Construct::Image(node.inner[0].text.clone(), node.inner[1].text.clone(), tags)
                },
                Rule::horiz_sep => Construct::HorizontalSeparator,
                Rule::vertical_space => Construct::VerticalSpace,
                Rule::quote_line => {
                    return (label, Ghost(Answers { own: Seq::empty(), inner: answers@ }));
                },
                Rule::paragraph_newline => {
                    state.add_space = true;
                    assert(self.log@ =~= log0 + Seq::<Event>::empty());
                    return (String::new(), Ghost(Answers { own: Seq::empty(), inner: none }));
                },
                _ => {
                    assert(self.log@ =~= log0 + Seq::<Event>::empty());
                    return (String::new(), Ghost(Answers { own: Seq::empty(), inner: none }));
                },
            }
        };
        let (text, ret) = self.call_hook(&entry, rule, construct);
        proof {
            if walked == 0 {
                lemma_run_reads_prefix(node.inner@, 0, below, answers@, none);
            }
            assert(self.log@ =~= log0 + run.events.push(event_of(entry, construct.call(), ret@)));
        }
        (text, Ghost(Answers { own: ret@, inner: answers@ }))
    }
}

} // verus!
