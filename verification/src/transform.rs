//! Rendering a document: the two passes over its tree.

use crate::engine::TransformFramework;
use crate::errors::Errcode;
use crate::grammar::{document_of, parse_document};
use crate::hooks::{Call, Event, MarkdownTransformer};
use crate::text::chars_of;
use crate::tree::{fault_message, name_of, Node};
use crate::walk::{walk, Answers, ParseState};
use vstd::prelude::*;

verus! {

/// The state in which the first pass starts.
pub open spec fn first_pass() -> ParseState {
    ParseState { peek: true, add_space: false }
}

/// The state in which the second pass starts.
pub open spec fn second_pass() -> ParseState {
    ParseState { peek: false, add_space: false }
}

/// What the hooks returned while a document was rendered: in the first
/// pass, in the second, and at the end of each.
pub struct Returned {
    pub first: Answers,
    pub second: Answers,
    pub first_end: Seq<char>,
    pub second_end: Seq<char>,
}

/// The hook calls that rendering a tree makes, in order: those of the first
/// pass and its end, then those of the second pass and its end.
pub open spec fn calls_of(tree: Node, returned: Returned) -> Seq<Event> {
    walk(tree, first_pass(), returned.first).events.push(
        Event { peek: true, call: Call::Finished, ret: returned.first_end },
    ) + walk(tree, second_pass(), returned.second).events.push(
        Event { peek: false, call: Call::Finished, ret: returned.second_end },
    )
}

/// The rendering of a tree: the text that the second pass gives it.
pub open spec fn rendering_of(tree: Node, returned: Returned) -> Seq<char> {
    walk(tree, second_pass(), returned.second).out
}

/// Whether `out` is a rendering of the text `src`: the rendering of the
/// tree of `src`, for something that the hooks may have returned.
pub open spec fn renders(src: Seq<char>, out: Seq<char>) -> bool {
    exists|tree: Node, returned: Returned| #[trigger]
        rendering_of(tree, returned) == out && document_of(tree, src)
}

/// Renders a tree: walks it once with the `peek_*` hooks, tells the
/// renderer that the pass is finished, walks it again with the
/// `transform_*` hooks, and tells the renderer again. Returns the text of
/// the second walk, with the calls that were made and what they returned.
/// What the renderer returns when it is told that a pass is finished is
/// recorded and is no part of the rendering.
pub fn run_passes<T: MarkdownTransformer>(tree: &Node, transformer: &mut T) -> (res:
    (String, Ghost<Seq<Event>>, Ghost<Returned>))
    requires
        tree.well_formed(),
    ensures
        res.0@ == rendering_of(*tree, res.2@),
        res.1@ == calls_of(*tree, res.2@),
{
    let mut parser = TransformFramework::new(transformer);
    let mut first = ParseState::peek();
    let (_, first_answers) = parser.act_on_pair(&mut first, tree);
    let first_end = parser.transformer.finished(true);
    proof {
        parser.log@ = parser.log@.push(
            Event { peek: true, call: Call::Finished, ret: first_end@ },
        );
    }
    let mut second = ParseState::default();
    let (text, second_answers) = parser.act_on_pair(&mut second, tree);
    let second_end = parser.transformer.finished(false);
    proof {
        parser.log@ = parser.log@.push(
            Event { peek: false, call: Call::Finished, ret: second_end@ },
        );
    }
    let ghost returned = Returned {
        first: first_answers@,
        second: second_answers@,
        first_end: first_end@,
        second_end: second_end@,
    };
    assert(parser.log@ =~= calls_of(*tree, returned));
    (text, Ghost(parser.log@), Ghost(returned))
}

/// Renders a tree, if it is one that the engine can render. If it is not,
/// the error names the kind of the first node, in the order of the walk,
/// that is not as the rule of its kind needs it, and no hook is called.
pub fn transform_tree<T: MarkdownTransformer>(tree: &Node, transformer: &mut T) -> (res: Result<
    String,
    Errcode,
>)
    ensures
        res is Ok <==> tree.well_formed(),
        res matches Ok(out) ==> exists|returned: Returned| #[trigger]
            rendering_of(*tree, returned) == out@,
        res matches Err(e) ==> e matches Errcode::ParsingError(message) && tree.fault() is Some
            && message@ == fault_message(tree.fault()->0),
{
    match tree.find_fault() {
        None => {
            let (text, _, returned) = run_passes(tree, transformer);
            assert(rendering_of(*tree, returned@) == text@);
            Ok(text)
        },
        Some(rule) => {
            let mut message = String::from_str("grammar error on ");
            message.append(name_of(rule));
            Err(Errcode::ParsingError(message))
        },
    }
}

/// Parses and renders a document. Returns its tree and its rendering,
/// with the calls that were made and what they returned.
pub fn transform_document<T: MarkdownTransformer>(input: &str, transformer: &mut T) -> (res: (
    Node,
    String,
    Ghost<Seq<Event>>,
    Ghost<Returned>,
))
    ensures
        document_of(res.0, input@),
        res.1@ == rendering_of(res.0, res.3@),
        res.2@ == calls_of(res.0, res.3@),
{
    let src = chars_of(input);
    let tree = parse_document(&src);
    let (text, calls, returned) = run_passes(&tree, transformer);
    (tree, text, calls, returned)
}

/// Renders a document.
pub fn transform_markdown_string<T: MarkdownTransformer>(input: String, transformer: &mut T) -> (res:
    Result<String, Errcode>)
    ensures
        res matches Ok(out) && renders(input@, out@),
{
    let (tree, text, _, returned) = transform_document(input.as_str(), transformer);
    assert(rendering_of(tree, returned@) == text@ && document_of(tree, input@));
    Ok(text)
}

} // verus!
