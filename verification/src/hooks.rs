//! The hooks that a renderer implements, and the record of their calls.

use crate::text::{join, join_strings, views};
use std::collections::HashMap;
use vstd::prelude::*;

verus! {

/// What separates the elements of a list in its default rendering.
pub open spec fn list_separator() -> Seq<char> {
    seq![',', ' ']
}

/// What a vertical space is rendered as by default.
pub open spec fn line_break() -> Seq<char> {
    seq!['\n']
}

/// The rendering hooks, one pair for each construct. A `peek_*` hook is
/// called in the first pass over the document and returns nothing; the
/// `transform_*` hook of the same construct is called in the second pass and
/// returns the construct's rendering. A renderer implements the hooks of the
/// constructs that it gives a form of its own; every other construct keeps
/// the default, which hands the construct's text through.
pub trait MarkdownTransformer {
    fn peek_text(&mut self, text: String) {
    }

    fn transform_text(&mut self, text: String) -> (out: String)
        default_ensures
            out@ == text@,
    {
        text
    }

    fn peek_header(&mut self, level: usize, text: String) {
    }

    fn transform_header(&mut self, level: usize, text: String) -> (out: String)
        default_ensures
            out@ == text@,
    {
        text
    }

    fn peek_bold(&mut self, text: String) {
    }

    fn transform_bold(&mut self, text: String) -> (out: String)
        default_ensures
            out@ == text@,
    {
        text
    }

    fn peek_italic(&mut self, text: String) {
    }

    fn transform_italic(&mut self, text: String) -> (out: String)
        default_ensures
            out@ == text@,
    {
        text
    }

    fn peek_reflink(&mut self, text: String, slug: String) {
    }

    fn transform_reflink(&mut self, text: String, slug: String) -> (out: String)
        default_ensures
            out@ == text@,
    {
        text
    }

    fn peek_refurl(&mut self, slug: String, url: String) {
    }

    fn transform_refurl(&mut self, slug: String, url: String) -> (out: String)
        default_ensures
            out@ == Seq::<char>::empty(),
    {
        String::new()
    }

    fn peek_link(&mut self, text: String, url: String) {
    }

    fn transform_link(&mut self, text: String, url: String) -> (out: String)
        default_ensures
            out@ == text@,
    {
        text
    }

    fn peek_image(&mut self, alt: String, url: String, add_tags: HashMap<String, String>) {
    }

    fn transform_image(&mut self, alt: String, url: String, add_tags: HashMap<String, String>) -> (out:
        String)
        default_ensures
            out@ == alt@,
    {
        alt
    }

    fn peek_comment(&mut self, text: String) {
    }

    fn transform_comment(&mut self, text: String) -> (out: String)
        default_ensures
            out@ == text@,
    {
        text
    }

    fn peek_strikethrough(&mut self, text: String) {
    }

    fn transform_strikethrough(&mut self, text: String) -> (out: String)
        default_ensures
            out@ == text@,
    {
        text
    }

    fn peek_quote(&mut self, text: String) {
    }

    fn transform_quote(&mut self, text: String) -> (out: String)
        default_ensures
            out@ == text@,
    {
        text
    }

    fn peek_codeblock(&mut self, language: Option<String>, text: String) {
    }

    fn transform_codeblock(&mut self, language: Option<String>, text: String) -> (out: String)
        default_ensures
            out@ == text@,
    {
        text
    }

    fn peek_inline_code(&mut self, text: String) {
    }

    fn transform_inline_code(&mut self, text: String) -> (out: String)
        default_ensures
            out@ == text@,
    {
        text
    }

    fn peek_horizontal_separator(&mut self) {
    }

    fn transform_horizontal_separator(&mut self) -> (out: String)
        default_ensures
            out@ == Seq::<char>::empty(),
    {
        String::new()
    }

    fn peek_list(&mut self, elements: Vec<String>) {
    }

    fn transform_list(&mut self, elements: Vec<String>) -> (out: String)
        default_ensures
            out@ == join(views(elements@), list_separator()),
    {
        proof {
            reveal_strlit(", ");
            assert(", "@ =~= list_separator());
        }
        join_strings(&elements, ", ")
    }

    fn peek_list_element(&mut self, element: String) {
    }

    fn transform_list_element(&mut self, element: String) -> (out: String)
        default_ensures
            out@ == element@,
    {
        element
    }

    fn peek_vertical_space(&mut self) {
    }

    fn transform_vertical_space(&mut self) -> (out: String)
        default_ensures
            out@ == line_break(),
    {
        proof {
            reveal_strlit("\n");
            assert("\n"@ =~= line_break());
        }
        String::from_str("\n")
    }

    fn peek_paragraph(&mut self, text: String) {
    }

    fn transform_paragraph(&mut self, text: String) -> (out: String)
        default_ensures
            out@ == text@,
    {
        text
    }

    /// Called once at the end of each pass: `peek` tells which one. What it
    /// returns is not part of the rendering.
    fn finished(&mut self, peek: bool) -> (out: String)
        default_ensures
            out@ == Seq::<char>::empty(),
    {
        String::new()
    }
}

/// A hook together with the arguments of one call of it.
pub enum Call {
    Text { text: Seq<char> },
    Header { level: usize, text: Seq<char> },
    Bold { text: Seq<char> },
    Italic { text: Seq<char> },
    Strikethrough { text: Seq<char> },
    Link { text: Seq<char>, url: Seq<char> },
    Reflink { text: Seq<char>, slug: Seq<char> },
    Refurl { slug: Seq<char>, url: Seq<char> },
    /// The metadata is listed pair by pair, in source order; the hook gets
    /// the mapping that holds, for each key, the value of its last pair.
    Image { alt: Seq<char>, url: Seq<char>, tags: Seq<(Seq<char>, Seq<char>)> },
    Comment { text: Seq<char> },
    Quote { text: Seq<char> },
    Codeblock { language: Option<Seq<char>>, text: Seq<char> },
    InlineCode { text: Seq<char> },
    HorizontalSeparator,
    List { elements: Seq<Seq<char>> },
    ListElement { text: Seq<char> },
    VerticalSpace,
    Paragraph { text: Seq<char> },
    Finished,
}

/// One call of a hook: in which pass, which hook with which arguments, and
/// what it returned (nothing, for a `peek_*` hook).
pub struct Event {
    pub peek: bool,
    pub call: Call,
    pub ret: Seq<char>,
}

/// What the default hook of a construct renders it as.
pub open spec fn default_text(call: Call) -> Seq<char> {
    match call {
        Call::Text { text } => text,
        Call::Header { level, text } => text,
        Call::Bold { text } => text,
        Call::Italic { text } => text,
        Call::Strikethrough { text } => text,
        Call::Link { text, url } => text,
        Call::Reflink { text, slug } => text,
        Call::Refurl { slug, url } => Seq::empty(),
        Call::Image { alt, url, tags } => alt,
        Call::Comment { text } => text,
        Call::Quote { text } => text,
        Call::Codeblock { language, text } => text,
        Call::InlineCode { text } => text,
        Call::HorizontalSeparator => Seq::empty(),
        Call::List { elements } => join(elements, list_separator()),
        Call::ListElement { text } => text,
        Call::VerticalSpace => line_break(),
        Call::Paragraph { text } => text,
        Call::Finished => Seq::empty(),
    }
}

} // verus!
