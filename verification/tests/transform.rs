use mdtrans::{transform_markdown_string, MarkdownTransformer};
use std::collections::HashMap;

pub struct CommentTransform;

impl MarkdownTransformer for CommentTransform {
    fn transform_comment(&mut self, text: String) -> String {
        format!("COMMENT {text} COMMENT")
    }
}

#[test]
fn test_trait_impl() {
    let mut t = CommentTransform;
    let res = transform_markdown_string("<!-- comment -->".to_string(), &mut t);
    assert!(res.is_ok(), "Error on transformation: {res:?}");
    assert_eq!(res.unwrap(), "\nCOMMENT comment COMMENT\n");

    let res = transform_markdown_string("<!--  comment\nblock\n -->".to_string(), &mut t);
    assert!(res.is_ok(), "Error on transformation: {res:?}");
    assert_eq!(res.unwrap(), "\nCOMMENT comment\nblock COMMENT\n");
}

pub struct LinkTransform;

impl MarkdownTransformer for LinkTransform {
    fn transform_link(&mut self, text: String, url: String) -> String {
        format!("{text}: {url}")
    }
}

#[test]
fn test_empty_rich_text() {
    let mut t = LinkTransform;
    let res = transform_markdown_string("[](url)".to_string(), &mut t);
    assert!(res.is_ok(), "Error on transformation: {res:?}");
    assert_eq!(res.unwrap(), ": url");
}

pub struct DefaultTransform;

impl MarkdownTransformer for DefaultTransform {}

#[test]
fn test_transform_empty() {
    let mut t = DefaultTransform;
    let res = transform_markdown_string("".to_string(), &mut t);
    assert!(res.is_ok(), "Error on transformation: {res:?}");
}

pub struct TextTransform;

impl MarkdownTransformer for TextTransform {
    fn transform_text(&mut self, text: String) -> String {
        text
    }
}

#[test]
fn test_transform_string() {
    let mut t = TextTransform;
    let res = transform_markdown_string("elzkaj".to_string(), &mut t);
    assert!(res.is_ok(), "Error on transformation: {res:?}");
    assert_eq!(res.unwrap(), "elzkaj".to_string());

    let res = transform_markdown_string("a\nb\nc".to_string(), &mut t);
    assert!(res.is_ok(), "Error on transformation: {res:?}");
    assert_eq!(res.unwrap(), "a b c".to_string());
}

pub struct HeaderTransform;

impl MarkdownTransformer for HeaderTransform {
    fn transform_header(&mut self, level: usize, text: String) -> String {
        format!("h{level}: {text}")
    }
}

#[test]
fn test_transform_header() {
    let mut t = HeaderTransform;

    for level in 1..7 {
        let res = transform_markdown_string(format!("{} header", "#".repeat(level)), &mut t);
        assert!(res.is_ok(), "Error on transformation: {res:?}");
        assert_eq!(res.unwrap(), format!("\nh{level}: header\n"));
    }

    let input = "## Some `code` here **bold** ok";
    let output = "\nh2: Some code here bold ok\n";
    let res = transform_markdown_string(input.to_string(), &mut t);
    assert!(res.is_ok(), "Error on transformation: {res:?}");
    assert_eq!(res.unwrap(), output);
}

pub struct ItalicTransform;

impl MarkdownTransformer for ItalicTransform {
    fn transform_italic(&mut self, text: String) -> String {
        format!("ITALIC {text} ITALIC")
    }
}

#[test]
fn test_transform_italic() {
    let mut t = ItalicTransform;

    let res = transform_markdown_string("*toto*".to_string(), &mut t);
    assert!(res.is_ok(), "Error on transformation: {res:?}");
    assert_eq!(res.unwrap(), "ITALIC toto ITALIC".to_string());
}

pub struct StrikeTransform;

impl MarkdownTransformer for StrikeTransform {
    fn transform_strikethrough(&mut self, text: String) -> String {
        format!("STRIKE {text} STRIKE")
    }
}

#[test]
fn test_transform_strike() {
    let mut t = StrikeTransform;

    let res = transform_markdown_string("~~toto~~".to_string(), &mut t);
    assert!(res.is_ok(), "Error on transformation: {res:?}");
    assert_eq!(res.unwrap(), "STRIKE toto STRIKE".to_string());

    let res = transform_markdown_string("--toto--".to_string(), &mut t);
    assert!(res.is_ok(), "Error on transformation: {res:?}");
    assert_eq!(res.unwrap(), "STRIKE toto STRIKE".to_string());
}

pub struct BoldItalicTransform;

impl MarkdownTransformer for BoldItalicTransform {
    fn transform_bold(&mut self, text: String) -> String {
        format!("BOLD {text} BOLD")
    }

    fn transform_italic(&mut self, text: String) -> String {
        format!("ITALIC {text} ITALIC")
    }
}

#[test]
fn test_transform_bold() {
    let mut t = BoldItalicTransform;

    let input = "**toto**";
    let output = "BOLD toto BOLD";
    let res = transform_markdown_string(input.to_string(), &mut t);
    assert!(res.is_ok(), "Error on transformation: {res:?}");
    assert_eq!(res.unwrap(), output.to_string());

    let input = "**toto *italic* tutu**";
    let output = "BOLD toto ITALIC italic ITALIC tutu BOLD";
    let res = transform_markdown_string(input.to_string(), &mut t);
    assert!(res.is_ok(), "Error on transformation: {res:?}");
    assert_eq!(res.unwrap(), output.to_string());
}

pub struct LinkBoldTransform;

impl MarkdownTransformer for LinkBoldTransform {
    fn transform_link(&mut self, text: String, url: String) -> String {
        format!("{text}: {url}")
    }

    fn transform_bold(&mut self, text: String) -> String {
        text
    }
}

#[test]
fn test_transform_link() {
    let mut t = LinkBoldTransform;

    let res = transform_markdown_string("[a](b)".to_string(), &mut t);
    assert!(res.is_ok(), "Error on transformation: {res:?}");
    assert_eq!(res.unwrap(), "a: b".to_string());

    let res = transform_markdown_string("[a **bold** c](b)".to_string(), &mut t);
    assert!(res.is_ok(), "Error on transformation: {res:?}");
    assert_eq!(res.unwrap(), "a bold c: b".to_string());
}

pub struct QuoteTransform;

impl MarkdownTransformer for QuoteTransform {
    fn transform_quote(&mut self, text: String) -> String {
        format!("QUOTE\n{text}\nQUOTE")
    }
}

#[test]
fn test_transform_quote() {
    let mut t = QuoteTransform;

    let input = "> Je suis une truite\nJe suis un saumon\n\n";
    let output = "QUOTE\nJe suis une truite\nJe suis un saumon\nQUOTE";
    let res = transform_markdown_string(input.to_string(), &mut t);
    assert!(res.is_ok(), "Error on transformation: {res:?}");
    assert_eq!(res.unwrap(), output.to_string());
}

pub struct CodeblockTransform;

impl MarkdownTransformer for CodeblockTransform {
    fn transform_codeblock(&mut self, lang: Option<String>, text: String) -> String {
        let mut buffer = "\nCODEBLOCK".to_string();
        if let Some(l) = lang {
            buffer += format!(" {l}").as_str();
        }
        buffer += format!("\n{text}\nCODEBLOCK\n").as_str();
        buffer
    }
}

#[test]
fn test_transform_codeblock() {
    let mut t = CodeblockTransform;

    let input = "start\n```\nsome\ncode\n```\nend";
    let output = "start\n\nCODEBLOCK\nsome\ncode\nCODEBLOCK\n\nend";
    let res = transform_markdown_string(input.to_string(), &mut t);
    assert!(res.is_ok(), "Error on transformation: {res:?}");
    assert_eq!(res.unwrap(), output.to_string());

    let input = "start\n``` lang\nsome\ncode\n```\nend";
    let output = "start\n\nCODEBLOCK lang\nsome\ncode\nCODEBLOCK\n\nend";
    let res = transform_markdown_string(input.to_string(), &mut t);
    assert!(res.is_ok(), "Error on transformation: {res:?}");
    assert_eq!(res.unwrap(), output.to_string());
}

pub struct InlineCodeTransform;

impl MarkdownTransformer for InlineCodeTransform {
    fn transform_inline_code(&mut self, text: String) -> String {
        format!("CODE {text} CODE")
    }
}

#[test]
fn test_transform_inline_code() {
    let mut t = InlineCodeTransform;

    let input = "start `some code` end";
    let output = "start CODE some code CODE end";
    let res = transform_markdown_string(input.to_string(), &mut t);
    assert!(res.is_ok(), "Error on transformation: {res:?}");
    assert_eq!(res.unwrap(), output.to_string());
}

pub struct SeparatorTransform;

impl MarkdownTransformer for SeparatorTransform {
    fn transform_horizontal_separator(&mut self) -> String {
        "\n=== HORIZ SEPARATOR ===\n".to_string()
    }
}

#[test]
fn test_transform_horiz_sep() {
    let mut t = SeparatorTransform;

    let input = "start\n\n---\nend";
    let output = "start\n\n=== HORIZ SEPARATOR ===\n\nend";
    let res = transform_markdown_string(input.to_string(), &mut t);
    assert!(res.is_ok(), "Error on transformation: {res:?}");
    assert_eq!(res.unwrap(), output.to_string());
}

pub struct ListTransform;

impl MarkdownTransformer for ListTransform {
    fn transform_list_element(&mut self, element: String) -> String {
        element
    }

    fn transform_list(&mut self, elements: Vec<String>) -> String {
        format!("\n{}\n", elements.join(", "))
    }

    fn transform_bold(&mut self, text: String) -> String {
        format!("BOLD {text} BOLD")
    }

    fn transform_italic(&mut self, text: String) -> String {
        format!("ITALIC {text} ITALIC")
    }
}

#[test]
fn test_transform_list() {
    let mut t = ListTransform;

    let input = "start\n- a\n- **b**\n- *c*\n\nend";
    let output = "start\n\na, BOLD b BOLD, ITALIC c ITALIC\n\nend";
    let res = transform_markdown_string(input.to_string(), &mut t);
    assert!(res.is_ok(), "Error on transformation: {res:?}");
    assert_eq!(res.unwrap(), output.to_string());
}

pub struct ImageTransform;

impl MarkdownTransformer for ImageTransform {
    fn transform_image(
        &mut self,
        alt: String,
        url: String,
        add_tags: HashMap<String, String>,
    ) -> String {
        let mut upper = false;
        if let Some(t) = add_tags.get("upper") {
            if t == "true" {
                upper = true;
            }
        }
        format!(
            "{} -> {}",
            if upper { alt.to_uppercase() } else { alt },
            if upper { url.to_uppercase() } else { url }
        )
    }
}

#[test]
fn test_transform_image() {
    let mut t = ImageTransform;

    let input = "start\n![image alt](url)\nend";
    let output = "start image alt -> url end";
    let res = transform_markdown_string(input.to_string(), &mut t);
    assert!(res.is_ok(), "Error on transformation: {res:?}");
    assert_eq!(res.unwrap(), output.to_string());

    let input = "start\n![image alt](url)[a: b, c:   d, upper: true, d  : e]\nend";
    let output = "start IMAGE ALT -> URL end";
    let res = transform_markdown_string(input.to_string(), &mut t);
    assert!(res.is_ok(), "Error on transformation: {res:?}");
    assert_eq!(res.unwrap(), output.to_string());
}
