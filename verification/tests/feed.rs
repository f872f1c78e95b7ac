use mdtrans::parse::{MarkdownNode, MarkdownParser};

fn outline(node: &MarkdownNode) -> String {
    match node {
        MarkdownNode::RawText(text) => format!("raw({text})"),
        MarkdownNode::Header(level, nodes) => {
            let inner: Vec<String> = nodes.iter().map(|n| outline(n)).collect();
            format!("header({level}, {})", inner.join(" "))
        }
        MarkdownNode::Link(nodes, url) => {
            let inner: Vec<String> = nodes.iter().map(|n| outline(n)).collect();
            format!("link({}, {url})", inner.join(" "))
        }
        MarkdownNode::Strikethrough => "strikethrough".to_string(),
        _ => "other".to_string(),
    }
}

fn outlines(nodes: &[MarkdownNode]) -> Vec<String> {
    nodes.iter().map(outline).collect()
}

fn detect(buffer: &str) -> Option<Vec<String>> {
    let now: String = buffer
        .chars()
        .filter(|c| !matches!(c, ' ' | '\t' | '\n' | '\r'))
        .collect();
    MarkdownParser::new()
        .detect_node(&buffer.to_string(), &now)
        .map(|nodes| outlines(&nodes))
}

#[test]
fn text_without_constructs_is_raw() {
    assert_eq!(outlines(&MarkdownParser::parse("".to_string())), Vec::<String>::new());
    assert_eq!(outlines(&MarkdownParser::parse("abc".to_string())), vec!["raw(abc\n)"]);
    assert_eq!(
        outlines(&MarkdownParser::parse("  a b\n\t c\n".to_string())),
        vec!["raw(a b\nc\n)"]
    );
    assert_eq!(
        outlines(&MarkdownParser::parse("a\r\nb\n\n".to_string())),
        vec!["raw(a\nb\n)"]
    );
}

#[test]
fn constructs_cut_the_text() {
    let nodes = MarkdownParser::parse("intro\n## Title  \n---\nsee [it](url) now".to_string());
    assert_eq!(
        outlines(&nodes),
        vec![
            "raw(intro\n## Title  \n---\nsee )",
            "link(raw(it), url)",
            "raw( now\n)"
        ]
    );
    let nodes = MarkdownParser::parse("## Title  \n---\n[it](url)".to_string());
    assert_eq!(
        outlines(&nodes),
        vec![
            "header(2, raw(Title))",
            "strikethrough",
            "raw()",
            "link(raw(it), url)",
            "raw(\n)"
        ]
    );
}

#[test]
fn detecting_a_header() {
    assert_eq!(detect("# a\n"), Some(vec!["header(1, raw(a))".to_string()]));
    assert_eq!(detect("### a b \t\n"), Some(vec!["header(3, raw(a b))".to_string()]));
    assert_eq!(detect("#a # b\n"), Some(vec!["header(4, raw(b))".to_string()]));
    assert_eq!(detect("# \n"), Some(vec!["header(1, raw())".to_string()]));
    assert_eq!(detect("# a"), None);
    assert_eq!(detect("#a\n"), None);
    assert_eq!(detect(" # a\n"), None);
}

#[test]
fn detecting_a_separator() {
    assert_eq!(detect("---\n"), Some(vec!["strikethrough".to_string()]));
    assert_eq!(detect(" \n\t---\n"), Some(vec!["strikethrough".to_string()]));
    assert_eq!(detect("---"), None);
    assert_eq!(detect("----\n"), None);
    assert_eq!(detect("--- \n"), None);
    assert_eq!(detect(""), None);
}

#[test]
fn detecting_a_link() {
    assert_eq!(
        detect("a[b](c)"),
        Some(vec!["raw(a)".to_string(), "link(raw(b), c)".to_string()])
    );
    assert_eq!(
        detect("[b](c)"),
        Some(vec!["raw()".to_string(), "link(raw(b), c)".to_string()])
    );
    assert_eq!(
        detect("[x] a [b] \n (c d)"),
        Some(vec!["raw([x] a )".to_string(), "link(raw(b), c d)".to_string()])
    );
    assert_eq!(
        detect("[a] (b [c](d)"),
        Some(vec!["raw([a] (b )".to_string(), "link(raw(c), d)".to_string()])
    );
    assert_eq!(detect("[a] (b c](d)"), None);
    assert_eq!(detect("[a]\n(b](c)"), None);
    assert_eq!(
        detect("[[a]\n(b](c)"),
        Some(vec!["raw([)".to_string(), "link(raw(a]\n(b), c)".to_string()])
    );
    assert_eq!(
        detect("[a[b]()"),
        Some(vec!["raw([a)".to_string(), "link(raw(b), )".to_string()])
    );
    assert_eq!(detect("a](c)"), None);
    assert_eq!(detect("[a]](c)"), None);
    assert_eq!(detect("[b](c"), None);
    assert_eq!(detect("[b] x (c)"), None);
    assert_eq!(detect("[b]()("), None);
}

#[test]
fn feeding_lines() {
    let mut parser = MarkdownParser::new();
    let mut buffer = String::new();
    let mut buffer_now = String::new();
    parser.feed_line("  a b\n".to_string(), &mut buffer, &mut buffer_now);
    assert_eq!(buffer, "a b\n");
    assert_eq!(buffer_now, "ab");
    parser.feed_line("# c\n".to_string(), &mut buffer, &mut buffer_now);
    assert_eq!(buffer, "a b\n# c\n");
    assert_eq!(buffer_now, "ab#c");
    parser.feed_line("[d](e) f\n".to_string(), &mut buffer, &mut buffer_now);
    assert_eq!(buffer, " f\n");
    assert_eq!(buffer_now, "f");
    parser.feed_line("   \n".to_string(), &mut buffer, &mut buffer_now);
    assert_eq!(buffer, " f\n");
    let nodes = parser.into_nodes();
    assert_eq!(
        outlines(&nodes),
        vec!["raw(a b\n# c\n)", "link(raw(d), e)"]
    );
}

#[test]
fn nodes_have_nothing_to_detect_inside() {
    let mut node = MarkdownNode::RawText("**a**".to_string());
    node.recursive_detect();
    assert_eq!(outline(&node), "raw(**a**)");
}
