use mdtrans::{MarkdownParser, Node, Rule};

fn text_of(nodes: &[Node]) -> String {
    nodes.iter().map(|node| node.text.as_str()).collect()
}

#[test]
fn test_header_simple() {
    let mut input = "".to_string();
    for n in 1..7 {
        input += "#".repeat(n).as_str();
        input += format!(" h{n}\n").as_str();
    }
    let parsed = MarkdownParser::parse(Rule::file, &input);
    assert!(parsed.is_ok());
    let parsed = parsed.unwrap();
    for line in parsed.inner {
        let rule = line.rule;
        let mut inner = line.inner.into_iter();
        match rule {
            Rule::h1 => assert_eq!(inner.next().unwrap().text.as_str(), "h1"),
            Rule::h2 => assert_eq!(inner.next().unwrap().text.as_str(), "h2"),
            Rule::h3 => assert_eq!(inner.next().unwrap().text.as_str(), "h3"),
            Rule::h4 => assert_eq!(inner.next().unwrap().text.as_str(), "h4"),
            Rule::h5 => assert_eq!(inner.next().unwrap().text.as_str(), "h5"),
            Rule::h6 => assert_eq!(inner.next().unwrap().text.as_str(), "h6"),
            _ => assert_eq!(text_of(inner.as_slice()), ""),
        }
    }
}
