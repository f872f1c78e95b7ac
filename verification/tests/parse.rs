use mdtrans::parse::{MarkdownNode, MarkdownParser};

#[test]
fn test_header() {
    for exp_level in 1..7 {
        let text = "#".repeat(exp_level) + " Some header\n";
        let nodes = MarkdownParser::parse(text.to_string());
        let res = nodes.get(0).unwrap();
        if let MarkdownNode::Header(level, nodes) = res {
            assert_eq!(*level, exp_level);
            let node = nodes.get(0).unwrap();
            if let MarkdownNode::RawText(text) = node.as_ref() {
                assert_eq!(text, "Some header");
            } else {
                assert!(false);
            }
        } else {
            assert!(false);
        }
    }
}

#[test]
fn test_strikethrough() {
    let text = "  \t    ---\n";
    let nodes = MarkdownParser::parse(text.to_string());
    let res = nodes.get(0).unwrap();
    if let MarkdownNode::Strikethrough = res {
        assert!(true);
    } else {
        assert!(false);
    }
}

#[test]
fn test_link() {
    let text = "ablablabla\nallaezflk[text to link](url_of_the_link)zlkjazlkejfe\n";
    let nodes = MarkdownParser::parse(text.to_string());
    println!("{:?}", nodes);
    let res = nodes.get(0).unwrap();
    if let MarkdownNode::RawText(text) = res {
        assert_eq!(text, "ablablabla\nallaezflk");
    } else {
        assert!(false);
    }

    let res = nodes.get(1).unwrap();
    if let MarkdownNode::Link(text, url) = res {
        if let MarkdownNode::RawText(ref text) = **text.get(0).unwrap() {
            assert_eq!(text, "text to link");
        } else {
            assert!(false);
        }
        assert_eq!(url, "url_of_the_link");
    } else {
        assert!(false);
    }

    let text = "ablablabla\nallaezflk[text \nto link]\n(url_of_the_link\n)zlkjazlkejfe\n";
    let nodes = MarkdownParser::parse(text.to_string());
    println!("{:?}", nodes);
    let res = nodes.get(0).unwrap();
    if let MarkdownNode::RawText(text) = res {
        assert_eq!(text, "ablablabla\nallaezflk");
    } else {
        assert!(false);
    }

    let res = nodes.get(1).unwrap();
    if let MarkdownNode::Link(text, url) = res {
        if let MarkdownNode::RawText(ref text) = **text.get(0).unwrap() {
            assert_eq!(text, "text \nto link");
        } else {
            assert!(false);
        }
        assert_eq!(url, "url_of_the_link\n");
    } else {
        assert!(false);
    }
}
