use mdtrans::engine::{
    assemble, default_rendering, get_metadata, get_whole_block, to_map, Construct,
    TransformFramework,
};
use mdtrans::text::chars_of;
use mdtrans::tree::{branch, leaf, name_of};
use mdtrans::{
    transform_tree, Errcode, MarkdownParser, MarkdownTransformer, Node, ParseState, Rule,
};

fn node(rule: Rule, text: &str, inner: Vec<Node>) -> Node {
    Node {
        rule,
        start: 0,
        end: 0,
        text: text.to_string(),
        inner,
    }
}

fn outline(node: &Node) -> String {
    if node.inner.is_empty() {
        format!("{:?}({})", node.rule, node.text)
    } else {
        let inner: Vec<String> = node.inner.iter().map(outline).collect();
        format!("{:?}[{}]", node.rule, inner.join(" "))
    }
}

fn check_spans(node: &Node, src: &[char]) {
    assert!(node.start <= node.end && node.end <= src.len());
    let text: String = src[node.start..node.end].iter().collect();
    assert_eq!(node.text, text);
    let mut last = node.start;
    for child in &node.inner {
        assert!(last <= child.start && child.end <= node.end);
        last = child.end;
        check_spans(child, src);
    }
}

fn parse(input: &str) -> Node {
    let tree = MarkdownParser::parse(Rule::file, input).unwrap();
    check_spans(&tree, &chars_of(input));
    assert!(tree.is_well_formed());
    tree
}

pub struct Plain;

impl MarkdownTransformer for Plain {}

pub struct Brackets;

impl MarkdownTransformer for Brackets {
    fn transform_text(&mut self, text: String) -> String {
        format!("({text})")
    }

    fn transform_bold(&mut self, text: String) -> String {
        format!("[{text}]")
    }

    fn transform_header(&mut self, level: usize, text: String) -> String {
        format!("{level}:{text}")
    }
}

#[test]
fn only_a_document_can_be_parsed() {
    assert!(MarkdownParser::parse(Rule::file, "").is_ok());
    assert!(matches!(
        MarkdownParser::parse(Rule::bold, "**a**"),
        Err(Errcode::ParsingError(_))
    ));
    assert!(matches!(
        MarkdownParser::parse(Rule::EOI, ""),
        Err(Errcode::ParsingError(_))
    ));
}

#[test]
fn tree_of_an_empty_text() {
    let tree = parse("");
    assert_eq!(outline(&tree), "file[EOI()]");
    let tree = parse("\n\n");
    assert_eq!(outline(&tree), "file[EOI()]");
}

#[test]
fn tree_of_blocks() {
    let tree = parse("# a\n");
    assert_eq!(outline(&tree), "file[h1[rich_txt[text(a)]] EOI()]");
    assert_eq!((tree.inner[0].start, tree.inner[0].end), (0, 3));
    assert_eq!((tree.inner[0].inner[0].start, tree.inner[0].inner[0].end), (2, 3));
    assert_eq!((tree.inner[1].start, tree.inner[1].end), (4, 4));

    let tree = parse("###   a b");
    assert_eq!(outline(&tree), "file[h3[rich_txt[text(a b)]] EOI()]");

    let tree = parse("#");
    assert_eq!(outline(&tree), "file[paragraph[text(#)] EOI()]");

    let tree = parse("# ");
    assert_eq!(outline(&tree), "file[h1[rich_txt()] EOI()]");

    let tree = parse("---\n----\n--\n- a\n-b");
    assert_eq!(
        outline(&tree),
        "file[horiz_sep(---) horiz_sep(----) paragraph[text(--)] \
         list[list_element[text(a)]] paragraph[text(-b)] EOI()]"
    );

    let tree = parse("``` rust \nlet a;\n\n```\n");
    assert_eq!(
        outline(&tree),
        "file[codeblock[slug(rust) code(let a;) code()] EOI()]"
    );

    let tree = parse("[a b]:   c d  \n[]: x\n[e]:");
    assert_eq!(
        outline(&tree),
        "file[refurl[slug(a b) url(c d)] paragraph[text([]: x) paragraph_newline(\n) text([e]:)] EOI()]"
    );

    let tree = parse("<!---->x");
    assert_eq!(
        outline(&tree),
        "file[comment[comment_text()] paragraph[text(x)] EOI()]"
    );

    let tree = parse(">a\n> b\n\n>");
    assert_eq!(
        outline(&tree),
        "file[quote[quote_line[text(a)] quote_line[text(b)]] quote[quote_line()] EOI()]"
    );
}

#[test]
fn tree_of_inline_constructs() {
    let tree = parse("a **b *c* d** `e` ![f](g)[h:i] [j](k) [l][m] ~~n~~");
    assert_eq!(
        outline(&tree),
        "file[paragraph[text(a ) bold[text(b ) italic[text(c)] text( d)] text( ) \
         inline_code[code(e)] text( ) \
         image[img_alt(f) url(g) img_tags[img_tag[img_tag_key(h) img_tag_val(i)]]] text( ) \
         link[link_text(j) url(k)] text( ) reflink[link_text(l) slug(m)] text( ) \
         strikethrough[text(n)]] EOI()]"
    );

    let tree = parse("*a **b** c*");
    assert_eq!(
        outline(&tree),
        "file[paragraph[italic[text(a ) bold[text(b)] text( c)]] EOI()]"
    );

    let tree = parse("a\nb\n\nc");
    assert_eq!(
        outline(&tree),
        "file[paragraph[text(a) paragraph_newline(\n) text(b)] vertical_space(\n\n) \
         paragraph[text(c)] EOI()]"
    );

    let tree = parse("[](u)");
    assert_eq!(outline(&tree), "file[paragraph[link[url(u)]] EOI()]");
}

#[test]
fn nodes_are_built_on_their_spans() {
    let src = chars_of("abcdef");
    let a = leaf(&src, Rule::text, 1, 3);
    assert_eq!((a.rule, a.start, a.end, a.text.as_str()), (Rule::text, 1, 3, "bc"));
    assert!(a.inner.is_empty());
    let b = branch(&src, Rule::bold, 0, 5, vec![a]);
    assert_eq!((b.rule, b.start, b.end, b.text.as_str()), (Rule::bold, 0, 5, "abcde"));
    assert_eq!(b.inner.len(), 1);
}

#[test]
fn malformed_trees_are_refused() {
    let mut plain = Plain;
    let header = node(Rule::h1, "# a", vec![]);
    assert!(!header.is_well_formed());
    assert!(!header.is_sound());
    assert_eq!(header.find_fault(), Some(Rule::h1));
    assert!(matches!(
        transform_tree(&header, &mut plain),
        Err(Errcode::ParsingError(message)) if message == "grammar error on h1"
    ));

    let two = node(
        Rule::h2,
        "",
        vec![node(Rule::text, "a", vec![]), node(Rule::text, "b", vec![])],
    );
    assert!(!two.is_well_formed());

    let refurl = node(Rule::refurl, "", vec![node(Rule::slug, "a", vec![])]);
    assert!(!refurl.is_well_formed());

    let link = node(Rule::link, "", vec![]);
    assert!(!link.is_well_formed());

    let image = node(Rule::image, "", vec![node(Rule::img_alt, "a", vec![])]);
    assert!(!image.is_well_formed());

    let code = node(Rule::inline_code, "", vec![]);
    assert!(!code.is_well_formed());

    let quote = node(Rule::quote, "", vec![node(Rule::text, "a", vec![])]);
    assert!(!quote.is_well_formed());

    let alone = node(Rule::url, "a", vec![]);
    assert!(!alone.is_well_formed());
    assert!(matches!(
        transform_tree(&alone, &mut plain),
        Err(Errcode::ParsingError(message)) if message == "grammar error on url"
    ));

    let deep = node(
        Rule::file,
        "",
        vec![node(Rule::paragraph, "", vec![node(Rule::h1, "", vec![])])],
    );
    assert!(!deep.is_well_formed());
    assert!(deep.is_sound());
    assert_eq!(deep.find_fault(), Some(Rule::h1));
    assert!(matches!(
        transform_tree(&deep, &mut plain),
        Err(Errcode::ParsingError(message)) if message == "grammar error on h1"
    ));

    let second = node(
        Rule::file,
        "",
        vec![
            node(Rule::text, "a", vec![]),
            node(Rule::quote, "", vec![node(Rule::text, "b", vec![])]),
            node(Rule::image, "", vec![]),
        ],
    );
    assert_eq!(second.find_fault(), Some(Rule::quote));
    assert!(matches!(
        transform_tree(&second, &mut plain),
        Err(Errcode::ParsingError(message)) if message == "grammar error on quote"
    ));
    assert_eq!(node(Rule::file, "", vec![]).find_fault(), None);
}

#[test]
fn kinds_have_their_names() {
    assert_eq!(name_of(Rule::file), "file");
    assert_eq!(name_of(Rule::h6), "h6");
    assert_eq!(name_of(Rule::img_tag_val), "img_tag_val");
    assert_eq!(name_of(Rule::paragraph_newline), "paragraph_newline");
    assert_eq!(name_of(Rule::EOI), "EOI");
    assert_eq!(name_of(Rule::horiz_sep), format!("{:?}", Rule::horiz_sep));
}

#[test]
fn well_formed_trees_are_rendered() {
    let mut brackets = Brackets;
    let tree = node(
        Rule::file,
        "",
        vec![
            node(
                Rule::h2,
                "",
                vec![node(
                    Rule::rich_txt,
                    "",
                    vec![
                        node(Rule::text, "a", vec![]),
                        node(Rule::bold, "", vec![node(Rule::text, "b", vec![])]),
                    ],
                )],
            ),
            node(Rule::EOI, "", vec![]),
        ],
    );
    assert!(tree.is_well_formed());
    assert_eq!(transform_tree(&tree, &mut brackets).unwrap(), "\n2:(a)[(b)]\n");

    let empty = node(Rule::file, "raw", vec![]);
    assert_eq!(transform_tree(&empty, &mut brackets).unwrap(), "(raw)");

    let link = node(
        Rule::link,
        "",
        vec![node(Rule::link_text, "a", vec![]), node(Rule::h1, "u", vec![])],
    );
    assert!(link.is_well_formed());
    assert_eq!(transform_tree(&link, &mut brackets).unwrap(), "(a)");
}

#[test]
fn pending_space_goes_to_the_next_inline_node() {
    let mut brackets = Brackets;
    let mut framework = TransformFramework::new(&mut brackets);
    let mut state = ParseState::default();
    state.add_space = true;
    let text = node(Rule::text, "a", vec![]);
    let (out, _) = framework.act_on_pair(&mut state, &text);
    assert_eq!(out, " (a)");
    assert!(!state.add_space);

    let newline = node(Rule::paragraph_newline, "\n", vec![]);
    let (out, _) = framework.act_on_pair(&mut state, &newline);
    assert_eq!(out, "");
    assert!(state.add_space);

    let hr = node(Rule::horiz_sep, "---", vec![]);
    let (out, _) = framework.act_on_pair(&mut state, &hr);
    assert_eq!(out, "\n\n");
    assert!(state.add_space);

    let paragraph = node(
        Rule::paragraph,
        "",
        vec![
            node(Rule::text, "a", vec![]),
            node(Rule::paragraph_newline, "\n", vec![]),
            node(Rule::paragraph_newline, "\n", vec![]),
            node(Rule::bold, "", vec![node(Rule::text, "b", vec![])]),
            node(Rule::paragraph_newline, "\n", vec![]),
        ],
    );
    let mut state = ParseState::default();
    let (out, _) = framework.act_on_pair(&mut state, &paragraph);
    assert_eq!(out, "(a) [(b)]");
    assert!(!state.add_space);

    let mut state = ParseState::peek();
    let (out, _) = framework.act_on_pair(&mut state, &paragraph);
    assert_eq!(out, "a b");
    let (out, _) = framework.act_on_raw_text(&state, Rule::text, "x".to_string());
    assert_eq!(out, "x");
    let (out, _) = framework.call_hook(
        &ParseState::default(),
        Rule::h1,
        Construct::Header(1, "x".to_string()),
    );
    assert_eq!(out, "\n1:x\n");
}

#[test]
fn inner_elements_are_walked_on_a_copy_of_the_state() {
    let mut brackets = Brackets;
    let mut framework = TransformFramework::new(&mut brackets);
    let nodes = vec![
        node(Rule::text, "a", vec![]),
        node(Rule::paragraph_newline, "\n", vec![]),
        node(Rule::text, "b", vec![]),
        node(Rule::paragraph_newline, "\n", vec![]),
    ];
    let state = ParseState::default();
    let (out, _) = framework.get_inner_elements(&state, 0, &nodes);
    assert_eq!(out, "");
    let (out, _) = framework.get_inner_elements(&state, 2, &nodes);
    assert_eq!(out, "(a)");
    assert!(!state.add_space);
    let (out, _) = framework.get_inner_elements(&state, 4, &nodes);
    assert_eq!(out, "(a) (b)");
    assert!(!state.add_space);

    let mut spaced = ParseState::default();
    spaced.add_space = true;
    let (out, _) = framework.get_inner_elements(&spaced, 1, &nodes);
    assert_eq!(out, " (a)");
    assert!(spaced.add_space);

    let mut threaded = ParseState::default();
    let (outs, _) = framework.act_on_each(&mut threaded, 2, &nodes);
    assert_eq!(outs, vec!["(a)".to_string(), "".to_string()]);
    assert!(threaded.add_space);
    let (outs, _) = framework.act_on_each(&mut threaded, 1, &nodes);
    assert_eq!(outs, vec![" (a)".to_string()]);
    assert!(!threaded.add_space);
}

#[test]
fn states() {
    let first = ParseState::peek();
    assert!(first.peek && !first.add_space);
    let second = ParseState::default();
    assert!(!second.peek && !second.add_space);
}

#[test]
fn assembling() {
    let plain = ParseState::default();
    let mut spaced = ParseState::default();
    spaced.add_space = true;
    let mut first = ParseState::peek();
    assert_eq!(assemble(&plain, Rule::text, "x".to_string()), "x");
    assert_eq!(assemble(&spaced, Rule::text, "x".to_string()), " x");
    assert_eq!(assemble(&spaced, Rule::paragraph, "x".to_string()), "x");
    assert_eq!(assemble(&plain, Rule::h1, "x".to_string()), "\nx\n");
    assert_eq!(assemble(&plain, Rule::h1, "\nx\n".to_string()), "\n\nx\n\n");
    assert_eq!(assemble(&plain, Rule::h1, "".to_string()), "\n\n");
    assert_eq!(assemble(&plain, Rule::quote, "x".to_string()), "x");
    assert_eq!(assemble(&spaced, Rule::list, "x".to_string()), "\nx\n");
    assert_eq!(assemble(&spaced, Rule::bold, "x".to_string()), " x");
    assert_eq!(assemble(&first, Rule::codeblock, "x".to_string()), "x");
    first.add_space = true;
    assert_eq!(assemble(&first, Rule::h1, "x".to_string()), "x");
    assert_eq!(assemble(&first, Rule::text, "x".to_string()), " x");
}

#[test]
fn blocks_and_metadata() {
    let lines = vec![
        node(Rule::slug, "rust", vec![]),
        node(Rule::code, " a ", vec![]),
        node(Rule::code, "", vec![]),
        node(Rule::code, "b", vec![]),
    ];
    assert_eq!(get_whole_block(&lines, 1), " a \n\nb");
    assert_eq!(get_whole_block(&lines, 0), "rust\n a \n\nb");
    assert_eq!(get_whole_block(&lines, 3), "b");
    assert_eq!(get_whole_block(&lines, 4), "");

    let pair = |k: &str, v: &str| {
        node(
            Rule::img_tag,
            "",
            vec![node(Rule::img_tag_key, k, vec![]), node(Rule::img_tag_val, v, vec![])],
        )
    };
    let tags = node(
        Rule::img_tags,
        "",
        vec![
            pair(" a ", "b"),
            pair("c", "  d\t"),
            node(Rule::img_tag, "", vec![node(Rule::img_tag_key, "e", vec![])]),
            pair("f", "g"),
        ],
    );
    let pairs = get_metadata(&tags);
    assert_eq!(
        pairs,
        vec![
            ("a".to_string(), "b".to_string()),
            ("c".to_string(), "d".to_string())
        ]
    );
    let map = to_map(vec![
        ("a".to_string(), "1".to_string()),
        ("b".to_string(), "2".to_string()),
        ("a".to_string(), "3".to_string()),
    ]);
    assert_eq!(map.len(), 2);
    assert_eq!(map.get("a").unwrap(), "3");
    assert_eq!(map.get("b").unwrap(), "2");
    assert!(to_map(vec![]).is_empty());
}

#[test]
fn default_renderings() {
    let s = |text: &str| text.to_string();
    assert_eq!(default_rendering(&Construct::Text(s("a"))), "a");
    assert_eq!(default_rendering(&Construct::Header(3, s("a"))), "a");
    assert_eq!(default_rendering(&Construct::Link(s("a"), s("u"))), "a");
    assert_eq!(default_rendering(&Construct::Reflink(s("a"), s("u"))), "a");
    assert_eq!(default_rendering(&Construct::Refurl(s("a"), s("u"))), "");
    assert_eq!(default_rendering(&Construct::Image(s("a"), s("u"), vec![])), "a");
    assert_eq!(default_rendering(&Construct::Codeblock(Some(s("l")), s("c"))), "c");
    assert_eq!(default_rendering(&Construct::HorizontalSeparator), "");
    assert_eq!(default_rendering(&Construct::VerticalSpace), "\n");
    assert_eq!(
        default_rendering(&Construct::List(vec![s("a"), s("b")])),
        "a, b"
    );
}

#[test]
fn default_hooks_hand_the_text_through() {
    let mut plain = Plain;
    assert_eq!(plain.transform_text("a".to_string()), "a");
    assert_eq!(plain.transform_header(2, "a".to_string()), "a");
    assert_eq!(plain.transform_bold("a".to_string()), "a");
    assert_eq!(plain.transform_italic("a".to_string()), "a");
    assert_eq!(plain.transform_strikethrough("a".to_string()), "a");
    assert_eq!(plain.transform_comment("a".to_string()), "a");
    assert_eq!(plain.transform_link("a".to_string(), "u".to_string()), "a");
    assert_eq!(plain.transform_reflink("a".to_string(), "s".to_string()), "a");
    assert_eq!(plain.transform_refurl("s".to_string(), "u".to_string()), "");
    assert_eq!(
        plain.transform_image("a".to_string(), "u".to_string(), to_map(vec![])),
        "a"
    );
    assert_eq!(plain.transform_quote("a".to_string()), "a");
    assert_eq!(plain.transform_codeblock(None, "a".to_string()), "a");
    assert_eq!(plain.transform_inline_code("a".to_string()), "a");
    assert_eq!(plain.transform_horizontal_separator(), "");
    assert_eq!(
        plain.transform_list(vec!["a".to_string(), "b".to_string()]),
        "a, b"
    );
    assert_eq!(plain.transform_list_element("a".to_string()), "a");
    assert_eq!(plain.transform_vertical_space(), "\n");
    assert_eq!(plain.transform_paragraph("a".to_string()), "a");
    assert_eq!(plain.finished(true), "");
    assert_eq!(plain.finished(false), "");

    let tree = parse("# a\nb *c*\n\nd\n- e\n- f\n---\n[g]: h");
    assert_eq!(
        transform_tree(&tree, &mut plain).unwrap(),
        "\na\nb c\nd\ne, f\n\n\n"
    );
}

#[test]
fn errors_of_the_system_are_carried() {
    let error = std::io::Error::new(std::io::ErrorKind::NotFound, "no such file");
    let code = Errcode::from(error);
    assert!(matches!(&code, Errcode::IoError(e) if e.kind() == std::io::ErrorKind::NotFound));
    assert!(format!("{code:?}").contains("no such file"));
}
