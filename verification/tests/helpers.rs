use mdtrans::scan::{at, find_char, find_pair, find_single, line_end, pair_at, skip_run};
use mdtrans::text::{
    chars_of, concat_strings, drop_blanks, join_strings, skip_blanks, string_of, trim_range,
    trimmed,
};
use mdtrans::tree::{
    header_level, is_argument, is_container, is_inline, is_raw_text, requires_block_wrapping,
};
use mdtrans::Rule;

fn strings(parts: &[&str]) -> Vec<String> {
    parts.iter().map(|part| part.to_string()).collect()
}

#[test]
fn characters_and_strings() {
    let chars = chars_of("héllo wörld");
    assert_eq!(chars.len(), 11);
    assert_eq!(chars[1], 'é');
    assert_eq!(string_of(&chars, 1, 3), "él");
    assert_eq!(string_of(&chars, 0, 11), "héllo wörld");
    assert_eq!(string_of(&chars, 4, 4), "");
    assert!(chars_of("").is_empty());
}

#[test]
fn trimming() {
    assert_eq!(trimmed("  a b \n"), "a b");
    assert_eq!(trimmed("a"), "a");
    assert_eq!(trimmed(""), "");
    assert_eq!(trimmed(" \t\r\n"), "");
    assert_eq!(trimmed("\u{a0}x\u{2003}"), "x");
    assert_eq!(trimmed("_x_"), "_x_");
    let chars = chars_of("x  ab  y");
    assert_eq!(trim_range(&chars, 1, 7), (3, 5));
    assert_eq!(trim_range(&chars, 1, 3), (3, 3));
    assert_eq!(skip_blanks(&chars, 1, 7), 3);
    assert_eq!(drop_blanks(&chars, 1, 7), 5);
    assert_eq!(drop_blanks(&chars, 1, 3), 1);
}

#[test]
fn joining() {
    assert_eq!(join_strings(&strings(&["a", "b", "c"]), ", "), "a, b, c");
    assert_eq!(join_strings(&strings(&["a"]), ", "), "a");
    assert_eq!(join_strings(&strings(&[]), ", "), "");
    assert_eq!(join_strings(&strings(&["", ""]), "\n"), "\n");
    assert_eq!(concat_strings(&strings(&["a", "", "bc"])), "abc");
    assert_eq!(concat_strings(&strings(&[])), "");
}

#[test]
fn searching() {
    let src = chars_of("ab**c*d**\nxy");
    assert_eq!(line_end(&src, 0), 9);
    assert_eq!(line_end(&src, 9), 9);
    assert_eq!(line_end(&src, 10), 12);
    assert!(at(&src, 2, 9, '*'));
    assert!(!at(&src, 2, 2, '*'));
    assert!(!at(&src, 0, 9, '*'));
    assert!(pair_at(&src, 2, 9, '*'));
    assert!(!pair_at(&src, 2, 3, '*'));
    assert!(!pair_at(&src, 5, 9, '*'));
    assert_eq!(find_char(&src, 0, 9, '*'), Some(2));
    assert_eq!(find_char(&src, 4, 9, '*'), Some(5));
    assert_eq!(find_char(&src, 0, 2, '*'), None);
    assert_eq!(find_char(&src, 0, 9, 'x'), None);
    assert_eq!(find_pair(&src, 0, 9, '*'), Some(2));
    assert_eq!(find_pair(&src, 3, 9, '*'), Some(7));
    assert_eq!(find_pair(&src, 3, 8, '*'), None);
    assert_eq!(find_single(&src, 0, 9, '*'), Some(5));
    assert_eq!(find_single(&src, 6, 9, '*'), None);
    assert_eq!(find_single(&src, 3, 9, '*'), Some(3));
    assert_eq!(skip_run(&src, 2, 9, '*'), 4);
    assert_eq!(skip_run(&src, 0, 9, '*'), 0);
    assert_eq!(skip_run(&src, 7, 8, '*'), 8);
}

#[test]
fn kinds() {
    let raw = [Rule::text, Rule::link_text, Rule::code];
    let inline = [
        Rule::text,
        Rule::link_text,
        Rule::code,
        Rule::image,
        Rule::bold,
        Rule::italic,
        Rule::link,
    ];
    let blocks = [
        Rule::h1,
        Rule::h2,
        Rule::h3,
        Rule::h4,
        Rule::h5,
        Rule::h6,
        Rule::codeblock,
        Rule::comment,
        Rule::horiz_sep,
        Rule::list,
    ];
    let containers = [
        Rule::file,
        Rule::rich_txt,
        Rule::quote_txt,
        Rule::bold_text,
        Rule::italic_text,
    ];
    let arguments = [
        Rule::slug,
        Rule::url,
        Rule::img_alt,
        Rule::img_tags,
        Rule::img_tag,
        Rule::img_tag_key,
        Rule::img_tag_val,
        Rule::comment_text,
    ];
    let others = [
        Rule::strikethrough,
        Rule::reflink,
        Rule::refurl,
        Rule::quote,
        Rule::quote_line,
        Rule::inline_code,
        Rule::list_element,
        Rule::paragraph,
        Rule::paragraph_newline,
        Rule::vertical_space,
        Rule::EOI,
    ];
    let all: Vec<Rule> = raw
        .iter()
        .chain(inline.iter())
        .chain(blocks.iter())
        .chain(containers.iter())
        .chain(arguments.iter())
        .chain(others.iter())
        .copied()
        .collect();
    for rule in all {
        assert_eq!(is_raw_text(rule), raw.contains(&rule));
        assert_eq!(is_inline(rule), inline.contains(&rule));
        assert_eq!(requires_block_wrapping(rule), blocks.contains(&rule));
        assert_eq!(is_container(rule), containers.contains(&rule));
        assert_eq!(is_argument(rule), arguments.contains(&rule));
    }
    assert_eq!(header_level(Rule::h1), 1);
    assert_eq!(header_level(Rule::h4), 4);
    assert_eq!(header_level(Rule::h6), 6);
    assert_eq!(header_level(Rule::text), 0);
}
