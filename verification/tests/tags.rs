use web_server::tags::{copy_strings, parse_tags};

fn field(s: &str) -> Option<String> {
    Some(s.to_string())
}

#[test]
fn parses_comma_separated_tags() {
    assert_eq!(parse_tags(&field("rust,async")), vec!["rust".to_string(), "async".to_string()]);
}

#[test]
fn trims_and_drops_empty_pieces() {
    assert_eq!(
        parse_tags(&field("  rust , async ,, ,")),
        vec!["rust".to_string(), "async".to_string()]
    );
}

#[test]
fn no_field_and_empty_field_have_no_tags() {
    assert!(parse_tags(&None).is_empty());
    assert!(parse_tags(&field("")).is_empty());
    assert!(parse_tags(&field(" , ,")).is_empty());
}

#[test]
fn trims_unicode_white_space() {
    assert_eq!(parse_tags(&field("\u{3000}web\t,\u{a0}dev\n")), vec!["web".to_string(), "dev".to_string()]);
}

#[test]
fn keeps_inner_spaces_and_order() {
    assert_eq!(
        parse_tags(&field("b tag, a tag ,c")),
        vec!["b tag".to_string(), "a tag".to_string(), "c".to_string()]
    );
}

#[test]
fn keeps_repeated_tags() {
    assert_eq!(parse_tags(&field("x,x")), vec!["x".to_string(), "x".to_string()]);
}

#[test]
fn parsed_tags_survive_resubmission() {
    let tags = parse_tags(&field(" rust ,, async,  web dev "));
    let joined = tags.join(",");
    assert_eq!(parse_tags(&Some(joined)), tags);
}

#[test]
fn non_ascii_tags() {
    assert_eq!(parse_tags(&field("café, naïve")), vec!["café".to_string(), "naïve".to_string()]);
}

#[test]
fn copies_strings() {
    let v = vec!["a".to_string(), "b".to_string()];
    assert_eq!(copy_strings(&v), v);
}

#[test]
fn white_space_agrees_with_std_on_every_char() {
    for n in 0u32..=0x10FFFF {
        if let Some(c) = char::from_u32(n) {
            assert_eq!(web_server::tags::is_white_space(c), c.is_whitespace(), "{n:#x}");
        }
    }
}

#[test]
fn parsing_agrees_with_split_and_trim() {
    for text in ["", ",", "a", " a ", "a,,b", "\u{2003}x\u{2003},y", " , x , ", "a b,c d ,  "] {
        let expected: Vec<String> = text
            .split(',')
            .map(|t| t.trim().to_string())
            .filter(|t| !t.is_empty())
            .collect();
        assert_eq!(parse_tags(&Some(text.to_string())), expected, "{text:?}");
    }
}
