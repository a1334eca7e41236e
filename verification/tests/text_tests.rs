use yaml_backup::text::{first_line_of, split_lines, split_words, starts_with, trim};

fn strings(items: &[&str]) -> Vec<String> {
    items.iter().map(|s| s.to_string()).collect()
}

#[test]
fn lines_end_at_line_feeds() {
    assert_eq!(split_lines("a\nb\nc"), strings(&["a", "b", "c"]));
    assert_eq!(split_lines("a\nb\n"), strings(&["a", "b"]));
    assert_eq!(split_lines("a\n\nb"), strings(&["a", "", "b"]));
    assert_eq!(split_lines("\n"), strings(&[""]));
    assert_eq!(split_lines(""), Vec::<String>::new());
}

#[test]
fn a_carriage_return_before_a_line_feed_is_dropped() {
    assert_eq!(split_lines("a\r\nb\r\n"), strings(&["a", "b"]));
    assert_eq!(split_lines("a\r\r\nb"), strings(&["a\r", "b"]));
    assert_eq!(split_lines("a\rb\n"), strings(&["a\rb"]));
    assert_eq!(split_lines("a\r"), strings(&["a\r"]));
    assert_eq!(split_lines("\r\n"), strings(&[""]));
}

#[test]
fn lines_are_those_of_the_standard_library() {
    for text in ["", "\n", "x", "x\n", "x\r\n\ny\r", "\r", "é\nü\r\n", "\n\r\n\r"] {
        let expected: Vec<String> = text.lines().map(String::from).collect();
        assert_eq!(split_lines(text), expected);
    }
}

#[test]
fn words_are_runs_without_white_space() {
    assert_eq!(split_words("  a  bc\td\n"), strings(&["a", "bc", "d"]));
    assert_eq!(split_words("one"), strings(&["one"]));
    assert_eq!(split_words(""), Vec::<String>::new());
    assert_eq!(split_words("   "), Vec::<String>::new());
    assert_eq!(split_words("a\u{a0}b\u{3000}c"), strings(&["a", "b", "c"]));
    assert_eq!(split_words("été là"), strings(&["été", "là"]));
}

#[test]
fn words_are_those_of_the_standard_library() {
    for text in ["", " ", "x", " x y ", "a\r\nb", "\u{2003}wide\u{2003}gap", "tab\there"] {
        let expected: Vec<String> = text.split_whitespace().map(String::from).collect();
        assert_eq!(split_words(text), expected);
    }
}

#[test]
fn trim_drops_white_space_at_both_ends() {
    assert_eq!(trim("  /data/backup \n"), "/data/backup");
    assert_eq!(trim("a b"), "a b");
    assert_eq!(trim(" a  b "), "a  b");
    assert_eq!(trim(""), "");
    assert_eq!(trim(" \t\r\n"), "");
    assert_eq!(trim("x"), "x");
    assert_eq!(trim("\u{a0}é \u{3000}"), "é");
    for text in ["", " x ", "\n\n", " a b  c\t"] {
        assert_eq!(trim(text), text.trim());
    }
}

#[test]
fn starts_with_compares_the_first_characters() {
    assert!(starts_with("kube-system", "kube-"));
    assert!(starts_with("kube-", "kube-"));
    assert!(starts_with("anything", ""));
    assert!(starts_with("", ""));
    assert!(!starts_with("kube", "kube-"));
    assert!(!starts_with("", "k"));
    assert!(!starts_with("xkube-", "kube-"));
    assert!(starts_with("éa", "é"));
    assert!(!starts_with("ea", "é"));
}

#[test]
fn the_first_line_ends_at_the_first_line_feed() {
    assert_eq!(first_line_of("one\ntwo\nthree"), "one");
    assert_eq!(first_line_of("one"), "one");
    assert_eq!(first_line_of("one\r\ntwo"), "one\r");
    assert_eq!(first_line_of("\ntwo"), "");
    assert_eq!(first_line_of(""), "");
    assert_eq!(first_line_of("é ü\n"), "é ü");
}

#[test]
fn white_space_in_ascii_is_the_space_and_tab_to_carriage_return() {
    for code in 0u32..128 {
        let c = char::from_u32(code).unwrap();
        let text = format!("a{}b", c);
        let expected = c == ' ' || ('\t'..='\r').contains(&c);
        assert_eq!(split_words(&text).len() == 2, expected);
        assert_eq!(c.is_whitespace(), expected);
    }
}
