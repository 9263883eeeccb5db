use flashcards::pattern::{byte_len, part, Capture};
use flashcards::resources::Resources;
use flashcards::transform::{
    apply, embed, group_text, replace_captures, rewrite, unknown_names, Rewrite,
};

#[test]
fn part_counts_bytes() {
    assert_eq!(part("hello", 1, 3), "el");
    assert_eq!(part("hello", 0, 5), "hello");
    assert_eq!(part("hello", 2, 2), "");
    // The second character takes two bytes.
    assert_eq!(part("h\u{e9}llo", 1, 3), "\u{e9}");
    assert_eq!(part("h\u{e9}llo", 3, 6), "llo");
}

#[test]
fn part_is_empty_where_the_range_does_not_fit() {
    assert_eq!(part("hello", 3, 2), "");
    assert_eq!(part("hello", 2, 6), "");
    assert_eq!(part("hello", 7, 9), "");
    // Position 2 lies inside a character.
    assert_eq!(part("h\u{e9}llo", 2, 4), "");
    assert_eq!(part("h\u{e9}llo", 0, 2), "");
}

#[test]
fn byte_len_counts_bytes() {
    assert_eq!(byte_len(""), 0);
    assert_eq!(byte_len("hello"), 5);
    assert_eq!(byte_len("h\u{e9}llo"), 6);
    assert_eq!(byte_len("\u{1f600}"), 4);
}

#[test]
fn rewrite_follows_the_rule() {
    let mut resources = Resources::new();
    resources.insert("a.png".to_string(), Some(b"a".to_vec()));
    resources.insert("b.png".to_string(), None);
    assert_eq!(rewrite(Rewrite::Label, "x y", &resources), "x y");
    assert_eq!(rewrite(Rewrite::DisplayMath, "x^2", &resources), r"\[x^2\]");
    assert_eq!(rewrite(Rewrite::InlineMath, "x^2", &resources), r"\(x^2\)");
    assert_eq!(rewrite(Rewrite::InlineMath, "", &resources), r"\(\)");
    assert_eq!(rewrite(Rewrite::Image, "a.png", &resources), "<img src='data:image/png;base64,YQ'>");
    assert_eq!(rewrite(Rewrite::Image, "b.png", &resources), "Image not found");
    assert_eq!(rewrite(Rewrite::Image, "c.png", &resources), "Image not found");
    assert_eq!(embed("a.png", &resources), "<img src='data:image/png;base64,YQ'>");
    assert_eq!(embed("A.png", &resources), "Image not found");
}

fn capture(start: usize, end: usize, group: Option<(usize, usize)>) -> Capture {
    Capture { start, end, group }
}

#[test]
fn replace_captures_puts_the_text_together_anew() {
    let none = Resources::new();
    let text = "ab[cd]ef[gh]";
    let captures = vec![capture(2, 6, Some((3, 5))), capture(8, 12, Some((9, 11)))];
    assert_eq!(replace_captures(text, &captures, Rewrite::Label, &none), "abcdefgh");
    assert_eq!(
        replace_captures(text, &captures, Rewrite::InlineMath, &none),
        r"ab\(cd\)ef\(gh\)"
    );
    assert_eq!(replace_captures(text, &Vec::new(), Rewrite::Label, &none), text);
    assert_eq!(replace_captures("", &Vec::new(), Rewrite::Label, &none), "");
    let whole = vec![capture(0, 12, None)];
    assert_eq!(replace_captures(text, &whole, Rewrite::Label, &none), "");
    assert_eq!(replace_captures(text, &whole, Rewrite::DisplayMath, &none), r"\[\]");
}

#[test]
fn group_text_is_empty_without_a_group() {
    assert_eq!(group_text("abcdef", &capture(0, 6, Some((2, 4)))), "cd");
    assert_eq!(group_text("abcdef", &capture(0, 6, None)), "");
    assert_eq!(group_text("abcdef", &capture(0, 6, Some((4, 9)))), "");
}

#[test]
fn unknown_names_skips_what_is_known() {
    let mut resources = Resources::new();
    resources.insert("cd".to_string(), None);
    let text = "ab[cd]ef[gh]";
    let captures = vec![capture(2, 6, Some((3, 5))), capture(8, 12, Some((9, 11)))];
    assert_eq!(unknown_names(text, &captures, &resources), vec!["gh".to_string()]);
    assert_eq!(
        unknown_names(text, &captures, &Resources::new()),
        vec!["cd".to_string(), "gh".to_string()]
    );
}

#[test]
fn apply_leaves_the_text_where_the_pattern_is_no_pattern() {
    let none = Resources::new();
    assert_eq!(apply("a (b c".to_string(), "(", 0, Rewrite::DisplayMath, &none), "a (b c");
    assert_eq!(apply("a (b c".to_string(), r"\(", 0, Rewrite::DisplayMath, &none), r"a \[(\]b c");
    // A group that the pattern does not have reads as empty.
    assert_eq!(apply("a (b c".to_string(), r"\(", 3, Rewrite::DisplayMath, &none), r"a \[\]b c");
}
