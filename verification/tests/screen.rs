use gsm::ui::{
    empty_list_message, is_error_message, line_kind, popup_margin, search_indicator, truncate,
    visible_range, LineKind,
};

#[test]
fn added_and_removed_lines() {
    assert_eq!(line_kind("+let x = 1;"), LineKind::Added);
    assert_eq!(line_kind("+"), LineKind::Added);
    assert_eq!(line_kind("++"), LineKind::Added);
    assert_eq!(line_kind("-let x = 1;"), LineKind::Removed);
    assert_eq!(line_kind("-"), LineKind::Removed);
    assert_eq!(line_kind("--"), LineKind::Removed);
}

#[test]
fn hunk_and_file_header_lines() {
    assert_eq!(line_kind("@@ -1,3 +1,4 @@ fn main()"), LineKind::Hunk);
    assert_eq!(line_kind("diff --git a/x b/x"), LineKind::Header);
    assert_eq!(line_kind("index 83db48f..bf2a8c1 100644"), LineKind::Header);
    assert_eq!(line_kind("--- a/x"), LineKind::Header);
    assert_eq!(line_kind("+++ b/x"), LineKind::Header);
    assert_eq!(line_kind("---"), LineKind::Header);
    assert_eq!(line_kind("++++"), LineKind::Header);
}

#[test]
fn other_lines_are_context() {
    assert_eq!(line_kind(" unchanged"), LineKind::Context);
    assert_eq!(line_kind(""), LineKind::Context);
    assert_eq!(line_kind("@ -1 +1 @"), LineKind::Context);
    assert_eq!(line_kind("diff"), LineKind::Context);
    assert_eq!(line_kind("index"), LineKind::Context);
    assert_eq!(line_kind(" +indented"), LineKind::Context);
    assert_eq!(line_kind("Diff --git"), LineKind::Context);
}

#[test]
fn error_messages_begin_with_error() {
    assert!(is_error_message("Error: not found"));
    assert!(is_error_message("Error"));
    assert!(!is_error_message("error: lower"));
    assert!(!is_error_message("An Error"));
    assert!(!is_error_message("Stash dropped."));
    assert!(!is_error_message(""));
}

#[test]
fn search_indicator_follows_the_search_state() {
    assert_eq!(search_indicator(true, "fix"), "  \u{1F50D} /fix");
    assert_eq!(search_indicator(true, ""), "  \u{1F50D} /");
    assert_eq!(search_indicator(false, "fix"), "  filter: /fix");
    assert_eq!(search_indicator(false, ""), "");
}

#[test]
fn empty_list_has_two_texts() {
    assert_eq!(empty_list_message(true), "No stashes found. Press 'n' to create one.");
    assert_eq!(empty_list_message(false), "No stashes match your search.");
}

#[test]
fn visible_lines_start_at_the_offset_and_fit_the_area() {
    assert_eq!(visible_range(100, 0, 12), (0, 10));
    assert_eq!(visible_range(100, 95, 12), (95, 100));
    assert_eq!(visible_range(100, 40, 2), (40, 40));
    assert_eq!(visible_range(100, 40, 1), (40, 40));
    assert_eq!(visible_range(100, 40, 0), (40, 40));
    assert_eq!(visible_range(3, 0, 50), (0, 3));
    assert_eq!(visible_range(0, 0, 50), (0, 0));
    assert_eq!(visible_range(3, 7, 50), (3, 3));
    assert_eq!(visible_range(usize::MAX, usize::MAX - 1, u16::MAX), (usize::MAX - 1, usize::MAX));
}

#[test]
fn visible_lines_match_skip_and_take() {
    let lines: Vec<usize> = (0..30).collect();
    for scroll in [0usize, 1, 15, 29, 30, 31] {
        for height in [0u16, 1, 2, 3, 10, 40] {
            let (from, to) = visible_range(lines.len(), scroll, height);
            let expected: Vec<usize> = lines
                .iter()
                .skip(scroll)
                .take(height.saturating_sub(2) as usize)
                .copied()
                .collect();
            assert_eq!(lines[from..to].to_vec(), expected);
        }
    }
}

#[test]
fn popup_margins_are_half_of_what_is_left() {
    assert_eq!(popup_margin(50), 25);
    assert_eq!(popup_margin(20), 40);
    assert_eq!(popup_margin(60), 20);
    assert_eq!(popup_margin(25), 37);
    assert_eq!(popup_margin(55), 22);
    assert_eq!(popup_margin(18), 41);
    assert_eq!(popup_margin(100), 0);
    assert_eq!(popup_margin(0), 50);
}

#[test]
fn short_texts_are_not_cut() {
    assert_eq!(truncate("main", 20), "main");
    assert_eq!(truncate("", 0), "");
    assert_eq!(truncate("", 5), "");
    assert_eq!(truncate("exactly-twenty-chars", 20), "exactly-twenty-chars");
    assert_eq!(truncate("\u{e9}t\u{e9}", 5), "\u{e9}t\u{e9}");
}

#[test]
fn long_texts_end_in_an_ellipsis() {
    assert_eq!(truncate("feature/a-very-long-branch-name", 20), "feature/a-very-long\u{2026}");
    assert_eq!(truncate("abcdef", 5), "abcd\u{2026}");
    assert_eq!(truncate("ab", 1), "\u{2026}");
    assert_eq!(truncate("\u{e9}t\u{e9}", 4), "\u{e9}t\u{2026}");
    assert_eq!(truncate("\u{e9}\u{e9}\u{e9}", 5), "\u{e9}\u{e9}\u{2026}");
}

#[test]
fn cut_never_splits_a_character() {
    assert_eq!(truncate("\u{e9}\u{e9}\u{e9}", 4), "\u{e9}\u{2026}");
    assert_eq!(truncate("\u{e9}\u{e9}\u{e9}", 2), "\u{2026}");
    assert_eq!(truncate("a\u{1F50D}bc", 4), "a\u{2026}");
    assert_eq!(truncate("a\u{1F50D}bc", 5), "a\u{2026}");
    assert_eq!(truncate("a\u{1F50D}bc", 6), "a\u{1F50D}\u{2026}");
    assert_eq!(truncate("\u{4e2d}\u{6587}\u{5b57}", 8), "\u{4e2d}\u{6587}\u{2026}");
    assert_eq!(truncate("\u{4e2d}\u{6587}\u{5b57}", 6), "\u{4e2d}\u{2026}");
}

#[test]
fn cut_to_no_bytes_leaves_the_ellipsis() {
    assert_eq!(truncate("ab", 0), "\u{2026}");
    assert_eq!(truncate("\u{e9}", 0), "\u{2026}");
    assert_eq!(truncate("\u{e9}", 1), "\u{2026}");
}

#[test]
fn cut_keeps_whole_bytes_where_they_end_a_character() {
    for text in ["plain ascii text that is long", "\u{e9}t\u{e9} ind\u{e9}fini", "a\u{1F50D}b\u{4e2d}c"] {
        for max in 1..text.len() {
            if text.is_char_boundary(max - 1) {
                let mut expected = text[..max - 1].to_string();
                expected.push('\u{2026}');
                assert_eq!(truncate(text, max), expected);
            }
        }
        assert_eq!(truncate(text, text.len()), text);
        assert_eq!(truncate(text, text.len() + 1), text);
    }
}
