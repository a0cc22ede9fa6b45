use gsm::app::{App, ConfirmAction, Mode};
use gsm::git::{GatewayError, Stash};

fn stash(index: usize, branch: &str, short_msg: &str) -> Stash {
    Stash {
        index,
        name: format!("stash@{{{}}}", index),
        message: format!("On {}: {}", branch, short_msg),
        branch: branch.to_string(),
        short_msg: short_msg.to_string(),
        date: "now".to_string(),
    }
}

fn sample() -> Vec<Stash> {
    vec![
        stash(0, "main", "Fix login bug"),
        stash(1, "feature/search", "add index"),
        stash(2, "main", "wip refactor"),
        stash(3, "hotFIX", "urgent patch"),
        stash(4, "dev", "prefix cleanup"),
    ]
}

fn app_with(stashes: Vec<Stash>) -> App {
    App::new(Ok(stashes), Ok("main".to_string())).unwrap()
}

fn failure(text: &str) -> GatewayError {
    GatewayError { description: text.to_string() }
}

fn names(list: &Vec<&Stash>) -> Vec<usize> {
    list.iter().map(|s| s.index).collect()
}

#[test]
fn new_state_starts_in_normal_mode_at_the_top() {
    let app = App::new(Ok(sample()), Ok("trunk".to_string())).unwrap();
    assert_eq!(app.stashes, sample());
    assert_eq!(app.selected, 0);
    assert_eq!(app.mode, Mode::Normal);
    assert!(app.diff_content.is_empty());
    assert_eq!(app.diff_scroll, 0);
    assert_eq!(app.search_query, "");
    assert!(!app.searching);
    assert_eq!(app.new_stash_input, "");
    assert!(!app.new_stash_untracked);
    assert_eq!(app.status_msg, None);
    assert_eq!(app.current_branch, "trunk");
}

#[test]
fn new_state_fails_with_the_listing() {
    let r = App::new(Err(failure("Failed to run git stash list")), Ok("main".to_string()));
    assert_eq!(r.err(), Some(failure("Failed to run git stash list")));
}

#[test]
fn new_state_has_an_empty_branch_when_the_lookup_failed() {
    let app = App::new(Ok(sample()), Err(failure("no branch"))).unwrap();
    assert_eq!(app.current_branch, "");
    assert_eq!(app.stashes.len(), 5);
}

#[test]
fn empty_query_shows_every_stash_in_order() {
    let app = app_with(sample());
    assert_eq!(names(&app.filtered_stashes()), vec![0, 1, 2, 3, 4]);
}

#[test]
fn query_selects_by_short_message_or_branch_in_order() {
    let mut app = app_with(sample());
    app.search_query = "fix".to_string();
    assert_eq!(names(&app.filtered_stashes()), vec![0, 3, 4]);
    app.search_query = "main".to_string();
    assert_eq!(names(&app.filtered_stashes()), vec![0, 2]);
    app.search_query = "search".to_string();
    assert_eq!(names(&app.filtered_stashes()), vec![1]);
}

#[test]
fn query_ignores_case_on_both_sides() {
    let mut app = app_with(sample());
    app.search_query = "FIX".to_string();
    assert_eq!(names(&app.filtered_stashes()), vec![0, 3, 4]);
    app.search_query = "HotFix".to_string();
    assert_eq!(names(&app.filtered_stashes()), vec![3]);
    app.search_query = "LOGIN".to_string();
    assert_eq!(names(&app.filtered_stashes()), vec![0]);
}

#[test]
fn query_does_not_look_at_name_message_or_date() {
    let mut app = app_with(sample());
    app.search_query = "stash@".to_string();
    assert!(app.filtered_stashes().is_empty());
    app.search_query = "now".to_string();
    assert!(app.filtered_stashes().is_empty());
    app.search_query = "On ".to_string();
    assert!(app.filtered_stashes().is_empty());
}

#[test]
fn stash_with_empty_texts_answers_no_query_but_the_empty_one() {
    let mut app = app_with(vec![stash(0, "", ""), stash(1, "main", "fix")]);
    assert_eq!(names(&app.filtered_stashes()), vec![0, 1]);
    for query in ["f", "x", " ", "FIX", "\u{130}"] {
        app.search_query = query.to_string();
        assert!(app.filtered_stashes().iter().all(|s| s.index != 0), "{:?}", query);
    }
}

#[test]
fn query_matches_where_the_lowercase_forms_do() {
    let mut app = app_with(vec![stash(0, "\u{c9}T\u{c9}", "\u{391}\u{3a3}"), stash(1, "b", "c")]);
    app.search_query = "\u{e9}t\u{e9}".to_string();
    assert_eq!(names(&app.filtered_stashes()), vec![0]);
    app.search_query = "\u{3b1}\u{3c2}".to_string();
    assert_eq!(names(&app.filtered_stashes()), vec![0]);
    app.search_query = "\u{3b1}\u{3c3}".to_string();
    assert!(app.filtered_stashes().is_empty());
}

#[test]
fn query_that_nothing_answers_shows_nothing() {
    let mut app = app_with(sample());
    app.search_query = "zzz".to_string();
    assert!(app.filtered_stashes().is_empty());
    assert!(app.selected_stash().is_none());
}

#[test]
fn filtered_view_keeps_equal_stashes_apart() {
    let mut app = app_with(vec![stash(0, "a", "same"), stash(0, "a", "same"), stash(1, "b", "x")]);
    app.search_query = "same".to_string();
    assert_eq!(app.filtered_stashes().len(), 2);
}

#[test]
fn selected_stash_is_read_from_the_filtered_view() {
    let mut app = app_with(sample());
    assert_eq!(app.selected_stash().map(|s| s.index), Some(0));
    app.selected = 4;
    assert_eq!(app.selected_stash().map(|s| s.index), Some(4));
    app.selected = 5;
    assert!(app.selected_stash().is_none());
    app.search_query = "fix".to_string();
    app.selected = 1;
    assert_eq!(app.selected_stash().map(|s| s.index), Some(3));
    app.selected = 3;
    assert!(app.selected_stash().is_none());
}

#[test]
fn empty_collection_has_no_view_and_no_selection() {
    let app = app_with(Vec::new());
    assert!(app.filtered_stashes().is_empty());
    assert!(app.selected_stash().is_none());
}

#[test]
fn reload_takes_over_the_collection_and_the_branch() {
    let mut app = app_with(sample());
    app.selected = 1;
    let r = app.reload(Ok(vec![stash(0, "x", "y"), stash(1, "z", "w")]), Ok("other".to_string()));
    assert_eq!(r, Ok(()));
    assert_eq!(app.stashes.len(), 2);
    assert_eq!(app.stashes[0].branch, "x");
    assert_eq!(app.current_branch, "other");
    assert_eq!(app.selected, 1);
}

#[test]
fn reload_brings_the_selection_back_inside() {
    for before in [0usize, 1, 2, 4, 5, 100, usize::MAX] {
        for size in 1usize..4 {
            let mut app = app_with(sample());
            app.selected = before;
            let fresh: Vec<Stash> = (0..size).map(|i| stash(i, "b", "m")).collect();
            assert_eq!(app.reload(Ok(fresh), Ok(String::new())), Ok(()));
            assert!(app.selected < size);
            assert_eq!(app.selected, before.min(size - 1));
        }
    }
}

#[test]
fn reload_to_an_empty_collection_selects_position_zero() {
    let mut app = app_with(sample());
    app.selected = 3;
    assert_eq!(app.reload(Ok(Vec::new()), Ok("main".to_string())), Ok(()));
    assert!(app.stashes.is_empty());
    assert_eq!(app.selected, 0);
}

#[test]
fn failed_reload_leaves_the_state_as_it_was() {
    let mut app = app_with(sample());
    app.selected = 2;
    app.search_query = "ma".to_string();
    let r = app.reload(Err(failure("boom")), Ok("elsewhere".to_string()));
    assert_eq!(r, Err(failure("boom")));
    assert_eq!(app.stashes, sample());
    assert_eq!(app.selected, 2);
    assert_eq!(app.current_branch, "main");
    assert_eq!(app.search_query, "ma");
}

#[test]
fn reload_with_failed_branch_lookup_empties_the_branch() {
    let mut app = app_with(sample());
    assert_eq!(app.reload(Ok(sample()), Err(failure("detached"))), Ok(()));
    assert_eq!(app.current_branch, "");
}

#[test]
fn reload_keeps_mode_query_and_buffer() {
    let mut app = app_with(sample());
    app.mode = Mode::Confirm(ConfirmAction::Pop);
    app.search_query = "fix".to_string();
    app.diff_content = vec!["a".to_string(), "b".to_string()];
    app.diff_scroll = 1;
    assert_eq!(app.reload(Ok(sample()), Ok("main".to_string())), Ok(()));
    assert_eq!(app.mode, Mode::Confirm(ConfirmAction::Pop));
    assert_eq!(app.search_query, "fix");
    assert_eq!(app.diff_content, vec!["a", "b"]);
    assert_eq!(app.diff_scroll, 1);
}

#[test]
fn load_diff_fills_the_buffer_and_scrolls_to_the_top() {
    let mut app = app_with(sample());
    app.diff_scroll = 7;
    app.diff_content = vec!["old".to_string()];
    assert_eq!(app.load_diff(Ok("diff --git a b\n+new\r\n-old\n".to_string())), Ok(()));
    assert_eq!(app.diff_content, vec!["diff --git a b", "+new", "-old"]);
    assert_eq!(app.diff_scroll, 0);
    assert_eq!(app.mode, Mode::Normal);
}

#[test]
fn load_files_fills_the_buffer_and_scrolls_to_the_top() {
    let mut app = app_with(sample());
    app.diff_scroll = 3;
    assert_eq!(app.load_files(Ok(" a.rs | 2 +-\n 1 file changed\n".to_string())), Ok(()));
    assert_eq!(app.diff_content, vec![" a.rs | 2 +-", " 1 file changed"]);
    assert_eq!(app.diff_scroll, 0);
}

#[test]
fn load_of_an_empty_text_empties_the_buffer() {
    let mut app = app_with(sample());
    app.diff_content = vec!["old".to_string()];
    assert_eq!(app.load_diff(Ok(String::new())), Ok(()));
    assert!(app.diff_content.is_empty());
    assert_eq!(app.diff_scroll, 0);
}

#[test]
fn load_without_a_selected_stash_changes_nothing() {
    let mut app = app_with(Vec::new());
    app.diff_content = vec!["kept".to_string()];
    app.diff_scroll = 0;
    assert_eq!(app.load_diff(Ok("new\n".to_string())), Ok(()));
    assert_eq!(app.diff_content, vec!["kept"]);
    assert_eq!(app.load_files(Err(failure("unused"))), Ok(()));
    assert_eq!(app.diff_content, vec!["kept"]);
}

#[test]
fn failed_load_is_handed_on_and_changes_nothing() {
    let mut app = app_with(sample());
    app.diff_content = vec!["kept".to_string(), "too".to_string()];
    app.diff_scroll = 1;
    assert_eq!(app.load_diff(Err(failure("Failed to get stash diff"))), Err(failure("Failed to get stash diff")));
    assert_eq!(app.load_files(Err(failure("Failed to get stash file list"))), Err(failure("Failed to get stash file list")));
    assert_eq!(app.diff_content, vec!["kept", "too"]);
    assert_eq!(app.diff_scroll, 1);
}

#[test]
fn selection_moves_inside_the_view_only() {
    let mut app = app_with(sample());
    app.move_up();
    assert_eq!(app.selected, 0);
    app.move_down();
    assert_eq!(app.selected, 1);
    for _ in 0..10 {
        app.move_down();
        assert!(app.selected < 5);
    }
    assert_eq!(app.selected, 4);
    app.move_up();
    assert_eq!(app.selected, 3);
    for _ in 0..10 {
        app.move_up();
    }
    assert_eq!(app.selected, 0);
}

#[test]
fn selection_moves_inside_the_filtered_view() {
    let mut app = app_with(sample());
    app.search_query = "fix".to_string();
    for _ in 0..10 {
        app.move_down();
        assert!(app.selected < 3);
    }
    assert_eq!(app.selected, 2);
    assert_eq!(app.selected_stash().map(|s| s.index), Some(4));
}

#[test]
fn selection_outside_the_view_is_brought_back_by_a_move() {
    let mut app = app_with(sample());
    app.selected = 9;
    app.move_down();
    assert_eq!(app.selected, 4);
    app.selected = 9;
    app.move_up();
    assert_eq!(app.selected, 4);
    app.selected = usize::MAX;
    app.move_down();
    assert_eq!(app.selected, 4);
}

#[test]
fn selection_does_not_move_on_an_empty_view() {
    let mut app = app_with(Vec::new());
    app.move_down();
    assert_eq!(app.selected, 0);
    app.move_up();
    assert_eq!(app.selected, 0);
    let mut app = app_with(sample());
    app.search_query = "zzz".to_string();
    app.selected = 2;
    app.move_up();
    assert_eq!(app.selected, 2);
    app.move_down();
    assert_eq!(app.selected, 2);
}

#[test]
fn scrolling_down_as_often_as_the_buffer_is_long_ends_on_the_last_line() {
    for lines in 1usize..6 {
        let mut app = app_with(sample());
        app.diff_content = (0..lines).map(|i| format!("line {}", i)).collect();
        for step in 0..lines {
            assert_eq!(app.diff_scroll, step.min(lines - 1));
            app.scroll_diff_down();
            assert!(app.diff_scroll < lines);
        }
        assert_eq!(app.diff_scroll, lines - 1);
        app.scroll_diff_down();
        assert_eq!(app.diff_scroll, lines - 1);
    }
}

#[test]
fn scrolling_up_stops_at_the_first_line() {
    let mut app = app_with(sample());
    app.diff_content = vec!["a".to_string(), "b".to_string(), "c".to_string()];
    app.diff_scroll = 2;
    app.scroll_diff_up();
    assert_eq!(app.diff_scroll, 1);
    app.scroll_diff_up();
    assert_eq!(app.diff_scroll, 0);
    app.scroll_diff_up();
    assert_eq!(app.diff_scroll, 0);
}

#[test]
fn scrolling_an_empty_buffer_stays_at_zero() {
    let mut app = app_with(sample());
    app.scroll_diff_down();
    assert_eq!(app.diff_scroll, 0);
    app.scroll_diff_up();
    assert_eq!(app.diff_scroll, 0);
    app.scroll_content(20);
    assert_eq!(app.diff_scroll, 0);
    app.scroll_content(-20);
    assert_eq!(app.diff_scroll, 0);
}

#[test]
fn scrolling_by_many_lines_is_clamped() {
    let mut app = app_with(sample());
    app.diff_content = (0..50).map(|i| format!("{}", i)).collect();
    app.scroll_content(20);
    assert_eq!(app.diff_scroll, 20);
    app.scroll_content(20);
    assert_eq!(app.diff_scroll, 40);
    app.scroll_content(20);
    assert_eq!(app.diff_scroll, 49);
    app.scroll_content(-20);
    assert_eq!(app.diff_scroll, 29);
    app.scroll_content(-20);
    assert_eq!(app.diff_scroll, 9);
    app.scroll_content(-20);
    assert_eq!(app.diff_scroll, 0);
    app.scroll_content(0);
    assert_eq!(app.diff_scroll, 0);
    app.scroll_content(isize::MAX);
    assert_eq!(app.diff_scroll, 49);
    app.scroll_content(isize::MIN);
    assert_eq!(app.diff_scroll, 0);
}

#[test]
fn scrolling_brings_an_offset_outside_the_buffer_back() {
    let mut app = app_with(sample());
    app.diff_content = vec!["a".to_string(), "b".to_string(), "c".to_string()];
    app.diff_scroll = 10;
    app.scroll_diff_down();
    assert_eq!(app.diff_scroll, 2);
    app.diff_scroll = 10;
    app.scroll_diff_up();
    assert_eq!(app.diff_scroll, 2);
    app.diff_scroll = usize::MAX;
    app.scroll_content(5);
    assert_eq!(app.diff_scroll, 2);
    app.diff_scroll = 10;
    app.scroll_content(-9);
    assert_eq!(app.diff_scroll, 1);
}
