use dirnav::dir_util::DirEntry;
use dirnav::keys::{KeyCode, KeyEvent};
use dirnav::mode::{Mode, SelectionState};
use dirnav::nav::{
    check_hidden_key, check_home_key, handle_normal_mode, handle_select_mode, Action, Navigator,
};

const KEYBINDS: &str = "1234567890";

fn dirs_named(names: &[&str]) -> Vec<DirEntry> {
    names.iter().map(|n| DirEntry::new(n, true)).collect()
}

fn numbered(count: usize) -> Vec<DirEntry> {
    (0..count).map(|i| DirEntry::new(&format!("d{:02}", i), true)).collect()
}

fn key(c: char) -> KeyEvent {
    KeyEvent::plain(KeyCode::Char(c))
}

fn ctrl(c: char) -> KeyEvent {
    KeyEvent::new(KeyCode::Char(c), true)
}

fn selecting(prefix: &str, page: usize, cursor: Option<usize>) -> Navigator {
    let mut nav = Navigator::new(true);
    nav.mode = Mode::Select(SelectionState { prefix: prefix.to_string(), page, cursor });
    nav
}

fn selection(nav: &Navigator) -> &SelectionState {
    match &nav.mode {
        Mode::Select(selection) => selection,
        Mode::Normal => panic!("not in Select mode"),
    }
}

#[test]
fn new_navigator_starts_in_normal_mode() {
    let nav = Navigator::new(false);
    assert_eq!(nav.mode, Mode::Normal);
    assert_eq!(nav.cursor, None);
    assert!(!nav.show_hidden);
    assert!(nav.history.buffer.is_empty());
}

#[test]
fn typing_an_ambiguous_letter_then_narrowing_then_confirming() {
    let dirs = dirs_named(&["alpha", "apple", "banana"]);
    let mut nav = Navigator::new(true);
    assert_eq!(nav.handle_key(key('a'), KEYBINDS, &dirs), Action::Redraw);
    assert_eq!(
        nav.mode,
        Mode::Select(SelectionState { prefix: "a".to_string(), page: 0, cursor: Some(0) })
    );
    assert_eq!(dirnav::dir_util::starts_with(&dirs, "a").len(), 2);

    assert_eq!(nav.handle_key(key('l'), KEYBINDS, &dirs), Action::Redraw);
    assert_eq!(
        nav.mode,
        Mode::Select(SelectionState { prefix: "al".to_string(), page: 0, cursor: Some(0) })
    );
    assert_eq!(dirnav::dir_util::starts_with(&dirs, "al"), dirs_named(&["alpha"]));

    assert_eq!(
        nav.handle_key(KeyEvent::plain(KeyCode::Enter), KEYBINDS, &dirs),
        Action::Enter("alpha".to_string())
    );
    assert_eq!(nav.mode, Mode::Normal);
    assert_eq!(nav.cursor, None);
}

#[test]
fn narrowing_to_one_candidate_can_be_confirmed_with_a_digit() {
    let dirs = dirs_named(&["alpha", "apple", "banana"]);
    let mut nav = selecting("al", 0, Some(0));
    assert_eq!(nav.handle_key(key('1'), KEYBINDS, &dirs), Action::Enter("alpha".to_string()));
    assert_eq!(nav.mode, Mode::Normal);
}

#[test]
fn letters_do_nothing_in_an_empty_directory() {
    let mut nav = Navigator::new(true);
    for c in ['a', 'z', '1', '.', 'A'] {
        assert_eq!(nav.handle_key(key(c), KEYBINDS, &[]), Action::Ignore);
        assert_eq!(nav, Navigator::new(true));
    }
    assert_eq!(nav.handle_key(KeyEvent::plain(KeyCode::Tab), KEYBINDS, &[]), Action::Ignore);
    assert_eq!(nav, Navigator::new(true));
}

#[test]
fn normal_letter_without_match_is_ignored() {
    let dirs = dirs_named(&["alpha", "beta"]);
    let mut nav = Navigator::new(true);
    nav.cursor = Some(1);
    assert_eq!(handle_normal_mode(key('x'), &mut nav, &dirs), Action::Ignore);
    assert_eq!(nav.cursor, Some(1));
    assert_eq!(nav.mode, Mode::Normal);
}

#[test]
fn normal_letter_with_single_match_enters_it() {
    let dirs = dirs_named(&["alpha", "beta"]);
    let mut nav = Navigator::new(true);
    nav.cursor = Some(1);
    assert_eq!(handle_normal_mode(key('b'), &mut nav, &dirs), Action::Enter("beta".to_string()));
    assert_eq!(nav.cursor, None);
    assert_eq!(nav.mode, Mode::Normal);
}

#[test]
fn normal_control_letter_other_than_s_counts_as_the_letter() {
    let dirs = dirs_named(&["foo"]);
    let mut nav = Navigator::new(true);
    assert_eq!(handle_normal_mode(ctrl('f'), &mut nav, &dirs), Action::Enter("foo".to_string()));
}

#[test]
fn normal_backspace_goes_to_the_parent() {
    let mut nav = Navigator::new(true);
    nav.cursor = Some(2);
    assert_eq!(handle_normal_mode(KeyEvent::plain(KeyCode::Backspace), &mut nav, &[]), Action::Parent);
    assert_eq!(nav.cursor, None);
}

#[test]
fn normal_escape_cancels() {
    let mut nav = Navigator::new(true);
    let action = handle_normal_mode(KeyEvent::plain(KeyCode::Esc), &mut nav, &[]);
    assert_eq!(action, Action::Cancel);
    assert!(action.has_terminated());
    assert!(!action.is_dirty());
    assert_eq!(nav, Navigator::new(true));
}

#[test]
fn normal_enter_without_highlight_confirms() {
    let dirs = dirs_named(&["alpha"]);
    let mut nav = Navigator::new(true);
    let action = handle_normal_mode(KeyEvent::plain(KeyCode::Enter), &mut nav, &dirs);
    assert_eq!(action, Action::Confirm);
    assert!(action.has_terminated());
    assert!(!action.is_dirty());
}

#[test]
fn normal_tab_cycles_through_the_buckets() {
    let dirs = dirs_named(&["alpha", "apple", "banana", "cherry"]);
    let tab = KeyEvent::plain(KeyCode::Tab);
    let mut nav = Navigator::new(true);
    for expected in [0, 1, 2, 0, 1] {
        assert_eq!(handle_normal_mode(tab, &mut nav, &dirs), Action::Redraw);
        assert_eq!(nav.cursor, Some(expected));
    }
    nav.cursor = Some(usize::MAX);
    assert_eq!(handle_normal_mode(tab, &mut nav, &dirs), Action::Redraw);
    assert_eq!(nav.cursor, Some(((usize::MAX as u128 + 1) % 3) as usize));
}

#[test]
fn normal_tab_stops_where_the_directories_cannot_be_grouped() {
    let dirs = dirs_named(&["alpha", ""]);
    let tab = KeyEvent::plain(KeyCode::Tab);
    let mut nav = Navigator::new(true);
    assert_eq!(handle_normal_mode(tab, &mut nav, &dirs), Action::Redraw);
    assert_eq!(nav.cursor, Some(0));
    assert_eq!(handle_normal_mode(tab, &mut nav, &dirs), Action::Ignore);
    assert_eq!(nav.cursor, Some(0));
}

#[test]
fn normal_enter_on_a_highlighted_bucket_resolves_its_letter() {
    let dirs = dirs_named(&["alpha", "apple", "banana"]);
    let enter = KeyEvent::plain(KeyCode::Enter);

    let mut nav = Navigator::new(true);
    nav.cursor = Some(1);
    assert_eq!(handle_normal_mode(enter, &mut nav, &dirs), Action::Enter("banana".to_string()));
    assert_eq!(nav.cursor, None);

    let mut nav = Navigator::new(true);
    nav.cursor = Some(0);
    assert_eq!(handle_normal_mode(enter, &mut nav, &dirs), Action::Redraw);
    assert_eq!(
        nav.mode,
        Mode::Select(SelectionState { prefix: "a".to_string(), page: 0, cursor: Some(0) })
    );
    assert_eq!(nav.cursor, None);

    let mut nav = Navigator::new(true);
    nav.cursor = Some(2);
    assert_eq!(handle_normal_mode(enter, &mut nav, &dirs), Action::Ignore);
    assert_eq!(nav.cursor, Some(2));
}

#[test]
fn normal_up_and_down_walk_the_history() {
    let mut nav = Navigator::new(true);
    nav.visited("/a");
    nav.visited("/a/b");
    nav.cursor = Some(3);
    let up = KeyEvent::plain(KeyCode::Up);
    let down = KeyEvent::plain(KeyCode::Down);
    assert_eq!(handle_normal_mode(down, &mut nav, &[]), Action::Ignore);
    assert_eq!(nav.cursor, Some(3));
    assert_eq!(handle_normal_mode(up, &mut nav, &[]), Action::Jump("/a".to_string()));
    assert_eq!(nav.cursor, None);
    assert_eq!(nav.history.index, 0);
    assert_eq!(nav.history.buffer.len(), 2);
    assert_eq!(handle_normal_mode(up, &mut nav, &[]), Action::Ignore);
    assert_eq!(handle_normal_mode(down, &mut nav, &[]), Action::Jump("/a/b".to_string()));
    assert_eq!(nav.history.index, 1);
}

#[test]
fn control_s_toggles_hidden_files_in_both_modes() {
    let dirs = dirs_named(&["src"]);
    let mut nav = Navigator::new(true);
    nav.cursor = Some(0);
    assert_eq!(nav.handle_key(ctrl('s'), KEYBINDS, &dirs), Action::Redraw);
    assert!(!nav.show_hidden);
    assert_eq!(nav.cursor, None);
    assert_eq!(nav.mode, Mode::Normal);

    let mut nav = selecting("s", 1, Some(4));
    assert_eq!(nav.handle_key(ctrl('s'), KEYBINDS, &dirs), Action::Redraw);
    assert!(!nav.show_hidden);
    assert_eq!(
        nav.mode,
        Mode::Select(SelectionState { prefix: "s".to_string(), page: 1, cursor: None })
    );
}

#[test]
fn plain_s_is_a_letter_like_any_other() {
    let dirs = dirs_named(&["src"]);
    let mut nav = Navigator::new(true);
    assert_eq!(nav.handle_key(key('s'), KEYBINDS, &dirs), Action::Enter("src".to_string()));
    assert!(nav.show_hidden);
}

#[test]
fn tilde_jumps_home_from_both_modes() {
    let mut nav = Navigator::new(true);
    nav.cursor = Some(1);
    let action = nav.handle_key(key('~'), KEYBINDS, &[]);
    assert_eq!(action, Action::Home);
    assert!(action.is_dirty());
    assert!(!action.has_terminated());
    assert_eq!(nav.cursor, None);

    let mut nav = selecting("a", 2, Some(3));
    assert_eq!(nav.handle_key(key('~'), KEYBINDS, &[]), Action::Home);
    assert_eq!(nav.mode, Mode::Normal);
    assert_eq!(nav.cursor, None);
}

#[test]
fn check_hidden_key_only_answers_to_control_s() {
    let mut show_hidden = true;
    let mut cursor = Some(2);
    assert!(!check_hidden_key(key('s'), 's', &mut show_hidden, &mut cursor));
    assert!(!check_hidden_key(ctrl('x'), 'x', &mut show_hidden, &mut cursor));
    assert_eq!((show_hidden, cursor), (true, Some(2)));
    assert!(check_hidden_key(ctrl('s'), 's', &mut show_hidden, &mut cursor));
    assert_eq!((show_hidden, cursor), (false, None));
    assert!(check_hidden_key(ctrl('s'), 's', &mut show_hidden, &mut cursor));
    assert_eq!((show_hidden, cursor), (true, None));
}

#[test]
fn check_home_key_only_answers_to_the_tilde() {
    let mut mode = Mode::Select(SelectionState { prefix: "a".to_string(), page: 0, cursor: None });
    let mut cursor = Some(2);
    assert!(!check_home_key('a', &mut mode, &mut cursor));
    assert!(mode.is_select());
    assert_eq!(cursor, Some(2));
    assert!(check_home_key('~', &mut mode, &mut cursor));
    assert_eq!(mode, Mode::Normal);
    assert_eq!(cursor, None);
}

#[test]
fn select_paging_commands_move_between_pages() {
    let dirs = numbered(25);
    let mut nav = selecting("d", 0, Some(3));
    assert_eq!(nav.handle_key(ctrl('f'), KEYBINDS, &dirs), Action::Redraw);
    assert_eq!(selection(&nav).page, 1);
    assert_eq!(selection(&nav).cursor, Some(0));
    assert_eq!(nav.handle_key(ctrl('f'), KEYBINDS, &dirs), Action::Redraw);
    assert_eq!(selection(&nav).page, 2);
    assert_eq!(nav.handle_key(ctrl('f'), KEYBINDS, &dirs), Action::Redraw);
    assert_eq!(selection(&nav).page, 2);
    assert_eq!(nav.handle_key(ctrl('b'), KEYBINDS, &dirs), Action::Redraw);
    assert_eq!(selection(&nav).page, 1);
    assert_eq!(nav.handle_key(ctrl('b'), KEYBINDS, &dirs), Action::Redraw);
    assert_eq!(nav.handle_key(ctrl('b'), KEYBINDS, &dirs), Action::Redraw);
    assert_eq!(selection(&nav).page, 0);
}

#[test]
fn select_page_forward_with_wrap_returns_to_the_first_page() {
    let dirs = numbered(25);
    let mut nav = selecting("d", 2, Some(1));
    assert_eq!(nav.handle_key(ctrl('n'), KEYBINDS, &dirs), Action::Redraw);
    assert_eq!(selection(&nav).page, 0);
    assert_eq!(selection(&nav).cursor, Some(0));
    assert_eq!(nav.handle_key(ctrl('n'), KEYBINDS, &dirs), Action::Redraw);
    assert_eq!(selection(&nav).page, 1);
}

#[test]
fn select_unknown_control_letter_is_ignored_but_rewinds_the_cursor() {
    let dirs = numbered(25);
    let mut nav = selecting("d", 1, Some(4));
    assert_eq!(nav.handle_key(ctrl('x'), KEYBINDS, &dirs), Action::Ignore);
    assert_eq!(
        nav.mode,
        Mode::Select(SelectionState { prefix: "d".to_string(), page: 1, cursor: Some(0) })
    );
}

#[test]
fn select_keybind_picks_the_row_of_the_current_page() {
    let dirs = numbered(25);
    let mut nav = selecting("d", 0, Some(0));
    assert_eq!(handle_select_mode(key('1'), &mut nav, KEYBINDS, &dirs), Action::Enter("d00".to_string()));
    assert_eq!(nav.mode, Mode::Normal);
    assert_eq!(nav.cursor, None);

    let mut nav = selecting("d", 1, Some(0));
    assert_eq!(handle_select_mode(key('3'), &mut nav, KEYBINDS, &dirs), Action::Enter("d12".to_string()));

    let mut nav = selecting("d", 1, Some(0));
    assert_eq!(handle_select_mode(key('0'), &mut nav, KEYBINDS, &dirs), Action::Enter("d19".to_string()));

    let mut nav = selecting("d", 2, Some(0));
    assert_eq!(handle_select_mode(key('5'), &mut nav, KEYBINDS, &dirs), Action::Enter("d24".to_string()));
}

#[test]
fn select_keybind_beyond_the_candidates_is_ignored() {
    let dirs = numbered(25);
    let mut nav = selecting("d", 2, Some(3));
    assert_eq!(handle_select_mode(key('6'), &mut nav, KEYBINDS, &dirs), Action::Ignore);
    assert_eq!(
        nav.mode,
        Mode::Select(SelectionState { prefix: "d".to_string(), page: 2, cursor: Some(0) })
    );
    let mut nav = selecting("d", usize::MAX, None);
    assert_eq!(handle_select_mode(key('1'), &mut nav, KEYBINDS, &dirs), Action::Ignore);
    assert!(nav.mode.is_select());
}

#[test]
fn select_other_letter_extends_the_prefix() {
    let dirs = numbered(25);
    let mut nav = selecting("d", 2, Some(3));
    assert_eq!(handle_select_mode(key('1'), &mut nav, "abc", &dirs), Action::Redraw);
    assert_eq!(
        nav.mode,
        Mode::Select(SelectionState { prefix: "d1".to_string(), page: 0, cursor: Some(0) })
    );
    assert_eq!(handle_select_mode(key('\u{e9}'), &mut nav, "abc", &dirs), Action::Redraw);
    assert_eq!(selection(&nav).prefix, "d1\u{e9}");
}

#[test]
fn select_backspace_shortens_the_prefix_then_leaves() {
    let dirs = dirs_named(&["alpha", "apple"]);
    let back = KeyEvent::plain(KeyCode::Backspace);
    let mut nav = selecting("a\u{e9}", 3, Some(2));
    assert_eq!(handle_select_mode(back, &mut nav, KEYBINDS, &dirs), Action::Redraw);
    assert_eq!(
        nav.mode,
        Mode::Select(SelectionState { prefix: "a".to_string(), page: 0, cursor: Some(0) })
    );
    assert_eq!(handle_select_mode(back, &mut nav, KEYBINDS, &dirs), Action::Redraw);
    assert_eq!(nav.mode, Mode::Normal);
    assert_eq!(nav.cursor, None);
}

#[test]
fn select_backspace_on_one_wide_character_leaves() {
    let back = KeyEvent::plain(KeyCode::Backspace);
    let mut nav = selecting("\u{e9}", 0, Some(0));
    assert_eq!(handle_select_mode(back, &mut nav, KEYBINDS, &[]), Action::Redraw);
    assert_eq!(nav.mode, Mode::Normal);
}

#[test]
fn select_escape_returns_to_normal_without_leaving_the_loop() {
    let dirs = dirs_named(&["alpha", "apple"]);
    let mut nav = selecting("a", 0, Some(1));
    let action = handle_select_mode(KeyEvent::plain(KeyCode::Esc), &mut nav, KEYBINDS, &dirs);
    assert_eq!(action, Action::Redraw);
    assert!(!action.has_terminated());
    assert_eq!(nav.mode, Mode::Normal);
    assert_eq!(nav.cursor, Some(1));
}

#[test]
fn select_enter_picks_cursor_plus_ten_per_page() {
    let dirs = numbered(25);
    let enter = KeyEvent::plain(KeyCode::Enter);
    let mut nav = selecting("d", 1, Some(2));
    assert_eq!(handle_select_mode(enter, &mut nav, KEYBINDS, &dirs), Action::Enter("d12".to_string()));
    assert_eq!(nav.mode, Mode::Normal);
    assert_eq!(nav.cursor, None);

    let mut nav = selecting("d", 2, None);
    assert_eq!(handle_select_mode(enter, &mut nav, KEYBINDS, &dirs), Action::Enter("d20".to_string()));

    let mut nav = selecting("d", 2, Some(7));
    assert_eq!(handle_select_mode(enter, &mut nav, KEYBINDS, &dirs), Action::Ignore);
    assert_eq!(
        nav.mode,
        Mode::Select(SelectionState { prefix: "d".to_string(), page: 2, cursor: Some(7) })
    );
}

#[test]
fn select_tab_cycles_within_the_rows_of_the_page() {
    let dirs = numbered(25);
    let tab = KeyEvent::plain(KeyCode::Tab);
    let mut nav = selecting("d", 2, Some(3));
    for expected in [4, 0, 1] {
        assert_eq!(handle_select_mode(tab, &mut nav, KEYBINDS, &dirs), Action::Redraw);
        assert_eq!(selection(&nav).cursor, Some(expected));
    }
    let mut nav = selecting("d", 1, Some(8));
    for expected in [9, 0] {
        assert_eq!(handle_select_mode(tab, &mut nav, KEYBINDS, &dirs), Action::Redraw);
        assert_eq!(selection(&nav).cursor, Some(expected));
    }
    let mut nav = selecting("d", 0, None);
    assert_eq!(handle_select_mode(tab, &mut nav, KEYBINDS, &dirs), Action::Redraw);
    assert_eq!(selection(&nav).cursor, Some(1));
}

#[test]
fn select_tab_on_a_page_without_rows_is_ignored() {
    let tab = KeyEvent::plain(KeyCode::Tab);
    let dirs = numbered(20);
    let mut nav = selecting("d", 2, Some(3));
    assert_eq!(handle_select_mode(tab, &mut nav, KEYBINDS, &dirs), Action::Ignore);
    assert_eq!(selection(&nav).cursor, Some(3));
    let mut nav = selecting("x", 0, Some(0));
    assert_eq!(handle_select_mode(tab, &mut nav, KEYBINDS, &dirs), Action::Ignore);
    let mut nav = selecting("", 0, Some(0));
    assert_eq!(handle_select_mode(tab, &mut nav, KEYBINDS, &[]), Action::Ignore);
}

#[test]
fn select_ignores_keys_without_binding() {
    let dirs = numbered(3);
    for code in [KeyCode::Up, KeyCode::Down, KeyCode::Other] {
        let mut nav = selecting("d", 0, Some(1));
        assert_eq!(handle_select_mode(KeyEvent::plain(code), &mut nav, KEYBINDS, &dirs), Action::Ignore);
        assert_eq!(nav, selecting("d", 0, Some(1)));
    }
}

#[test]
fn select_handler_does_nothing_in_normal_mode() {
    let dirs = numbered(3);
    let mut nav = Navigator::new(true);
    assert_eq!(handle_select_mode(key('d'), &mut nav, KEYBINDS, &dirs), Action::Ignore);
    assert_eq!(nav, Navigator::new(true));
}

#[test]
fn normal_ignores_keys_without_binding() {
    let mut nav = Navigator::new(true);
    assert_eq!(handle_normal_mode(KeyEvent::plain(KeyCode::Other), &mut nav, &numbered(3)), Action::Ignore);
    assert_eq!(nav, Navigator::new(true));
}

#[test]
fn visited_records_each_directory_once() {
    let mut nav = Navigator::new(true);
    nav.visited("/a");
    nav.visited("/a");
    nav.visited("/b");
    assert_eq!(nav.history.buffer, vec!["/a".to_string(), "/b".to_string()]);
    assert_eq!(nav.history.index, 1);
}

#[test]
fn shown_filters_hidden_entries_when_asked() {
    let entries = dirs_named(&[".git", "src"]);
    assert_eq!(Navigator::new(true).shown(&entries), entries);
    assert_eq!(Navigator::new(false).shown(&entries), dirs_named(&["src"]));
}

#[test]
fn debug_messages_report_the_state() {
    let mut nav = Navigator::new(true);
    nav.visited("/a");
    nav.visited("/b");
    nav.visited("/c");
    nav.history.go_up();
    assert_eq!(
        nav.debug_messages(),
        vec![
            "Show hidden files: true",
            "History index: 1",
            "History length: 3",
            "Cursor index: None",
        ]
    );
    let nav = selecting("a", 0, Some(12));
    assert_eq!(
        nav.debug_messages(),
        vec![
            "Show hidden files: true",
            "History index: 0",
            "History length: 0",
            "Cursor index: Some(12)",
        ]
    );
    let mut nav = Navigator::new(false);
    nav.cursor = Some(0);
    assert_eq!(nav.debug_messages()[0], "Show hidden files: false");
    assert_eq!(nav.debug_messages()[3], "Cursor index: Some(0)");
}

#[test]
fn actions_that_change_directory_are_dirty() {
    for action in [
        Action::Enter("a".to_string()),
        Action::Parent,
        Action::Home,
        Action::Jump("/a".to_string()),
        Action::Redraw,
    ] {
        assert!(action.is_dirty());
        assert!(!action.has_terminated());
    }
    assert!(!Action::Ignore.is_dirty());
    assert!(!Action::Ignore.has_terminated());
}

#[test]
fn destination_names_the_directory_to_change_to() {
    let home = Some("/home/u".to_string());
    assert_eq!(Action::Enter("src".to_string()).destination_from(&home), Ok(Some("src".to_string())));
    assert_eq!(Action::Parent.destination_from(&None), Ok(Some("..".to_string())));
    assert_eq!(Action::Jump("/a".to_string()).destination_from(&None), Ok(Some("/a".to_string())));
    assert_eq!(Action::Home.destination_from(&home), Ok(Some("/home/u".to_string())));
    for action in [Action::Ignore, Action::Redraw, Action::Confirm, Action::Cancel] {
        assert_eq!(action.destination_from(&home), Ok(None));
        assert_eq!(action.destination(), Ok(None));
    }
    assert_eq!(Action::Parent.destination(), Ok(Some("..".to_string())));
    assert_eq!(Action::Enter("src".to_string()).destination(), Ok(Some("src".to_string())));
}

#[test]
fn every_change_of_directory_is_recorded_but_a_step_through_the_history() {
    assert!(Action::Enter("a".to_string()).records_visit());
    assert!(Action::Parent.records_visit());
    assert!(Action::Home.records_visit());
    for action in [
        Action::Jump("/".to_string()),
        Action::Ignore,
        Action::Redraw,
        Action::Confirm,
        Action::Cancel,
    ] {
        assert!(!action.records_visit());
    }
}

#[test]
fn result_line_is_the_directory_or_a_dot() {
    assert_eq!(Action::Confirm.result_line("/work"), Some("/work".to_string()));
    assert_eq!(Action::Cancel.result_line("/work"), Some(".".to_string()));
    assert_eq!(Action::Redraw.result_line("/work"), None);
    assert_eq!(Action::Home.result_line("/work"), None);
}
