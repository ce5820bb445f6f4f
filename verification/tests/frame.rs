use dirnav::dir_util::DirEntry;
use dirnav::frame::{
    bucket_line, candidate_line, debug_panel, entry_names, files_summary, header, help,
    history_text, normal_listing, page_bounds, select_listing, tint_or_white, Line,
};
use dirnav::history::PathHistory;
use dirnav::icons::icon_for_file;
use dirnav::style::{framed, render, Span, Style, Tint};

const KEYBINDS: &str = "1234567890";

fn dirs_named(names: &[&str]) -> Vec<DirEntry> {
    names.iter().map(|n| DirEntry::new(n, true)).collect()
}

fn numbered(count: usize) -> Vec<DirEntry> {
    (0..count).map(|i| DirEntry::new(&format!("d{:02}", i), true)).collect()
}

fn text_of_line(line: &Line) -> String {
    line.iter().map(|span| span.text.as_str()).collect()
}

fn texts(lines: &[Line]) -> Vec<String> {
    lines.iter().map(text_of_line).collect()
}

fn white() -> Style {
    Style::colored(Tint::White)
}

#[test]
fn tint_or_white_follows_the_switch() {
    assert_eq!(tint_or_white(true, Tint::Blue), Tint::Blue);
    assert_eq!(tint_or_white(false, Tint::Blue), Tint::White);
    assert_eq!(tint_or_white(false, Tint::White), Tint::White);
}

#[test]
fn styles_are_what_their_names_say() {
    assert_eq!(
        Style::plain(),
        Style { foreground: None, background: None, bold: false, underlined: false }
    );
    assert_eq!(
        Style::colored(Tint::Cyan),
        Style { foreground: Some(Tint::Cyan), background: None, bold: false, underlined: false }
    );
    assert_eq!(
        Style::badge(Tint::Blue),
        Style {
            foreground: Some(Tint::Black),
            background: Some(Tint::Blue),
            bold: true,
            underlined: false
        }
    );
    assert_eq!(
        Style::highlighted(),
        Style {
            foreground: Some(Tint::Black),
            background: Some(Tint::White),
            bold: false,
            underlined: false
        }
    );
    assert_eq!(
        Style::underlined(Tint::DarkGreen),
        Style {
            foreground: Some(Tint::DarkGreen),
            background: None,
            bold: false,
            underlined: true
        }
    );
}

#[test]
fn history_indicator_is_blank_at_the_most_recent_entry() {
    let mut history = PathHistory::new();
    history.push("/a");
    assert_eq!(history_text(&history), "");
    history.push("/b");
    history.push("/c");
    assert_eq!(history_text(&history), "");
    history.go_up();
    assert_eq!(history_text(&history), "[2/3]");
    history.go_up();
    assert_eq!(history_text(&history), "[1/3]");
}

#[test]
fn history_indicator_of_an_empty_history_shows_the_position() {
    assert_eq!(history_text(&PathHistory::new()), "[1/0]");
}

#[test]
fn header_shows_the_path_as_a_badge_and_the_history_in_blue() {
    let mut history = PathHistory::new();
    history.push("/a");
    history.push("/b");
    history.go_up();
    assert_eq!(
        header("~/src", &history, true),
        vec![
            Span::styled(" ~/src ", Style::badge(Tint::Blue)),
            Span::plain(" "),
            Span::styled("[1/2]", Style::colored(Tint::Blue)),
        ]
    );
    assert_eq!(
        header("/", &history, false),
        vec![
            Span::styled(" / ", Style::badge(Tint::White)),
            Span::plain(" "),
            Span::styled("[1/2]", Style::colored(Tint::Blue)),
        ]
    );
}

#[test]
fn debug_panel_is_absent_without_messages() {
    assert!(debug_panel(&vec![]).is_empty());
}

#[test]
fn debug_panel_lists_the_messages_under_a_title() {
    let lines = debug_panel(&vec!["one".to_string(), "two".to_string()]);
    assert_eq!(
        lines,
        vec![
            vec![Span::styled(" Debug ", Style::badge(Tint::Cyan))],
            vec![Span::styled("one", Style::colored(Tint::Cyan))],
            vec![Span::styled("two", Style::colored(Tint::Cyan))],
            vec![],
        ]
    );
}

#[test]
fn files_summary_says_when_there_are_no_files() {
    assert_eq!(
        files_summary(&[], false, true),
        vec![
            Span::styled(" No Files ", Style::badge(Tint::Magenta)),
            Span::plain(" "),
            Span::styled("", Style::colored(Tint::Magenta)),
        ]
    );
}

#[test]
fn files_summary_lists_the_files_two_spaces_apart() {
    let files = vec![DirEntry::new("a.rs", false), DirEntry::new("b", false)];
    assert_eq!(
        files_summary(&files, false, true),
        vec![
            Span::styled(" Files ", Style::badge(Tint::Magenta)),
            Span::plain(" "),
            Span::styled("a.rs  b", Style::colored(Tint::Magenta)),
        ]
    );
    let with_icons = files_summary(&files, true, false);
    assert_eq!(with_icons[0], Span::styled(" Files ", Style::badge(Tint::White)));
    assert_eq!(
        with_icons[2].text,
        format!("{} a.rs  {} b", icon_for_file(&files[0]), icon_for_file(&files[1]))
    );
    assert_eq!(with_icons[2].style, Style::colored(Tint::White));
}

#[test]
fn help_names_the_keys_that_end_the_interaction() {
    assert_eq!(help(), vec![Span::plain("<Esc> to cancel | <Enter> to change directory")]);
}

#[test]
fn entry_names_keeps_order() {
    assert_eq!(entry_names(&dirs_named(&["b", "a", ""])), vec!["b", "a", ""]);
}

#[test]
fn bucket_line_marks_shared_keys() {
    let shared = dirs_named(&["alpha", "apple"]);
    assert_eq!(
        bucket_line('a', &shared, false, false, true),
        vec![
            Span::plain("["),
            Span::styled("a", white()),
            Span::plain("?] "),
            Span::styled("alpha apple", white()),
        ]
    );
    assert_eq!(
        bucket_line('a', &shared, true, true, true),
        vec![
            Span::plain("["),
            Span::styled("a", Style::highlighted()),
            Span::plain("?] "),
            Span::styled("\u{f0253}  alpha apple", white()),
        ]
    );
}

#[test]
fn bucket_line_of_one_directory_is_shown_in_yellow() {
    let single = dirs_named(&["banana"]);
    assert_eq!(
        bucket_line('b', &single, false, false, true),
        vec![
            Span::plain("["),
            Span::styled("b", white()),
            Span::plain("] "),
            Span::styled("banana", Style::colored(Tint::DarkYellow)),
        ]
    );
    let with_icon = bucket_line('b', &single, true, true, false);
    assert_eq!(with_icon[1], Span::styled("b", Style::highlighted()));
    assert_eq!(with_icon[3].text, format!("{}  banana", icon_for_file(&single[0])));
    assert_eq!(with_icon[3].style, white());
}

#[test]
fn normal_listing_of_an_empty_directory_shows_the_no_directories_label() {
    let lines = normal_listing(&[], &None, false, true);
    assert_eq!(
        lines,
        vec![vec![Span::styled(" No Directories ", Style::badge(Tint::DarkYellow))], vec![]]
    );
}

#[test]
fn normal_listing_has_one_row_for_each_first_character() {
    let dirs = dirs_named(&["alpha", "apple", "banana"]);
    let lines = normal_listing(&dirs, &Some(1), false, true);
    assert_eq!(texts(&lines), vec![" Directories ", "[a?] alpha apple", "[b] banana", ""]);
    assert_eq!(lines[1][1].style, white());
    assert_eq!(lines[2][1].style, Style::highlighted());
    assert!(lines[3].is_empty());
}

#[test]
fn normal_listing_without_grouping_shows_only_the_title() {
    let dirs = dirs_named(&["alpha", ""]);
    assert_eq!(texts(&normal_listing(&dirs, &None, false, true)), vec![" Directories ", ""]);
}

#[test]
fn page_bounds_clamp_to_the_candidates() {
    assert_eq!(page_bounds(25, 0), (0, 10));
    assert_eq!(page_bounds(25, 1), (10, 20));
    assert_eq!(page_bounds(25, 2), (20, 25));
    assert_eq!(page_bounds(25, 3), (25, 25));
    assert_eq!(page_bounds(10, 0), (0, 10));
    assert_eq!(page_bounds(10, 1), (10, 10));
    assert_eq!(page_bounds(0, 0), (0, 0));
    assert_eq!(page_bounds(7, usize::MAX), (7, 7));
}

#[test]
fn candidate_line_underlines_the_prefix() {
    let entry = DirEntry::new("alpha", true);
    assert_eq!(
        candidate_line(&entry, "al", "1".to_string(), false, false, true),
        vec![
            Span::plain("["),
            Span::styled("1", white()),
            Span::plain("] "),
            Span::styled("", Style::colored(Tint::DarkGreen)),
            Span::styled("al", Style::underlined(Tint::DarkGreen)),
            Span::styled("pha", Style::colored(Tint::DarkGreen)),
        ]
    );
    let line = candidate_line(&DirEntry::new("\u{e9}t\u{e9}", true), "\u{e9}", "...".to_string(), true, true, false);
    assert_eq!(line[1], Span::styled("...", Style::highlighted()));
    assert_eq!(line[3].text, format!("{}  ", icon_for_file(&entry)));
    assert_eq!(line[4], Span::styled("\u{e9}", Style::underlined(Tint::White)));
    assert_eq!(line[5], Span::styled("t\u{e9}", Style::colored(Tint::White)));
}

#[test]
fn candidate_line_of_a_name_shorter_than_the_prefix_has_no_remainder() {
    let line = candidate_line(&DirEntry::new("a", true), "abc", "1".to_string(), false, false, true);
    assert_eq!(line[5].text, "");
}

#[test]
fn select_listing_with_exactly_ten_matches_has_one_page_and_no_page_indicator() {
    let lines = select_listing(&numbered(10), "d", 0, 0, KEYBINDS, false, true);
    let shown = texts(&lines);
    assert_eq!(shown.len(), 12);
    assert_eq!(shown[0], " Select [d] ");
    assert_eq!(shown[1], "[1] d00");
    assert_eq!(shown[10], "[0] d09");
    assert_eq!(shown[11], "");
    assert!(shown.iter().all(|line| !line.contains("Page")));
    assert!(shown.iter().all(|line| !line.contains("Other Directories")));
    assert_eq!(lines[0], vec![Span::styled(" Select [d] ", Style::badge(Tint::DarkGreen))]);
    assert_eq!(lines[1][1].style, Style::highlighted());
    assert_eq!(lines[2][1].style, white());
}

#[test]
fn select_listing_with_eleven_matches_shows_the_page_indicator() {
    let lines = select_listing(&numbered(11), "d", 0, 3, KEYBINDS, false, false);
    let shown = texts(&lines);
    assert_eq!(shown.len(), 14);
    assert_eq!(shown[11], "Other Directories: d10");
    assert_eq!(shown[12], " Page [1/2]  <C-f> page forward | <C-b> page backward");
    assert_eq!(shown[13], "");
    assert_eq!(lines[12][0], Span::styled(" Page [1/2] ", Style::badge(Tint::White)));
    assert_eq!(lines[4][1].style, Style::highlighted());
}

#[test]
fn select_listing_of_a_later_page_lists_the_other_pages() {
    let lines = select_listing(&numbered(25), "d", 1, 0, KEYBINDS, false, true);
    let shown = texts(&lines);
    assert_eq!(shown.len(), 14);
    assert_eq!(shown[1], "[1] d10");
    assert_eq!(shown[10], "[0] d19");
    assert_eq!(
        shown[11],
        "Other Directories: d00 d01 d02 d03 d04 d05 d06 d07 d08 d09 d20 d21 d22 d23 d24"
    );
    assert_eq!(shown[12], " Page [2/3]  <C-f> page forward | <C-b> page backward");

    let last = texts(&select_listing(&numbered(25), "d", 2, 0, KEYBINDS, false, true));
    assert_eq!(last.len(), 9);
    assert_eq!(last[5], "[5] d24");
}

#[test]
fn select_listing_of_a_page_beyond_the_last_has_no_rows() {
    let shown = texts(&select_listing(&numbered(25), "d", 9, 0, KEYBINDS, false, true));
    assert_eq!(shown.len(), 4);
    assert_eq!(shown[0], " Select [d] ");
    assert!(shown[1].starts_with("Other Directories: d00 d01"));
    assert_eq!(shown[2], " Page [10/3]  <C-f> page forward | <C-b> page backward");
    let none = texts(&select_listing(&numbered(3), "x", 0, 0, KEYBINDS, false, true));
    assert_eq!(none, vec![" Select [x] ", ""]);
}

#[test]
fn select_listing_shows_an_ellipsis_where_the_keybinds_run_out() {
    let shown = texts(&select_listing(&numbered(4), "d", 0, 9, "ab", false, true));
    assert_eq!(shown, vec![" Select [d] ", "[a] d00", "[b] d01", "[...] d02", "[...] d03", ""]);
}

#[test]
fn rendering_keeps_the_visible_text() {
    let line = vec![
        Span::styled(" title ", Style::badge(Tint::Blue)),
        Span::plain(" "),
        Span::styled("name", Style::underlined(Tint::DarkGreen)),
    ];
    let rendered = render(&line);
    assert_eq!(strip_ansi_escapes::strip_str(&rendered), " title  name");
    assert_eq!(render(&vec![]), "");
}

#[test]
fn rendering_one_piece_keeps_its_text() {
    assert_eq!(strip_ansi_escapes::strip_str(render(&vec![Span::plain("abc")])), "abc");
    let painted = render(&vec![Span::styled("abc", Style::badge(Tint::Cyan))]);
    assert!(painted.contains("abc"));
    assert_eq!(strip_ansi_escapes::strip_str(&painted), "abc");
}

#[test]
fn framed_keeps_a_styled_text_that_holds_the_text() {
    assert_eq!(framed("\u{1b}[1mabc\u{1b}[0m".to_string(), "abc"), "\u{1b}[1mabc\u{1b}[0m");
    assert_eq!(framed("abc".to_string(), "abc"), "abc");
    assert_eq!(framed("\u{1b}[1m\u{1b}[0m".to_string(), ""), "\u{1b}[1m\u{1b}[0m");
}

#[test]
fn framed_falls_back_to_the_text_where_the_styled_text_leaves_it_out() {
    assert_eq!(framed(String::new(), "abc"), "abc");
    assert_eq!(framed("\u{1b}[1mab\u{1b}[0m".to_string(), "abc"), "abc");
}

#[test]
fn rendering_holds_the_text_of_each_piece_in_order() {
    let line = vec![
        Span::styled("first", Style::badge(Tint::Blue)),
        Span::plain("second"),
        Span::styled("third", Style::underlined(Tint::DarkGreen)),
    ];
    let rendered = render(&line);
    let first = rendered.find("first").unwrap();
    let second = rendered.find("second").unwrap();
    let third = rendered.find("third").unwrap();
    assert!(first < second && second < third);
}
