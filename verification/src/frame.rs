//! What a frame shows: the lines of each section of the interface, as
//! pieces of styled text.

use crate::char_map::{all_named, bucket_of, group_keys};
use crate::dir_util::{build_char_map, matching, names, starts_with, DirEntry};
use crate::history::{HistoryView, PathHistory};
use crate::icons::{icon_for_file, icon_of};
use crate::paging::{max_page, max_page_of};
use crate::style::{
    badge, colored, highlighted, piece, plain, underlined, Span, SpanView, Style, Tint,
};
use crate::text::{chars_of, chain, decimal, decimal_text, join, joined, single, text_of};
use vstd::prelude::*;
use vstd::string::StringExecFns;

verus! {

/// A line of a frame: pieces of styled text. A line without pieces is an
/// empty line.
pub type Line = Vec<Span>;

/// The colour itself where colours are in use, white where they are not.
pub open spec fn color_or_white(use_colors: bool, tint: Tint) -> Tint {
    if use_colors {
        tint
    } else {
        Tint::White
    }
}

/// The position in the history, as `[position/total]`; nothing at the most
/// recent entry.
pub open spec fn history_indicator(history: HistoryView) -> Seq<char> {
    if history.index + 1 == history.paths.len() {
        Seq::empty()
    } else {
        "["@ + decimal(history.index + 1) + "/"@ + decimal(history.paths.len()) + "]"@
    }
}

/// The first line: the working directory as a title, then the position in
/// the history.
pub open spec fn header_line(path: Seq<char>, history: HistoryView, use_colors: bool) -> Seq<
    SpanView,
> {
    seq![
        piece(" "@ + path + " "@, badge(color_or_white(use_colors, Tint::Blue))),
        piece(" "@, plain()),
        piece(history_indicator(history), colored(Tint::Blue)),
    ]
}

/// The debug panel: a title, one line for each message and an empty line;
/// nothing where there is no message.
pub open spec fn debug_lines(messages: Seq<Seq<char>>) -> Seq<Seq<SpanView>> {
    if messages.len() == 0 {
        Seq::empty()
    } else {
        seq![seq![piece(" Debug "@, badge(Tint::Cyan))]] + Seq::new(
            messages.len(),
            |i: int| seq![piece(messages[i], colored(Tint::Cyan))],
        ) + seq![Seq::<SpanView>::empty()]
    }
}

/// How one file is named in the summary of files.
pub open spec fn file_label(entry: DirEntry, use_icons: bool) -> Seq<char> {
    if use_icons {
        icon_of(entry) + " "@ + entry.name@
    } else {
        entry.name@
    }
}

/// The labels of `files`, in order.
pub open spec fn file_labels(files: Seq<DirEntry>, use_icons: bool) -> Seq<Seq<char>> {
    Seq::new(files.len(), |i: int| file_label(files[i], use_icons))
}

/// The summary of files: a title, which says so where there are none, and
/// the files.
pub open spec fn files_line(files: Seq<DirEntry>, use_icons: bool, use_colors: bool) -> Seq<
    SpanView,
> {
    let magenta = color_or_white(use_colors, Tint::Magenta);
    seq![
        piece(
            if files.len() == 0 {
                " No Files "@
            } else {
                " Files "@
            },
            badge(magenta),
        ),
        piece(" "@, plain()),
        piece(joined(file_labels(files, use_icons), "  "@), colored(magenta)),
    ]
}

/// The last line: the keys that end the interaction.
pub open spec fn help_line() -> Seq<SpanView> {
    seq![piece("<Esc> to cancel | <Enter> to change directory"@, plain())]
}

/// The colour itself where colours are in use, white where they are not.
pub fn tint_or_white(use_colors: bool, tint: Tint) -> (shown: Tint)
    ensures
        shown == color_or_white(use_colors, tint),
{
    if use_colors {
        tint
    } else {
        Tint::White
    }
}

/// The position in the history, as text.
pub fn history_text(history: &PathHistory) -> (text: String)
    ensures
        text@ == history_indicator(history@),
{
    let position = history.index as u128 + 1;
    let total = history.buffer.len() as u128;
    if position == total {
        return String::new();
    }
    let mut text = "[".to_owned();
    text.append(decimal_text(position).as_str());
    text.append("/");
    text.append(decimal_text(total).as_str());
    text.append("]");
    text
}

/// The first line of the frame.
pub fn header(path: &str, history: &PathHistory, use_colors: bool) -> (line: Line)
    ensures
        line.deep_view() == header_line(path@, history@, use_colors),
{
    let mut title = " ".to_owned();
    title.append(path);
    title.append(" ");
    vec![
        Span::new(title, Style::badge(tint_or_white(use_colors, Tint::Blue))),
        Span::plain(" "),
        Span::new(history_text(history), Style::colored(Tint::Blue)),
    ]
}

/// The debug panel.
pub fn debug_panel(messages: &Vec<String>) -> (lines: Vec<Line>)
    ensures
        lines.deep_view() == debug_lines(messages.deep_view()),
{
    let mut lines: Vec<Line> = Vec::new();
    if messages.len() == 0 {
        return lines;
    }
    let title = vec![Span::styled(" Debug ", Style::badge(Tint::Cyan))];
    assert(title.deep_view() =~= seq![piece(" Debug "@, badge(Tint::Cyan))]);
    lines.push(title);
    let ghost texts = messages.deep_view();
    let mut i: usize = 0;
    while i < messages.len()
        invariant
            i <= messages.len(),
            texts == messages.deep_view(),
            lines.deep_view() == seq![seq![piece(" Debug "@, badge(Tint::Cyan))]] + Seq::new(
                i as nat,
                |k: int| seq![piece(texts[k], colored(Tint::Cyan))],
            ),
        decreases messages.len() - i,
    {
        let line = vec![Span::styled(messages[i].as_str(), Style::colored(Tint::Cyan))];
        assert(line.deep_view() =~= seq![piece(texts[i as int], colored(Tint::Cyan))]);
        let ghost before = lines.deep_view();
        lines.push(line);
        assert(lines.deep_view() =~= before.push(line.deep_view()));
        i += 1;
    }
    let blank: Line = Vec::new();
    assert(blank.deep_view() =~= Seq::<SpanView>::empty());
    lines.push(blank);
    lines
}

/// The summary of files.
pub fn files_summary(files: &[DirEntry], use_icons: bool, use_colors: bool) -> (line: Line)
    ensures
        line.deep_view() == files_line(files@, use_icons, use_colors),
{
    let mut labels: Vec<String> = Vec::new();
    let mut i: usize = 0;
    while i < files.len()
        invariant
            i <= files.len(),
            labels.deep_view() == file_labels(files@.take(i as int), use_icons),
        decreases files.len() - i,
    {
        let label = if use_icons {
            let mut label = icon_for_file(&files[i]).to_owned();
            label.append(" ");
            label.append(files[i].name.as_str());
            label
        } else {
            files[i].name.clone()
        };
        let ghost before = labels.deep_view();
        labels.push(label);
        assert(labels.deep_view() =~= before.push(label@));
        i += 1;
    }
    assert(files@.take(files.len() as int) =~= files@);
    let magenta = tint_or_white(use_colors, Tint::Magenta);
    let title = if files.len() == 0 {
        " No Files "
    } else {
        " Files "
    };
    vec![
        Span::styled(title, Style::badge(magenta)),
        Span::plain(" "),
        Span::new(join(&labels, "  "), Style::colored(magenta)),
    ]
}

/// The last line of the frame.
pub fn help() -> (line: Line)
    ensures
        line.deep_view() == help_line(),
{
    vec![Span::plain("<Esc> to cancel | <Enter> to change directory")]
}

/// How the key of a row is shown: black on white where the row is
/// highlighted, white otherwise.
pub open spec fn key_style(highlight: bool) -> Style {
    if highlight {
        highlighted()
    } else {
        colored(Tint::White)
    }
}

/// Whether `cursor` points at row `row`.
pub open spec fn points_at(cursor: Option<usize>, row: int) -> bool {
    cursor matches Some(c) && c == row
}

/// The row of one bucket: its key, marked with `?` where several
/// directories share it, and the names of its directories.
pub open spec fn bucket_row(
    key: char,
    group: Seq<DirEntry>,
    highlight: bool,
    use_icons: bool,
    use_colors: bool,
) -> Seq<SpanView> {
    let listed = joined(names(group), " "@);
    if group.len() > 1 {
        seq![
            piece("["@, plain()),
            piece(seq![key], key_style(highlight)),
            piece("?] "@, plain()),
            piece(
                if use_icons {
                    "\u{f0253}  "@ + listed
                } else {
                    listed
                },
                colored(Tint::White),
            ),
        ]
    } else {
        seq![
            piece("["@, plain()),
            piece(seq![key], key_style(highlight)),
            piece("] "@, plain()),
            piece(
                if use_icons {
                    icon_of(group[0]) + "  "@ + listed
                } else {
                    listed
                },
                colored(color_or_white(use_colors, Tint::DarkYellow)),
            ),
        ]
    }
}

/// The rows of the buckets of `dirs`, in the order of their keys; none
/// where `dirs` cannot be grouped.
pub open spec fn bucket_rows(
    dirs: Seq<DirEntry>,
    cursor: Option<usize>,
    use_icons: bool,
    use_colors: bool,
) -> Seq<Seq<SpanView>> {
    if all_named(dirs) {
        Seq::new(
            group_keys(dirs).len(),
            |i: int|
                bucket_row(
                    group_keys(dirs)[i],
                    bucket_of(dirs, group_keys(dirs)[i]),
                    points_at(cursor, i),
                    use_icons,
                    use_colors,
                ),
        )
    } else {
        Seq::empty()
    }
}

/// The title of the Normal-mode listing, which says so where there is no
/// directory.
pub open spec fn directories_title(dirs: Seq<DirEntry>, use_colors: bool) -> Seq<SpanView> {
    seq![
        piece(
            if dirs.len() == 0 {
                " No Directories "@
            } else {
                " Directories "@
            },
            badge(color_or_white(use_colors, Tint::DarkYellow)),
        ),
    ]
}

/// The Normal-mode listing: the title, one row for each bucket, and an
/// empty line.
pub open spec fn normal_lines(
    dirs: Seq<DirEntry>,
    cursor: Option<usize>,
    use_icons: bool,
    use_colors: bool,
) -> Seq<Seq<SpanView>> {
    seq![directories_title(dirs, use_colors)] + bucket_rows(dirs, cursor, use_icons, use_colors)
        + seq![Seq::<SpanView>::empty()]
}

/// The names of `entries`, in order.
pub fn entry_names(entries: &[DirEntry]) -> (listed: Vec<String>)
    ensures
        listed.deep_view() == names(entries@),
{
    let mut listed: Vec<String> = Vec::new();
    let mut i: usize = 0;
    while i < entries.len()
        invariant
            i <= entries.len(),
            listed.deep_view() == names(entries@.take(i as int)),
        decreases entries.len() - i,
    {
        let ghost before = listed.deep_view();
        let name = entries[i].name.clone();
        listed.push(name);
        assert(listed.deep_view() =~= before.push(name@));
        i += 1;
    }
    listed
}

/// A highlighted key where `highlight` says so, a white one otherwise.
fn key_span(text: String, highlight: bool) -> (span: Span)
    ensures
        span.deep_view() == piece(text@, key_style(highlight)),
{
    if highlight {
        Span::new(text, Style::highlighted())
    } else {
        Span::new(text, Style::colored(Tint::White))
    }
}

/// Whether `cursor` points at row `row`.
fn is_at(cursor: &Option<usize>, row: usize) -> (at: bool)
    ensures
        at == points_at(*cursor, row as int),
{
    match cursor {
        Some(c) => *c == row,
        None => false,
    }
}

/// The row of the bucket with key `key` that holds `group`.
pub fn bucket_line(
    key: char,
    group: &[DirEntry],
    highlight: bool,
    use_icons: bool,
    use_colors: bool,
) -> (line: Line)
    requires
        group@.len() > 0,
    ensures
        line.deep_view() == bucket_row(key, group@, highlight, use_icons, use_colors),
{
    let listed = join(&entry_names(group), " ");
    let line = if group.len() > 1 {
        let shown = if use_icons {
            chain("\u{f0253}  ", listed.as_str())
        } else {
            listed
        };
        vec![
            Span::plain("["),
            key_span(single(key), highlight),
            Span::plain("?] "),
            Span::new(shown, Style::colored(Tint::White)),
        ]
    } else {
        let shown = if use_icons {
            let mut shown = icon_for_file(&group[0]).to_owned();
            shown.append("  ");
            shown.append(listed.as_str());
            shown
        } else {
            listed
        };
        vec![
            Span::plain("["),
            key_span(single(key), highlight),
            Span::plain("] "),
            Span::new(shown, Style::colored(tint_or_white(use_colors, Tint::DarkYellow))),
        ]
    };
    line
}

/// The Normal-mode listing of `dirs`, with the bucket at `cursor_index`
/// highlighted.
pub fn normal_listing(
    dirs: &[DirEntry],
    cursor_index: &Option<usize>,
    use_icons: bool,
    use_colors: bool,
) -> (lines: Vec<Line>)
    ensures
        lines.deep_view() == normal_lines(dirs@, *cursor_index, use_icons, use_colors),
{
    let title_text = if dirs.len() == 0 {
        " No Directories "
    } else {
        " Directories "
    };
    let title = vec![
        Span::styled(title_text, Style::badge(tint_or_white(use_colors, Tint::DarkYellow))),
    ];
    assert(title.deep_view() =~= directories_title(dirs@, use_colors));
    let mut lines: Vec<Line> = Vec::new();
    lines.push(title);
    let ghost rows = bucket_rows(dirs@, *cursor_index, use_icons, use_colors);
    if let Some(map) = build_char_map(dirs) {
        let buckets = map.in_order();
        let mut i: usize = 0;
        while i < buckets.len()
            invariant
                i <= buckets@.len(),
                all_named(dirs@),
                buckets@.len() == group_keys(dirs@).len(),
                forall|k: int|
                    0 <= k < buckets@.len() ==> {
                        &&& (#[trigger] buckets@[k]).key == group_keys(dirs@)[k]
                        &&& buckets@[k].entries@ == bucket_of(dirs@, group_keys(dirs@)[k])
                        &&& buckets@[k].entries@.len() > 0
                    },
                rows == bucket_rows(dirs@, *cursor_index, use_icons, use_colors),
                lines.deep_view() == seq![directories_title(dirs@, use_colors)] + rows.take(
                    i as int,
                ),
            decreases buckets@.len() - i,
        {
            let bucket = buckets[i];
            let line = bucket_line(
                bucket.key,
                bucket.entries.as_slice(),
                is_at(cursor_index, i),
                use_icons,
                use_colors,
            );
            let ghost before = lines.deep_view();
            lines.push(line);
            assert(lines.deep_view() =~= before.push(line.deep_view()));
            i += 1;
        }
    }
    let blank: Line = Vec::new();
    assert(blank.deep_view() =~= Seq::<SpanView>::empty());
    let ghost before = lines.deep_view();
    lines.push(blank);
    assert(lines.deep_view() =~= before.push(blank.deep_view()));
    lines
}

/// The symbol in front of row `row` of a page: the keybind of that row, or
/// an ellipsis where the keybinds run out.
pub open spec fn keybind_label(keybinds: Seq<char>, row: int) -> Seq<char> {
    if 0 <= row < keybinds.len() {
        seq![keybinds[row]]
    } else {
        "..."@
    }
}

/// What follows the first `typed` characters of `name`.
pub open spec fn remainder(name: Seq<char>, typed: nat) -> Seq<char> {
    if typed <= name.len() {
        name.skip(typed as int)
    } else {
        Seq::empty()
    }
}

/// The row of one candidate: its keybind, then the prefix, underlined, and
/// the rest of its name.
pub open spec fn candidate_row(
    entry: DirEntry,
    prefix: Seq<char>,
    label: Seq<char>,
    highlight: bool,
    use_icons: bool,
    use_colors: bool,
) -> Seq<SpanView> {
    let green = color_or_white(use_colors, Tint::DarkGreen);
    seq![
        piece("["@, plain()),
        piece(label, key_style(highlight)),
        piece("] "@, plain()),
        piece(
            if use_icons {
                icon_of(entry) + "  "@
            } else {
                Seq::empty()
            },
            colored(green),
        ),
        piece(prefix, underlined(green)),
        piece(remainder(entry.name@, prefix.len()), colored(green)),
    ]
}

/// Where the page `page` begins among `n` candidates: at its first
/// candidate, or at the end where the page holds none.
pub open spec fn page_start(n: nat, page: nat) -> nat {
    if page * 10 < n {
        page * 10
    } else {
        n
    }
}

/// Where the page that begins at `start` ends among `n` candidates.
pub open spec fn page_end(n: nat, start: nat) -> nat {
    if start + 10 < n {
        start + 10
    } else {
        n
    }
}

/// The candidates that the page `page` leaves out, in order.
pub open spec fn off_page(found: Seq<DirEntry>, page: nat) -> Seq<DirEntry> {
    let start = page_start(found.len(), page);
    found.take(start as int) + found.skip(page_end(found.len(), start) as int)
}

/// The rows of the candidates on the page `page`.
pub open spec fn candidate_rows(
    found: Seq<DirEntry>,
    prefix: Seq<char>,
    page: nat,
    cursor: usize,
    keybinds: Seq<char>,
    use_icons: bool,
    use_colors: bool,
) -> Seq<Seq<SpanView>> {
    let start = page_start(found.len(), page);
    let end = page_end(found.len(), start);
    Seq::new(
        (end - start) as nat,
        |i: int|
            candidate_row(
                found[start + i],
                prefix,
                keybind_label(keybinds, i),
                cursor == i,
                use_icons,
                use_colors,
            ),
    )
}

/// The lines below the candidates where they fill more than one page: the
/// candidates on other pages, and the page indicator. Nothing where one
/// page holds them all.
pub open spec fn page_footer(found: Seq<DirEntry>, page: nat, use_colors: bool) -> Seq<
    Seq<SpanView>,
> {
    if max_page_of(found.len()) > 0 {
        seq![
            seq![
                piece("Other Directories: "@ + joined(names(off_page(found, page)), " "@), plain()),
            ],
            seq![
                piece(
                    " Page ["@ + decimal(page + 1) + "/"@ + decimal(max_page_of(found.len()) + 1)
                        + "] "@,
                    badge(color_or_white(use_colors, Tint::DarkGreen)),
                ),
                piece(" <C-f> page forward | <C-b> page backward"@, plain()),
            ],
        ]
    } else {
        Seq::empty()
    }
}

/// The title of the Select-mode listing.
pub open spec fn select_title(prefix: Seq<char>, use_colors: bool) -> Seq<SpanView> {
    seq![
        piece(
            " Select ["@ + prefix + "] "@,
            badge(color_or_white(use_colors, Tint::DarkGreen)),
        ),
    ]
}

/// The Select-mode listing: the title, one row for each candidate of the
/// page, the footer where there are several pages, and an empty line.
pub open spec fn select_lines(
    dirs: Seq<DirEntry>,
    prefix: Seq<char>,
    page: usize,
    cursor: usize,
    keybinds: Seq<char>,
    use_icons: bool,
    use_colors: bool,
) -> Seq<Seq<SpanView>> {
    let found = matching(dirs, prefix);
    seq![select_title(prefix, use_colors)] + candidate_rows(
        found,
        prefix,
        page as nat,
        cursor,
        keybinds,
        use_icons,
        use_colors,
    ) + page_footer(found, page as nat, use_colors) + seq![Seq::<SpanView>::empty()]
}

/// The row of the candidate `entry`, of whose name the first `typed`
/// characters are `prefix`.
pub fn candidate_line(
    entry: &DirEntry,
    prefix: &str,
    label: String,
    highlight: bool,
    use_icons: bool,
    use_colors: bool,
) -> (line: Line)
    ensures
        line.deep_view() == candidate_row(
            *entry,
            prefix@,
            label@,
            highlight,
            use_icons,
            use_colors,
        ),
{
    let green = tint_or_white(use_colors, Tint::DarkGreen);
    let icon = if use_icons {
        chain(icon_for_file(entry), "  ")
    } else {
        String::new()
    };
    let typed = prefix.unicode_len();
    let name = chars_of(entry.name.as_str());
    let rest = if typed <= name.len() {
        text_of(vstd::slice::slice_subrange(name.as_slice(), typed, name.len()))
    } else {
        String::new()
    };
    vec![
        Span::plain("["),
        key_span(label, highlight),
        Span::plain("] "),
        Span::new(icon, Style::colored(green)),
        Span::styled(prefix, Style::underlined(green)),
        Span::new(rest, Style::colored(green)),
    ]
}

/// Where the page `page` begins and ends among `n` candidates.
pub fn page_bounds(n: usize, page: usize) -> (bounds: (usize, usize))
    ensures
        bounds.0 == page_start(n as nat, page as nat),
        bounds.1 == page_end(n as nat, bounds.0 as nat),
        bounds.0 <= bounds.1 <= n,
{
    let start = if n > 0 && page <= max_page(n) {
        page * 10
    } else {
        n
    };
    let end = if n - start > 10 {
        start + 10
    } else {
        n
    };
    (start, end)
}

/// The rows of the candidates that stand from `start` up to `end`.
fn candidate_lines(
    found: &Vec<DirEntry>,
    start: usize,
    end: usize,
    prefix: &str,
    cursor_index: usize,
    keybinds: &str,
    use_icons: bool,
    use_colors: bool,
) -> (lines: Vec<Line>)
    requires
        start <= end <= found@.len(),
    ensures
        lines.deep_view() == Seq::new(
            (end - start) as nat,
            |i: int|
                candidate_row(
                    found@[start + i],
                    prefix@,
                    keybind_label(keybinds@, i),
                    cursor_index == i,
                    use_icons,
                    use_colors,
                ),
        ),
{
    let symbols = chars_of(keybinds);
    let ghost rows = Seq::new(
        (end - start) as nat,
        |i: int|
            candidate_row(
                found@[start + i],
                prefix@,
                keybind_label(keybinds@, i),
                cursor_index == i,
                use_icons,
                use_colors,
            ),
    );
    let mut lines: Vec<Line> = Vec::new();
    let mut i: usize = 0;
    while i < end - start
        invariant
            start <= end <= found@.len(),
            i <= end - start,
            symbols@ == keybinds@,
            rows.len() == end - start,
            forall|k: int|
                0 <= k < end - start ==> #[trigger] rows[k] == candidate_row(
                    found@[start + k],
                    prefix@,
                    keybind_label(keybinds@, k),
                    cursor_index == k,
                    use_icons,
                    use_colors,
                ),
            lines.deep_view() == rows.take(i as int),
        decreases end - start - i,
    {
        let label = if i < symbols.len() {
            single(symbols[i])
        } else {
            "...".to_owned()
        };
        let line = candidate_line(
            &found[start + i],
            prefix,
            label,
            cursor_index == i,
            use_icons,
            use_colors,
        );
        lines.push(line);
        assert(rows.take(i + 1) =~= rows.take(i as int).push(rows[i as int]));
        i += 1;
    }
    lines
}

/// The candidates before `start` and from `end` on.
fn outside(found: &Vec<DirEntry>, start: usize, end: usize) -> (others: Vec<DirEntry>)
    requires
        start <= end <= found@.len(),
    ensures
        others@ == found@.take(start as int) + found@.skip(end as int),
{
    let n = found.len();
    let mut others: Vec<DirEntry> = Vec::new();
    let mut k: usize = 0;
    while k < start
        invariant
            k <= start <= n,
            n == found@.len(),
            others@ == found@.take(k as int),
        decreases start - k,
    {
        others.push(found[k].clone());
        k += 1;
    }
    let mut k: usize = end;
    while k < n
        invariant
            start <= end <= k <= n,
            n == found@.len(),
            others@ == found@.take(start as int) + found@.subrange(end as int, k as int),
        decreases n - k,
    {
        others.push(found[k].clone());
        k += 1;
    }
    others
}

/// The lines below the candidates of the page `page`.
fn footer(found: &Vec<DirEntry>, page: usize, use_colors: bool) -> (lines: Vec<Line>)
    ensures
        lines.deep_view() == page_footer(found@, page as nat, use_colors),
{
    let mut lines: Vec<Line> = Vec::new();
    let last_page = max_page(found.len());
    if last_page == 0 {
        return lines;
    }
    let (start, end) = page_bounds(found.len(), page);
    let others = outside(found, start, end);
    let summary = chain(
        "Other Directories: ",
        join(&entry_names(others.as_slice()), " ").as_str(),
    );
    let summary_line = vec![Span::new(summary, Style::plain())];
    let mut indicator = " Page [".to_owned();
    indicator.append(decimal_text(page as u128 + 1).as_str());
    indicator.append("/");
    indicator.append(decimal_text(last_page as u128 + 1).as_str());
    indicator.append("] ");
    let indicator_line = vec![
        Span::new(indicator, Style::badge(tint_or_white(use_colors, Tint::DarkGreen))),
        Span::plain(" <C-f> page forward | <C-b> page backward"),
    ];
    proof {
        let wanted = page_footer(found@, page as nat, use_colors);
        assert(summary_line.deep_view() =~= wanted[0]);
        assert(indicator_line.deep_view() =~= wanted[1]);
    }
    lines.push(summary_line);
    lines.push(indicator_line);
    lines
}

/// The Select-mode listing of the directories of `dirs` that begin with
/// `prefix`: the page `current_page`, with the row `cursor_index`
/// highlighted.
pub fn select_listing(
    dirs: &[DirEntry],
    prefix: &str,
    current_page: usize,
    cursor_index: usize,
    keybinds: &str,
    use_icons: bool,
    use_colors: bool,
) -> (lines: Vec<Line>)
    ensures
        lines.deep_view() == select_lines(
            dirs@,
            prefix@,
            current_page,
            cursor_index,
            keybinds@,
            use_icons,
            use_colors,
        ),
{
    let mut title_text = " Select [".to_owned();
    title_text.append(prefix);
    title_text.append("] ");
    let title = vec![
        Span::new(title_text, Style::badge(tint_or_white(use_colors, Tint::DarkGreen))),
    ];
    assert(title.deep_view() =~= select_title(prefix@, use_colors));
    let found = starts_with(dirs, prefix);
    let (start, end) = page_bounds(found.len(), current_page);
    let mut rows = candidate_lines(
        &found,
        start,
        end,
        prefix,
        cursor_index,
        keybinds,
        use_icons,
        use_colors,
    );
    let mut below = footer(&found, current_page, use_colors);
    let blank: Line = Vec::new();
    assert(blank.deep_view() =~= Seq::<SpanView>::empty());
    let ghost shown_rows = rows.deep_view();
    let ghost shown_below = below.deep_view();
    let mut lines: Vec<Line> = Vec::new();
    lines.push(title);
    lines.append(&mut rows);
    lines.append(&mut below);
    lines.push(blank);
    assert(lines.deep_view() =~= seq![select_title(prefix@, use_colors)] + shown_rows
        + shown_below + seq![Seq::<SpanView>::empty()]);
    lines
}

/// Candidates that fill no more than one page are shown without the line
/// of other directories and without the page indicator.
pub proof fn lemma_one_page_has_no_footer(found: Seq<DirEntry>, page: nat, use_colors: bool)
    ensures
        found.len() <= 10 ==> page_footer(found, page, use_colors).len() == 0,
        found.len() > 10 ==> page_footer(found, page, use_colors).len() == 2,
{
}

} // verus!
