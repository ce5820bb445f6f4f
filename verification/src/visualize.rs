//! The renderer: it composes the frame for the current state and queues it
//! on the screen, on top of the frame painted before.

use crate::dir_util::DirEntry;
use crate::frame::{
    debug_lines, debug_panel, files_line, files_summary, header, header_line, help, help_line,
    normal_lines, normal_listing, select_lines, select_listing, tint_or_white, Line,
};
use crate::history::{HistoryView, PathHistory};
use crate::home::home_directory;
use crate::mode::{Mode, ModeView};
use crate::screen::{Screen, ScreenView, TermOp, TermOpView};
use crate::style::{render, renders, SpanView, Tint};
use crate::text::{chars_of, chain, has_prefix, text_of};
use vstd::prelude::*;
use vstd::view::View as _;

verus! {

/// What is left of `path` below the directory `base`: nothing where they
/// are the same, the path from `base` on where `path` lies under it, and
/// `None` where it does not.
pub open spec fn below(path: Seq<char>, base: Seq<char>) -> Option<Seq<char>> {
    if base.len() > 0 && base.is_prefix_of(path) {
        let rest = path.skip(base.len() as int);
        if rest.len() == 0 {
            Some(rest)
        } else if rest[0] == '/' {
            Some(rest.skip(1))
        } else if base.last() == '/' {
            Some(rest)
        } else {
            None
        }
    } else {
        None
    }
}

/// The working directory as the title shows it: with `~` for the home
/// directory where the path is the home directory or lies under it.
pub open spec fn shown_path(path: Seq<char>, home: Option<Seq<char>>) -> Seq<char> {
    match home {
        Some(base) => match below(path, base) {
            Some(rest) => if rest.len() == 0 {
                "~"@
            } else {
                "~/"@ + rest
            },
            None => path,
        },
        None => path,
    }
}

/// The path as the title shows it, for a user whose home directory is
/// `home`.
pub fn display_path_from(path: &str, home: &Option<String>) -> (shown: String)
    ensures
        shown@ == shown_path(path@, home.deep_view()),
{
    let base = match home {
        Some(base) => chars_of(base.as_str()),
        None => {
            return path.to_owned();
        },
    };
    if base.len() == 0 || !has_prefix(path, base.as_slice()) {
        return path.to_owned();
    }
    let full = chars_of(path);
    let mut from = base.len();
    if from < full.len() {
        if full[from] == '/' {
            from += 1;
        } else if base[base.len() - 1] != '/' {
            return path.to_owned();
        }
    }
    let rest = text_of(vstd::slice::slice_subrange(full.as_slice(), from, full.len()));
    if rest.as_str().is_empty() {
        "~".to_owned()
    } else {
        chain("~/", rest.as_str())
    }
}

/// The path as the title shows it for the user who runs the program.
pub fn display_path(path: &str) -> (shown: String)
    ensures
        exists|home: Option<Seq<char>>| shown@ == #[trigger] shown_path(path@, home),
{
    let home = home_directory();
    display_path_from(path, &home)
}

/// The listing of the directories for the mode `mode`.
pub open spec fn mode_lines(
    mode: ModeView,
    dirs: Seq<DirEntry>,
    cursor: Option<usize>,
    keybinds: Seq<char>,
    use_icons: bool,
    use_colors: bool,
) -> Seq<Seq<SpanView>> {
    match mode {
        ModeView::Normal => normal_lines(dirs, cursor, use_icons, use_colors),
        ModeView::Select(selection) => select_lines(
            dirs,
            selection.prefix,
            selection.page,
            match selection.cursor {
                Some(row) => row,
                None => 0,
            },
            keybinds,
            use_icons,
            use_colors,
        ),
    }
}

/// The screen after `lines` were written on it, where `texts` holds the
/// text that each line was rendered to. A line without pieces goes out as
/// an empty line.
pub open spec fn painted(
    screen: ScreenView,
    lines: Seq<Seq<SpanView>>,
    texts: Seq<Seq<char>>,
) -> ScreenView
    decreases lines.len(),
{
    if lines.len() == 0 {
        screen
    } else {
        let before = painted(screen, lines.drop_last(), texts.drop_last());
        if lines.last().len() == 0 {
            before.blank()
        } else {
            before.written(texts.last())
        }
    }
}

/// `texts` holds one text for each line of `lines`, and for each line that
/// has pieces its text is a rendering of that line.
pub open spec fn renders_all(texts: Seq<Seq<char>>, lines: Seq<Seq<SpanView>>) -> bool {
    &&& texts.len() == lines.len()
    &&& forall|i: int|
        0 <= i < lines.len() && lines[i].len() > 0 ==> renders(#[trigger] texts[i], lines[i])
}

/// Renderings of some lines followed by renderings of others are
/// renderings of them all.
pub proof fn lemma_renders_all_in_sequence(
    first_texts: Seq<Seq<char>>,
    first: Seq<Seq<SpanView>>,
    second_texts: Seq<Seq<char>>,
    second: Seq<Seq<SpanView>>,
)
    requires
        renders_all(first_texts, first),
        renders_all(second_texts, second),
    ensures
        renders_all(first_texts + second_texts, first + second),
{
    let texts = first_texts + second_texts;
    let lines = first + second;
    assert forall|i: int| 0 <= i < lines.len() && lines[i].len() > 0 implies renders(
        #[trigger] texts[i],
        lines[i],
    ) by {
        if i < first.len() {
            assert(renders(first_texts[i], first[i]));
        } else {
            assert(renders(second_texts[i - first.len()], second[i - first.len()]));
        }
    }
}

/// Writing some lines and then others is writing them all in one go.
pub proof fn lemma_painted_in_sequence(
    screen: ScreenView,
    first: Seq<Seq<SpanView>>,
    first_texts: Seq<Seq<char>>,
    second: Seq<Seq<SpanView>>,
    second_texts: Seq<Seq<char>>,
)
    requires
        first.len() == first_texts.len(),
        second.len() == second_texts.len(),
    ensures
        painted(painted(screen, first, first_texts), second, second_texts) == painted(
            screen,
            first + second,
            first_texts + second_texts,
        ),
    decreases second.len(),
{
    if second.len() > 0 {
        lemma_painted_in_sequence(
            screen,
            first,
            first_texts,
            second.drop_last(),
            second_texts.drop_last(),
        );
        assert((first + second).drop_last() =~= first + second.drop_last());
        assert((first_texts + second_texts).drop_last() =~= first_texts
            + second_texts.drop_last());
    }
}

/// Mathematical model of a [`View`].
pub struct ViewModel {
    pub screen: ScreenView,
    pub keybinds: Seq<char>,
    pub mode: ModeView,
    pub debug_messages: Seq<Seq<char>>,
    pub use_colors: bool,
    pub use_icons: bool,
    pub use_debug: bool,
    pub is_dirty: bool,
}

impl ViewModel {
    /// The lines of the frame for this state: the debug panel, the title
    /// with the path `path`, the listing of the directories, the summary
    /// of files and the help line.
    pub open spec fn frame(
        self,
        path: Seq<char>,
        dirs: Seq<DirEntry>,
        files: Seq<DirEntry>,
        history: HistoryView,
        cursor: Option<usize>,
    ) -> Seq<Seq<SpanView>> {
        debug_lines(self.debug_messages) + seq![
            header_line(path, history, self.use_colors),
            Seq::<SpanView>::empty(),
        ] + mode_lines(self.mode, dirs, cursor, self.keybinds, self.use_icons, self.use_colors)
            + seq![
            files_line(files, self.use_icons, self.use_colors),
            Seq::<SpanView>::empty(),
            help_line(),
        ]
    }

    /// The state after a debug message: it is kept, and a frame asked for,
    /// where the debug panel is switched on.
    pub open spec fn noted(self, message: Seq<char>) -> ViewModel {
        if self.use_debug {
            ViewModel {
                debug_messages: self.debug_messages.push(message),
                is_dirty: true,
                ..self
            }
        } else {
            self
        }
    }

    /// The state after each of `messages` was noted, in order.
    pub open spec fn noted_all(self, messages: Seq<Seq<char>>) -> ViewModel
        decreases messages.len(),
    {
        if messages.len() == 0 {
            self
        } else {
            self.noted_all(messages.drop_last()).noted(messages.last())
        }
    }

    /// The state after the frame was painted, where one was asked for:
    /// `path` is the text of the title, and `texts` holds the text that
    /// each line was rendered to.
    pub open spec fn displayed(
        self,
        path: Seq<char>,
        dirs: Seq<DirEntry>,
        files: Seq<DirEntry>,
        history: HistoryView,
        cursor: Option<usize>,
        texts: Seq<Seq<char>>,
    ) -> ViewModel {
        if self.is_dirty {
            self.printed(path, dirs, files, history, cursor, texts)
        } else {
            self
        }
    }

    /// The state after the frame was written on the screen: `path` is the
    /// text of the title, and `texts` holds the text that each line was
    /// rendered to.
    pub open spec fn printed(
        self,
        path: Seq<char>,
        dirs: Seq<DirEntry>,
        files: Seq<DirEntry>,
        history: HistoryView,
        cursor: Option<usize>,
        texts: Seq<Seq<char>>,
    ) -> ViewModel {
        self.wrote(self.frame(path, dirs, files, history, cursor), texts)
    }

    /// The Normal-mode listing of `dirs` as this renderer shows it.
    pub open spec fn normal_listing(self, dirs: Seq<DirEntry>, cursor: Option<usize>) -> Seq<
        Seq<SpanView>,
    > {
        normal_lines(dirs, cursor, self.use_icons, self.use_colors)
    }

    /// The Select-mode listing of `dirs` as this renderer shows it.
    pub open spec fn select_listing(
        self,
        dirs: Seq<DirEntry>,
        prefix: Seq<char>,
        page: usize,
        cursor: usize,
    ) -> Seq<Seq<SpanView>> {
        select_lines(dirs, prefix, page, cursor, self.keybinds, self.use_icons, self.use_colors)
    }

    /// The state after `lines` were written on the screen, where `texts`
    /// holds the text that each line was rendered to.
    pub open spec fn wrote(self, lines: Seq<Seq<SpanView>>, texts: Seq<Seq<char>>) -> ViewModel {
        self.on(painted(self.screen, lines, texts))
    }

    /// The state with `screen` in place of its screen.
    pub open spec fn on(self, screen: ScreenView) -> ViewModel {
        ViewModel { screen, ..self }
    }

    /// The state once the screen is ready for a new frame: unchanged where
    /// nothing is to be painted; else raw mode is left, the cursor hidden
    /// and sent to the top of the frame painted before.
    pub open spec fn prepared(self, columns: nat) -> ViewModel {
        if self.is_dirty {
            self.on(
                self.screen.queued(seq![TermOpView::DisableRawMode]).queued(
                    seq![TermOpView::HideCursor],
                ).moved_up(columns),
            )
        } else {
            self
        }
    }

    /// The state once a frame is complete: unchanged where nothing was
    /// painted; else the debug messages are dropped, the rows left over
    /// from the frame before erased, the cursor shown, raw mode entered
    /// again, and nothing is left to paint.
    pub open spec fn finished(self, columns: nat) -> ViewModel {
        if self.is_dirty {
            ViewModel {
                debug_messages: Seq::empty(),
                is_dirty: false,
                screen: self.screen.rest_cleared(columns).queued(
                    seq![TermOpView::ShowCursor],
                ).queued(seq![TermOpView::EnableRawMode]),
                ..self
            }
        } else {
            self
        }
    }

    /// The state once the interface was erased from the terminal.
    pub open spec fn erased(self, columns: nat) -> ViewModel {
        self.on(
            self.screen.queued(seq![TermOpView::DisableRawMode]).moved_up(columns).rest_cleared(
                columns,
            ),
        )
    }
}

/// The renderer: the screen it paints on, the switches of the interface,
/// and whether the state changed since the last frame.
pub struct View {
    screen: Screen,
    keybinds: String,
    current_mode: Mode,
    debug_messages: Vec<String>,
    use_colors: bool,
    use_icons: bool,
    use_debug: bool,
    is_dirty: bool,
}

impl vstd::view::View for View {
    type V = ViewModel;

    closed spec fn view(&self) -> ViewModel {
        ViewModel {
            screen: self.screen@,
            keybinds: self.keybinds@,
            mode: self.current_mode@,
            debug_messages: self.debug_messages.deep_view(),
            use_colors: self.use_colors,
            use_icons: self.use_icons,
            use_debug: self.use_debug,
            is_dirty: self.is_dirty,
        }
    }
}

/// Renders each line and writes it on the screen.
fn emit(screen: &mut Screen, lines: &Vec<Line>) -> (texts: Ghost<Seq<Seq<char>>>)
    ensures
        renders_all(texts@, lines.deep_view()),
        final(screen)@ == painted(old(screen)@, lines.deep_view(), texts@),
{
    let ghost mut texts: Seq<Seq<char>> = Seq::empty();
    let mut i: usize = 0;
    while i < lines.len()
        invariant
            i <= lines.len(),
            renders_all(texts, lines.deep_view().take(i as int)),
            screen@ == painted(old(screen)@, lines.deep_view().take(i as int), texts),
        decreases lines.len() - i,
    {
        let ghost seen = lines.deep_view().take(i + 1);
        assert(seen.drop_last() =~= lines.deep_view().take(i as int));
        if lines[i].len() == 0 {
            screen.empty_line();
            proof {
                let next = texts.push(Seq::empty());
                assert(next.drop_last() =~= texts);
                assert forall|k: int| 0 <= k < seen.len() && seen[k].len() > 0 implies renders(
                    #[trigger] next[k],
                    seen[k],
                ) by {
                    assert(renders(texts[k], lines.deep_view().take(i as int)[k]));
                }
                texts = next;
            }
        } else {
            let text = render(&lines[i]);
            screen.write(text.as_str());
            proof {
                let next = texts.push(text@);
                assert(next.drop_last() =~= texts);
                assert forall|k: int| 0 <= k < seen.len() && seen[k].len() > 0 implies renders(
                    #[trigger] next[k],
                    seen[k],
                ) by {
                    if k < i {
                        assert(renders(texts[k], lines.deep_view().take(i as int)[k]));
                    }
                }
                texts = next;
            }
        }
        i += 1;
    }
    assert(lines.deep_view().take(lines.len() as int) =~= lines.deep_view());
    Ghost(texts)
}

impl View {
    /// A renderer in Normal mode that has everything to paint.
    pub fn new(
        screen: Screen,
        keybinds: String,
        use_colors: bool,
        use_icons: bool,
        use_debug: bool,
    ) -> (view: Self)
        ensures
            view@ == (ViewModel {
                screen: screen@,
                keybinds: keybinds@,
                mode: ModeView::Normal,
                debug_messages: Seq::empty(),
                use_colors,
                use_icons,
                use_debug,
                is_dirty: true,
            }),
    {
        let view = View {
            screen,
            keybinds,
            current_mode: Mode::Normal,
            debug_messages: Vec::new(),
            use_colors,
            use_icons,
            use_debug,
            is_dirty: true,
        };
        assert(view@.debug_messages =~= Seq::empty());
        view
    }

    /// Sets the mode that the next frame shows.
    pub fn change_mode(&mut self, mode: Mode)
        ensures
            final(self)@ == (ViewModel { mode: mode@, ..old(self)@ }),
    {
        self.current_mode = mode;
    }

    /// Adds a line to the debug panel of the next frame, and asks for that
    /// frame; does nothing where the panel is switched off.
    pub fn debug_message(&mut self, message: String)
        ensures
            final(self)@ == old(self)@.noted(message@),
    {
        if self.use_debug {
            self.dirty();
            self.debug_messages.push(message);
            assert(self@.debug_messages =~= old(self)@.debug_messages.push(message@));
        }
    }

    /// Asks for a new frame.
    pub fn dirty(&mut self)
        ensures
            final(self)@ == (ViewModel { is_dirty: true, ..old(self)@ }),
    {
        self.is_dirty = true;
    }

    /// Whether a new frame was asked for.
    pub fn is_dirty(&self) -> (dirty: bool)
        ensures
            dirty == self@.is_dirty,
    {
        self.is_dirty
    }

    /// Gets the screen ready for a new frame, where one was asked for.
    pub fn prepare_screen(&mut self, num_columns: u16)
        requires
            num_columns > 0,
        ensures
            final(self)@ == old(self)@.prepared(num_columns as nat),
    {
        if self.is_dirty {
            self.screen.set_raw_mode(false);
            self.screen.hide_cursor();
            self.screen.move_up(num_columns);
        }
    }

    /// Completes the frame, where one was painted.
    pub fn clear_rest(&mut self, num_columns: u16)
        requires
            num_columns > 0,
        ensures
            final(self)@ == old(self)@.finished(num_columns as nat),
    {
        if self.is_dirty {
            self.debug_messages.clear();
            self.screen.clear_rest(num_columns);
            self.screen.show_cursor();
            self.is_dirty = false;
            self.screen.set_raw_mode(true);
            assert(self@.debug_messages =~= Seq::empty());
        }
    }

    /// Erases the interface from the terminal.
    pub fn clear_screen(&mut self, num_columns: u16)
        requires
            num_columns > 0,
        ensures
            final(self)@ == old(self)@.erased(num_columns as nat),
    {
        self.screen.set_raw_mode(false);
        self.screen.move_up(num_columns);
        self.screen.clear_rest(num_columns);
    }

    /// Paints the frame for the given state, where a frame was asked for.
    /// The title shows `current_dir` relative to the home directory of the
    /// user, whatever that is found to be; each line of the frame is
    /// written as the text that the styles render to.
    pub fn display(
        &mut self,
        current_dir: &str,
        dirs: &[DirEntry],
        files: &[DirEntry],
        history: &PathHistory,
        cursor_index: &Option<usize>,
    )
        ensures
            !old(self)@.is_dirty ==> final(self)@ == old(self)@,
            exists|home: Option<Seq<char>>, texts: Seq<Seq<char>>|
                {
                    &&& old(self)@.is_dirty ==> renders_all(
                        texts,
                        old(self)@.frame(
                            shown_path(current_dir@, home),
                            dirs@,
                            files@,
                            history@,
                            *cursor_index,
                        ),
                    )
                    &&& final(self)@ == #[trigger] old(self)@.displayed(
                        shown_path(current_dir@, home),
                        dirs@,
                        files@,
                        history@,
                        *cursor_index,
                        texts,
                    )
                },
    {
        if self.is_dirty {
            self.print_screen(current_dir, dirs, files, history, cursor_index);
            let ghost (home, texts) = choose|home: Option<Seq<char>>, texts: Seq<Seq<char>>|
                {
                    &&& renders_all(
                        texts,
                        old(self)@.frame(
                            shown_path(current_dir@, home),
                            dirs@,
                            files@,
                            history@,
                            *cursor_index,
                        ),
                    )
                    &&& self@ == #[trigger] old(self)@.printed(
                        shown_path(current_dir@, home),
                        dirs@,
                        files@,
                        history@,
                        *cursor_index,
                        texts,
                    )
                };
            assert(self@ == old(self)@.displayed(
                shown_path(current_dir@, home),
                dirs@,
                files@,
                history@,
                *cursor_index,
                texts,
            ));
        } else {
            assert(self@ == old(self)@.displayed(
                shown_path(current_dir@, None),
                dirs@,
                files@,
                history@,
                *cursor_index,
                Seq::empty(),
            ));
        }
    }

    /// The lines of the frame for the given state, with `path` as the text
    /// of the title.
    pub fn compose(
        &self,
        path: &str,
        dirs: &[DirEntry],
        files: &[DirEntry],
        history: &PathHistory,
        cursor_index: &Option<usize>,
    ) -> (lines: Vec<Line>)
        ensures
            lines.deep_view() == self@.frame(path@, dirs@, files@, history@, *cursor_index),
    {
        let mut lines = self.compose_top(path, history);
        let mut listing = match &self.current_mode {
            Mode::Normal => normal_listing(dirs, cursor_index, self.use_icons, self.use_colors),
            Mode::Select(selection) => {
                let row = match selection.cursor {
                    Some(row) => row,
                    None => 0,
                };
                select_listing(
                    dirs,
                    selection.prefix.as_str(),
                    selection.page,
                    row,
                    self.keybinds.as_str(),
                    self.use_icons,
                    self.use_colors,
                )
            },
        };
        lines.append(&mut listing);
        let mut bottom = self.compose_bottom(files);
        lines.append(&mut bottom);
        lines
    }

    /// The lines above the listing of the directories: the debug panel, the
    /// title and an empty line.
    fn compose_top(&self, path: &str, history: &PathHistory) -> (lines: Vec<Line>)
        ensures
            lines.deep_view() == debug_lines(self@.debug_messages) + seq![
                header_line(path@, history@, self@.use_colors),
                Seq::<SpanView>::empty(),
            ],
    {
        let mut lines = debug_panel(&self.debug_messages);
        lines.push(header(path, history, self.use_colors));
        let blank: Line = Vec::new();
        assert(blank.deep_view() =~= Seq::<SpanView>::empty());
        lines.push(blank);
        lines
    }

    /// The lines below the listing of the directories: the summary of
    /// files, an empty line and the help line.
    fn compose_bottom(&self, files: &[DirEntry]) -> (lines: Vec<Line>)
        ensures
            lines.deep_view() == seq![
                files_line(files@, self@.use_icons, self@.use_colors),
                Seq::<SpanView>::empty(),
                help_line(),
            ],
    {
        let blank: Line = Vec::new();
        assert(blank.deep_view() =~= Seq::<SpanView>::empty());
        let lines = vec![files_summary(files, self.use_icons, self.use_colors), blank, help()];
        lines
    }

    /// Writes the frame for the given state on the screen. The title shows
    /// `current_dir` relative to the home directory of the user, whatever
    /// that is found to be; each line is written as the text that the
    /// styles render to.
    pub fn print_screen(
        &mut self,
        current_dir: &str,
        dirs: &[DirEntry],
        files: &[DirEntry],
        history: &PathHistory,
        cursor_index: &Option<usize>,
    )
        ensures
            exists|home: Option<Seq<char>>, texts: Seq<Seq<char>>|
                {
                    &&& renders_all(
                        texts,
                        old(self)@.frame(
                            shown_path(current_dir@, home),
                            dirs@,
                            files@,
                            history@,
                            *cursor_index,
                        ),
                    )
                    &&& final(self)@ == #[trigger] old(self)@.printed(
                        shown_path(current_dir@, home),
                        dirs@,
                        files@,
                        history@,
                        *cursor_index,
                        texts,
                    )
                },
    {
        let home = home_directory();
        let path = display_path_from(current_dir, &home);
        let top = self.compose_top(path.as_str(), history);
        let top_texts = emit(&mut self.screen, &top);
        let ghost after_top = self@;

        let mode = self.current_mode.clone();
        match &mode {
            Mode::Normal => self.print_normal(dirs, cursor_index),
            Mode::Select(selection) => {
                let row = match selection.cursor {
                    Some(row) => row,
                    None => 0,
                };
                self.print_select(dirs, selection.prefix.as_str(), selection.page, row)
            },
        }
        let ghost listed = mode_lines(
            old(self)@.mode,
            dirs@,
            *cursor_index,
            old(self)@.keybinds,
            old(self)@.use_icons,
            old(self)@.use_colors,
        );
        let ghost listed_texts = choose|texts: Seq<Seq<char>>|
            renders_all(texts, listed) && self@ == #[trigger] after_top.wrote(listed, texts);

        let bottom = self.compose_bottom(files);
        let bottom_texts = emit(&mut self.screen, &bottom);
        proof {
            lemma_painted_in_sequence(
                old(self)@.screen,
                top.deep_view(),
                top_texts@,
                listed,
                listed_texts,
            );
            lemma_painted_in_sequence(
                old(self)@.screen,
                top.deep_view() + listed,
                top_texts@ + listed_texts,
                bottom.deep_view(),
                bottom_texts@,
            );
            lemma_renders_all_in_sequence(top_texts@, top.deep_view(), listed_texts, listed);
            lemma_renders_all_in_sequence(
                top_texts@ + listed_texts,
                top.deep_view() + listed,
                bottom_texts@,
                bottom.deep_view(),
            );
            assert(self@ == old(self)@.printed(
                shown_path(current_dir@, home.deep_view()),
                dirs@,
                files@,
                history@,
                *cursor_index,
                top_texts@ + listed_texts + bottom_texts@,
            ));
        }
    }

    /// Writes the Normal-mode listing of `dirs` on the screen, with the
    /// bucket at `cursor_index` highlighted.
    pub fn print_normal(&mut self, dirs: &[DirEntry], cursor_index: &Option<usize>)
        ensures
            exists|texts: Seq<Seq<char>>|
                {
                    &&& renders_all(texts, old(self)@.normal_listing(dirs@, *cursor_index))
                    &&& final(self)@ == #[trigger] old(self)@.wrote(
                        old(self)@.normal_listing(dirs@, *cursor_index),
                        texts,
                    )
                },
    {
        let lines = normal_listing(dirs, cursor_index, self.use_icons, self.use_colors);
        let texts = emit(&mut self.screen, &lines);
        assert(self@ == old(self)@.wrote(
            old(self)@.normal_listing(dirs@, *cursor_index),
            texts@,
        ));
    }

    /// Writes the Select-mode listing of the directories that begin with
    /// `prefix` on the screen: the page `current_page`, with the row
    /// `cursor_index` highlighted.
    pub fn print_select(
        &mut self,
        dirs: &[DirEntry],
        prefix: &str,
        current_page: usize,
        cursor_index: usize,
    )
        ensures
            exists|texts: Seq<Seq<char>>|
                {
                    &&& renders_all(
                        texts,
                        old(self)@.select_listing(dirs@, prefix@, current_page, cursor_index),
                    )
                    &&& final(self)@ == #[trigger] old(self)@.wrote(
                        old(self)@.select_listing(dirs@, prefix@, current_page, cursor_index),
                        texts,
                    )
                },
    {
        let lines = select_listing(
            dirs,
            prefix,
            current_page,
            cursor_index,
            self.keybinds.as_str(),
            self.use_icons,
            self.use_colors,
        );
        let texts = emit(&mut self.screen, &lines);
        assert(self@ == old(self)@.wrote(
            old(self)@.select_listing(dirs@, prefix@, current_page, cursor_index),
            texts@,
        ));
    }

    /// The colour itself where colours are in use, white where they are not.
    pub fn color_or_white(&self, color: Tint) -> (shown: Tint)
        ensures
            shown == crate::frame::color_or_white(self@.use_colors, color),
    {
        tint_or_white(self.use_colors, color)
    }

    /// Hands out the commands queued for the terminal, in order, and
    /// empties the queue.
    pub fn take_pending(&mut self) -> (ops: Vec<TermOp>)
        ensures
            ops.deep_view() == old(self)@.screen.pending,
            final(self)@ == old(self)@.on(
                ScreenView { pending: Seq::empty(), ..old(self)@.screen },
            ),
    {
        self.screen.take_pending()
    }
}

} // verus!
