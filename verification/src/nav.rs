//! The navigation state machine: what each key press does to the
//! navigator's state, and what it asks the caller to do.

use crate::char_map::{all_named, group_keys};
use crate::dir_util::{
    build_char_map, directories, filter_hidden, get_dirs_files, matching, plain_files,
    starts_with, visible, DirEntry,
};
use crate::history::{HistoryView, PathHistory};
use crate::home::{home_directory, HomeError};
use crate::keys::{KeyCode, KeyEvent};
use crate::mode::{Mode, ModeView, SelectionState, SelectionView};
use crate::order::sorted_by_name;
use crate::paging::{
    candidate_index, entries_on_page, index_on_page, next_page, next_page_wrapping,
    page_backward, page_forward, page_forward_wrapping, page_len, previous_page,
};
use crate::text::{
    chain, decimal, decimal_text, find_char, first_index_of, single, with_char, without_last,
};
use crate::visualize::{renders_all, shown_path, ViewModel};
use vstd::arithmetic::div_mod::{lemma_add_mod_noop, lemma_mod_self_0, lemma_small_mod};
use vstd::prelude::*;
use vstd::string::StringExecFns;

verus! {

/// What the caller is asked to do after a key press.
#[derive(Debug, PartialEq, Eq)]
pub enum Action {
    /// Nothing changed: no repaint.
    Ignore,
    /// The state changed: repaint.
    Redraw,
    /// Change into the child directory of this name, record the new working
    /// directory with [`Navigator::visited`], and repaint.
    Enter(String),
    /// Change into the parent directory, record the new working directory,
    /// and repaint.
    Parent,
    /// Change into the home directory, record the new working directory, and
    /// repaint.
    Home,
    /// Change to this directory, which the history already points at, and
    /// repaint.
    Jump(String),
    /// Leave, handing the working directory to the caller's shell.
    Confirm,
    /// Leave, telling the caller's shell to stay where it is.
    Cancel,
}

/// Mathematical model of an [`Action`].
pub enum ActionView {
    Ignore,
    Redraw,
    Enter(Seq<char>),
    Parent,
    Home,
    Jump(Seq<char>),
    Confirm,
    Cancel,
}

impl View for Action {
    type V = ActionView;

    open spec fn view(&self) -> ActionView {
        match self {
            Action::Ignore => ActionView::Ignore,
            Action::Redraw => ActionView::Redraw,
            Action::Enter(name) => ActionView::Enter(name@),
            Action::Parent => ActionView::Parent,
            Action::Home => ActionView::Home,
            Action::Jump(path) => ActionView::Jump(path@),
            Action::Confirm => ActionView::Confirm,
            Action::Cancel => ActionView::Cancel,
        }
    }
}

impl ActionView {
    /// The directory that the action asks to change to, where `home` is
    /// the home directory of the user; none for an action that stays.
    pub open spec fn destination(self, home: Seq<char>) -> Option<Seq<char>> {
        match self {
            ActionView::Enter(name) => Some(name),
            ActionView::Parent => Some(".."@),
            ActionView::Home => Some(home),
            ActionView::Jump(path) => Some(path),
            _ => None,
        }
    }

    /// The change of directory that the action asks for is to be recorded
    /// in the history: every change but a step through the history itself.
    pub open spec fn records_visit(self) -> bool {
        self is Enter || self is Parent || self is Home
    }

    /// The line for the calling shell when the action ends the
    /// interaction in the directory `cwd`: the directory to confirm, a dot
    /// to cancel.
    pub open spec fn result_line(self, cwd: Seq<char>) -> Option<Seq<char>> {
        match self {
            ActionView::Confirm => Some(cwd),
            ActionView::Cancel => Some("."@),
            _ => None,
        }
    }

    /// The action calls for a repaint.
    pub open spec fn is_dirty(self) -> bool {
        !(self is Ignore || self is Confirm || self is Cancel)
    }

    /// The action ends the interaction.
    pub open spec fn has_terminated(self) -> bool {
        self is Confirm || self is Cancel
    }
}

impl Action {
    /// The directory to change to, for a user whose home directory is
    /// `home`; `None` for an action that stays. Fails exactly when the
    /// action leads home and there is no home directory.
    pub fn destination_from(&self, home: &Option<String>) -> (target: Result<
        Option<String>,
        HomeError,
    >)
        ensures
            target is Err <==> self@ is Home && home is None,
            target matches Ok(found) ==> found.deep_view() == self@.destination(
                match home {
                    Some(h) => h@,
                    None => Seq::empty(),
                },
            ),
    {
        match self {
            Action::Enter(name) => Ok(Some(name.clone())),
            Action::Parent => Ok(Some("..".to_owned())),
            Action::Home => match home {
                Some(dir) => Ok(Some(dir.clone())),
                None => Err(HomeError::Missing),
            },
            Action::Jump(path) => Ok(Some(path.clone())),
            _ => Ok(None),
        }
    }

    /// The directory to change to; `None` for an action that stays. Fails
    /// only when the action leads home and the user has no home directory.
    pub fn destination(&self) -> (target: Result<Option<String>, HomeError>)
        ensures
            target is Err ==> self@ is Home,
            target matches Ok(found) ==> exists|home: Seq<char>|
                found.deep_view() == #[trigger] self@.destination(home),
    {
        let home = match self {
            Action::Home => home_directory(),
            _ => None,
        };
        self.destination_from(&home)
    }

    /// The line for the calling shell when the interaction ends in the
    /// directory `cwd`; `None` for an action that does not end it.
    pub fn result_line(&self, cwd: &str) -> (line: Option<String>)
        ensures
            line.deep_view() == self@.result_line(cwd@),
    {
        match self {
            Action::Confirm => Some(cwd.to_owned()),
            Action::Cancel => Some(".".to_owned()),
            _ => None,
        }
    }

    /// Whether the change of directory that the action asks for is to be
    /// recorded in the history once it succeeded.
    pub fn records_visit(&self) -> (records: bool)
        ensures
            records == self@.records_visit(),
    {
        match self {
            Action::Enter(_) | Action::Parent | Action::Home => true,
            _ => false,
        }
    }

    /// Whether the screen has to be painted again.
    pub fn is_dirty(&self) -> (dirty: bool)
        ensures
            dirty == self@.is_dirty(),
    {
        match self {
            Action::Ignore | Action::Confirm | Action::Cancel => false,
            _ => true,
        }
    }

    /// Whether the interaction is over.
    pub fn has_terminated(&self) -> (over: bool)
        ensures
            over == self@.has_terminated(),
    {
        match self {
            Action::Confirm | Action::Cancel => true,
            _ => false,
        }
    }
}

/// Everything the navigator remembers between key presses.
#[derive(Debug, PartialEq, Eq)]
pub struct Navigator {
    pub mode: Mode,
    /// The highlighted bucket of Normal mode, counted from the first bucket.
    pub cursor: Option<usize>,
    pub show_hidden: bool,
    pub history: PathHistory,
}

/// Mathematical model of a [`Navigator`].
pub struct NavView {
    pub mode: ModeView,
    pub cursor: Option<usize>,
    pub show_hidden: bool,
    pub history: HistoryView,
}

impl View for Navigator {
    type V = NavView;

    open spec fn view(&self) -> NavView {
        NavView {
            mode: self.mode@,
            cursor: self.cursor,
            show_hidden: self.show_hidden,
            history: self.history@,
        }
    }
}

/// Control-S flips the visibility of hidden entries.
pub open spec fn is_hidden_key(e: KeyEvent, c: char) -> bool {
    e.ctrl && c == 's'
}

/// The tilde jumps to the home directory.
pub open spec fn is_home_key(c: char) -> bool {
    c == '~'
}

/// The cursor after Tab, cycling through `count` rows.
pub open spec fn cycled(cursor: Option<usize>, count: nat) -> usize {
    let current: nat = match cursor {
        Some(c) => c as nat,
        None => 0,
    };
    ((current + 1) % count) as usize
}

/// The key of the bucket at `index` of the grouping of `dirs`, if the
/// grouping exists and has that many buckets.
pub open spec fn bucket_key(dirs: Seq<DirEntry>, index: usize) -> Option<char> {
    if all_named(dirs) && index < group_keys(dirs).len() {
        Some(group_keys(dirs)[index as int])
    } else {
        None
    }
}

/// How a switch reads in the debug panel.
pub open spec fn switch_text(on: bool) -> Seq<char> {
    if on {
        "true"@
    } else {
        "false"@
    }
}

/// How a cursor reads in the debug panel.
pub open spec fn cursor_text(cursor: Option<usize>) -> Seq<char> {
    match cursor {
        Some(row) => "Some("@ + decimal(row as nat) + ")"@,
        None => "None"@,
    }
}

impl NavView {
    /// The cursor in use: the highlighted row in Select mode, the
    /// highlighted bucket in Normal mode.
    pub open spec fn active_cursor(self) -> Option<usize> {
        match self.mode {
            ModeView::Normal => self.cursor,
            ModeView::Select(selection) => selection.cursor,
        }
    }

    /// The lines that the debug panel shows of the navigator.
    pub open spec fn debug_messages(self) -> Seq<Seq<char>> {
        seq![
            "Show hidden files: "@ + switch_text(self.show_hidden),
            "History index: "@ + decimal(self.history.index),
            "History length: "@ + decimal(self.history.paths.len()),
            "Cursor index: "@ + cursor_text(self.active_cursor()),
        ]
    }

    /// The navigator after a visit to `cwd`.
    pub open spec fn visited(self, cwd: Seq<char>) -> NavView {
        NavView { history: self.history.push(cwd), ..self }
    }

    /// The part of a listing that is on display.
    pub open spec fn shown(self, entries: Seq<DirEntry>) -> Seq<DirEntry> {
        if self.show_hidden {
            entries
        } else {
            visible(entries)
        }
    }

    /// `listed` is what is on display of `entries`: the entries in the
    /// order of their names, without the hidden ones where those are not
    /// shown.
    pub open spec fn lists(self, listed: Seq<DirEntry>, entries: Seq<DirEntry>) -> bool {
        exists|sorted: Seq<DirEntry>|
            {
                &&& sorted_by_name(sorted)
                &&& sorted.to_multiset() == entries.to_multiset()
                &&& listed == #[trigger] self.shown(sorted)
            }
    }

    /// The renderer after a refresh: the debug lines noted, the mode set,
    /// the screen prepared, the frame painted where one was asked for, and
    /// the frame completed.
    pub open spec fn refreshed(
        self,
        view: ViewModel,
        path: Seq<char>,
        dirs: Seq<DirEntry>,
        files: Seq<DirEntry>,
        texts: Seq<Seq<char>>,
        columns: nat,
    ) -> ViewModel {
        self.ready(view, columns).displayed(
            path,
            dirs,
            files,
            self.history,
            self.cursor,
            texts,
        ).finished(columns)
    }

    /// The renderer ready for the frame of a refresh: the debug lines
    /// noted, the mode set and the screen prepared.
    pub open spec fn ready(self, view: ViewModel, columns: nat) -> ViewModel {
        let noted = view.noted_all(self.debug_messages());
        (ViewModel { mode: self.mode, ..noted }).prepared(columns)
    }

    /// Where a refresh paints a frame, `texts` holds a rendering of each
    /// of its lines that has pieces.
    pub open spec fn refresh_renders(
        self,
        view: ViewModel,
        path: Seq<char>,
        dirs: Seq<DirEntry>,
        files: Seq<DirEntry>,
        texts: Seq<Seq<char>>,
        columns: nat,
    ) -> bool {
        let ready = self.ready(view, columns);
        ready.is_dirty ==> renders_all(
            texts,
            ready.frame(path, dirs, files, self.history, self.cursor),
        )
    }

    /// Hidden entries become visible, or visible ones hidden, and the
    /// highlighted bucket is dropped.
    pub open spec fn toggle_hidden(self) -> NavView {
        NavView { show_hidden: !self.show_hidden, cursor: None, ..self }
    }

    /// Back in Normal mode with no highlight.
    pub open spec fn to_normal(self) -> NavView {
        NavView { mode: ModeView::Normal, cursor: None, ..self }
    }

    /// In Select mode on the first page of the candidates for `prefix`.
    pub open spec fn to_select(self, prefix: Seq<char>) -> NavView {
        NavView {
            mode: ModeView::Select(SelectionView { prefix, page: 0, cursor: Some(0) }),
            cursor: None,
            ..self
        }
    }

    /// Still in Select mode, with `selection` in place of the old one.
    pub open spec fn with_selection(self, selection: SelectionView) -> NavView {
        NavView { mode: ModeView::Select(selection), ..self }
    }

    /// What typing `c` in Normal mode leads to: nothing where no directory
    /// begins with `c`, a change into the directory where exactly one does,
    /// and Select mode where several do.
    pub open spec fn resolve(self, dirs: Seq<DirEntry>, c: char) -> (NavView, ActionView) {
        let found = matching(dirs, seq![c]);
        if found.len() == 0 {
            (self, ActionView::Ignore)
        } else if found.len() > 1 {
            (self.to_select(seq![c]), ActionView::Redraw)
        } else {
            (NavView { cursor: None, ..self }, ActionView::Enter(found[0].name@))
        }
    }

    /// One step through the history, towards the older entries if `back`.
    pub open spec fn travel(self, back: bool) -> (NavView, ActionView) {
        let history = if back {
            self.history.back()
        } else {
            self.history.forward()
        };
        let target = if back {
            self.history.back_target()
        } else {
            self.history.forward_target()
        };
        match target {
            Some(path) => (NavView { history, cursor: None, ..self }, ActionView::Jump(path)),
            None => (NavView { history, ..self }, ActionView::Ignore),
        }
    }

    /// The effect of a key press in Normal mode.
    pub open spec fn normal_step(self, e: KeyEvent, dirs: Seq<DirEntry>) -> (NavView, ActionView) {
        match e.code {
            KeyCode::Char(c) => {
                if is_hidden_key(e, c) {
                    (self.toggle_hidden(), ActionView::Redraw)
                } else if is_home_key(c) {
                    (self.to_normal(), ActionView::Home)
                } else {
                    self.resolve(dirs, c)
                }
            },
            KeyCode::Backspace => (NavView { cursor: None, ..self }, ActionView::Parent),
            KeyCode::Esc => (self, ActionView::Cancel),
            KeyCode::Enter => match self.cursor {
                Some(index) => match bucket_key(dirs, index) {
                    Some(c) => self.resolve(dirs, c),
                    None => (self, ActionView::Ignore),
                },
                None => (self, ActionView::Confirm),
            },
            KeyCode::Up => self.travel(true),
            KeyCode::Down => self.travel(false),
            KeyCode::Tab => {
                if dirs.len() == 0 {
                    (self, ActionView::Ignore)
                } else if self.cursor is None {
                    (NavView { cursor: Some(0), ..self }, ActionView::Redraw)
                } else if !all_named(dirs) {
                    (self, ActionView::Ignore)
                } else {
                    (
                        NavView {
                            cursor: Some(cycled(self.cursor, group_keys(dirs).len())),
                            ..self
                        },
                        ActionView::Redraw,
                    )
                }
            },
            KeyCode::Other => (self, ActionView::Ignore),
        }
    }

    /// Picking the candidate at row `row` of the current page: a change
    /// into it and back to Normal mode, or nothing where the page has no
    /// such row.
    pub open spec fn pick(
        self,
        selection: SelectionView,
        found: Seq<DirEntry>,
        row: nat,
    ) -> (NavView, ActionView) {
        match candidate_index(found.len(), selection.page as nat, row) {
            Some(index) => (self.to_normal(), ActionView::Enter(found[index as int].name@)),
            None => (self.with_selection(selection), ActionView::Ignore),
        }
    }

    /// The effect of a key press in Select mode on `selection`, the
    /// selection in progress.
    pub open spec fn select_step(
        self,
        selection: SelectionView,
        e: KeyEvent,
        keybinds: Seq<char>,
        dirs: Seq<DirEntry>,
    ) -> (NavView, ActionView) {
        let found = matching(dirs, selection.prefix);
        let n = found.len();
        let page = selection.page as nat;
        match e.code {
            KeyCode::Char(c) => {
                let rewound = SelectionView { cursor: Some(0), ..selection };
                if is_hidden_key(e, c) {
                    (
                        self.toggle_hidden().with_selection(
                            SelectionView { cursor: None, ..selection },
                        ),
                        ActionView::Redraw,
                    )
                } else if is_home_key(c) {
                    (self.to_normal(), ActionView::Home)
                } else if e.ctrl {
                    if c == 'f' {
                        (
                            self.with_selection(
                                SelectionView { page: page_forward(page, n) as usize, ..rewound },
                            ),
                            ActionView::Redraw,
                        )
                    } else if c == 'b' {
                        (
                            self.with_selection(
                                SelectionView { page: page_backward(page) as usize, ..rewound },
                            ),
                            ActionView::Redraw,
                        )
                    } else if c == 'n' {
                        (
                            self.with_selection(
                                SelectionView {
                                    page: page_forward_wrapping(page, n) as usize,
                                    ..rewound
                                },
                            ),
                            ActionView::Redraw,
                        )
                    } else {
                        (self.with_selection(rewound), ActionView::Ignore)
                    }
                } else {
                    match first_index_of(keybinds, c) {
                        Some(row) => self.pick(rewound, found, row as nat),
                        None => (
                            self.with_selection(
                                SelectionView {
                                    prefix: selection.prefix.push(c),
                                    page: 0,
                                    cursor: Some(0),
                                },
                            ),
                            ActionView::Redraw,
                        ),
                    }
                }
            },
            KeyCode::Backspace => {
                if selection.prefix.len() > 1 {
                    (
                        self.with_selection(
                            SelectionView {
                                prefix: selection.prefix.drop_last(),
                                page: 0,
                                cursor: Some(0),
                            },
                        ),
                        ActionView::Redraw,
                    )
                } else {
                    (self.to_normal(), ActionView::Redraw)
                }
            },
            KeyCode::Esc => (
                NavView { mode: ModeView::Normal, cursor: selection.cursor, ..self },
                ActionView::Redraw,
            ),
            KeyCode::Enter => {
                let row: nat = match selection.cursor {
                    Some(r) => r as nat,
                    None => 0,
                };
                self.pick(selection, found, row)
            },
            KeyCode::Tab => {
                let shown = page_len(n, page);
                if dirs.len() == 0 || shown == 0 {
                    (self, ActionView::Ignore)
                } else {
                    (
                        self.with_selection(
                            SelectionView {
                                cursor: Some(cycled(selection.cursor, shown)),
                                ..selection
                            },
                        ),
                        ActionView::Redraw,
                    )
                }
            },
            _ => (self, ActionView::Ignore),
        }
    }

    /// The effect of a key press, whatever the mode.
    pub open spec fn step(self, e: KeyEvent, keybinds: Seq<char>, dirs: Seq<DirEntry>) -> (
        NavView,
        ActionView,
    ) {
        match self.mode {
            ModeView::Normal => self.normal_step(e, dirs),
            ModeView::Select(selection) => self.select_step(selection, e, keybinds, dirs),
        }
    }
}

impl Navigator {
    /// A navigator in Normal mode with an empty history.
    pub fn new(show_hidden: bool) -> (nav: Self)
        ensures
            nav@ == (NavView {
                mode: ModeView::Normal,
                cursor: None,
                show_hidden,
                history: HistoryView::empty(),
            }),
    {
        Navigator { mode: Mode::Normal, cursor: None, show_hidden, history: PathHistory::new() }
    }

    /// Records a visit to the directory `cwd`. To be called once after
    /// every change of directory that succeeded and that, as
    /// [`Action::records_visit`] says, is one to record.
    pub fn visited(&mut self, cwd: &str)
        ensures
            final(self)@ == old(self)@.visited(cwd@),
    {
        self.history.push(cwd);
    }

    /// The part of a listing that is on display: all of it, or all but the
    /// hidden entries.
    pub fn shown(&self, entries: &[DirEntry]) -> (shown: Vec<DirEntry>)
        ensures
            shown@ == self@.shown(entries@),
    {
        if self.show_hidden {
            let mut all: Vec<DirEntry> = Vec::new();
            let mut i: usize = 0;
            while i < entries.len()
                invariant
                    i <= entries.len(),
                    all@ == entries@.take(i as int),
                decreases entries.len() - i,
            {
                all.push(entries[i].clone());
                i += 1;
            }
            all
        } else {
            filter_hidden(entries)
        }
    }

    /// The lines that the debug panel shows of the navigator.
    pub fn debug_messages(&self) -> (messages: Vec<String>)
        ensures
            messages.deep_view() == self@.debug_messages(),
    {
        let hidden = if self.show_hidden {
            "true"
        } else {
            "false"
        };
        let active = match &self.mode {
            Mode::Normal => self.cursor,
            Mode::Select(selection) => selection.cursor,
        };
        let cursor = match active {
            Some(row) => {
                let mut text = "Some(".to_owned();
                text.append(decimal_text(row as u128).as_str());
                text.append(")");
                text
            },
            None => "None".to_owned(),
        };
        let messages = vec![
            chain("Show hidden files: ", hidden),
            chain("History index: ", decimal_text(self.history.index as u128).as_str()),
            chain("History length: ", decimal_text(self.history.buffer.len() as u128).as_str()),
            chain("Cursor index: ", cursor.as_str()),
        ];
        messages
    }

    /// Paints the interface for a listing of the working directory, as it
    /// was read, on a terminal `num_columns` wide: hands the renderer the
    /// debug lines and the mode, prepares the screen, paints the frame
    /// where one was asked for, and completes it. Returns the directories
    /// on display, which the next key press acts on.
    pub fn refresh(
        &self,
        view: &mut crate::visualize::View,
        current_dir: &str,
        entries: &[DirEntry],
        num_columns: u16,
    ) -> (dirs: Vec<DirEntry>)
        requires
            num_columns > 0,
        ensures
            self@.lists(dirs@, directories(entries@)),
            exists|files: Seq<DirEntry>, home: Option<Seq<char>>, texts: Seq<Seq<char>>|
                {
                    &&& self@.lists(files, plain_files(entries@))
                    &&& self@.refresh_renders(
                        old(view)@,
                        shown_path(current_dir@, home),
                        dirs@,
                        files,
                        texts,
                        num_columns as nat,
                    )
                    &&& final(view)@ == #[trigger] self@.refreshed(
                        old(view)@,
                        shown_path(current_dir@, home),
                        dirs@,
                        files,
                        texts,
                        num_columns as nat,
                    )
                },
    {
        let (all_dirs, all_files) = get_dirs_files(entries);
        let dirs = self.shown(all_dirs.as_slice());
        let files = self.shown(all_files.as_slice());
        assert(self@.lists(dirs@, directories(entries@))) by {
            assert(dirs@ == self@.shown(all_dirs@));
        }
        assert(self@.lists(files@, plain_files(entries@))) by {
            assert(files@ == self@.shown(all_files@));
        }
        let messages = self.debug_messages();
        let mut i: usize = 0;
        while i < messages.len()
            invariant
                i <= messages.len(),
                view@ == old(view)@.noted_all(messages.deep_view().take(i as int)),
            decreases messages.len() - i,
        {
            assert(messages.deep_view().take(i + 1).drop_last() =~= messages.deep_view().take(
                i as int,
            ));
            view.debug_message(messages[i].clone());
            i += 1;
        }
        assert(messages.deep_view().take(i as int) =~= messages.deep_view());
        view.change_mode(self.mode.clone());
        view.prepare_screen(num_columns);
        let ghost ready = view@;
        view.display(current_dir, dirs.as_slice(), files.as_slice(), &self.history, &self.cursor);
        let ghost (home, texts) = choose|home: Option<Seq<char>>, texts: Seq<Seq<char>>|
            {
                &&& ready.is_dirty ==> renders_all(
                    texts,
                    ready.frame(
                        shown_path(current_dir@, home),
                        dirs@,
                        files@,
                        self.history@,
                        self.cursor,
                    ),
                )
                &&& view@ == #[trigger] ready.displayed(
                    shown_path(current_dir@, home),
                    dirs@,
                    files@,
                    self.history@,
                    self.cursor,
                    texts,
                )
            };
        view.clear_rest(num_columns);
        assert(ready == self@.ready(old(view)@, num_columns as nat));
        assert(view@ == self@.refreshed(
            old(view)@,
            shown_path(current_dir@, home),
            dirs@,
            files@,
            texts,
            num_columns as nat,
        ));
        dirs
    }

    /// Handles one key press in the current mode.
    pub fn handle_key(&mut self, e: KeyEvent, keybinds: &str, dirs: &[DirEntry]) -> (action: Action)
        ensures
            (final(self)@, action@) == old(self)@.step(e, keybinds@, dirs@),
    {
        if self.mode.is_select() {
            handle_select_mode(e, self, keybinds, dirs)
        } else {
            handle_normal_mode(e, self, dirs)
        }
    }
}

/// Flips the visibility of hidden entries and drops the highlight if the
/// key press is Control-S; says whether it was.
pub fn check_hidden_key(
    e: KeyEvent,
    c: char,
    show_hidden: &mut bool,
    cursor_index: &mut Option<usize>,
) -> (handled: bool)
    ensures
        handled == is_hidden_key(e, c),
        handled ==> *final(show_hidden) == !*old(show_hidden) && *final(cursor_index) is None,
        !handled ==> *final(show_hidden) == *old(show_hidden) && *final(cursor_index) == *old(
            cursor_index,
        ),
{
    if e.ctrl && c == 's' {
        *show_hidden = !*show_hidden;
        *cursor_index = None;
        return true;
    }
    false
}

/// Returns to Normal mode without a highlight if the key is the tilde; says
/// whether it was. The caller then changes to the home directory.
pub fn check_home_key(c: char, mode: &mut Mode, cursor_index: &mut Option<usize>) -> (handled: bool)
    ensures
        handled == is_home_key(c),
        handled ==> final(mode)@ is Normal && *final(cursor_index) is None,
        !handled ==> *final(mode) == *old(mode) && *final(cursor_index) == *old(cursor_index),
{
    if c == '~' {
        *mode = Mode::Normal;
        *cursor_index = None;
        return true;
    }
    false
}

/// The cursor after Tab among `count` rows.
fn cycle(cursor: Option<usize>, count: usize) -> (next: usize)
    requires
        count > 0,
    ensures
        next == cycled(cursor, count as nat),
        next < count,
{
    let current = match cursor {
        Some(c) => c,
        None => 0,
    };
    let within = current % count;
    proof {
        lemma_add_mod_noop(current as int, 1, count as int);
        if count > 1 {
            lemma_small_mod(1, count as nat);
        }
        if within + 1 < count {
            lemma_small_mod((within + 1) as nat, count as nat);
        } else {
            lemma_mod_self_0(count as int);
        }
    }
    if within + 1 == count {
        0
    } else {
        within + 1
    }
}

/// Typing `c` in Normal mode.
fn resolve(nav: &mut Navigator, dirs: &[DirEntry], c: char) -> (action: Action)
    ensures
        (final(nav)@, action@) == old(nav)@.resolve(dirs@, c),
{
    let prefix = single(c);
    let found = starts_with(dirs, prefix.as_str());
    if found.len() == 0 {
        return Action::Ignore;
    }
    if found.len() > 1 {
        nav.mode = Mode::Select(SelectionState { prefix, page: 0, cursor: Some(0) });
        nav.cursor = None;
        return Action::Redraw;
    }
    nav.cursor = None;
    Action::Enter(found[0].name.clone())
}

/// Handles one key press in Normal mode.
pub fn handle_normal_mode(e: KeyEvent, nav: &mut Navigator, dirs: &[DirEntry]) -> (action: Action)
    ensures
        (final(nav)@, action@) == old(nav)@.normal_step(e, dirs@),
{
    match e.code {
        KeyCode::Char(c) => {
            if check_hidden_key(e, c, &mut nav.show_hidden, &mut nav.cursor) {
                return Action::Redraw;
            }
            if check_home_key(c, &mut nav.mode, &mut nav.cursor) {
                return Action::Home;
            }
            resolve(nav, dirs, c)
        },
        KeyCode::Backspace => {
            nav.cursor = None;
            Action::Parent
        },
        KeyCode::Esc => Action::Cancel,
        KeyCode::Enter => {
            match nav.cursor {
                Some(index) => {
                    let key = match build_char_map(dirs) {
                        Some(map) => map.key_at(index),
                        None => None,
                    };
                    match key {
                        Some(c) => resolve(nav, dirs, c),
                        None => Action::Ignore,
                    }
                },
                None => Action::Confirm,
            }
        },
        KeyCode::Up => {
            let target = match nav.history.go_up() {
                Some(path) => Some(path.clone()),
                None => None,
            };
            match target {
                Some(path) => {
                    nav.cursor = None;
                    Action::Jump(path)
                },
                None => Action::Ignore,
            }
        },
        KeyCode::Down => {
            let target = match nav.history.go_down() {
                Some(path) => Some(path.clone()),
                None => None,
            };
            match target {
                Some(path) => {
                    nav.cursor = None;
                    Action::Jump(path)
                },
                None => Action::Ignore,
            }
        },
        KeyCode::Tab => {
            if dirs.len() == 0 {
                return Action::Ignore;
            }
            if nav.cursor.is_none() {
                nav.cursor = Some(0);
                return Action::Redraw;
            }
            match build_char_map(dirs) {
                Some(map) => {
                    assert(map.keys().contains(dirs@[0].name@[0]));
                    nav.cursor = Some(cycle(nav.cursor, map.len()));
                    Action::Redraw
                },
                None => Action::Ignore,
            }
        },
        KeyCode::Other => Action::Ignore,
    }
}

/// Picks the candidate at row `row` of page `page`.
fn pick(
    nav: &mut Navigator,
    selection: SelectionState,
    found: &Vec<DirEntry>,
    row: usize,
) -> (action: Action)
    ensures
        (final(nav)@, action@) == old(nav)@.pick(selection@, found@, row as nat),
{
    match index_on_page(found.len(), selection.page, row) {
        Some(index) => {
            nav.mode = Mode::Normal;
            nav.cursor = None;
            Action::Enter(found[index].name.clone())
        },
        None => {
            nav.mode = Mode::Select(selection);
            Action::Ignore
        },
    }
}

/// Handles one key press in Select mode. Outside Select mode nothing
/// happens.
pub fn handle_select_mode(
    e: KeyEvent,
    nav: &mut Navigator,
    keybinds: &str,
    dirs: &[DirEntry],
) -> (action: Action)
    ensures
        (final(nav)@, action@) == match old(nav)@.mode {
            ModeView::Select(selection) => old(nav)@.select_step(selection, e, keybinds@, dirs@),
            ModeView::Normal => (old(nav)@, ActionView::Ignore),
        },
{
    let selection = match &nav.mode {
        Mode::Select(selection) => selection.clone(),
        Mode::Normal => {
            return Action::Ignore;
        },
    };
    match e.code {
        KeyCode::Char(c) => {
            if e.ctrl && c == 's' {
                nav.show_hidden = !nav.show_hidden;
                nav.cursor = None;
                nav.mode = Mode::Select(SelectionState { cursor: None, ..selection });
                return Action::Redraw;
            }
            if check_home_key(c, &mut nav.mode, &mut nav.cursor) {
                return Action::Home;
            }
            let found = starts_with(dirs, selection.prefix.as_str());
            let n = found.len();
            if e.ctrl {
                let page = match c {
                    'f' => Some(next_page(selection.page, n)),
                    'b' => Some(previous_page(selection.page)),
                    'n' => Some(next_page_wrapping(selection.page, n)),
                    _ => None,
                };
                return match page {
                    Some(page) => {
                        nav.mode = Mode::Select(
                            SelectionState { prefix: selection.prefix, page, cursor: Some(0) },
                        );
                        Action::Redraw
                    },
                    None => {
                        nav.mode = Mode::Select(SelectionState { cursor: Some(0), ..selection });
                        Action::Ignore
                    },
                };
            }
            match find_char(keybinds, c) {
                Some(row) => {
                    let rewound = SelectionState { cursor: Some(0), ..selection };
                    pick(nav, rewound, &found, row)
                },
                None => {
                    nav.mode = Mode::Select(
                        SelectionState {
                            prefix: with_char(selection.prefix.as_str(), c),
                            page: 0,
                            cursor: Some(0),
                        },
                    );
                    Action::Redraw
                },
            }
        },
        KeyCode::Backspace => {
            if selection.prefix.as_str().unicode_len() > 1 {
                nav.mode = Mode::Select(
                    SelectionState {
                        prefix: without_last(selection.prefix.as_str()),
                        page: 0,
                        cursor: Some(0),
                    },
                );
            } else {
                nav.mode = Mode::Normal;
                nav.cursor = None;
            }
            Action::Redraw
        },
        KeyCode::Esc => {
            nav.mode = Mode::Normal;
            nav.cursor = selection.cursor;
            Action::Redraw
        },
        KeyCode::Enter => {
            let found = starts_with(dirs, selection.prefix.as_str());
            let row = match selection.cursor {
                Some(r) => r,
                None => 0,
            };
            pick(nav, selection, &found, row)
        },
        KeyCode::Tab => {
            if dirs.len() == 0 {
                return Action::Ignore;
            }
            let found = starts_with(dirs, selection.prefix.as_str());
            let shown = entries_on_page(found.len(), selection.page);
            if shown == 0 {
                return Action::Ignore;
            }
            let cursor = Some(cycle(selection.cursor, shown));
            nav.mode = Mode::Select(SelectionState { cursor, ..selection });
            Action::Redraw
        },
        _ => Action::Ignore,
    }
}

/// In a directory without directories on display, no character typed in
/// Normal mode changes anything, but for the two that are commands of
/// their own: Control-S and the tilde.
pub proof fn lemma_nothing_to_jump_to(nav: NavView, e: KeyEvent, c: char)
    requires
        e.code == KeyCode::Char(c),
        !is_hidden_key(e, c),
        !is_home_key(c),
    ensures
        nav.normal_step(e, Seq::empty()) == (nav, ActionView::Ignore),
{
}

/// Typing a character that is no keybind in Select mode narrows the
/// selection and stays in Select mode, however few candidates remain.
pub proof fn lemma_narrowing_stays_in_select(
    nav: NavView,
    selection: SelectionView,
    e: KeyEvent,
    c: char,
    keybinds: Seq<char>,
    dirs: Seq<DirEntry>,
)
    requires
        e.code == KeyCode::Char(c),
        !e.ctrl,
        !is_home_key(c),
        !keybinds.contains(c),
    ensures
        nav.select_step(selection, e, keybinds, dirs) == (
            nav.with_selection(
                SelectionView { prefix: selection.prefix.push(c), page: 0, cursor: Some(0) },
            ),
            ActionView::Redraw,
        ),
{
}

} // verus!
