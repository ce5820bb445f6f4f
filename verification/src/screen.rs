//! The paint session: the commands queued for the terminal and the row
//! accounting that lets the next frame start where this one began.

use vstd::prelude::*;

verus! {

/// One command for the terminal. The caller carries the queued commands
/// out in order.
#[derive(Debug, PartialEq, Eq)]
pub enum TermOp {
    /// Write this text at the cursor.
    Print(String),
    /// Erase from the cursor to the end of its line.
    ClearUntilNewLine,
    /// Start a new line.
    NewLine,
    /// Erase the line of the cursor.
    ClearCurrentLine,
    /// Move the cursor down by this many rows.
    MoveDown(u16),
    /// Move the cursor up by this many rows.
    MoveUp(u16),
    /// Move the cursor to this column of its row.
    MoveToColumn(u16),
    ShowCursor,
    HideCursor,
    /// Hand everything written so far to the terminal.
    Flush,
    EnableRawMode,
    DisableRawMode,
}

/// Mathematical model of a [`TermOp`].
pub enum TermOpView {
    Print(Seq<char>),
    ClearUntilNewLine,
    NewLine,
    ClearCurrentLine,
    MoveDown(u16),
    MoveUp(u16),
    MoveToColumn(u16),
    ShowCursor,
    HideCursor,
    Flush,
    EnableRawMode,
    DisableRawMode,
}

impl DeepView for TermOp {
    type V = TermOpView;

    open spec fn deep_view(&self) -> TermOpView {
        self@
    }
}

impl View for TermOp {
    type V = TermOpView;

    open spec fn view(&self) -> TermOpView {
        match self {
            TermOp::Print(text) => TermOpView::Print(text@),
            TermOp::ClearUntilNewLine => TermOpView::ClearUntilNewLine,
            TermOp::NewLine => TermOpView::NewLine,
            TermOp::ClearCurrentLine => TermOpView::ClearCurrentLine,
            TermOp::MoveDown(n) => TermOpView::MoveDown(*n),
            TermOp::MoveUp(n) => TermOpView::MoveUp(*n),
            TermOp::MoveToColumn(n) => TermOpView::MoveToColumn(*n),
            TermOp::ShowCursor => TermOpView::ShowCursor,
            TermOp::HideCursor => TermOpView::HideCursor,
            TermOp::Flush => TermOpView::Flush,
            TermOp::EnableRawMode => TermOpView::EnableRawMode,
            TermOp::DisableRawMode => TermOpView::DisableRawMode,
        }
    }
}

/// What is left of `text` once its escape sequences are taken out, as
/// `strip_ansi_escapes::strip_str` computes it.
pub uninterp spec fn stripped(text: Seq<char>) -> Seq<char>;

/// Takes the escape sequences out of `text`.
///
/// Trusted: wraps `strip_ansi_escapes::strip_str`, which runs the text
/// through a terminal-sequence parser and keeps the printable characters
/// and line feeds. The contract only gives that result its name.
#[verifier::external_body]
fn strip_escapes(text: &str) -> (plain: String)
    ensures
        plain@ == stripped(text@),
{
    strip_ansi_escapes::strip_str(text)
}

/// The rows that a line of `length` visible characters takes on a terminal
/// `columns` wide: the length divided by the width, rounded up.
pub open spec fn rows_of(length: nat, columns: nat) -> nat {
    if columns == 0 {
        0
    } else {
        ((length + columns - 1) / (columns as int)) as nat
    }
}

/// The rows that lines of these visible lengths take together.
pub open spec fn total_rows(lengths: Seq<usize>, columns: nat) -> nat
    decreases lengths.len(),
{
    if lengths.len() == 0 {
        0
    } else {
        total_rows(lengths.drop_last(), columns) + rows_of(lengths.last() as nat, columns)
    }
}

/// A row count as the screen holds it: the count itself, capped at the
/// largest number a `usize` holds.
pub open spec fn capped(rows: nat) -> usize {
    if rows <= usize::MAX {
        rows as usize
    } else {
        usize::MAX
    }
}

/// `count` times: erase the line of the cursor, then move one row down.
pub open spec fn erase_down(count: nat) -> Seq<TermOpView>
    decreases count,
{
    if count == 0 {
        Seq::empty()
    } else {
        erase_down((count - 1) as nat) + seq![
            TermOpView::ClearCurrentLine,
            TermOpView::MoveDown(1),
        ]
    }
}

/// Moves up by `rows` rows, in as few steps as the terminal's 16-bit
/// counts allow.
pub open spec fn climb(rows: nat) -> Seq<TermOpView>
    decreases rows,
{
    if rows == 0 {
        Seq::empty()
    } else if rows <= u16::MAX {
        seq![TermOpView::MoveUp(rows as u16)]
    } else {
        seq![TermOpView::MoveUp(u16::MAX)] + climb((rows - u16::MAX) as nat)
    }
}

/// Erases the `surplus` rows below the cursor and returns to the row it
/// started on.
pub open spec fn erase_surplus(surplus: nat) -> Seq<TermOpView> {
    erase_down(surplus) + climb(surplus)
}

/// `rows` times one row up, then to the first column, then flush.
pub open spec fn return_to_top(rows: nat) -> Seq<TermOpView> {
    Seq::new(rows, |i: int| TermOpView::MoveUp(1)) + seq![
        TermOpView::MoveToColumn(0),
        TermOpView::Flush,
    ]
}

/// The row of the cursor after `ops`, for a cursor that starts on row `row`.
/// Only the commands that move the cursor by rows count; rows grow downwards.
pub open spec fn row_after(ops: Seq<TermOpView>, row: int) -> int
    decreases ops.len(),
{
    if ops.len() == 0 {
        row
    } else {
        let before = row_after(ops.drop_last(), row);
        match ops.last() {
            TermOpView::MoveDown(n) => before + n,
            TermOpView::MoveUp(n) => before - n,
            _ => before,
        }
    }
}

/// The rows that `ops` erase as whole lines, for a cursor that starts on row
/// `row`.
pub open spec fn erased_rows(ops: Seq<TermOpView>, row: int) -> Set<int>
    decreases ops.len(),
{
    if ops.len() == 0 {
        Set::empty()
    } else {
        let before = erased_rows(ops.drop_last(), row);
        match ops.last() {
            TermOpView::ClearCurrentLine => before.insert(row_after(ops.drop_last(), row)),
            _ => before,
        }
    }
}

/// Mathematical model of a [`Screen`].
pub struct ScreenView {
    /// The rows that the frame before this one took.
    pub previous_num_rows: usize,
    /// The visible length of each line of this frame.
    pub line_lengths: Seq<usize>,
    /// The commands waiting to be carried out.
    pub pending: Seq<TermOpView>,
}

impl ScreenView {
    /// The screen after `ops` were queued.
    pub open spec fn queued(self, ops: Seq<TermOpView>) -> ScreenView {
        ScreenView { pending: self.pending + ops, ..self }
    }

    /// The screen after a line of text with `length` visible characters
    /// was written.
    pub open spec fn with_line(self, text: Seq<char>, length: usize) -> ScreenView {
        ScreenView {
            line_lengths: self.line_lengths.push(length),
            pending: self.pending + seq![
                TermOpView::Print(text),
                TermOpView::ClearUntilNewLine,
                TermOpView::NewLine,
            ],
            ..self
        }
    }

    /// The screen after `text` was written as one line.
    pub open spec fn written(self, text: Seq<char>) -> ScreenView {
        self.with_line(text, stripped(text).len() as usize)
    }

    /// The screen after an empty line, which counts as one character long.
    pub open spec fn blank(self) -> ScreenView {
        ScreenView {
            line_lengths: self.line_lengths.push(1),
            pending: self.pending + seq![TermOpView::ClearUntilNewLine, TermOpView::NewLine],
            ..self
        }
    }

    /// The rows of this frame on a terminal `columns` wide.
    pub open spec fn num_rows(self, columns: nat) -> usize {
        capped(total_rows(self.line_lengths, columns))
    }

    /// The rows that the frame before this one took and this one does not.
    pub open spec fn surplus(self, columns: nat) -> nat {
        if self.previous_num_rows > self.num_rows(columns) {
            (self.previous_num_rows - self.num_rows(columns)) as nat
        } else {
            0
        }
    }

    /// The screen after the rows left over from the frame before were
    /// erased.
    pub open spec fn rest_cleared(self, columns: nat) -> ScreenView {
        self.queued(erase_surplus(self.surplus(columns)))
    }

    /// The screen after the cursor was sent back to the top of this frame:
    /// the frame's rows are remembered and its lines forgotten.
    pub open spec fn moved_up(self, columns: nat) -> ScreenView {
        ScreenView {
            previous_num_rows: self.num_rows(columns),
            line_lengths: Seq::empty(),
            pending: self.pending + return_to_top(self.num_rows(columns) as nat),
        }
    }
}

/// The commands queued for the terminal, and the lengths of the lines of
/// the current frame.
pub struct Screen {
    previous_num_rows: usize,
    line_lengths: Vec<usize>,
    pending: Vec<TermOp>,
}

impl View for Screen {
    type V = ScreenView;

    closed spec fn view(&self) -> ScreenView {
        ScreenView {
            previous_num_rows: self.previous_num_rows,
            line_lengths: self.line_lengths@,
            pending: Seq::new(self.pending@.len(), |i: int| self.pending@[i]@),
        }
    }
}

/// The rows that a line of `length` visible characters takes on a terminal
/// `columns` wide.
pub fn rows_for(length: usize, columns: u16) -> (rows: usize)
    requires
        columns > 0,
    ensures
        rows == rows_of(length as nat, columns as nat),
{
    let width = columns as usize;
    let full = length / width;
    proof {
        if length % width == 0 {
            assert((length + width - 1) / (width as int) == length / width) by (nonlinear_arith)
                requires
                    width > 0,
                    length % width == 0,
                    length >= 0,
            ;
        } else {
            assert((length + width - 1) / (width as int) == length / width + 1)
                by (nonlinear_arith)
                requires
                    width > 0,
                    0 < length % width < width,
                    length >= 0,
            ;
            assert(length / width < usize::MAX) by (nonlinear_arith)
                requires
                    width > 0,
                    0 < length % width,
                    length <= usize::MAX,
            ;
        }
    }
    if length % width == 0 {
        full
    } else {
        full + 1
    }
}

impl Screen {
    /// A screen on which nothing was painted yet.
    pub fn new() -> (screen: Self)
        ensures
            screen@ == (ScreenView {
                previous_num_rows: 0,
                line_lengths: Seq::empty(),
                pending: Seq::empty(),
            }),
    {
        let screen = Screen { previous_num_rows: 0, line_lengths: Vec::new(), pending: Vec::new() };
        assert(screen@.pending =~= Seq::empty());
        screen
    }

    /// Queues one command.
    fn queue(&mut self, op: TermOp)
        ensures
            final(self)@ == old(self)@.queued(seq![op@]),
    {
        self.pending.push(op);
        assert(self@.pending =~= old(self)@.pending + seq![op@]);
    }

    /// Writes `text` as one line of which `length` characters are visible.
    pub fn write_line(&mut self, text: String, length: usize)
        ensures
            final(self)@ == old(self)@.with_line(text@, length),
    {
        self.line_lengths.push(length);
        self.pending.push(TermOp::Print(text));
        self.pending.push(TermOp::ClearUntilNewLine);
        self.pending.push(TermOp::NewLine);
        assert(self@.pending =~= old(self)@.with_line(text@, length).pending);
    }

    /// Writes `s` as one line and notes its visible length.
    pub fn write(&mut self, s: &str)
        ensures
            final(self)@ == old(self)@.written(s@),
    {
        let length = self.display_to_visible_length(s);
        self.write_line(s.to_owned(), length);
    }

    /// Writes an empty line.
    pub fn empty_line(&mut self)
        ensures
            final(self)@ == old(self)@.blank(),
    {
        self.pending.push(TermOp::ClearUntilNewLine);
        self.pending.push(TermOp::NewLine);
        self.line_lengths.push(1);
        assert(self@.pending =~= old(self)@.blank().pending);
    }

    /// Makes the cursor visible.
    pub fn show_cursor(&mut self)
        ensures
            final(self)@ == old(self)@.queued(seq![TermOpView::ShowCursor]),
    {
        self.queue(TermOp::ShowCursor);
    }

    /// Makes the cursor invisible.
    pub fn hide_cursor(&mut self)
        ensures
            final(self)@ == old(self)@.queued(seq![TermOpView::HideCursor]),
    {
        self.queue(TermOp::HideCursor);
    }

    /// Switches the terminal's raw input mode on or off.
    pub fn set_raw_mode(&mut self, enabled: bool)
        ensures
            final(self)@ == old(self)@.queued(
                seq![
                    if enabled {
                        TermOpView::EnableRawMode
                    } else {
                        TermOpView::DisableRawMode
                    },
                ],
            ),
    {
        if enabled {
            self.queue(TermOp::EnableRawMode);
        } else {
            self.queue(TermOp::DisableRawMode);
        }
    }

    /// Erases the rows that the frame before this one took below the rows
    /// of this frame, and returns the cursor to where it was.
    pub fn clear_rest(&mut self, num_columns: u16)
        requires
            num_columns > 0,
        ensures
            final(self)@ == old(self)@.rest_cleared(num_columns as nat),
    {
        let current_num_rows = self.calculate_num_rows(num_columns);
        if self.previous_num_rows > current_num_rows {
            let surplus = self.previous_num_rows - current_num_rows;
            let mut done: usize = 0;
            while done < surplus
                invariant
                    done <= surplus,
                    self@ == old(self)@.queued(erase_down(done as nat)),
                decreases surplus - done,
            {
                let ghost before = self@;
                self.pending.push(TermOp::ClearCurrentLine);
                self.pending.push(TermOp::MoveDown(1));
                proof {
                    let pair = seq![TermOpView::ClearCurrentLine, TermOpView::MoveDown(1)];
                    assert(self@.pending =~= before.pending + pair);
                    assert(self@.pending =~= old(self)@.pending + erase_down((done + 1) as nat));
                }
                done += 1;
            }
            let mut left = surplus;
            while left > 0
                invariant
                    left <= surplus,
                    self@.previous_num_rows == old(self)@.previous_num_rows,
                    self@.line_lengths == old(self)@.line_lengths,
                    self@.pending + climb(left as nat) == old(self)@.pending + erase_surplus(
                        surplus as nat,
                    ),
                decreases left,
            {
                let step: u16 = if left > 0xffff {
                    0xffff
                } else {
                    left as u16
                };
                self.pending.push(TermOp::MoveUp(step));
                left -= step as usize;
            }
        }
    }

    /// Remembers the rows of this frame, forgets its lines, and sends the
    /// cursor back to the first column of the frame's first row.
    pub fn move_up(&mut self, num_columns: u16)
        requires
            num_columns > 0,
        ensures
            final(self)@ == old(self)@.moved_up(num_columns as nat),
    {
        self.previous_num_rows = self.calculate_num_rows(num_columns);
        self.line_lengths.clear();
        let rows = self.previous_num_rows;
        let mut done: usize = 0;
        while done < rows
            invariant
                done <= rows,
                rows == self@.previous_num_rows,
                self@.previous_num_rows == old(self)@.num_rows(num_columns as nat),
                self@.line_lengths == Seq::<usize>::empty(),
                self@.pending == old(self)@.pending + Seq::new(
                    done as nat,
                    |i: int| TermOpView::MoveUp(1),
                ),
            decreases rows - done,
        {
            let ghost before = self@.pending;
            self.pending.push(TermOp::MoveUp(1));
            assert(self@.pending =~= before.push(TermOpView::MoveUp(1)));
            done += 1;
        }
        let ghost climbed = self@.pending;
        self.pending.push(TermOp::MoveToColumn(0));
        self.pending.push(TermOp::Flush);
        proof {
            assert(self@.pending =~= climbed + seq![
                TermOpView::MoveToColumn(0),
                TermOpView::Flush,
            ]);
            assert(self@.pending =~= old(self)@.moved_up(num_columns as nat).pending);
        }
    }

    /// The rows that the lines of this frame take on a terminal
    /// `num_columns` wide.
    pub fn calculate_num_rows(&self, num_columns: u16) -> (num_rows: usize)
        requires
            num_columns > 0,
        ensures
            num_rows == self@.num_rows(num_columns as nat),
    {
        let mut num_rows: usize = 0;
        let mut i: usize = 0;
        while i < self.line_lengths.len()
            invariant
                i <= self.line_lengths@.len(),
                num_columns > 0,
                num_rows == capped(
                    total_rows(self.line_lengths@.take(i as int), num_columns as nat),
                ),
            decreases self.line_lengths@.len() - i,
        {
            let rows_per_line = rows_for(self.line_lengths[i], num_columns);
            assert(self.line_lengths@.take(i + 1).drop_last() =~= self.line_lengths@.take(
                i as int,
            ));
            num_rows = num_rows.saturating_add(rows_per_line);
            i += 1;
        }
        assert(self.line_lengths@.take(i as int) =~= self.line_lengths@);
        num_rows
    }

    /// The number of characters of `text` that show on the terminal.
    pub fn display_to_visible_length(&self, text: &str) -> (length: usize)
        ensures
            length == stripped(text@).len(),
    {
        let plain = strip_escapes(text);
        plain.as_str().unicode_len()
    }

    /// Hands the queued commands out, in order, and empties the queue.
    pub fn take_pending(&mut self) -> (ops: Vec<TermOp>)
        ensures
            ops.deep_view() == old(self)@.pending,
            final(self)@ == (ScreenView { pending: Seq::empty(), ..old(self)@ }),
    {
        let mut ops: Vec<TermOp> = Vec::new();
        std::mem::swap(&mut ops, &mut self.pending);
        assert(self@.pending =~= Seq::empty());
        ops
    }
}

/// Running `a` and then `b` is running `b` from where `a` left the cursor.
pub proof fn lemma_run_in_sequence(a: Seq<TermOpView>, b: Seq<TermOpView>, row: int)
    ensures
        row_after(a + b, row) == row_after(b, row_after(a, row)),
        erased_rows(a + b, row) == erased_rows(a, row).union(erased_rows(b, row_after(a, row))),
    decreases b.len(),
{
    if b.len() > 0 {
        assert((a + b).drop_last() =~= a + b.drop_last());
        lemma_run_in_sequence(a, b.drop_last(), row);
    }
}

/// What a single command does to the cursor's row and to the erased rows.
pub proof fn lemma_run_one(op: TermOpView, row: int)
    ensures
        row_after(seq![op], row) == match op {
            TermOpView::MoveDown(n) => row + n,
            TermOpView::MoveUp(n) => row - n,
            _ => row,
        },
        erased_rows(seq![op], row) == if op is ClearCurrentLine {
            set![row]
        } else {
            Set::<int>::empty()
        },
{
    assert(row_after(seq![op].drop_last(), row) == row);
    assert(erased_rows(seq![op].drop_last(), row) == Set::<int>::empty());
}

/// Erasing downwards erases the rows it passes and ends below them.
pub proof fn lemma_erase_down(count: nat, row: int)
    ensures
        row_after(erase_down(count), row) == row + count,
        erased_rows(erase_down(count), row) == Set::new(|r: int| row <= r < row + count),
    decreases count,
{
    if count > 0 {
        let rest = erase_down((count - 1) as nat);
        let pair = seq![TermOpView::ClearCurrentLine, TermOpView::MoveDown(1)];
        lemma_erase_down((count - 1) as nat, row);
        lemma_run_in_sequence(rest, pair, row);
        let from = row + count - 1;
        assert(pair =~= seq![TermOpView::ClearCurrentLine] + seq![TermOpView::MoveDown(1)]);
        lemma_run_one(TermOpView::ClearCurrentLine, from);
        lemma_run_one(TermOpView::MoveDown(1), from);
        lemma_run_in_sequence(
            seq![TermOpView::ClearCurrentLine],
            seq![TermOpView::MoveDown(1)],
            from,
        );
    }
}

/// Climbing moves the cursor up by the rows asked for and erases nothing.
pub proof fn lemma_climb(rows: nat, row: int)
    ensures
        row_after(climb(rows), row) == row - rows,
        erased_rows(climb(rows), row) == Set::<int>::empty(),
    decreases rows,
{
    if rows == 0 {
        // Nothing to climb.
    } else if rows <= u16::MAX {
        lemma_run_one(TermOpView::MoveUp(rows as u16), row);
    } else {
        let one = seq![TermOpView::MoveUp(u16::MAX)];
        lemma_run_one(TermOpView::MoveUp(u16::MAX), row);
        lemma_climb((rows - u16::MAX) as nat, row - u16::MAX);
        lemma_run_in_sequence(one, climb((rows - u16::MAX) as nat), row);
    }
}

/// Erasing the surplus erases exactly the `surplus` rows that begin at the
/// cursor's row, and leaves the cursor on the row it started on.
pub proof fn lemma_erase_surplus(surplus: nat, row: int)
    ensures
        erased_rows(erase_surplus(surplus), row) == Set::new(|r: int| row <= r < row + surplus),
        row_after(erase_surplus(surplus), row) == row,
{
    lemma_erase_down(surplus, row);
    lemma_climb(surplus, row + surplus);
    lemma_run_in_sequence(erase_down(surplus), climb(surplus), row);
}

/// Returning to the top from the row below a frame of `rows` rows ends on
/// the frame's first row and erases nothing.
pub proof fn lemma_return_to_top(rows: nat)
    ensures
        row_after(return_to_top(rows), rows as int) == 0,
        erased_rows(return_to_top(rows), rows as int) == Set::<int>::empty(),
{
    let ups = Seq::new(rows, |i: int| TermOpView::MoveUp(1));
    let tail = seq![TermOpView::MoveToColumn(0), TermOpView::Flush];
    lemma_ups(rows, rows as int);
    lemma_run_in_sequence(ups, tail, rows as int);
    assert(tail =~= seq![TermOpView::MoveToColumn(0)] + seq![TermOpView::Flush]);
    lemma_run_one(TermOpView::MoveToColumn(0), 0);
    lemma_run_one(TermOpView::Flush, 0);
    lemma_run_in_sequence(seq![TermOpView::MoveToColumn(0)], seq![TermOpView::Flush], 0);
}

/// `count` single steps up move the cursor up by `count` rows.
proof fn lemma_ups(count: nat, row: int)
    ensures
        row_after(Seq::new(count, |i: int| TermOpView::MoveUp(1)), row) == row - count,
        erased_rows(Seq::new(count, |i: int| TermOpView::MoveUp(1)), row) == Set::<int>::empty(),
    decreases count,
{
    let ups = Seq::new(count, |i: int| TermOpView::MoveUp(1));
    if count > 0 {
        assert(ups.drop_last() =~= Seq::new((count - 1) as nat, |i: int| TermOpView::MoveUp(1)));
        lemma_ups((count - 1) as nat, row);
    }
}

/// The repaint law. With the cursor on the row below a frame that takes
/// fewer rows than the frame before it, clearing the rest erases exactly
/// the rows that the earlier frame took beyond this one and leaves the
/// cursor where it was; moving up then puts it on the first row of the
/// frame just painted. Rows are counted from the top of the frame.
pub proof fn lemma_repaint(screen: ScreenView, columns: nat)
    ensures
        ({
            let current = screen.num_rows(columns) as int;
            let previous = screen.previous_num_rows as int;
            let erase = erase_surplus(screen.surplus(columns));
            let climb_back = return_to_top(screen.num_rows(columns) as nat);
            &&& screen.rest_cleared(columns).pending == screen.pending + erase
            &&& erased_rows(erase, current) == Set::new(|r: int| current <= r < previous)
            &&& row_after(erase, current) == current
            &&& screen.rest_cleared(columns).moved_up(columns).pending == screen.pending + erase
                + climb_back
            &&& row_after(climb_back, current) == 0
            &&& screen.rest_cleared(columns).moved_up(columns).previous_num_rows == current
        }),
{
    let current = screen.num_rows(columns) as int;
    lemma_erase_surplus(screen.surplus(columns), current);
    lemma_return_to_top(screen.num_rows(columns) as nat);
}

} // verus!
