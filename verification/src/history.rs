//! Linear, truncating history of visited directories.

use vstd::prelude::*;

verus! {

/// One operation on a history.
pub enum HistoryOp {
    /// Visit this path.
    Push(Seq<char>),
    /// Step back.
    Back,
    /// Step forward.
    Forward,
}

/// Mathematical model of a [`PathHistory`]: the visited paths, oldest first,
/// and the position of the current one.
pub struct HistoryView {
    pub paths: Seq<Seq<char>>,
    pub index: nat,
}

impl HistoryView {
    /// The history before anything was visited.
    pub open spec fn empty() -> HistoryView {
        HistoryView { paths: Seq::empty(), index: 0 }
    }

    /// The position points at an entry, or is zero while nothing was visited.
    pub open spec fn valid(self) -> bool {
        if self.paths.len() == 0 {
            self.index == 0
        } else {
            self.index < self.paths.len()
        }
    }

    /// The entries that survive a visit: everything up to and including the
    /// current position.
    pub open spec fn kept(self) -> Seq<Seq<char>> {
        if self.index + 1 < self.paths.len() {
            self.paths.take(self.index as int + 1)
        } else {
            self.paths
        }
    }

    /// Visiting `path`: forward entries are dropped, the path is appended
    /// unless it already is the last kept entry, and it becomes current.
    pub open spec fn push(self, path: Seq<char>) -> HistoryView {
        let kept = self.kept();
        let paths = if kept.len() > 0 && kept.last() == path {
            kept
        } else {
            kept.push(path)
        };
        HistoryView { paths, index: (paths.len() - 1) as nat }
    }

    /// The history after the operation `op`.
    pub open spec fn apply(self, op: HistoryOp) -> HistoryView {
        match op {
            HistoryOp::Push(path) => self.push(path),
            HistoryOp::Back => self.back(),
            HistoryOp::Forward => self.forward(),
        }
    }

    /// The history after each operation of `ops`, in order.
    pub open spec fn apply_all(self, ops: Seq<HistoryOp>) -> HistoryView
        decreases ops.len(),
    {
        if ops.len() == 0 {
            self
        } else {
            self.apply_all(ops.drop_last()).apply(ops.last())
        }
    }

    /// There is an entry before the current one.
    pub open spec fn can_go_back(self) -> bool {
        self.index > 0
    }

    /// There is an entry after the current one.
    pub open spec fn can_go_forward(self) -> bool {
        self.index + 1 < self.paths.len()
    }

    /// One step towards the oldest entry; unchanged at the oldest one.
    pub open spec fn back(self) -> HistoryView {
        if self.can_go_back() {
            HistoryView { paths: self.paths, index: (self.index - 1) as nat }
        } else {
            self
        }
    }

    /// One step towards the newest entry; unchanged at the newest one.
    pub open spec fn forward(self) -> HistoryView {
        if self.can_go_forward() {
            HistoryView { paths: self.paths, index: self.index + 1 }
        } else {
            self
        }
    }

    /// The entry that a step back leads to; none at the oldest entry.
    pub open spec fn back_target(self) -> Option<Seq<char>> {
        if self.can_go_back() {
            self.back().current()
        } else {
            None
        }
    }

    /// The entry that a step forward leads to; none at the newest entry.
    pub open spec fn forward_target(self) -> Option<Seq<char>> {
        if self.can_go_forward() {
            self.forward().current()
        } else {
            None
        }
    }

    /// The path at the current position, if the position points at one.
    pub open spec fn current(self) -> Option<Seq<char>> {
        if self.index < self.paths.len() {
            Some(self.paths[self.index as int])
        } else {
            None
        }
    }
}

/// The directories visited so far and the position of the current one.
#[derive(Debug, PartialEq, Eq)]
pub struct PathHistory {
    pub index: usize,
    pub buffer: Vec<String>,
}

impl View for PathHistory {
    type V = HistoryView;

    open spec fn view(&self) -> HistoryView {
        HistoryView {
            paths: Seq::new(self.buffer@.len(), |i: int| self.buffer@[i]@),
            index: self.index as nat,
        }
    }
}

impl PathHistory {
    /// The history before anything was visited.
    pub fn new() -> (history: Self)
        ensures
            history@ == HistoryView::empty(),
    {
        let history = PathHistory { index: 0, buffer: Vec::new() };
        assert(history@.paths =~= Seq::empty());
        history
    }

    /// Records a visit to `path`.
    pub fn push(&mut self, path: &str)
        ensures
            final(self)@ == old(self)@.push(path@),
    {
        let ghost before = self@;
        let len = self.buffer.len();
        if self.index < len && self.index + 1 < len {
            self.buffer.truncate(self.index + 1);
        }
        let new_path = path.to_owned();
        let n = self.buffer.len();
        let same = n > 0 && self.buffer[n - 1] == new_path;
        if !same {
            self.buffer.push(new_path);
        }
        self.index = self.buffer.len() - 1;
        assert(self@.paths =~= before.push(path@).paths);
    }

    /// Steps back to the entry visited before the current one and returns it,
    /// or returns `None` and changes nothing at the oldest entry.
    pub fn go_up(&mut self) -> (path: Option<&String>)
        ensures
            final(self)@ == old(self)@.back(),
            match path {
                Some(p) => old(self)@.back_target() == Some(p@),
                None => old(self)@.back_target() is None,
            },
    {
        if self.index > 0 {
            self.index -= 1;
            if self.index < self.buffer.len() {
                return Some(&self.buffer[self.index]);
            }
            return None;
        }
        None
    }

    /// Steps forward to the entry visited after the current one and returns
    /// it, or returns `None` and changes nothing at the newest entry.
    pub fn go_down(&mut self) -> (path: Option<&String>)
        ensures
            final(self)@ == old(self)@.forward(),
            match path {
                Some(p) => old(self)@.forward_target() == Some(p@),
                None => old(self)@.forward_target() is None,
            },
    {
        let len = self.buffer.len();
        if len > 0 && self.index < len - 1 {
            self.index += 1;
            return Some(&self.buffer[self.index]);
        }
        None
    }
}

/// A visit always leaves a valid history whose current entry is the visited
/// path, the last one.
pub proof fn lemma_push_lands_on_last(h: HistoryView, path: Seq<char>)
    ensures
        h.push(path).valid(),
        h.push(path).paths.len() > 0,
        h.push(path).index == h.push(path).paths.len() - 1,
        h.push(path).current() == Some(path),
{
}

/// Whatever is visited and however the history is stepped through, in
/// whatever order and number, the position stays on an entry.
pub proof fn lemma_always_valid(h: HistoryView, ops: Seq<HistoryOp>)
    requires
        h.valid(),
    ensures
        h.apply_all(ops).valid(),
        forall|i: int|
            0 <= i < ops.len() ==> (#[trigger] h.apply_all(ops.take(i))).valid(),
    decreases ops.len(),
{
    if ops.len() > 0 {
        lemma_always_valid(h, ops.drop_last());
        assert forall|i: int| 0 <= i < ops.len() implies (#[trigger] h.apply_all(
            ops.take(i),
        )).valid() by {
            if i < ops.len() - 1 {
                assert(ops.take(i) =~= ops.drop_last().take(i));
            }
        }
    }
}

/// Every history that is built from the empty one has its position on an
/// entry as soon as something was visited.
pub proof fn lemma_valid_from_empty(ops: Seq<HistoryOp>)
    ensures
        HistoryView::empty().apply_all(ops).valid(),
{
    lemma_always_valid(HistoryView::empty(), ops);
}

/// Stepping back or forward keeps the entries and never moves the position
/// off them.
pub proof fn lemma_steps_stay_in_range(h: HistoryView)
    requires
        h.valid(),
    ensures
        h.back().valid(),
        h.forward().valid(),
        h.back().paths == h.paths,
        h.forward().paths == h.paths,
        h.back().index <= h.index <= h.forward().index,
        h.paths.len() > 0 ==> (h.back_target() is Some <==> h.index > 0),
        h.paths.len() > 0 ==> (h.forward_target() is Some <==> h.index + 1 < h.paths.len()),
{
}

/// Visiting the same path twice in a row is the same as visiting it once.
pub proof fn lemma_push_idempotent(h: HistoryView, path: Seq<char>)
    ensures
        h.push(path).push(path) == h.push(path),
{
}

/// A visit made after stepping back drops every entry after the current one
/// and appends the new path, unless the new path is the current entry.
pub proof fn lemma_push_truncates_forward(h: HistoryView, path: Seq<char>)
    requires
        h.valid(),
        h.paths.len() > 0,
    ensures
        h.paths[h.index as int] != path ==> h.push(path).paths == h.paths.take(
            h.index as int + 1,
        ).push(path),
        h.paths[h.index as int] == path ==> h.push(path).paths == h.paths.take(h.index as int + 1),
{
}

} // verus!
