//! The two modes of the navigator and what Select mode carries.

use vstd::prelude::*;

verus! {

/// What Select mode carries: the characters typed so far, the page of
/// candidates on display, and the highlighted row of that page.
#[derive(Debug, PartialEq, Eq)]
pub struct SelectionState {
    pub prefix: String,
    pub page: usize,
    pub cursor: Option<usize>,
}

/// Mathematical model of a [`SelectionState`].
pub struct SelectionView {
    pub prefix: Seq<char>,
    pub page: usize,
    pub cursor: Option<usize>,
}

impl View for SelectionState {
    type V = SelectionView;

    open spec fn view(&self) -> SelectionView {
        SelectionView { prefix: self.prefix@, page: self.page, cursor: self.cursor }
    }
}

impl Clone for SelectionState {
    fn clone(&self) -> (copy: Self)
        ensures
            copy == *self,
    {
        SelectionState { prefix: self.prefix.clone(), page: self.page, cursor: self.cursor }
    }
}

/// Normal mode lists the directories by first character; Select mode
/// disambiguates between the directories that share a prefix.
#[derive(Debug, PartialEq, Eq)]
pub enum Mode {
    Normal,
    Select(SelectionState),
}

/// Mathematical model of a [`Mode`].
pub enum ModeView {
    Normal,
    Select(SelectionView),
}

impl View for Mode {
    type V = ModeView;

    open spec fn view(&self) -> ModeView {
        match self {
            Mode::Normal => ModeView::Normal,
            Mode::Select(selection) => ModeView::Select(selection@),
        }
    }
}

impl Clone for Mode {
    fn clone(&self) -> (copy: Self)
        ensures
            copy == *self,
    {
        match self {
            Mode::Normal => Mode::Normal,
            Mode::Select(selection) => Mode::Select(selection.clone()),
        }
    }
}

impl Mode {
    /// Whether this is Select mode.
    pub fn is_select(&self) -> (select: bool)
        ensures
            select == (self@ is Select),
    {
        match self {
            Mode::Normal => false,
            Mode::Select(_) => true,
        }
    }
}

} // verus!
