//! An interactive directory navigator: the navigation state machine, the
//! grouping of directory entries, the visit history and the incremental
//! terminal renderer, with machine-checked contracts.
//!
//! The library neither reads the keyboard nor the file system, and it
//! writes nothing. A program drives it in a loop:
//!
//! 1. it reads the children of the working directory and hands them to
//!    [`nav::Navigator::refresh`], which paints the interface on a
//!    [`visualize::View`];
//! 2. it carries out the terminal commands that the view queued
//!    ([`visualize::View::take_pending`]);
//! 3. it reads a key and hands it to [`nav::Navigator::handle_key`];
//! 4. it does what the returned [`nav::Action`] asks for: a change of
//!    directory ([`nav::Action::destination`]), recorded with
//!    [`nav::Navigator::visited`] where [`nav::Action::records_visit`] says
//!    so, or the end of the interaction ([`nav::Action::result_line`]).

pub mod char_map;
pub mod dir_util;
pub mod fetcher;
pub mod frame;
pub mod history;
pub mod home;
pub mod icons;
pub mod keys;
pub mod mode;
pub mod nav;
pub mod ordered;
pub mod order;
pub mod paging;
pub mod screen;
pub mod style;
pub mod text;
pub mod visualize;
