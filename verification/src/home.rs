//! The user's home directory.

use vstd::prelude::*;

verus! {

/// Why a jump to the home directory cannot be made.
#[derive(Clone, Copy, Debug, PartialEq, Eq)]
pub enum HomeError {
    /// The system knows no home directory for the user.
    Missing,
}

impl HomeError {
    /// The message for the user.
    pub fn message(&self) -> (text: String)
        ensures
            text@ == "Could not find home directory."@,
    {
        "Could not find home directory.".to_owned()
    }
}

/// The home directory of the user, as text.
///
/// Trusted: wraps `dirs::home_dir`, which asks the operating system for
/// the home directory of the user who runs the program. The answer can
/// differ from call to call, so nothing is claimed of it.
#[verifier::external_body]
pub(crate) fn home_directory() -> Option<String> {
    dirs::home_dir().map(|path| path.to_string_lossy().into_owned())
}

} // verus!
