//! The glyph shown in front of an entry when icons are switched on.

use crate::dir_util::{extension_of, get_extension, DirEntry};
use crate::text::same_text;
use vstd::prelude::*;

verus! {

/// The glyph of a file with the extension `ext`.
pub open spec fn extension_icon(ext: Seq<char>) -> Seq<char> {
    if ext == "rs"@ {
        "\u{e7a8}"@
    } else if ext == "md"@ || ext == "txt"@ {
        "\u{f15c}"@
    } else if ext == "png"@ || ext == "jpg"@ || ext == "svg"@ {
        "\u{f1c5}"@
    } else {
        "\u{f15b}"@
    }
}

/// The glyph of an entry: the folder for a directory; for a file, the glyph
/// of its extension, or the plain sheet where it has none.
pub open spec fn icon_of(entry: DirEntry) -> Seq<char> {
    if entry.is_dir {
        "\u{f07b}"@
    } else {
        match extension_of(entry.name@) {
            Some(ext) => extension_icon(ext),
            None => "\u{f15b}"@,
        }
    }
}

/// The glyph that stands for `entry`.
pub fn icon_for_file(entry: &DirEntry) -> (icon: &'static str)
    ensures
        icon@ == icon_of(*entry),
{
    if entry.is_dir {
        return "\u{f07b}";
    }
    match get_extension(entry) {
        Some(ext) => {
            let ext = ext.as_str();
            if same_text(ext, "rs") {
                "\u{e7a8}"
            } else if same_text(ext, "md") || same_text(ext, "txt") {
                "\u{f15c}"
            } else if same_text(ext, "png") || same_text(ext, "jpg") || same_text(ext, "svg") {
                "\u{f1c5}"
            } else {
                "\u{f15b}"
            }
        },
        None => "\u{f15b}",
    }
}

} // verus!
