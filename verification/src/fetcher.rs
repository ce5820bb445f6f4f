//! A listing with its directories already grouped.

use crate::char_map::{all_named, group_keys, CharMap};
use crate::dir_util::{build_char_map, directories, get_dirs_files, plain_files, DirEntry};
use crate::order::sorted_by_name;
use vstd::prelude::*;

verus! {

/// `char_map` groups the directories of `entries`, taken in the order of
/// their names.
pub open spec fn groups_directories_of(char_map: CharMap, entries: Seq<DirEntry>) -> bool {
    exists|dirs: Seq<DirEntry>|
        {
            &&& sorted_by_name(dirs)
            &&& dirs.to_multiset() == directories(entries).to_multiset()
            &&& #[trigger] char_map.is_grouping_of(dirs)
            &&& char_map.keys() == group_keys(dirs)
            &&& char_map.groups().flatten().to_multiset() == dirs.to_multiset()
        }
}

/// A listing ready for display: the directories grouped by first
/// character, and the files.
#[derive(Debug, PartialEq, Eq)]
pub struct Listing {
    pub char_map: CharMap,
    pub files: Vec<DirEntry>,
}

/// Splits a listing, as it was read, into the grouping index of its
/// directories and its files in the order of their names. Fails, with
/// `None`, exactly when a directory of the listing has an empty name.
pub fn get_dirs(entries: &[DirEntry]) -> (listing: Option<Listing>)
    ensures
        listing is Some <==> all_named(directories(entries@)),
        listing matches Some(found) ==> {
            &&& groups_directories_of(found.char_map, entries@)
            &&& sorted_by_name(found.files@)
            &&& found.files@.to_multiset() == plain_files(entries@).to_multiset()
        },
{
    let (dirs, files) = get_dirs_files(entries);
    proof {
        lemma_same_members_named(dirs@, directories(entries@));
    }
    match build_char_map(dirs.as_slice()) {
        Some(char_map) => {
            Some(Listing { char_map, files })
        },
        None => None,
    }
}

/// Whether every entry has a name depends on the entries alone, not on
/// their order.
pub proof fn lemma_same_members_named(a: Seq<DirEntry>, b: Seq<DirEntry>)
    requires
        a.to_multiset() == b.to_multiset(),
    ensures
        all_named(a) == all_named(b),
{
    broadcast use vstd::seq_lib::to_multiset_contains;

    if all_named(a) {
        assert forall|i: int| 0 <= i < b.len() implies (#[trigger] b[i]).name@.len() > 0 by {
            assert(b.to_multiset().count(b[i]) > 0);
        }
    }
    if all_named(b) {
        assert forall|i: int| 0 <= i < a.len() implies (#[trigger] a[i]).name@.len() > 0 by {
            assert(a.to_multiset().count(a[i]) > 0);
        }
    }
}

} // verus!
