//! Directory entries and the queries the navigator makes on a listing.

use crate::char_map::{
    all_named, bucket_of, group_keys, groups_in_order, is_key_seq, laid_out,
    lemma_entry_joins_bucket, lemma_entry_opens_bucket, lemma_grouped, rank, Bucket, CharMap,
};
use std::collections::BTreeMap;
use crate::order::{sort_by_name, sorted_by_name};
use crate::text::{chars_of, has_prefix, text_of};
use vstd::prelude::*;

verus! {

/// One child of the working directory: its base name and whether it is a
/// directory.
#[derive(Debug, PartialEq, Eq)]
pub struct DirEntry {
    pub name: String,
    pub is_dir: bool,
}

impl DirEntry {
    /// The entry with this base name.
    pub fn new(name: &str, is_dir: bool) -> (entry: Self)
        ensures
            entry.name@ == name@,
            entry.is_dir == is_dir,
    {
        DirEntry { name: name.to_owned(), is_dir }
    }
}

impl Clone for DirEntry {
    fn clone(&self) -> (copy: Self)
        ensures
            copy == *self,
    {
        DirEntry { name: self.name.clone(), is_dir: self.is_dir }
    }
}

/// The names of `entries`, in order.
pub open spec fn names(entries: Seq<DirEntry>) -> Seq<Seq<char>> {
    Seq::new(entries.len(), |i: int| entries[i].name@)
}

/// The entries of `entries` whose name begins with `prefix`, in order.
pub open spec fn matching(entries: Seq<DirEntry>, prefix: Seq<char>) -> Seq<DirEntry> {
    entries.filter(|e: DirEntry| prefix.is_prefix_of(e.name@))
}

/// A name is hidden when it begins with a dot.
pub open spec fn is_hidden(name: Seq<char>) -> bool {
    name.len() > 0 && name[0] == '.'
}

/// The entries of `entries` that are not hidden, in order.
pub open spec fn visible(entries: Seq<DirEntry>) -> Seq<DirEntry> {
    entries.filter(|e: DirEntry| !is_hidden(e.name@))
}

/// The directories among `entries`, in order.
pub open spec fn directories(entries: Seq<DirEntry>) -> Seq<DirEntry> {
    entries.filter(|e: DirEntry| e.is_dir)
}

/// The entries of `entries` that are no directories, in order.
pub open spec fn plain_files(entries: Seq<DirEntry>) -> Seq<DirEntry> {
    entries.filter(|e: DirEntry| !e.is_dir)
}

/// The index of the last `c` in `s`, or -1 where `s` holds none.
pub open spec fn last_index_of(s: Seq<char>, c: char) -> int
    decreases s.len(),
{
    if s.len() == 0 {
        -1
    } else if s.last() == c {
        s.len() - 1
    } else {
        last_index_of(s.drop_last(), c)
    }
}

/// The extension of a base name: what follows its last dot, unless the name
/// is `..`, holds no dot, or holds its only dot in front.
pub open spec fn extension_of(name: Seq<char>) -> Option<Seq<char>> {
    let dot = last_index_of(name, '.');
    if name == seq!['.', '.'] || dot <= 0 {
        None
    } else {
        Some(name.skip(dot + 1))
    }
}

/// Splits a listing, as it was read, into its directories and its files,
/// each in the order of the names.
pub fn get_dirs_files(entries: &[DirEntry]) -> (listing: (Vec<DirEntry>, Vec<DirEntry>))
    ensures
        sorted_by_name(listing.0@),
        listing.0@.to_multiset() == directories(entries@).to_multiset(),
        sorted_by_name(listing.1@),
        listing.1@.to_multiset() == plain_files(entries@).to_multiset(),
{
    let mut dirs: Vec<DirEntry> = Vec::new();
    let mut files: Vec<DirEntry> = Vec::new();
    let mut i: usize = 0;
    while i < entries.len()
        invariant
            i <= entries.len(),
            dirs@ == directories(entries@.take(i as int)),
            files@ == plain_files(entries@.take(i as int)),
        decreases entries.len() - i,
    {
        proof {
            assert(entries@.take(i + 1) =~= entries@.take(i as int).push(entries@[i as int]));
            entries@.take(i as int).lemma_filter_push(entries@[i as int], |e: DirEntry| e.is_dir);
            entries@.take(i as int).lemma_filter_push(entries@[i as int], |e: DirEntry| !e.is_dir);
        }
        if entries[i].is_dir {
            dirs.push(entries[i].clone());
        } else {
            files.push(entries[i].clone());
        }
        i += 1;
    }
    assert(entries@.take(entries.len() as int) =~= entries@);
    (sort_by_name(dirs.as_slice()), sort_by_name(files.as_slice()))
}

/// The entries whose name begins with `prefix`, in their order in `dirs`.
pub fn starts_with(dirs: &[DirEntry], prefix: &str) -> (found: Vec<DirEntry>)
    ensures
        found@ == matching(dirs@, prefix@),
{
    let wanted = chars_of(prefix);
    let mut found: Vec<DirEntry> = Vec::new();
    let mut i: usize = 0;
    while i < dirs.len()
        invariant
            i <= dirs.len(),
            wanted@ == prefix@,
            found@ == matching(dirs@.take(i as int), prefix@),
        decreases dirs.len() - i,
    {
        proof {
            assert(dirs@.take(i + 1) =~= dirs@.take(i as int).push(dirs@[i as int]));
            dirs@.take(i as int).lemma_filter_push(
                dirs@[i as int],
                |e: DirEntry| prefix@.is_prefix_of(e.name@),
            );
        }
        if has_prefix(dirs[i].name.as_str(), wanted.as_slice()) {
            found.push(dirs[i].clone());
        }
        i += 1;
    }
    assert(dirs@.take(dirs.len() as int) =~= dirs@);
    found
}

/// The entries whose name does not begin with a dot, in their order in
/// `entries`.
pub fn filter_hidden(entries: &[DirEntry]) -> (shown: Vec<DirEntry>)
    ensures
        shown@ == visible(entries@),
{
    let mut shown: Vec<DirEntry> = Vec::new();
    let mut i: usize = 0;
    while i < entries.len()
        invariant
            i <= entries.len(),
            shown@ == visible(entries@.take(i as int)),
        decreases entries.len() - i,
    {
        proof {
            assert(entries@.take(i + 1) =~= entries@.take(i as int).push(entries@[i as int]));
            entries@.take(i as int).lemma_filter_push(
                entries@[i as int],
                |e: DirEntry| !is_hidden(e.name@),
            );
        }
        let name = entries[i].name.as_str();
        let hidden = !name.is_empty() && name.get_char(0) == '.';
        if !hidden {
            shown.push(entries[i].clone());
        }
        i += 1;
    }
    assert(entries@.take(entries.len() as int) =~= entries@);
    shown
}

/// Groups `paths` by the first character of their name.
///
/// Fails, with `None`, exactly when some entry has an empty name. Otherwise
/// the buckets come in increasing order of their key, each holds the entries
/// that begin with its key in their order in `paths`, and together they hold
/// each entry of `paths` once.
pub fn build_char_map(paths: &[DirEntry]) -> (map: Option<CharMap>)
    ensures
        match map {
            Some(m) => {
                &&& all_named(paths@)
                &&& m.is_grouping_of(paths@)
                &&& is_key_seq(m.keys(), paths@)
                &&& m.keys() == group_keys(paths@)
                &&& forall|i: int|
                    0 <= i < m.keys().len() ==> {
                        &&& (#[trigger] m.groups()[i]).len() > 0
                        &&& m.groups()[i] == bucket_of(paths@, m.keys()[i])
                    }
                &&& m.groups().flatten().to_multiset() == paths@.to_multiset()
            },
            None => !all_named(paths@),
        },
{
    broadcast use vstd::std_specs::btree::group_btree_axioms;

    let mut map: BTreeMap<u32, Bucket> = BTreeMap::new();
    let ghost mut order: Seq<char> = Seq::empty();
    let mut k: usize = 0;
    proof {
        assert(paths@.take(0) =~= Seq::<DirEntry>::empty());
        assert(laid_out(map@, order) =~= Seq::<Seq<DirEntry>>::empty());
    }
    while k < paths.len()
        invariant
            k <= paths.len(),
            groups_in_order(map@, order, paths@.take(k as int)),
        decreases paths.len() - k,
    {
        let entry = &paths[k];
        if entry.name.as_str().is_empty() {
            return None;
        }
        let key = entry.name.as_str().get_char(0);
        let code = key as u32;
        let ghost seen = paths@.take(k as int);
        let ghost before = map@;
        assert(paths@.take(k + 1) =~= seen.push(*entry));
        let bucket = match map.remove(&code) {
            Some(found) => {
                let mut bucket = found;
                bucket.entries.push(entry.clone());
                bucket
            },
            None => {
                let mut entries: Vec<DirEntry> = Vec::new();
                entries.push(entry.clone());
                Bucket { key, entries }
            },
        };
        map.insert(code, bucket);
        proof {
            assert(map@ =~= before.insert(code, bucket));
            if before.contains_key(code) {
                lemma_entry_joins_bucket(before, order, seen, *entry, bucket);
            } else {
                lemma_entry_opens_bucket(before, order, seen, *entry, bucket);
                order = order.insert(rank(order, key), key);
            }
        }
        k += 1;
    }
    assert(paths@.take(paths.len() as int) =~= paths@);
    let map = CharMap { map };
    proof {
        lemma_grouped(map, order, paths@);
        map.lemma_keys_of_grouping(paths@);
    }
    Some(map)
}

/// Whether the entry is a directory.
pub fn is_directory(entry: &DirEntry) -> (is_dir: bool)
    ensures
        is_dir == entry.is_dir,
{
    entry.is_dir
}

/// The base name of the entry.
pub fn get_name(entry: &DirEntry) -> (name: String)
    ensures
        name@ == entry.name@,
{
    entry.name.clone()
}

/// The extension of the entry's name, if it has one.
pub fn get_extension(entry: &DirEntry) -> (extension: Option<String>)
    ensures
        match extension {
            Some(ext) => extension_of(entry.name@) == Some(ext@),
            None => extension_of(entry.name@) is None,
        },
{
    let chars = chars_of(entry.name.as_str());
    let n = chars.len();
    if n == 2 && chars[0] == '.' && chars[1] == '.' {
        assert(chars@ =~= seq!['.', '.']);
        return None;
    }
    let mut i: usize = n;
    assert(chars@.take(n as int) =~= chars@);
    while i > 0 && chars[i - 1] != '.'
        invariant
            i <= n,
            n == chars@.len(),
            last_index_of(chars@, '.') == last_index_of(chars@.take(i as int), '.'),
        decreases i,
    {
        assert(chars@.take(i as int).drop_last() =~= chars@.take(i - 1));
        i -= 1;
    }
    if i <= 1 {
        return None;
    }
    let ext = text_of(vstd::slice::slice_subrange(chars.as_slice(), i, n));
    Some(ext)
}

/// Every entry matches the empty prefix.
pub proof fn lemma_empty_prefix_matches_all(entries: Seq<DirEntry>)
    ensures
        matching(entries, Seq::empty()) == entries,
    decreases entries.len(),
{
    reveal(Seq::filter);
    if entries.len() > 0 {
        lemma_empty_prefix_matches_all(entries.drop_last());
    }
}

} // verus!
