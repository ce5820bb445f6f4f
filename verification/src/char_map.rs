//! The grouping index: directory entries grouped by the first character of
//! their name, the groups ordered by that character. The groups stand in
//! the standard library's ordered map, filed under the code of their
//! character.

use crate::dir_util::DirEntry;
use crate::ordered::lemma_increasing_codes;
use std::collections::BTreeMap;
use vstd::prelude::*;
use vstd::seq_lib::{lemma_flatten_concat, lemma_multiset_commutative, to_multiset_build};
use vstd::std_specs::iter::IteratorSpec;

verus! {

/// The entries that share one first character.
#[derive(Debug, PartialEq, Eq)]
pub struct Bucket {
    pub key: char,
    pub entries: Vec<DirEntry>,
}

/// The buckets, each filed under the code of its key, so that the map
/// holds them in the order of their keys.
#[derive(Debug, PartialEq, Eq)]
pub struct CharMap {
    pub map: BTreeMap<u32, Bucket>,
}

/// Whether the name of an entry begins with the character `key`.
pub open spec fn begins_with(key: char) -> spec_fn(DirEntry) -> bool {
    |e: DirEntry| e.name@.len() > 0 && e.name@[0] == key
}

/// The entries of `entries` whose name begins with the character `key`, in
/// order.
pub open spec fn bucket_of(entries: Seq<DirEntry>, key: char) -> Seq<DirEntry> {
    entries.filter(begins_with(key))
}

/// No entry of `entries` has an empty name.
pub open spec fn all_named(entries: Seq<DirEntry>) -> bool {
    forall|i: int| 0 <= i < entries.len() ==> (#[trigger] entries[i]).name@.len() > 0
}

/// The characters of `keys` increase strictly.
pub open spec fn increasing(keys: Seq<char>) -> bool {
    forall|i: int, j: int| 0 <= i < j < keys.len() ==> (keys[i] as u32) < (keys[j] as u32)
}

/// Some entry of `entries` begins with the character `key`.
pub open spec fn begins_some(entries: Seq<DirEntry>, key: char) -> bool {
    exists|k: int| 0 <= k < entries.len() && begins_with(key)(#[trigger] entries[k])
}

/// `keys` holds, in increasing order, the characters that begin a name of
/// `entries`.
pub open spec fn is_key_seq(keys: Seq<char>, entries: Seq<DirEntry>) -> bool {
    &&& increasing(keys)
    &&& forall|i: int| 0 <= i < keys.len() ==> begins_some(entries, #[trigger] keys[i])
    &&& forall|k: int|
        0 <= k < entries.len() && (#[trigger] entries[k]).name@.len() > 0 ==> keys.contains(
            entries[k].name@[0],
        )
}

/// The characters that begin a name of `entries`, in increasing order.
pub open spec fn group_keys(entries: Seq<DirEntry>) -> Seq<char> {
    choose|keys: Seq<char>| is_key_seq(keys, entries)
}

/// Only one sequence holds the first characters of `entries` in increasing
/// order.
pub proof fn lemma_key_seq_unique(a: Seq<char>, b: Seq<char>, entries: Seq<DirEntry>)
    requires
        is_key_seq(a, entries),
        is_key_seq(b, entries),
    ensures
        a == b,
{
    lemma_increasing_same_members(a, b);
}

/// Two increasing sequences of keys with the same members are equal.
proof fn lemma_increasing_same_members(a: Seq<char>, b: Seq<char>)
    requires
        increasing(a),
        increasing(b),
        forall|c: char| a.contains(c) <==> b.contains(c),
    ensures
        a == b,
{
    let a_codes = Seq::new(a.len(), |i: int| a[i] as u32);
    let b_codes = Seq::new(b.len(), |i: int| b[i] as u32);
    assert forall|code: u32| a_codes.contains(code) <==> b_codes.contains(code) by {
        if a_codes.contains(code) {
            let i = choose|i: int| 0 <= i < a_codes.len() && a_codes[i] == code;
            assert(a.contains(a[i]));
            let j = choose|j: int| 0 <= j < b.len() && b[j] == a[i];
            assert(b_codes[j] == code);
        }
        if b_codes.contains(code) {
            let j = choose|j: int| 0 <= j < b_codes.len() && b_codes[j] == code;
            assert(b.contains(b[j]));
            let i = choose|i: int| 0 <= i < a.len() && a[i] == b[j];
            assert(a_codes[i] == code);
        }
    }
    lemma_increasing_codes_same_members(a_codes, b_codes);
    assert forall|i: int| 0 <= i < a.len() implies a[i] == b[i] by {
        assert(a_codes[i] == b_codes[i]);
        lemma_code(a[i], b[i]);
    }
    assert(a =~= b);
}

/// The codes of `s` increase strictly.
pub open spec fn increasing_codes(s: Seq<u32>) -> bool {
    forall|i: int, j: int| 0 <= i < j < s.len() ==> s[i] < s[j]
}

/// `s` holds the members of `codes` in increasing order.
pub open spec fn is_code_seq(s: Seq<u32>, codes: Set<u32>) -> bool {
    &&& increasing_codes(s)
    &&& forall|code: u32| s.contains(code) <==> codes.contains(code)
}

/// Only one sequence holds the members of a set in increasing order.
pub proof fn lemma_code_seq_unique(a: Seq<u32>, b: Seq<u32>, codes: Set<u32>)
    requires
        is_code_seq(a, codes),
        is_code_seq(b, codes),
    ensures
        a == b,
{
    lemma_increasing_codes_same_members(a, b);
}

/// Two increasing sequences of codes with the same members are equal.
proof fn lemma_increasing_codes_same_members(a: Seq<u32>, b: Seq<u32>)
    requires
        increasing_codes(a),
        increasing_codes(b),
        forall|c: u32| a.contains(c) <==> b.contains(c),
    ensures
        a == b,
    decreases a.len(),
{
    if a.len() == 0 {
        if b.len() > 0 {
            assert(b.contains(b[0]));
        }
        assert(a =~= b);
    } else {
        let top = a.last();
        assert(a.contains(top));
        assert(b.contains(top));
        let at = choose|i: int| 0 <= i < b.len() && b[i] == top;
        assert(b.contains(b.last()));
        assert(a.contains(b.last()));
        let back = choose|i: int| 0 <= i < a.len() && a[i] == b.last();
        assert(at == b.len() - 1) by {
            if at < b.len() - 1 {
                assert(b[at] < b.last());
                if back < a.len() - 1 {
                    assert(a[back] < a.last());
                }
            }
        }
        let a0 = a.drop_last();
        let b0 = b.drop_last();
        assert forall|c: u32| a0.contains(c) <==> b0.contains(c) by {
            if a0.contains(c) {
                let i = choose|i: int| 0 <= i < a0.len() && a0[i] == c;
                assert(a[i] < a.last());
                assert(a.contains(c));
                let j = choose|j: int| 0 <= j < b.len() && b[j] == c;
                assert(b0[j] == c);
            }
            if b0.contains(c) {
                let j = choose|j: int| 0 <= j < b0.len() && b0[j] == c;
                assert(b[j] < b.last());
                assert(b.contains(c));
                let i = choose|i: int| 0 <= i < a.len() && a[i] == c;
                assert(a0[i] == c);
            }
        }
        lemma_increasing_codes_same_members(a0, b0);
        assert(a =~= a0.push(top));
        assert(b =~= b0.push(top));
    }
}

/// The buckets group exactly `entries`: each bucket is filed under the
/// code of its key and holds, in their order in `entries`, the entries
/// that begin with its key, of which there is at least one; and every
/// entry has its bucket.
pub open spec fn groups_entries(buckets: Map<u32, Bucket>, entries: Seq<DirEntry>) -> bool {
    &&& forall|code: u32| #[trigger]
        buckets.contains_key(code) ==> {
            &&& buckets[code].key as u32 == code
            &&& buckets[code].entries@.len() > 0
            &&& buckets[code].entries@ == bucket_of(entries, buckets[code].key)
        }
    &&& forall|k: int|
        0 <= k < entries.len() ==> buckets.contains_key((#[trigger] entries[k]).name@[0] as u32)
}

/// The contents of the buckets of the keys `order`, in that order.
pub open spec fn laid_out(buckets: Map<u32, Bucket>, order: Seq<char>) -> Seq<Seq<DirEntry>> {
    Seq::new(order.len(), |i: int| buckets[order[i] as u32].entries@)
}

/// Two characters have the same code exactly when they are the same.
pub proof fn lemma_code(a: char, b: char)
    ensures
        (a as u32 == b as u32) <==> a == b,
{
}

/// Where the key `c` belongs among the increasing keys `order`.
pub open spec fn rank(order: Seq<char>, c: char) -> int
    decreases order.len(),
{
    if order.len() == 0 {
        0
    } else if (order.last() as u32) < (c as u32) {
        order.len() as int
    } else {
        rank(order.drop_last(), c)
    }
}

/// A key that is not among increasing keys can be put in at its rank, and
/// the keys still increase.
pub proof fn lemma_rank(order: Seq<char>, c: char)
    requires
        increasing(order),
        !order.contains(c),
    ensures
        0 <= rank(order, c) <= order.len(),
        forall|i: int| 0 <= i < rank(order, c) ==> (order[i] as u32) < (c as u32),
        forall|i: int| rank(order, c) <= i < order.len() ==> (order[i] as u32) > (c as u32),
        increasing(order.insert(rank(order, c), c)),
    decreases order.len(),
{
    if order.len() > 0 {
        if (order.last() as u32) < (c as u32) {
            assert forall|i: int| 0 <= i < order.len() implies (order[i] as u32) < (c as u32) by {
                if i < order.len() - 1 {
                    assert((order[i] as u32) < (order.last() as u32));
                }
            }
        } else {
            assert(order.contains(order.last()));
            lemma_code(order.last(), c);
            let front = order.drop_last();
            if front.contains(c) {
                let i = choose|i: int| 0 <= i < front.len() && front[i] == c;
                assert(order[i] == c);
            }
            lemma_rank(front, c);
            assert(rank(order, c) == rank(front, c));
            assert forall|i: int| rank(order, c) <= i < order.len() implies (order[i] as u32) > (
            c as u32) by {
                if i < front.len() {
                    assert(front[i] == order[i]);
                }
            }
            assert forall|i: int| 0 <= i < rank(order, c) implies (order[i] as u32) < (
            c as u32) by {
                assert(front[i] == order[i]);
            }
        }
    }
    let at = rank(order, c);
    let wider = order.insert(at, c);
    assert forall|i: int, j: int| 0 <= i < j < wider.len() implies (wider[i] as u32) < (
    wider[j] as u32) by {
        let oi = if i < at { i } else { i - 1 };
        let oj = if j < at { j } else { j - 1 };
        if i != at && j != at {
            assert((order[oi] as u32) < (order[oj] as u32));
        }
    }
}

/// What holds of the buckets and of the keys `order` while the entries
/// `seen` are being grouped: the buckets group `seen`, `order` holds their
/// keys in increasing order, and laid out in that order the buckets hold
/// each entry of `seen` once.
pub open spec fn groups_in_order(
    buckets: Map<u32, Bucket>,
    order: Seq<char>,
    seen: Seq<DirEntry>,
) -> bool {
    &&& all_named(seen)
    &&& groups_entries(buckets, seen)
    &&& is_key_seq(order, seen)
    &&& forall|c: char| order.contains(c) <==> buckets.contains_key(c as u32)
    &&& laid_out(buckets, order).flatten().to_multiset() == seen.to_multiset()
}

/// What one more entry does to each bucket's share of the entries.
proof fn lemma_bucket_of_push(seen: Seq<DirEntry>, entry: DirEntry)
    ensures
        forall|c: char| #[trigger]
            bucket_of(seen.push(entry), c) == if begins_with(c)(entry) {
                bucket_of(seen, c).push(entry)
            } else {
                bucket_of(seen, c)
            },
        forall|c: char| begins_some(seen, c) ==> begins_some(seen.push(entry), c),
{
    assert forall|c: char| #[trigger]
        bucket_of(seen.push(entry), c) == if begins_with(c)(entry) {
            bucket_of(seen, c).push(entry)
        } else {
            bucket_of(seen, c)
        } by {
        seen.lemma_filter_push(entry, begins_with(c));
    }
    assert forall|c: char| begins_some(seen, c) implies begins_some(seen.push(entry), c) by {
        let j = choose|j: int| 0 <= j < seen.len() && begins_with(c)(seen[j]);
        assert(begins_with(c)(seen.push(entry)[j]));
    }
}

/// An entry whose key has a bucket already goes to the end of that bucket.
pub proof fn lemma_entry_joins_bucket(
    before: Map<u32, Bucket>,
    order: Seq<char>,
    seen: Seq<DirEntry>,
    entry: DirEntry,
    bucket: Bucket,
)
    requires
        groups_in_order(before, order, seen),
        entry.name@.len() > 0,
        before.contains_key(entry.name@[0] as u32),
        bucket.key == before[entry.name@[0] as u32].key,
        bucket.entries@ == before[entry.name@[0] as u32].entries@.push(entry),
    ensures
        groups_in_order(before.insert(entry.name@[0] as u32, bucket), order, seen.push(entry)),
{
    let key = entry.name@[0];
    let code = key as u32;
    let after = before.insert(code, bucket);
    let next = seen.push(entry);
    lemma_bucket_of_push(seen, entry);
    vstd::seq_lib::to_multiset_build(seen, entry);
    lemma_code(before[code].key, key);
    assert(order.contains(key));
    let at = choose|i: int| 0 <= i < order.len() && order[i] == key;
    assert forall|i: int| 0 <= i < order.len() && i != at implies (#[trigger] order[i]) as u32
        != code by {
        lemma_code(order[i], key);
        if i < at {
            assert((order[i] as u32) < (order[at] as u32));
        } else {
            assert((order[at] as u32) < (order[i] as u32));
        }
    }
    assert(laid_out(after, order) =~= laid_out(before, order).update(
        at,
        laid_out(before, order)[at].push(entry),
    ));
    lemma_flatten_grow(laid_out(before, order), at, entry);
    assert forall|other: u32| #[trigger] after.contains_key(other) implies {
        &&& after[other].key as u32 == other
        &&& after[other].entries@.len() > 0
        &&& after[other].entries@ == bucket_of(next, after[other].key)
    } by {
        if other != code {
            assert(before.contains_key(other));
            lemma_code(before[other].key, key);
        }
    }
    assert forall|k: int| 0 <= k < next.len() implies after.contains_key(
        (#[trigger] next[k]).name@[0] as u32,
    ) by {
        if k < seen.len() {
            assert(before.contains_key(seen[k].name@[0] as u32));
        }
    }
    assert forall|k: int|
        0 <= k < next.len() && (#[trigger] next[k]).name@.len() > 0 implies order.contains(
        next[k].name@[0],
    ) by {
        if k < seen.len() {
            assert(order.contains(seen[k].name@[0]));
        }
    }
    assert forall|i: int| 0 <= i < order.len() implies begins_some(next, #[trigger] order[i]) by {
        assert(begins_some(seen, order[i]));
    }
}

/// An entry whose key has no bucket yet gets a bucket of its own, at the
/// rank of its key.
pub proof fn lemma_entry_opens_bucket(
    before: Map<u32, Bucket>,
    order: Seq<char>,
    seen: Seq<DirEntry>,
    entry: DirEntry,
    bucket: Bucket,
)
    requires
        groups_in_order(before, order, seen),
        entry.name@.len() > 0,
        !before.contains_key(entry.name@[0] as u32),
        bucket.key == entry.name@[0],
        bucket.entries@ == seq![entry],
    ensures
        groups_in_order(
            before.insert(entry.name@[0] as u32, bucket),
            order.insert(rank(order, entry.name@[0]), entry.name@[0]),
            seen.push(entry),
        ),
{
    let key = entry.name@[0];
    let code = key as u32;
    let after = before.insert(code, bucket);
    let next = seen.push(entry);
    lemma_bucket_of_push(seen, entry);
    vstd::seq_lib::to_multiset_build(seen, entry);
    assert(!order.contains(key));
    lemma_rank(order, key);
    let at = rank(order, key);
    let wider = order.insert(at, key);
    assert(bucket_of(seen, key).len() == 0) by {
        if bucket_of(seen, key).len() > 0 {
            let hit = bucket_of(seen, key)[0];
            seen.lemma_filter_pred(begins_with(key), 0);
            seen.lemma_filter_contains_rev(begins_with(key), hit);
            let j = choose|j: int| 0 <= j < seen.len() && seen[j] == hit;
            assert(before.contains_key(seen[j].name@[0] as u32));
            lemma_code(seen[j].name@[0], key);
        }
    }
    assert(bucket_of(seen, key).push(entry) =~= seq![entry]);
    assert forall|i: int| 0 <= i < order.len() implies (#[trigger] order[i]) as u32 != code by {
        assert(order.contains(order[i]));
        lemma_code(order[i], key);
    }
    assert(laid_out(after, wider) =~= laid_out(before, order).insert(at, seq![entry]));
    lemma_flatten_insert(laid_out(before, order), at, entry);
    assert forall|other: u32| #[trigger] after.contains_key(other) implies {
        &&& after[other].key as u32 == other
        &&& after[other].entries@.len() > 0
        &&& after[other].entries@ == bucket_of(next, after[other].key)
    } by {
        if other != code {
            assert(before.contains_key(other));
            lemma_code(before[other].key, key);
        }
    }
    assert forall|k: int| 0 <= k < next.len() implies after.contains_key(
        (#[trigger] next[k]).name@[0] as u32,
    ) by {
        if k < seen.len() {
            assert(before.contains_key(seen[k].name@[0] as u32));
        }
    }
    assert forall|c: char| wider.contains(c) <==> after.contains_key(c as u32) by {
        lemma_code(c, key);
        if wider.contains(c) {
            let i = choose|i: int| 0 <= i < wider.len() && wider[i] == c;
            if i != at {
                let oi = if i < at { i } else { i - 1 };
                assert(order.contains(order[oi]));
            }
        }
        if after.contains_key(c as u32) {
            if c == key {
                assert(wider[at] == c);
            } else {
                assert(order.contains(c));
                let i = choose|i: int| 0 <= i < order.len() && order[i] == c;
                let wi = if i < at { i } else { i + 1 };
                assert(wider[wi] == c);
            }
        }
    }
    assert forall|i: int| 0 <= i < wider.len() implies begins_some(next, #[trigger] wider[i]) by {
        if i == at {
            assert(begins_with(key)(next[seen.len() as int]));
        } else {
            let oi = if i < at { i } else { i - 1 };
            assert(begins_some(seen, order[oi]));
        }
    }
    assert forall|k: int|
        0 <= k < next.len() && (#[trigger] next[k]).name@.len() > 0 implies wider.contains(
        next[k].name@[0],
    ) by {
        if k < seen.len() {
            assert(order.contains(seen[k].name@[0]));
        }
    }
}

/// Buckets that group entries in some order of keys are walked in that
/// order, and so hold each entry once.
pub proof fn lemma_grouped(map: CharMap, order: Seq<char>, entries: Seq<DirEntry>)
    requires
        groups_in_order(map.map@, order, entries),
    ensures
        is_code_seq(map.codes(), map.map@.dom()),
        map.keys() == order,
        map.groups() == laid_out(map.map@, order),
{
    let codes = Seq::new(order.len(), |i: int| order[i] as u32);
    assert forall|code: u32| codes.contains(code) <==> map.map@.dom().contains(code) by {
        if codes.contains(code) {
            let i = choose|i: int| 0 <= i < codes.len() && codes[i] == code;
            assert(order.contains(order[i]));
        }
        if map.map@.contains_key(code) {
            let c = map.map@[code].key;
            assert(order.contains(c));
            let i = choose|i: int| 0 <= i < order.len() && order[i] == c;
            assert(codes[i] == code);
        }
    }
    assert(is_code_seq(codes, map.map@.dom()));
    lemma_code_seq_unique(codes, map.codes(), map.map@.dom());
    assert forall|i: int| 0 <= i < order.len() implies map.map@[codes[i]].key == order[i] by {
        assert(order.contains(order[i]));
        lemma_code(map.map@[codes[i]].key, order[i]);
    }
    assert(map.keys() =~= order);
    assert(map.groups() =~= laid_out(map.map@, order));
}

impl CharMap {
    /// The codes under which the buckets are filed, in increasing order:
    /// the order in which the map is walked.
    pub open spec fn codes(&self) -> Seq<u32> {
        choose|s: Seq<u32>| is_code_seq(s, self.map@.dom())
    }

    /// The keys of the buckets, in the order of their codes.
    pub open spec fn keys(&self) -> Seq<char> {
        Seq::new(self.codes().len(), |i: int| self.map@[self.codes()[i]].key)
    }

    /// The contents of the buckets, in the order of their codes.
    pub open spec fn groups(&self) -> Seq<Seq<DirEntry>> {
        Seq::new(self.codes().len(), |i: int| self.map@[self.codes()[i]].entries@)
    }

    /// The map groups exactly `entries`.
    pub open spec fn is_grouping_of(&self, entries: Seq<DirEntry>) -> bool {
        groups_entries(self.map@, entries)
    }

    /// The keys of a grouping of `entries` are the first characters that
    /// occur in `entries`, in increasing order.
    pub proof fn lemma_keys_of_grouping(&self, entries: Seq<DirEntry>)
        requires
            self.is_grouping_of(entries),
            all_named(entries),
            is_code_seq(self.codes(), self.map@.dom()),
        ensures
            is_key_seq(self.keys(), entries),
            self.keys() == group_keys(entries),
            forall|i: int|
                0 <= i < self.keys().len() ==> {
                    &&& (#[trigger] self.groups()[i]).len() > 0
                    &&& self.groups()[i] == bucket_of(entries, self.keys()[i])
                },
    {
        let keys = self.keys();
        let codes = self.codes();
        assert forall|i: int| 0 <= i < keys.len() implies (#[trigger] keys[i]) as u32
            == codes[i] && self.map@.contains_key(codes[i]) by {
            assert(codes.contains(codes[i]));
        }
        assert forall|i: int, j: int| 0 <= i < j < keys.len() implies (keys[i] as u32) < (
        keys[j] as u32) by {
            assert(keys[i] as u32 == codes[i]);
            assert(keys[j] as u32 == codes[j]);
        }
        assert forall|i: int| 0 <= i < keys.len() implies begins_some(
            entries,
            #[trigger] keys[i],
        ) by {
            assert(keys[i] as u32 == codes[i]);
            let group = self.map@[codes[i]].entries@;
            let hit = group[0];
            assert(bucket_of(entries, keys[i]).contains(hit));
            entries.lemma_filter_pred(begins_with(keys[i]), 0);
            entries.lemma_filter_contains_rev(begins_with(keys[i]), hit);
            let k = choose|k: int| 0 <= k < entries.len() && entries[k] == hit;
            assert(begins_with(keys[i])(entries[k]));
        }
        assert forall|k: int|
            0 <= k < entries.len() && (#[trigger] entries[k]).name@.len() > 0 implies keys.contains(
            entries[k].name@[0],
        ) by {
            let c = entries[k].name@[0];
            assert(self.map@.contains_key(c as u32));
            assert(codes.contains(c as u32));
            let i = choose|i: int| 0 <= i < codes.len() && codes[i] == c as u32;
            assert(keys[i] as u32 == codes[i]);
            lemma_code(keys[i], c);
        }
        assert(is_key_seq(keys, entries));
        lemma_key_seq_unique(keys, group_keys(entries), entries);
        assert forall|i: int| 0 <= i < keys.len() implies {
            &&& (#[trigger] self.groups()[i]).len() > 0
            &&& self.groups()[i] == bucket_of(entries, keys[i])
        } by {
            assert(keys[i] as u32 == codes[i]);
        }
    }

    /// Walks the map once: the buckets in the order of their codes.
    pub fn in_order(&self) -> (buckets: Vec<&Bucket>)
        ensures
            is_code_seq(self.codes(), self.map@.dom()),
            self.codes().len() == self.map@.dom().len(),
            buckets@.len() == self.keys().len(),
            forall|i: int|
                0 <= i < buckets@.len() ==> {
                    &&& (#[trigger] buckets@[i]).key == self.keys()[i]
                    &&& buckets@[i].entries@ == self.groups()[i]
                },
    {
        broadcast use vstd::std_specs::btree::group_btree_axioms;

        let mut buckets: Vec<&Bucket> = Vec::new();
        let iter = self.map.iter();
        let ghost all = iter.remaining();
        let ghost walked = all.map_values(|kv: (&u32, &Bucket)| *kv.0);
        proof {
            lemma_increasing_codes(walked);
            assert forall|code: u32| walked.contains(code) <==> self.map@.dom().contains(
                code,
            ) by {
                if walked.contains(code) {
                    let i = choose|i: int| 0 <= i < walked.len() && walked[i] == code;
                    assert(self.map@.contains_key(*all[i].0));
                }
                if self.map@.contains_key(code) {
                    assert(all.contains((&code, &self.map@[code])));
                    let i = choose|i: int|
                        0 <= i < all.len() && all[i] == (&code, &self.map@[code]);
                    assert(walked[i] == code);
                }
            }
            assert(is_code_seq(walked, self.map@.dom()));
            lemma_code_seq_unique(walked, self.codes(), self.map@.dom());
        }
        for pair in it: iter
            invariant
                it.seq() == all,
                buckets@.len() == it.index(),
                forall|i: int| 0 <= i < buckets@.len() ==> *buckets@[i] == *all[i].1,
        {
            buckets.push(pair.1);
        }
        proof {
            assert forall|i: int| 0 <= i < buckets@.len() implies {
                &&& (#[trigger] buckets@[i]).key == self.keys()[i]
                &&& buckets@[i].entries@ == self.groups()[i]
            } by {
                assert(walked[i] == *all[i].0);
                assert(self.map@[*all[i].0] == *all[i].1);
            }
        }
        buckets
    }

    /// The number of buckets.
    pub fn len(&self) -> (n: usize)
        ensures
            n == self.keys().len(),
    {
        self.in_order().len()
    }

    /// The key of the bucket at `index`, counting from the smallest key.
    pub fn key_at(&self, index: usize) -> (key: Option<char>)
        ensures
            key == if index < self.keys().len() {
                Some(self.keys()[index as int])
            } else {
                None
            },
    {
        let buckets = self.in_order();
        if index < buckets.len() {
            Some(buckets[index].key)
        } else {
            None
        }
    }
}

/// Appending an entry to one group adds that entry, and nothing else, to
/// what the groups hold together.
pub proof fn lemma_flatten_grow<A>(groups: Seq<Seq<A>>, at: int, x: A)
    requires
        0 <= at < groups.len(),
    ensures
        groups.update(at, groups[at].push(x)).flatten().to_multiset()
            == groups.flatten().to_multiset().insert(x),
{
    let before = groups.take(at);
    let after = groups.skip(at + 1);
    let old_mid = seq![groups[at]];
    let new_mid = seq![groups[at].push(x)];
    assert(groups =~= before + old_mid + after);
    assert(groups.update(at, groups[at].push(x)) =~= before + new_mid + after);
    lemma_flatten_concat(before, old_mid);
    lemma_flatten_concat(before + old_mid, after);
    lemma_flatten_concat(before, new_mid);
    lemma_flatten_concat(before + new_mid, after);
    old_mid.lemma_flatten_singleton();
    new_mid.lemma_flatten_singleton();
    lemma_multiset_commutative(before.flatten(), groups[at]);
    lemma_multiset_commutative(before.flatten() + groups[at], after.flatten());
    lemma_multiset_commutative(before.flatten(), groups[at].push(x));
    lemma_multiset_commutative(before.flatten() + groups[at].push(x), after.flatten());
    to_multiset_build(groups[at], x);
}

/// Inserting a group of one entry adds that entry, and nothing else, to what
/// the groups hold together.
pub proof fn lemma_flatten_insert<A>(groups: Seq<Seq<A>>, at: int, x: A)
    requires
        0 <= at <= groups.len(),
    ensures
        groups.insert(at, seq![x]).flatten().to_multiset()
            == groups.flatten().to_multiset().insert(x),
{
    let before = groups.take(at);
    let after = groups.skip(at);
    let mid = seq![seq![x]];
    assert(groups =~= before + after);
    assert(groups.insert(at, seq![x]) =~= before + mid + after);
    lemma_flatten_concat(before, after);
    lemma_flatten_concat(before, mid);
    lemma_flatten_concat(before + mid, after);
    mid.lemma_flatten_singleton();
    lemma_multiset_commutative(before.flatten(), after.flatten());
    lemma_multiset_commutative(before.flatten(), seq![x]);
    lemma_multiset_commutative(before.flatten() + seq![x], after.flatten());
    assert(before.flatten() + seq![x] =~= before.flatten().push(x));
    to_multiset_build(before.flatten(), x);
    broadcast use vstd::multiset::group_multiset_axioms;
}

} // verus!
