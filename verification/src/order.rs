//! The order of a listing: by the bytes of the names.

use crate::dir_util::DirEntry;
use vstd::prelude::*;
use vstd::seq_lib::to_multiset_insert;
use vstd::utf8::encode_utf8;

verus! {

/// `a` comes before `b`, or is `b`, in the order of the dictionary taken
/// byte by byte.
pub open spec fn bytes_le(a: Seq<u8>, b: Seq<u8>) -> bool
    decreases a.len(),
{
    if a.len() == 0 {
        true
    } else if b.len() == 0 {
        false
    } else if a[0] != b[0] {
        a[0] < b[0]
    } else {
        bytes_le(a.drop_first(), b.drop_first())
    }
}

/// The name `a` comes before the name `b`, or is `b`, by the bytes of
/// their UTF-8 encodings.
pub open spec fn name_le(a: Seq<char>, b: Seq<char>) -> bool {
    bytes_le(encode_utf8(a), encode_utf8(b))
}

/// The entries stand in the order of their names.
pub open spec fn sorted_by_name(entries: Seq<DirEntry>) -> bool {
    forall|i: int, j: int|
        0 <= i < j < entries.len() ==> name_le(
            (#[trigger] entries[i]).name@,
            (#[trigger] entries[j]).name@,
        )
}

/// Of two byte strings, one comes before the other or they are the same.
pub proof fn lemma_bytes_le_total(a: Seq<u8>, b: Seq<u8>)
    ensures
        bytes_le(a, b) || bytes_le(b, a),
    decreases a.len(),
{
    if a.len() > 0 && b.len() > 0 && a[0] == b[0] {
        lemma_bytes_le_total(a.drop_first(), b.drop_first());
    }
}

/// What comes before something that comes before a third comes before the
/// third.
pub proof fn lemma_bytes_le_transitive(a: Seq<u8>, b: Seq<u8>, c: Seq<u8>)
    requires
        bytes_le(a, b),
        bytes_le(b, c),
    ensures
        bytes_le(a, c),
    decreases a.len(),
{
    if a.len() > 0 && b.len() > 0 && c.len() > 0 && a[0] == b[0] && b[0] == c[0] {
        lemma_bytes_le_transitive(a.drop_first(), b.drop_first(), c.drop_first());
    }
}

/// Whether the bytes `a` come before the bytes `b`, or are the same.
pub fn bytes_before_or_equal(a: &[u8], b: &[u8]) -> (le: bool)
    ensures
        le == bytes_le(a@, b@),
{
    let mut i: usize = 0;
    proof {
        assert(a@.skip(0) =~= a@);
        assert(b@.skip(0) =~= b@);
    }
    while i < a.len() && i < b.len()
        invariant
            i <= a.len(),
            i <= b.len(),
            bytes_le(a@, b@) == bytes_le(a@.skip(i as int), b@.skip(i as int)),
        decreases a.len() - i,
    {
        proof {
            let x = a@.skip(i as int);
            let y = b@.skip(i as int);
            assert(x.drop_first() =~= a@.skip(i + 1));
            assert(y.drop_first() =~= b@.skip(i + 1));
        }
        if a[i] != b[i] {
            return a[i] < b[i];
        }
        i += 1;
    }
    i == a.len()
}

/// Whether the name `a` comes before the name `b`, or is the same.
pub fn name_before_or_equal(a: &str, b: &str) -> (le: bool)
    ensures
        le == name_le(a@, b@),
{
    bytes_before_or_equal(a.as_bytes(), b.as_bytes())
}

/// The entries of `entries` in the order of their names.
pub fn sort_by_name(entries: &[DirEntry]) -> (sorted: Vec<DirEntry>)
    ensures
        sorted_by_name(sorted@),
        sorted@.to_multiset() == entries@.to_multiset(),
{
    let mut sorted: Vec<DirEntry> = Vec::new();
    let mut k: usize = 0;
    assert(entries@.take(0) =~= Seq::<DirEntry>::empty());
    while k < entries.len()
        invariant
            k <= entries.len(),
            sorted@.len() == k,
            sorted_by_name(sorted@),
            sorted@.to_multiset() == entries@.take(k as int).to_multiset(),
        decreases entries.len() - k,
    {
        let entry = &entries[k];
        let mut low: usize = 0;
        let mut high: usize = sorted.len();
        while low < high
            invariant
                low <= high <= sorted@.len(),
                sorted_by_name(sorted@),
                forall|i: int| 0 <= i < low ==> name_le((#[trigger] sorted@[i]).name@, entry.name@),
                forall|i: int|
                    high <= i < sorted@.len() ==> !name_le(
                        (#[trigger] sorted@[i]).name@,
                        entry.name@,
                    ),
            decreases high - low,
        {
            let mid = low + (high - low) / 2;
            if name_before_or_equal(sorted[mid].name.as_str(), entry.name.as_str()) {
                proof {
                    assert forall|i: int| 0 <= i < mid + 1 implies name_le(
                        (#[trigger] sorted@[i]).name@,
                        entry.name@,
                    ) by {
                        if i < mid {
                            lemma_bytes_le_transitive(
                                encode_utf8(sorted@[i].name@),
                                encode_utf8(sorted@[mid as int].name@),
                                encode_utf8(entry.name@),
                            );
                        }
                    }
                }
                low = mid + 1;
            } else {
                proof {
                    assert forall|i: int| mid <= i < sorted@.len() implies !name_le(
                        (#[trigger] sorted@[i]).name@,
                        entry.name@,
                    ) by {
                        if i > mid && name_le(sorted@[i].name@, entry.name@) {
                            lemma_bytes_le_transitive(
                                encode_utf8(sorted@[mid as int].name@),
                                encode_utf8(sorted@[i].name@),
                                encode_utf8(entry.name@),
                            );
                        }
                    }
                }
                high = mid;
            }
        }
        let ghost before = sorted@;
        sorted.insert(low, entry.clone());
        proof {
            to_multiset_insert(before, low as int, *entry);
            assert(entries@.take(k + 1) =~= entries@.take(k as int).push(*entry));
            vstd::seq_lib::to_multiset_build(entries@.take(k as int), *entry);
            assert forall|i: int, j: int| 0 <= i < j < sorted@.len() implies name_le(
                (#[trigger] sorted@[i]).name@,
                (#[trigger] sorted@[j]).name@,
            ) by {
                let oj = if j < low { j } else { j - 1 };
                if i == low {
                    lemma_bytes_le_total(encode_utf8(before[oj].name@), encode_utf8(entry.name@));
                }
            }
        }
        k += 1;
    }
    assert(entries@.take(entries.len() as int) =~= entries@);
    sorted
}

} // verus!
