//! Pages of ten candidates.

use vstd::prelude::*;

verus! {

/// The number of candidates on one page.
pub const PAGE_SIZE: usize = 10;

/// The last page of `n` candidates, counting from zero.
pub open spec fn max_page_of(n: nat) -> nat {
    if n == 0 {
        0
    } else {
        ((n - 1) / 10) as nat
    }
}

/// The page after `page`, stopping at the last page.
pub open spec fn page_forward(page: nat, n: nat) -> nat {
    if page + 1 <= max_page_of(n) {
        page + 1
    } else {
        max_page_of(n)
    }
}

/// The page before `page`, stopping at the first page.
pub open spec fn page_backward(page: nat) -> nat {
    if page == 0 {
        0
    } else {
        (page - 1) as nat
    }
}

/// The page after `page`, starting over at the first page once past the
/// last one.
pub open spec fn page_forward_wrapping(page: nat, n: nat) -> nat {
    if page + 1 > max_page_of(n) {
        0
    } else {
        page + 1
    }
}

/// The number of candidates, out of `n`, that `page` shows.
pub open spec fn page_len(n: nat, page: nat) -> nat {
    if page * 10 >= n {
        0
    } else if n - page * 10 < 10 {
        (n - page * 10) as nat
    } else {
        10
    }
}

/// The position among `n` candidates of row `row` of `page`, if there is a
/// candidate at that position.
pub open spec fn candidate_index(n: nat, page: nat, row: nat) -> Option<nat> {
    if row + page * 10 < n {
        Some(row + page * 10)
    } else {
        None
    }
}

/// The last page of `n` candidates.
pub fn max_page(n: usize) -> (last: usize)
    ensures
        last == max_page_of(n as nat),
{
    if n == 0 {
        0
    } else {
        (n - 1) / PAGE_SIZE
    }
}

/// Page forward: one page on, but never past the last page.
pub fn next_page(page: usize, n: usize) -> (next: usize)
    ensures
        next == page_forward(page as nat, n as nat),
{
    let last = max_page(n);
    if page < last {
        page + 1
    } else {
        last
    }
}

/// Page backward: one page back, but never before the first page.
pub fn previous_page(page: usize) -> (previous: usize)
    ensures
        previous == page_backward(page as nat),
{
    if page == 0 {
        0
    } else {
        page - 1
    }
}

/// Page forward with wrap: one page on, and back to the first page from the
/// last one.
pub fn next_page_wrapping(page: usize, n: usize) -> (next: usize)
    ensures
        next == page_forward_wrapping(page as nat, n as nat),
{
    if page >= max_page(n) {
        0
    } else {
        page + 1
    }
}

/// The number of candidates, out of `n`, that `page` shows.
pub fn entries_on_page(n: usize, page: usize) -> (shown: usize)
    ensures
        shown == page_len(n as nat, page as nat),
        shown <= PAGE_SIZE,
{
    if n == 0 || page > max_page(n) {
        0
    } else {
        let start = page * PAGE_SIZE;
        if n - start < PAGE_SIZE {
            n - start
        } else {
            PAGE_SIZE
        }
    }
}

/// The position among `n` candidates of row `row` of `page`, or `None`
/// where no candidate stands there.
pub fn index_on_page(n: usize, page: usize, row: usize) -> (index: Option<usize>)
    ensures
        match index {
            Some(i) => candidate_index(n as nat, page as nat, row as nat) == Some(i as nat),
            None => candidate_index(n as nat, page as nat, row as nat) is None,
        },
{
    if n == 0 || page > max_page(n) {
        None
    } else {
        let start = page * PAGE_SIZE;
        if row < n - start {
            Some(start + row)
        } else {
            None
        }
    }
}

/// Paging forward with wrap from the last page leads to the first page, and
/// from any earlier page to the next one.
pub proof fn lemma_wrap_from_last_page(page: nat, n: nat)
    ensures
        page >= max_page_of(n) ==> page_forward_wrapping(page, n) == 0,
        page < max_page_of(n) ==> page_forward_wrapping(page, n) == page + 1,
        page_forward_wrapping(page, n) <= max_page_of(n),
{
}

/// Paging never leaves the pages that exist, and every page up to the last
/// one shows at least one candidate.
pub proof fn lemma_pages_in_range(page: nat, n: nat)
    ensures
        page_forward(page, n) <= max_page_of(n),
        page <= max_page_of(n) ==> page_backward(page) <= max_page_of(n),
        n > 0 && page <= max_page_of(n) ==> 1 <= page_len(n, page) <= 10,
        page > max_page_of(n) ==> page_len(n, page) == 0,
        n > 0 ==> max_page_of(n) * 10 < n <= max_page_of(n) * 10 + 10,
{
}

} // verus!
