//! Decisions of fetching a repository's pull requests page by page: which
//! pull requests of a page to keep, when to stop, and the final order.
use crate::pr::Pr;
use crate::sort::{key_order, sorted_by, stable_sort, SortKey};
use vstd::prelude::*;

verus! {

/// Most pull requests listed for a repository.
pub const MAX_PRS: usize = 50;

/// Pull requests asked for per page.
pub const PER_PAGE: u8 = 30;

/// Indices of the listed items with a title among the first `n` of a page, at
/// most `room`.
pub open spec fn kept_indices(titles: Seq<Option<String>>, n: int, room: int) -> Seq<usize>
    decreases n,
{
    if n <= 0 || n > titles.len() {
        Seq::empty()
    } else {
        let prev = kept_indices(titles, n - 1, room);
        if titles[n - 1] is Some && prev.len() < room {
            prev.push((n - 1) as usize)
        } else {
            prev
        }
    }
}

/// The items of one page to convert, in page order, given `collected` pull
/// requests so far, and whether to stop fetching after this page: once
/// `MAX_PRS` are collected or the page is empty. Every pull request with a
/// title is kept; the filter applies to the list shown.
pub fn page_step(collected: usize, titles: &Vec<Option<String>>) -> (r: (Vec<usize>, bool))
    requires
        collected <= MAX_PRS,
    ensures
        r.0@ == kept_indices(titles@, titles@.len() as int, MAX_PRS - collected),
        r.1 == (collected + r.0@.len() >= MAX_PRS || titles@.len() == 0),
{
    let room = MAX_PRS - collected;
    let mut take: Vec<usize> = Vec::new();
    let mut i: usize = 0;
    while i < titles.len()
        invariant
            i <= titles@.len(),
            room == MAX_PRS - collected,
            take@ == kept_indices(titles@, i as int, room as int),
            take@.len() <= room,
        decreases titles@.len() - i,
    {
        if titles[i].is_some() && take.len() < room {
            take.push(i);
        }
        i = i + 1;
    }
    let stop = collected + take.len() >= MAX_PRS || titles.len() == 0;
    (take, stop)
}

impl SortKey for Pr {
    /// Higher numbers first.
    open spec fn key_le(&self, other: &Self) -> bool {
        self.number >= other.number
    }

    fn le(&self, other: &Self) -> (r: bool) {
        self.number >= other.number
    }
}

/// The pull requests ordered by number, highest first (stable).
pub fn sort_prs_by_number(prs: Vec<Pr>) -> (r: Vec<Pr>)
    ensures
        r@ == sorted_by(prs@, key_order::<Pr>()),
{
    stable_sort(prs)
}

/// A stale cached listing is touched to extend its time to live.
pub fn should_touch_cached(status_code: u16) -> (r: bool)
    ensures
        r == (status_code == 200),
{
    status_code == 200
}

} // verus!
