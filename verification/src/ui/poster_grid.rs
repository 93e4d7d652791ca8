//! Search over the movies shown on the poster wall.
use vstd::prelude::*;

use crate::models::MediaItem;
use crate::text::{contains_text, lowercased, trimmed, to_lowercase, trim, contains};

verus! {

/// `item`'s title contains `lowered_needle` once the title is lowercased.
pub open spec fn title_matches(item: MediaItem, lowered_needle: Seq<char>) -> bool {
    contains_text(lowercased(item.title@), lowered_needle)
}

/// The search term as the filter compares it: trimmed, then lowercased.
pub open spec fn search_key(needle: Seq<char>) -> Seq<char> {
    lowercased(trimmed(needle))
}

/// `r` lists, in increasing order, exactly the indices of `items` whose title
/// contains the search key of `needle`; a blank needle selects every index.
pub open spec fn is_filter_result(items: Seq<MediaItem>, needle: Seq<char>, r: Seq<usize>) -> bool {
    if trimmed(needle).len() == 0 {
        r == Seq::new(items.len(), |i: int| i as usize)
    } else {
        &&& forall|a: int, b: int| 0 <= a < b < r.len() ==> r[a] < r[b]
        &&& forall|a: int|
            0 <= a < r.len() ==> r[a] < items.len() && title_matches(
                items[r[a] as int],
                search_key(needle),
            )
        &&& forall|i: int|
            0 <= i < items.len() && title_matches(items[i], search_key(needle)) ==> r.contains(
                i as usize,
            )
    }
}

/// Indices into `items` of the entries whose title contains `needle`,
/// ignoring case and the needle's surrounding white space.
pub fn filtered_items(items: &[MediaItem], needle: &str) -> (r: Vec<usize>)
    ensures
        is_filter_result(items@, needle@, r@),
{
    let t = trim(needle);
    let n = items.len();
    let mut r: Vec<usize> = Vec::new();
    if t.unicode_len() == 0 {
        let mut i: usize = 0;
        while i < n
            invariant
                n == items@.len(),
                i <= n,
                r@ == Seq::new(i as nat, |k: int| k as usize),
            decreases n - i,
        {
            r.push(i);
            i += 1;
        }
        return r;
    }
    let lowered = to_lowercase(t);
    let mut i: usize = 0;
    while i < n
        invariant
            n == items@.len(),
            i <= n,
            lowered@ == search_key(needle@),
            forall|a: int, b: int| 0 <= a < b < r@.len() ==> r@[a] < r@[b],
            forall|a: int| 0 <= a < r@.len() ==> r@[a] < i,
            forall|a: int|
                0 <= a < r@.len() ==> title_matches(items@[r@[a] as int], search_key(needle@)),
            forall|k: int|
                0 <= k < i && title_matches(items@[k], search_key(needle@)) ==> r@.contains(
                    k as usize,
                ),
        decreases n - i,
    {
        let ghost before = r@;
        let title = to_lowercase(items[i].title.as_str());
        if contains(title.as_str(), lowered.as_str()) {
            r.push(i);
            assert(r@[r@.len() - 1] == i);
        }
        assert forall|k: int|
            0 <= k < i + 1 && title_matches(items@[k], search_key(needle@)) implies r@.contains(
            k as usize,
        ) by {
            if k < i {
                let w = choose|w: int| 0 <= w < before.len() && before[w] == k as usize;
                assert(r@[w] == before[w]);
            }
        }
        i += 1;
    }
    r
}

} // verus!
