use vstd::prelude::*;

use crate::data_structures::{Location, MatchedResult, Region};
use crate::{location_matches, matching_post, region_matches};

verus! {

/// Anything the filtered sequence holds, the original sequence holds.
proof fn lemma_filter_subset<A>(s: Seq<A>, pred: spec_fn(A) -> bool)
    ensures
        forall|x: A| #[trigger] s.filter(pred).contains(x) ==> s.contains(x),
    decreases s.len(),
{
    reveal(Seq::filter);
    if s.len() > 0 {
        lemma_filter_subset(s.drop_last(), pred);
        assert forall|x: A| #[trigger] s.filter(pred).contains(x) implies s.contains(x) by {
            let f = s.filter(pred);
            let dlf = s.drop_last().filter(pred);
            let j = choose|j: int| 0 <= j < f.len() && f[j] == x;
            if j < dlf.len() {
                assert(dlf.contains(x));
                assert(s.drop_last().contains(x));
                let k = choose|k: int| 0 <= k < s.drop_last().len() && s.drop_last()[k] == x;
                assert(s[k] == x);
            } else {
                assert(s[s.len() - 1] == x);
            }
        }
    }
}

/// Filtering keeps a duplicate-free sequence duplicate-free.
proof fn lemma_filter_no_duplicates<A>(s: Seq<A>, pred: spec_fn(A) -> bool)
    requires
        s.no_duplicates(),
    ensures
        s.filter(pred).no_duplicates(),
    decreases s.len(),
{
    reveal(Seq::filter);
    if s.len() > 0 {
        let dl = s.drop_last();
        assert(dl.no_duplicates());
        lemma_filter_no_duplicates(dl, pred);
        lemma_filter_subset(dl, pred);
        let dlf = dl.filter(pred);
        if pred(s.last()) {
            assert(!dl.contains(s.last())) by {
                if dl.contains(s.last()) {
                    let k = choose|k: int| 0 <= k < dl.len() && dl[k] == s.last();
                    assert(s[k] == s[s.len() - 1]);
                }
            }
            let f = dlf.push(s.last());
            assert forall|i: int, j: int|
                0 <= i < f.len() && 0 <= j < f.len() && i != j implies f[i] != f[j] by {
                if f[i] == f[j] {
                    if i < dlf.len() && j == dlf.len() as int {
                        assert(dlf[i] == s.last());
                        assert(dlf.contains(s.last()));
                    } else if j < dlf.len() && i == dlf.len() as int {
                        assert(dlf[j] == s.last());
                        assert(dlf.contains(s.last()));
                    }
                }
            }
        }
    }
}

/// With no duplicate in the sequence, an element's position is the unique
/// index where it occurs.
proof fn lemma_index_of_unique<A>(s: Seq<A>, x: A, k: int)
    requires
        s.no_duplicates(),
        0 <= k < s.len(),
        s[k] == x,
    ensures
        s.index_of(x) == k,
{
    assert(s.contains(x));
    let i = s.index_of(x);
    assert(0 <= i < s.len() && s[i] == x);
}

/// Filtering a duplicate-free sequence keeps the elements in their original
/// relative order.
proof fn lemma_filter_ordered<A>(s: Seq<A>, pred: spec_fn(A) -> bool)
    requires
        s.no_duplicates(),
    ensures
        forall|a: int, b: int|
            0 <= a < b < s.filter(pred).len() ==> s.index_of(#[trigger] s.filter(pred)[a])
                < s.index_of(#[trigger] s.filter(pred)[b]),
    decreases s.len(),
{
    reveal(Seq::filter);
    if s.len() > 0 {
        let dl = s.drop_last();
        let dlf = dl.filter(pred);
        let f = s.filter(pred);
        assert(dl.no_duplicates());
        lemma_filter_ordered(dl, pred);
        lemma_filter_subset(dl, pred);
        assert forall|a: int, b: int|
            0 <= a < b < f.len() implies s.index_of(#[trigger] f[a]) < s.index_of(
            #[trigger] f[b],
        ) by {
            if b < dlf.len() {
                assert(dl.index_of(dlf[a]) < dl.index_of(dlf[b]));
                assert(dlf.contains(dlf[a]));
                assert(dlf.contains(dlf[b]));
                let ka = dl.index_of(dlf[a]);
                let kb = dl.index_of(dlf[b]);
                assert(0 <= ka < dl.len() && dl[ka] == dlf[a]) by {
                    assert(dl.contains(dlf[a]));
                }
                assert(0 <= kb < dl.len() && dl[kb] == dlf[b]) by {
                    assert(dl.contains(dlf[b]));
                }
                lemma_index_of_unique(s, dlf[a], ka);
                lemma_index_of_unique(s, dlf[b], kb);
            } else {
                assert(pred(s.last()) && b == dlf.len() && f[b] == s.last());
                lemma_index_of_unique(s, s.last(), s.len() - 1);
                assert(dlf.contains(f[a]));
                assert(dl.contains(f[a]));
                let ka = choose|k: int| 0 <= k < dl.len() && dl[k] == f[a];
                lemma_index_of_unique(s, f[a], ka);
            }
        }
    }
}

/// Exactly the input locations inside the region are matched: no location is
/// invented, and none inside the region is passed over.
pub proof fn lemma_region_matches_membership(locs: Seq<Location>, region: Region)
    ensures
        forall|l: Location| #[trigger] region_matches(locs, region).contains(l) <==> locs.contains(
            l,
        ) && location_matches(region, l),
{
    let pred = |l: Location| location_matches(region, l);
    lemma_filter_subset(locs, pred);
    assert forall|l: Location| #[trigger] region_matches(locs, region).contains(l) implies
        locs.contains(l) && location_matches(region, l) by {
        let f = locs.filter(pred);
        let j = choose|j: int| 0 <= j < f.len() && f[j] == l;
        locs.lemma_filter_pred(pred, j);
    }
    assert forall|l: Location| locs.contains(l) && location_matches(region, l) implies #[trigger]
        region_matches(locs, region).contains(l) by {
        let k = choose|k: int| 0 <= k < locs.len() && locs[k] == l;
        locs.lemma_filter_contains(pred, k);
    }
}

/// A duplicate-free location input yields a duplicate-free match list for
/// every region, even where several polygons of one region contain the same
/// location.
pub proof fn lemma_region_matches_no_duplicates(locs: Seq<Location>, region: Region)
    requires
        locs.no_duplicates(),
    ensures
        region_matches(locs, region).no_duplicates(),
{
    lemma_filter_no_duplicates(locs, |l: Location| location_matches(region, l));
}

/// The match list keeps the input order: of two matched locations, the one
/// listed first is the one that came first in the location input.
pub proof fn lemma_region_matches_order(locs: Seq<Location>, region: Region)
    requires
        locs.no_duplicates(),
    ensures
        forall|a: int, b: int|
            0 <= a < b < region_matches(locs, region).len() ==> locs.index_of(
                #[trigger] region_matches(locs, region)[a],
            ) < locs.index_of(#[trigger] region_matches(locs, region)[b]),
{
    lemma_filter_ordered(locs, |l: Location| location_matches(region, l));
}

/// Matching is deterministic: two outcomes of the matching contract on the
/// same inputs agree everywhere a caller can look — same length, same region
/// names in the same order, and the same matched locations per region.
pub proof fn lemma_matching_deterministic(
    locs: Seq<Location>,
    regions: Seq<Region>,
    out1: Seq<MatchedResult>,
    out2: Seq<MatchedResult>,
)
    requires
        matching_post(locs, regions, out1),
        matching_post(locs, regions, out2),
    ensures
        out1.len() == out2.len(),
        forall|i: int| 0 <= i < out1.len() ==> (#[trigger] out1[i]).region == out2[i].region,
        forall|i: int|
            0 <= i < out1.len() ==> (#[trigger] out1[i]).matched_locations@
                == out2[i].matched_locations@,
{
}

} // verus!
