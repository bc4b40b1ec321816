use vstd::prelude::*;

pub mod data_structures;
pub mod geometry;
pub mod laws;

use crate::data_structures::{Location, MatchedResult, Region};
use crate::geometry::region_has_coord;

verus! {

/// Whether the location's coordinate lies inside any of the region's
/// polygons.
pub open spec fn location_matches(region: Region, l: Location) -> bool {
    region_has_coord(region, l.coordinates@)
}

/// The locations of the input that fall inside the region, in input order;
/// a location inside several of the region's polygons appears once.
pub open spec fn region_matches(locs: Seq<Location>, region: Region) -> Seq<Location> {
    locs.filter(|l: Location| location_matches(region, l))
}

/// What a matching run returns: one entry per input region, in input order,
/// each carrying that region's name and exactly the matching locations.
pub open spec fn matching_post(
    locs: Seq<Location>,
    regions: Seq<Region>,
    out: Seq<MatchedResult>,
) -> bool {
    &&& out.len() == regions.len()
    &&& forall|i: int| 0 <= i < regions.len() ==> (#[trigger] out[i]).region == regions[i].name
    &&& forall|i: int|
        0 <= i < regions.len() ==> (#[trigger] out[i]).matched_locations@ == region_matches(
            locs,
            regions[i],
        )
}

/// Collects the locations inside one region, preserving input order.
fn match_one_region(locations: &Vec<Location>, region: &Region) -> (r: MatchedResult)
    ensures
        r.region == region.name,
        r.matched_locations@ == region_matches(locations@, *region),
{
    let ghost pred = |l: Location| location_matches(*region, l);
    let mut matched: Vec<Location> = Vec::new();
    let mut j: usize = 0;
    while j < locations.len()
        invariant
            j <= locations.len(),
            pred == (|l: Location| location_matches(*region, l)),
            matched@ == locations@.take(j as int).filter(pred),
        decreases locations.len() - j,
    {
        let loc = &locations[j];
        if crate::geometry::region_contains_coordinate(region, &loc.coordinates) {
            matched.push(loc.clone());
        }
        proof {
            let prefix = locations@.take(j as int);
            assert(locations@.take(j as int + 1) =~= prefix.push(locations@[j as int]));
            prefix.lemma_filter_push(locations@[j as int], pred);
        }
        j = j + 1;
    }
    proof {
        assert(locations@.take(locations@.len() as int) =~= locations@);
    }
    MatchedResult { region: region.name.clone(), matched_locations: matched }
}

/// Matches every input location against every input region: the result has
/// one entry per region, in region input order, and each entry lists the
/// locations inside that region in location input order, each at most once.
/// Overlapping regions are independent: a location inside several regions
/// appears in each of their entries.
pub fn match_locations_to_regions(locations: &Vec<Location>, regions: &Vec<Region>) -> (r: Vec<
    MatchedResult,
>)
    ensures
        matching_post(locations@, regions@, r@),
{
    let mut results: Vec<MatchedResult> = Vec::new();
    let mut i: usize = 0;
    while i < regions.len()
        invariant
            i <= regions.len(),
            results@.len() == i,
            forall|k: int|
                0 <= k < i as int ==> (#[trigger] results@[k]).region == regions@[k].name,
            forall|k: int|
                0 <= k < i as int ==> (#[trigger] results@[k]).matched_locations@
                    == region_matches(locations@, regions@[k]),
        decreases regions.len() - i,
    {
        results.push(match_one_region(locations, &regions[i]));
        i = i + 1;
    }
    results
}

} // verus!
