use geomatch::data_structures::{
    Coordinates, DecimalLat, DecimalLon, Location, Polygon, Region, UNITS_PER_DEGREE,
};
use geomatch::match_locations_to_regions;

fn coord(lon: i64, lat: i64) -> Coordinates {
    Coordinates {
        longitude: DecimalLon::new(lon).unwrap(),
        latitude: DecimalLat::new(lat).unwrap(),
    }
}

fn location(name: &str, lon: i64, lat: i64) -> Location {
    Location { name: name.to_string(), coordinates: coord(lon, lat) }
}

fn polygon(vertices: &[(i64, i64)]) -> Polygon {
    let coords: Vec<Coordinates> = vertices.iter().map(|&(lon, lat)| coord(lon, lat)).collect();
    Polygon::new(coords).unwrap()
}

#[test]
fn test_region_on_south_pole() {
    let regions = vec![Region {
        name: "south_pole".into(),
        polygons: vec![polygon(&[
            (-175781250000000000, -832364265000000000),
            (1290234375000000000, -837155443000000000),
            (660937500000000000, -728160737000000000),
            (-175781250000000000, -832364265000000000),
        ])],
    }];
    let locations = vec![
        location("Location 1", 551074219000000000, -813215926000000000),
        location("Location 2", 1262109375000000000, -802979271000000000),
        location("Location 3", 741796875000000000, -826313329000000000),
        location("Location 4", -1255078125000000000, -820700282000000000),
        location("Location 5", 660937500000000000, -744964131000000000),
    ];
    let matched_result = match_locations_to_regions(&locations, &regions);

    assert_eq!(
        matched_result[0].matched_locations,
        vec![locations[0].clone(), locations[2].clone(), locations[4].clone()]
    );
}

#[test]
fn test_region_crossing_dateline() {
    let regions = vec![Region {
        name: "dateline_crossing".into(),
        polygons: vec![polygon(&[
            (1794518204716745200, 19729085791280596),
            (2215167493379924000, 101663180363158720),
            (2035747614260383200, 336742511058970560),
            (1857384236085706600, 259232044912608760),
            (1937569716039233800, 129938617794564380),
            (1794518204716745200, 19729085791280596),
        ])],
    }];
    let locations = vec![
        location("Location 1", 1923397000000000000, 159375000000000000),
        location("Location 2", 2090477000000000000, 143281000000000000),
        location("Location 3", 2025000000000000000, 300071000000000000),
        location("Location 4", 1891316000000000000, 154924000000000000),
        location("Location 5", -1794427000000000000, 149922000000000000),
        location("Location 6", 1824744000000000000, 36359000000000000),
    ];
    let matched_result = match_locations_to_regions(&locations, &regions);

    assert_eq!(
        matched_result[0].matched_locations,
        vec![
            locations[0].clone(),
            locations[1].clone(),
            locations[2].clone(),
            locations[5].clone()
        ]
    );
}

#[test]
fn test_region_with_multiple_polygons() {
    let regions = vec![Region {
        name: "bory_tucholskie".into(),
        polygons: vec![
            polygon(&[
                (178325535603507600, 541132638909821250),
                (177954526939952020, 540257983028802200),
                (177499077292397100, 539387309166302200),
                (180726316744757000, 538498508282330900),
                (183062100151535400, 537838115297401200),
                (182600544468011200, 539234015894026900),
                (180403045006191300, 540287494199773160),
                (179983252314248430, 540948944576341550),
                (178325535603507600, 541132638909821250),
            ]),
            polygon(&[
                (174460815197867870, 538858762863713140),
                (174660457944680160, 537383386721990900),
                (176949124957936870, 537558131306466600),
                (177370043407379700, 538212321656455100),
                (175664878729061500, 538951189254111700),
                (174460815197867870, 538858762863713140),
            ]),
        ],
    }];
    let locations = vec![
        location("Location 1", 180477759711012300, 539319432429402640),
        location("Location 2", 175534486554161900, 537702198592585000),
        location("Location 3", 178455574120253300, 540851808870467900),
        location("Location 4", 175904129210654220, 539039825764247950),
    ];
    let matched_result = match_locations_to_regions(&locations, &regions);

    let expected = vec![locations[0].clone(), locations[1].clone(), locations[2].clone()];
    assert!(matched_result[0].matched_locations.iter().all(|loc| expected.contains(loc)));
    assert!(matched_result[0].matched_locations.len() == expected.len());
}

#[test]
fn test_point_on_overlapping_regions() {
    let regions = vec![
        Region {
            name: "tatry_slovakia".into(),
            polygons: vec![polygon(&[
                (196784749045255300, 493735180141315500),
                (193048123341032750, 492380399644228800),
                (193283474475934160, 490974786213275540),
                (195475396719789960, 491622614990494900),
                (197958788876349840, 491251832429440750),
                (196784749045255300, 493735180141315500),
            ])],
        },
        Region {
            name: "tatry_poland_slovakia".into(),
            polygons: vec![polygon(&[
                (198558604715192930, 493180310254684600),
                (197035122636241900, 492503100045502150),
                (197578876141039930, 491719166034647500),
                (202548207121958500, 491540320000426300),
                (203326803866067960, 492614710898546400),
                (198558604715192930, 493180310254684600),
            ])],
        },
    ];
    let locations = vec![
        location("Location 1", 197266407105923070, 492434041314233500),
        location("Location 2", 193678897825289200, 492325818773595360),
        location("Location 3", 202192677320424250, 492447637583560700),
        location("Location 4", 195619248097241040, 493999128376922840),
    ];
    let matched_result = match_locations_to_regions(&locations, &regions);

    let expected_region1 = vec![locations[0].clone(), locations[1].clone()];
    let expected_region2 = vec![locations[0].clone(), locations[2].clone()];

    assert!(matched_result[0].matched_locations.iter().all(|loc| expected_region1.contains(loc)));
    assert!(matched_result[0].matched_locations.len() == expected_region1.len());
    assert!(matched_result[1].matched_locations.iter().all(|loc| expected_region2.contains(loc)));
    assert!(matched_result[1].matched_locations.len() == expected_region2.len());
}

#[test]
fn test_simple_triangle_containment() {
    let u = UNITS_PER_DEGREE;
    let regions = vec![Region {
        name: "triangle".into(),
        polygons: vec![polygon(&[(0, 0), (10 * u, 0), (5 * u, 10 * u), (0, 0)])],
    }];
    let locations = vec![
        location("A", 5 * u, 3 * u),
        location("B", 20 * u, 20 * u),
    ];
    let matched_result = match_locations_to_regions(&locations, &regions);

    assert_eq!(matched_result.len(), 1);
    assert_eq!(matched_result[0].region, "triangle");
    assert_eq!(matched_result[0].matched_locations, vec![locations[0].clone()]);
}

#[test]
fn test_location_in_two_overlapping_polygons_matched_once() {
    let u = UNITS_PER_DEGREE;
    // Two polygons of one region overlap around (5, 5): the location inside
    // both appears once in the region's result.
    let regions = vec![Region {
        name: "overlapping_rings".into(),
        polygons: vec![
            polygon(&[(0, 0), (8 * u, 0), (8 * u, 8 * u), (0, 8 * u), (0, 0)]),
            polygon(&[(2 * u, 2 * u), (12 * u, 2 * u), (12 * u, 12 * u), (2 * u, 12 * u), (2 * u, 2 * u)]),
        ],
    }];
    let locations = vec![
        location("Both", 5 * u, 5 * u),
        location("Second only", 10 * u, 10 * u),
        location("Neither", 20 * u, 20 * u),
    ];
    let matched_result = match_locations_to_regions(&locations, &regions);

    assert_eq!(
        matched_result[0].matched_locations,
        vec![locations[0].clone(), locations[1].clone()]
    );
}

#[test]
fn test_empty_region_list() {
    let locations = vec![location("somewhere", 0, 0)];
    let regions: Vec<Region> = vec![];
    let matched_result = match_locations_to_regions(&locations, &regions);

    assert!(matched_result.is_empty());
}

#[test]
fn test_no_locations() {
    let u = UNITS_PER_DEGREE;
    let locations: Vec<Location> = vec![];
    let regions = vec![
        Region {
            name: "first".into(),
            polygons: vec![polygon(&[(0, 0), (10 * u, 0), (5 * u, 10 * u), (0, 0)])],
        },
        Region { name: "second".into(), polygons: vec![] },
    ];
    let matched_result = match_locations_to_regions(&locations, &regions);

    assert_eq!(matched_result.len(), 2);
    assert_eq!(matched_result[0].region, "first");
    assert!(matched_result[0].matched_locations.is_empty());
    assert_eq!(matched_result[1].region, "second");
    assert!(matched_result[1].matched_locations.is_empty());
}

#[test]
fn test_region_without_polygons_matches_nothing() {
    let regions = vec![Region { name: "nowhere".into(), polygons: vec![] }];
    let locations = vec![location("somewhere", 0, 0)];
    let matched_result = match_locations_to_regions(&locations, &regions);

    assert_eq!(matched_result.len(), 1);
    assert!(matched_result[0].matched_locations.is_empty());
}

#[test]
fn test_boundary_points_excluded() {
    let u = UNITS_PER_DEGREE;
    let regions = vec![Region {
        name: "square".into(),
        polygons: vec![polygon(&[(0, 0), (10 * u, 0), (10 * u, 10 * u), (0, 10 * u), (0, 0)])],
    }];
    let locations = vec![
        location("on lower edge", 5 * u, 0),
        location("on vertex", 0, 0),
        location("on right edge", 10 * u, 5 * u),
        location("inside", 5 * u, 5 * u),
    ];
    let matched_result = match_locations_to_regions(&locations, &regions);

    assert_eq!(matched_result[0].matched_locations, vec![locations[3].clone()]);
}

#[test]
fn test_matching_runs_identically_twice() {
    let u = UNITS_PER_DEGREE;
    let regions = vec![
        Region {
            name: "one".into(),
            polygons: vec![polygon(&[(0, 0), (10 * u, 0), (5 * u, 10 * u), (0, 0)])],
        },
        Region {
            name: "two".into(),
            polygons: vec![polygon(&[(2 * u, 2 * u), (12 * u, 2 * u), (7 * u, 12 * u), (2 * u, 2 * u)])],
        },
    ];
    let locations = vec![
        location("Location 1", 5 * u, 3 * u),
        location("Location 2", 6 * u, 4 * u),
        location("Location 3", 50 * u, 50 * u),
    ];
    let first = match_locations_to_regions(&locations, &regions);
    let second = match_locations_to_regions(&locations, &regions);

    assert_eq!(first.len(), second.len());
    for (a, b) in first.iter().zip(second.iter()) {
        assert_eq!(a.region, b.region);
        assert_eq!(a.matched_locations, b.matched_locations);
    }
}
