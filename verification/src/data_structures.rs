use vstd::prelude::*;

verus! {

/// Number of fixed-point coordinate units in one degree of latitude or
/// longitude: coordinates are stored as signed integer multiples of 10^-16
/// degree, fine enough to represent every decimal degree value with up to
/// sixteen fractional digits exactly.
pub const UNITS_PER_DEGREE: i64 = 10_000_000_000_000_000;

/// Largest admissible latitude, in coordinate units (90 degrees).
pub const LAT_LIMIT: i64 = 900_000_000_000_000_000;

/// Smallest admissible latitude, in coordinate units (-90 degrees).
pub const LAT_MIN: i64 = -900_000_000_000_000_000;

/// Largest admissible longitude, in coordinate units (360 degrees; wider than
/// the canonical 180 so that regions crossing the antimeridian can be given
/// with unwrapped longitudes).
pub const LON_LIMIT: i64 = 3_600_000_000_000_000_000;

/// Smallest admissible longitude, in coordinate units (-360 degrees).
pub const LON_MIN: i64 = -3_600_000_000_000_000_000;

/// Mathematical model of one planar point: longitude as `x`, latitude as `y`,
/// both in coordinate units.
pub ghost struct CoordV {
    pub x: int,
    pub y: int,
}

/// A latitude outside [-LAT_LIMIT, LAT_LIMIT] was offered; carries the
/// offending value and the valid range, in coordinate units.
#[derive(Debug, Clone, Copy, PartialEq, Eq, Structural)]
pub struct BadLatitudeError {
    pub value: i64,
    pub min: i64,
    pub max: i64,
}

/// A longitude outside [-LON_LIMIT, LON_LIMIT] was offered; carries the
/// offending value and the valid range, in coordinate units.
#[derive(Debug, Clone, Copy, PartialEq, Eq, Structural)]
pub struct BadLongitudeError {
    pub value: i64,
    pub min: i64,
    pub max: i64,
}

/// A latitude, in coordinate units; every live value lies within
/// [-LAT_LIMIT, LAT_LIMIT].
#[derive(Debug, Clone, Copy, PartialEq, Eq, Structural)]
pub struct DecimalLat {
    units: i64,
}

impl View for DecimalLat {
    type V = int;

    closed spec fn view(&self) -> int {
        self.units as int
    }
}

impl DecimalLat {
    /// Range invariant: the wrapped value never leaves the declared bounds.
    #[verifier::type_invariant]
    pub open spec fn in_range(self) -> bool {
        LAT_MIN as int <= self@ <= LAT_LIMIT as int
    }

    /// Admits exactly the latitudes within [-LAT_LIMIT, LAT_LIMIT]; any other
    /// value is rejected with an error carrying it and the valid range.
    pub fn new(lat: i64) -> (r: Result<DecimalLat, BadLatitudeError>)
        ensures
            match r {
                Ok(v) => LAT_MIN <= lat <= LAT_LIMIT && v@ == lat as int,
                Err(e) => !(LAT_MIN <= lat <= LAT_LIMIT) && e == (BadLatitudeError {
                    value: lat,
                    min: LAT_MIN,
                    max: LAT_LIMIT,
                }),
            },
    {
        if lat < LAT_MIN || lat > LAT_LIMIT {
            return Err(BadLatitudeError { value: lat, min: LAT_MIN, max: LAT_LIMIT });
        }
        Ok(DecimalLat { units: lat })
    }

    /// Reads the wrapped value back, in coordinate units.
    pub fn val(&self) -> (r: i64)
        ensures
            r as int == self@,
    {
        self.units
    }
}

/// A longitude, in coordinate units; every live value lies within
/// [-LON_LIMIT, LON_LIMIT].
#[derive(Debug, Clone, Copy, PartialEq, Eq, Structural)]
pub struct DecimalLon {
    units: i64,
}

impl View for DecimalLon {
    type V = int;

    closed spec fn view(&self) -> int {
        self.units as int
    }
}

impl DecimalLon {
    /// Range invariant: the wrapped value never leaves the declared bounds.
    #[verifier::type_invariant]
    pub open spec fn in_range(self) -> bool {
        LON_MIN as int <= self@ <= LON_LIMIT as int
    }

    /// Admits exactly the longitudes within [-LON_LIMIT, LON_LIMIT]; any other
    /// value is rejected with an error carrying it and the valid range.
    pub fn new(lon: i64) -> (r: Result<DecimalLon, BadLongitudeError>)
        ensures
            match r {
                Ok(v) => LON_MIN <= lon <= LON_LIMIT && v@ == lon as int,
                Err(e) => !(LON_MIN <= lon <= LON_LIMIT) && e == (BadLongitudeError {
                    value: lon,
                    min: LON_MIN,
                    max: LON_LIMIT,
                }),
            },
    {
        if lon < LON_MIN || lon > LON_LIMIT {
            return Err(BadLongitudeError { value: lon, min: LON_MIN, max: LON_LIMIT });
        }
        Ok(DecimalLon { units: lon })
    }

    /// Reads the wrapped value back, in coordinate units.
    pub fn val(&self) -> (r: i64)
        ensures
            r as int == self@,
    {
        self.units
    }
}

/// A pair of validated coordinates; equality is component-wise.
#[derive(Debug, Clone, Copy, PartialEq, Eq, Structural)]
pub struct Coordinates {
    pub longitude: DecimalLon,
    pub latitude: DecimalLat,
}

impl View for Coordinates {
    type V = CoordV;

    open spec fn view(&self) -> CoordV {
        CoordV { x: self.longitude@, y: self.latitude@ }
    }
}

/// A named point location.
#[derive(Debug, PartialEq)]
#[verifier::ext_equal]
pub struct Location {
    pub name: String,
    pub coordinates: Coordinates,
}

impl Clone for Location {
    fn clone(&self) -> (r: Self)
        ensures
            r == *self,
    {
        let r = Location { name: self.name.clone(), coordinates: self.coordinates };
        proof {
            assert(r =~= *self);
        }
        r
    }
}

/// The ring shape every polygon keeps: at least four vertices, and the first
/// and the last vertex identical.
pub open spec fn closed_ring(ring: Seq<CoordV>) -> bool {
    ring.len() >= 4 && ring[0] == ring[ring.len() - 1]
}

/// The model of a vertex list: each vertex as a plain planar point.
pub open spec fn ring_view(vertices: Seq<Coordinates>) -> Seq<CoordV> {
    vertices.map_values(|c: Coordinates| c@)
}

/// Rejected vertex lists: too short to close a ring, or not closed.
#[derive(Debug, Clone, Copy, PartialEq, Eq, Structural)]
pub enum PolygonError {
    /// Fewer than four vertices were offered.
    TooFewVertices,
    /// The first and the last vertex differ.
    NotClosed,
}

/// A closed linear ring of at least four vertices, first equal to last;
/// only `Polygon::new` can build one, so every live value is a valid ring.
#[derive(Debug)]
pub struct Polygon {
    vertices: Vec<Coordinates>,
}

impl View for Polygon {
    type V = Seq<CoordV>;

    closed spec fn view(&self) -> Seq<CoordV> {
        ring_view(self.vertices@)
    }
}

impl Polygon {
    /// Ring invariant: a polygon is always a closed ring.
    #[verifier::type_invariant]
    pub open spec fn is_ring(self) -> bool {
        closed_ring(self@)
    }

    /// Wraps the vertex list unchanged when it forms a closed ring of at
    /// least four vertices; otherwise reports why it is no ring. The length
    /// is checked first, so a short unclosed list reports its shortness.
    pub fn new(vertices: Vec<Coordinates>) -> (r: Result<Polygon, PolygonError>)
        ensures
            match r {
                Ok(p) => {
                    &&& vertices@.len() >= 4
                    &&& ring_view(vertices@)[0] == ring_view(vertices@)[vertices@.len() - 1]
                    &&& p@ == ring_view(vertices@)
                },
                Err(e) => match e {
                    PolygonError::TooFewVertices => vertices@.len() < 4,
                    PolygonError::NotClosed => {
                        &&& vertices@.len() >= 4
                        &&& ring_view(vertices@)[0] != ring_view(vertices@)[vertices@.len() - 1]
                    },
                },
            },
    {
        if vertices.len() < 4 {
            return Err(PolygonError::TooFewVertices);
        }
        if vertices[0] != vertices[vertices.len() - 1] {
            return Err(PolygonError::NotClosed);
        }
        Ok(Polygon { vertices })
    }

    /// How many vertices the ring holds (the closing repeat included).
    pub fn vertex_count(&self) -> (n: usize)
        ensures
            n == self@.len(),
    {
        self.vertices.len()
    }

    /// The vertex at the given position.
    pub fn vertex(&self, i: usize) -> (c: &Coordinates)
        requires
            i < self@.len(),
        ensures
            c@ == self@[i as int],
    {
        &self.vertices[i]
    }

    /// The whole vertex list, in construction order.
    pub fn vertices(&self) -> (v: &Vec<Coordinates>)
        ensures
            ring_view(v@) == self@,
    {
        &self.vertices
    }
}

/// A named region: zero or more independent outer rings. A region with no
/// polygons contains no coordinate.
#[derive(Debug)]
pub struct Region {
    pub name: String,
    pub polygons: Vec<Polygon>,
}

/// One region's share of a matching run: the region's name, with the input
/// locations that fell inside any of its polygons, in input order.
#[derive(Debug, PartialEq)]
pub struct MatchedResult {
    pub region: String,
    pub matched_locations: Vec<Location>,
}

} // verus!
