//! Vector data as a data source hands it over: positions that may hold
//! values no fixed-point number stands for, and the seven geometry shapes of
//! the GeoJSON format.

use vstd::prelude::*;
use dashmap::DashMap;
use serde_json::Value;

verus! {

/// One position of a geometry. `x` is the longitude, `y` the latitude, both
/// in fixed-point degrees. An ordinate is `None` where the source held a
/// value that is not a finite number or lies outside the fixed-point range.
#[derive(Clone, Copy, Debug, PartialEq, Eq)]
pub struct Position {
    pub x: Option<i64>,
    pub y: Option<i64>,
}

impl Position {
    pub fn new(x: Option<i64>, y: Option<i64>) -> (p: Position)
        ensures
            p == (Position { x, y }),
    {
        Position { x, y }
    }

    /// Both ordinates are numbers.
    pub open spec fn spec_is_finite(&self) -> bool {
        self.x.is_some() && self.y.is_some()
    }

    #[verifier::when_used_as_spec(spec_is_finite)]
    pub fn is_finite(&self) -> (r: bool)
        ensures
            r == self.spec_is_finite(),
    {
        self.x.is_some() && self.y.is_some()
    }
}

impl View for Position {
    type V = Position;

    #[verifier::inline]
    open spec fn view(&self) -> Position {
        *self
    }
}

impl DeepView for Position {
    type V = Position;

    #[verifier::inline]
    open spec fn deep_view(&self) -> Position {
        *self
    }
}

/// The shape of a feature. A polygon is a list of rings, the first of them
/// the exterior and the others holes.
#[derive(Debug)]
pub enum Geometry {
    Point(Position),
    MultiPoint(Vec<Position>),
    LineString(Vec<Position>),
    MultiLineString(Vec<Vec<Position>>),
    Polygon(Vec<Vec<Position>>),
    MultiPolygon(Vec<Vec<Vec<Position>>>),
    GeometryCollection(Vec<Geometry>),
}

/// The identifier that a source gave to a feature: a string, or a number
/// as the source wrote it.
#[derive(Debug)]
pub enum Id {
    String(String),
    Number(String),
}

impl Id {
    /// The identifier as text.
    pub open spec fn spec_text(&self) -> Seq<char> {
        match self {
            Id::String(s) => s@,
            Id::Number(n) => n@,
        }
    }

    /// The identifier as text: the string itself, or the digits of the number.
    pub fn text(&self) -> (s: String)
        ensures
            s@ == self.spec_text(),
    {
        match self {
            Id::String(s) => s.clone(),
            Id::Number(n) => n.clone(),
        }
    }
}

/// A feature as a source hands it over: every part may be missing.
#[derive(Debug)]
pub struct Feature {
    pub id: Option<Id>,
    pub geometry: Option<Geometry>,
    pub properties: Option<DashMap<String, Value>>,
}

/// A list of features, in the order of the source.
#[derive(Debug)]
pub struct FeatureCollection {
    pub features: Vec<Feature>,
}

/// A whole document of a source: a bare geometry, one feature or a
/// collection of features.
#[derive(Debug)]
pub enum GeoJson {
    Geometry(Geometry),
    Feature(Feature),
    FeatureCollection(FeatureCollection),
}

impl GeoJson {
    /// The features of a document as a list: those of a collection, the
    /// one feature, or a feature made of the bare geometry.
    pub open spec fn spec_features(self) -> Seq<Feature> {
        match self {
            GeoJson::FeatureCollection(c) => c.features@,
            GeoJson::Feature(f) => seq![f],
            GeoJson::Geometry(g) => seq![Feature { id: None, geometry: Some(g), properties: None }],
        }
    }

    /// The number of features in the document. A bare geometry counts as one.
    pub fn feature_count(&self) -> (n: usize)
        ensures
            n == self.spec_features().len(),
    {
        match self {
            GeoJson::FeatureCollection(c) => c.features.len(),
            GeoJson::Feature(_) => 1,
            GeoJson::Geometry(_) => 1,
        }
    }

    /// Turns the document into a collection. One feature becomes a
    /// collection of one; a bare geometry becomes a feature without
    /// identifier and properties.
    pub fn into_feature_collection(self) -> (c: FeatureCollection)
        ensures
            c.features@ == self.spec_features(),
    {
        match self {
            GeoJson::FeatureCollection(c) => c,
            GeoJson::Feature(f) => {
                let mut features: Vec<Feature> = Vec::new();
                features.push(f);
                assert(features@ =~= seq![f]);
                FeatureCollection { features }
            },
            GeoJson::Geometry(g) => {
                let f = Feature { id: None, geometry: Some(g), properties: None };
                let mut features: Vec<Feature> = Vec::new();
                features.push(f);
                assert(features@ =~= seq![f]);
                FeatureCollection { features }
            },
        }
    }
}

} // verus!
