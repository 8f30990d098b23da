//! The geometry of a feature: six shapes over validated geographic points.

use vstd::prelude::*;
use crate::error::Failure;
use crate::error::GeoArrowError;
use crate::geodata::Geometry;
use crate::geodata::Position;
use crate::model::bounds::GeoBounds;
use crate::model::point::GeoPoint;

verus! {

/// The shape of a feature in the model. In a polygon the first ring is the
/// exterior and the others are holes.
#[derive(Debug)]
pub enum FeatureGeometry {
    Point(GeoPoint),
    LineString(Vec<GeoPoint>),
    Polygon(Vec<Vec<GeoPoint>>),
    MultiPoint(Vec<GeoPoint>),
    MultiLineString(Vec<Vec<GeoPoint>>),
    MultiPolygon(Vec<Vec<Vec<GeoPoint>>>),
}

/// A geometry as a mathematical value.
pub enum Shape {
    Point(GeoPoint),
    LineString(Seq<GeoPoint>),
    Polygon(Seq<Seq<GeoPoint>>),
    MultiPoint(Seq<GeoPoint>),
    MultiLineString(Seq<Seq<GeoPoint>>),
    MultiPolygon(Seq<Seq<Seq<GeoPoint>>>),
}

impl View for FeatureGeometry {
    type V = Shape;

    open spec fn view(&self) -> Shape {
        match self {
            FeatureGeometry::Point(p) => Shape::Point(*p),
            FeatureGeometry::LineString(ps) => Shape::LineString(ps@),
            FeatureGeometry::Polygon(rings) => Shape::Polygon(rings.deep_view()),
            FeatureGeometry::MultiPoint(ps) => Shape::MultiPoint(ps@),
            FeatureGeometry::MultiLineString(lines) => Shape::MultiLineString(lines.deep_view()),
            FeatureGeometry::MultiPolygon(polygons) => Shape::MultiPolygon(polygons.deep_view()),
        }
    }
}

impl Clone for FeatureGeometry {
    /// A copy with the same points.
    fn clone(&self) -> (copy: FeatureGeometry)
        ensures
            copy@ == self@,
    {
        match self {
            FeatureGeometry::Point(p) => FeatureGeometry::Point(*p),
            FeatureGeometry::LineString(ps) => FeatureGeometry::LineString(ps.clone()),
            FeatureGeometry::Polygon(rings) => FeatureGeometry::Polygon(rings.clone()),
            FeatureGeometry::MultiPoint(ps) => FeatureGeometry::MultiPoint(ps.clone()),
            FeatureGeometry::MultiLineString(lines) => FeatureGeometry::MultiLineString(
                lines.clone(),
            ),
            FeatureGeometry::MultiPolygon(polygons) => FeatureGeometry::MultiPolygon(
                polygons.clone(),
            ),
        }
    }
}

/// Every point of the list is valid.
pub open spec fn all_valid(ps: Seq<GeoPoint>) -> bool {
    forall|i: int| 0 <= i < ps.len() ==> (#[trigger] ps[i]).spec_is_valid()
}

/// A ring is valid when it has at least four points, all of them valid, and
/// ends where it starts.
pub open spec fn ring_valid(ring: Seq<GeoPoint>) -> bool {
    &&& ring.len() >= 4
    &&& all_valid(ring)
    &&& ring.first() == ring.last()
}

/// A line is valid when it has a point and all its points are valid.
pub open spec fn line_valid(line: Seq<GeoPoint>) -> bool {
    line.len() > 0 && all_valid(line)
}

/// A polygon is valid when it has a ring and all its rings are valid.
pub open spec fn polygon_valid(rings: Seq<Seq<GeoPoint>>) -> bool {
    &&& rings.len() > 0
    &&& forall|i: int| 0 <= i < rings.len() ==> ring_valid(#[trigger] rings[i])
}

/// A list of lines is valid when it has a line and all its lines are valid.
pub open spec fn lines_valid(lines: Seq<Seq<GeoPoint>>) -> bool {
    &&& lines.len() > 0
    &&& forall|i: int| 0 <= i < lines.len() ==> line_valid(#[trigger] lines[i])
}

/// A list of polygons is valid when it has a polygon and all its polygons
/// are valid.
pub open spec fn polygons_valid(polygons: Seq<Seq<Seq<GeoPoint>>>) -> bool {
    &&& polygons.len() > 0
    &&& forall|i: int| 0 <= i < polygons.len() ==> polygon_valid(#[trigger] polygons[i])
}

/// The point that a position stands for: `Some` where both ordinates are
/// numbers and the point is valid. The position's y is the latitude.
pub open spec fn point_of(p: Position) -> Option<GeoPoint> {
    match (p.x, p.y) {
        (Some(lng), Some(lat)) => {
            let q = GeoPoint { lat, lng };
            if q.spec_is_valid() {
                Some(q)
            } else {
                None
            }
        },
        _ => None,
    }
}

/// The points of a list of positions: `Some` where each stands for a point.
pub open spec fn line_of(ps: Seq<Position>) -> Option<Seq<GeoPoint>> {
    if forall|i: int| 0 <= i < ps.len() ==> (#[trigger] point_of(ps[i])).is_some() {
        Some(Seq::new(ps.len(), |i: int| point_of(ps[i]).unwrap()))
    } else {
        None
    }
}

/// The point lists of a list of position lists: `Some` where each converts.
pub open spec fn lines_of(ls: Seq<Seq<Position>>) -> Option<Seq<Seq<GeoPoint>>> {
    if forall|i: int| 0 <= i < ls.len() ==> (#[trigger] line_of(ls[i])).is_some() {
        Some(Seq::new(ls.len(), |i: int| line_of(ls[i]).unwrap()))
    } else {
        None
    }
}

/// The polygons of a list of polygons over positions: `Some` where each
/// converts.
pub open spec fn polygons_of(gs: Seq<Seq<Seq<Position>>>) -> Option<Seq<Seq<Seq<GeoPoint>>>> {
    if forall|i: int| 0 <= i < gs.len() ==> (#[trigger] lines_of(gs[i])).is_some() {
        Some(Seq::new(gs.len(), |i: int| lines_of(gs[i]).unwrap()))
    } else {
        None
    }
}

/// What converting a source geometry gives: the shape over points, or the
/// rejection. A geometry with a position that stands for no valid point
/// fails validation; a geometry collection is an encoding that is not
/// supported, whatever it holds.
pub open spec fn converted(g: &Geometry) -> Result<Shape, Failure> {
    match g {
        Geometry::Point(p) => match point_of(*p) {
            Some(q) => Ok(Shape::Point(q)),
            None => Err(Failure::Validation("Invalid point coordinates"@)),
        },
        Geometry::LineString(ps) => match line_of(ps@) {
            Some(qs) => Ok(Shape::LineString(qs)),
            None => Err(Failure::Validation("Invalid line coordinates"@)),
        },
        Geometry::Polygon(rings) => match lines_of(rings.deep_view()) {
            Some(qs) => Ok(Shape::Polygon(qs)),
            None => Err(Failure::Validation("Invalid polygon coordinates"@)),
        },
        Geometry::MultiPoint(ps) => match line_of(ps@) {
            Some(qs) => Ok(Shape::MultiPoint(qs)),
            None => Err(Failure::Validation("Invalid multipoint coordinates"@)),
        },
        Geometry::MultiLineString(lines) => match lines_of(lines.deep_view()) {
            Some(qs) => Ok(Shape::MultiLineString(qs)),
            None => Err(Failure::Validation("Invalid multilinestring coordinates"@)),
        },
        Geometry::MultiPolygon(polygons) => match polygons_of(polygons.deep_view()) {
            Some(qs) => Ok(Shape::MultiPolygon(qs)),
            None => Err(Failure::Validation("Invalid multipolygon coordinates"@)),
        },
        Geometry::GeometryCollection(_) => Err(
            Failure::Serialization("GeometryCollection not yet supported"@),
        ),
    }
}

/// The bounds of no point at all: every minimum at the top of the range and
/// every maximum at its bottom, so that the first point covered sets all four.
pub open spec fn no_bounds() -> GeoBounds {
    GeoBounds { min_x: i64::MAX, min_y: i64::MAX, max_x: i64::MIN, max_y: i64::MIN }
}

/// The smallest rectangle that holds `b` and the point `p`.
pub open spec fn cover_point(b: GeoBounds, p: GeoPoint) -> GeoBounds {
    GeoBounds {
        min_x: if p.lng < b.min_x { p.lng } else { b.min_x },
        min_y: if p.lat < b.min_y { p.lat } else { b.min_y },
        max_x: if p.lng > b.max_x { p.lng } else { b.max_x },
        max_y: if p.lat > b.max_y { p.lat } else { b.max_y },
    }
}

/// The smallest rectangle that holds `b` and every point of `ps`.
pub open spec fn cover(b: GeoBounds, ps: Seq<GeoPoint>) -> GeoBounds
    decreases ps.len(),
{
    if ps.len() == 0 {
        b
    } else {
        cover_point(cover(b, ps.drop_last()), ps.last())
    }
}

/// The points of all the lists, in order.
pub open spec fn join(parts: Seq<Seq<GeoPoint>>) -> Seq<GeoPoint>
    decreases parts.len(),
{
    if parts.len() == 0 {
        Seq::empty()
    } else {
        join(parts.drop_last()) + parts.last()
    }
}

/// The points of all the rings of all the polygons, in order.
pub open spec fn join_all(polygons: Seq<Seq<Seq<GeoPoint>>>) -> Seq<GeoPoint>
    decreases polygons.len(),
{
    if polygons.len() == 0 {
        Seq::empty()
    } else {
        join_all(polygons.drop_last()) + join(polygons.last())
    }
}

/// Covering two lists one after the other covers their concatenation.
pub proof fn lemma_cover_concat(b: GeoBounds, x: Seq<GeoPoint>, y: Seq<GeoPoint>)
    ensures
        cover(b, x + y) == cover(cover(b, x), y),
    decreases y.len(),
{
    if y.len() == 0 {
        assert(x + y =~= x);
    } else {
        assert((x + y).drop_last() =~= x + y.drop_last());
        assert((x + y).last() == y.last());
        lemma_cover_concat(b, x, y.drop_last());
    }
}

/// The cover of a list holds what was covered before and each point of the
/// list, and each of its four sides is a side of `b` or passes through a
/// point of the list.
pub proof fn lemma_cover_encloses(b: GeoBounds, ps: Seq<GeoPoint>)
    ensures
        cover(b, ps).min_x <= b.min_x,
        cover(b, ps).min_y <= b.min_y,
        cover(b, ps).max_x >= b.max_x,
        cover(b, ps).max_y >= b.max_y,
        forall|i: int|
            0 <= i < ps.len() ==> cover(b, ps).spec_contains((#[trigger] ps[i]).lng, ps[i].lat),
        cover(b, ps).min_x == b.min_x || exists|i: int|
            0 <= i < ps.len() && (#[trigger] ps[i]).lng == cover(b, ps).min_x,
        cover(b, ps).max_x == b.max_x || exists|i: int|
            0 <= i < ps.len() && (#[trigger] ps[i]).lng == cover(b, ps).max_x,
        cover(b, ps).min_y == b.min_y || exists|i: int|
            0 <= i < ps.len() && (#[trigger] ps[i]).lat == cover(b, ps).min_y,
        cover(b, ps).max_y == b.max_y || exists|i: int|
            0 <= i < ps.len() && (#[trigger] ps[i]).lat == cover(b, ps).max_y,
    decreases ps.len(),
{
    if ps.len() > 0 {
        let init = ps.drop_last();
        let c = cover(b, init);
        let last = ps.len() - 1;
        lemma_cover_encloses(b, init);
        assert forall|i: int| 0 <= i < ps.len() implies cover(b, ps).spec_contains(
            (#[trigger] ps[i]).lng,
            ps[i].lat,
        ) by {
            if i < last {
                assert(init[i] == ps[i]);
            }
        }
        let r = cover(b, ps);
        if r.min_x != b.min_x {
            if r.min_x == ps[last].lng {
            } else {
                let i = choose|i: int| 0 <= i < init.len() && (#[trigger] init[i]).lng == c.min_x;
                assert(ps[i] == init[i]);
            }
        }
        if r.max_x != b.max_x {
            if r.max_x == ps[last].lng {
            } else {
                let i = choose|i: int| 0 <= i < init.len() && (#[trigger] init[i]).lng == c.max_x;
                assert(ps[i] == init[i]);
            }
        }
        if r.min_y != b.min_y {
            if r.min_y == ps[last].lat {
            } else {
                let i = choose|i: int| 0 <= i < init.len() && (#[trigger] init[i]).lat == c.min_y;
                assert(ps[i] == init[i]);
            }
        }
        if r.max_y != b.max_y {
            if r.max_y == ps[last].lat {
            } else {
                let i = choose|i: int| 0 <= i < init.len() && (#[trigger] init[i]).lat == c.max_y;
                assert(ps[i] == init[i]);
            }
        }
    }
}

impl Shape {
    /// All the points of the geometry, in order.
    pub open spec fn points(self) -> Seq<GeoPoint> {
        match self {
            Shape::Point(p) => seq![p],
            Shape::LineString(ps) => ps,
            Shape::MultiPoint(ps) => ps,
            Shape::Polygon(rings) => join(rings),
            Shape::MultiLineString(lines) => join(lines),
            Shape::MultiPolygon(polygons) => join_all(polygons),
        }
    }

    /// The smallest rectangle that holds every point of the geometry; for a
    /// geometry without points, [`no_bounds`].
    pub open spec fn bounds(self) -> GeoBounds {
        cover(no_bounds(), self.points())
    }
}

impl Shape {
    /// The validity of a geometry, shape by shape.
    pub open spec fn valid(self) -> bool {
        match self {
            Shape::Point(p) => p.spec_is_valid(),
            Shape::LineString(ps) => line_valid(ps),
            Shape::MultiPoint(ps) => line_valid(ps),
            Shape::Polygon(rings) => polygon_valid(rings),
            Shape::MultiLineString(lines) => lines_valid(lines),
            Shape::MultiPolygon(polygons) => polygons_valid(polygons),
        }
    }
}

/// Tells whether every point of the list is valid.
fn points_valid(ps: &Vec<GeoPoint>) -> (r: bool)
    ensures
        r == all_valid(ps@),
{
    let mut i: usize = 0;
    while i < ps.len()
        invariant
            i <= ps.len(),
            forall|k: int| 0 <= k < i ==> (#[trigger] ps@[k]).spec_is_valid(),
        decreases ps.len() - i,
    {
        if !ps[i].is_valid() {
            return false;
        }
        i += 1;
    }
    true
}

/// Tells whether the ring is valid.
fn check_ring(ring: &Vec<GeoPoint>) -> (r: bool)
    ensures
        r == ring_valid(ring@),
{
    let n: usize = ring.len();
    if n < 4 {
        return false;
    }
    if !points_valid(ring) {
        return false;
    }
    let first: GeoPoint = ring[0];
    let last: GeoPoint = ring[n - 1];
    first.lat == last.lat && first.lng == last.lng
}

/// Tells whether the polygon is valid.
fn check_polygon(rings: &Vec<Vec<GeoPoint>>) -> (r: bool)
    ensures
        r == polygon_valid(rings.deep_view()),
{
    if rings.len() == 0 {
        return false;
    }
    let mut i: usize = 0;
    while i < rings.len()
        invariant
            i <= rings.len(),
            forall|k: int| 0 <= k < i ==> ring_valid(#[trigger] rings.deep_view()[k]),
        decreases rings.len() - i,
    {
        assert(rings.deep_view()[i as int] =~= rings@[i as int]@);
        if !check_ring(&rings[i]) {
            return false;
        }
        i += 1;
    }
    true
}

/// Tells whether the list of lines is valid.
fn check_lines(lines: &Vec<Vec<GeoPoint>>) -> (r: bool)
    ensures
        r == lines_valid(lines.deep_view()),
{
    if lines.len() == 0 {
        return false;
    }
    let mut i: usize = 0;
    while i < lines.len()
        invariant
            i <= lines.len(),
            forall|k: int| 0 <= k < i ==> line_valid(#[trigger] lines.deep_view()[k]),
        decreases lines.len() - i,
    {
        assert(lines.deep_view()[i as int] =~= lines@[i as int]@);
        if lines[i].len() == 0 || !points_valid(&lines[i]) {
            return false;
        }
        i += 1;
    }
    true
}

/// Tells whether the list of polygons is valid.
fn check_polygons(polygons: &Vec<Vec<Vec<GeoPoint>>>) -> (r: bool)
    ensures
        r == polygons_valid(polygons.deep_view()),
{
    if polygons.len() == 0 {
        return false;
    }
    let mut i: usize = 0;
    while i < polygons.len()
        invariant
            i <= polygons.len(),
            forall|k: int| 0 <= k < i ==> polygon_valid(#[trigger] polygons.deep_view()[k]),
        decreases polygons.len() - i,
    {
        assert(polygons.deep_view()[i as int] == polygons@[i as int].deep_view());
        if !check_polygon(&polygons[i]) {
            return false;
        }
        i += 1;
    }
    true
}

/// Extends `acc` to hold every point of `ps`.
fn cover_points(acc: GeoBounds, ps: &Vec<GeoPoint>) -> (r: GeoBounds)
    ensures
        r == cover(acc, ps@),
{
    let mut b: GeoBounds = acc;
    let mut i: usize = 0;
    while i < ps.len()
        invariant
            i <= ps.len(),
            b == cover(acc, ps@.take(i as int)),
        decreases ps.len() - i,
    {
        let p: GeoPoint = ps[i];
        proof {
            let next = ps@.take(i + 1);
            assert(next.drop_last() =~= ps@.take(i as int));
            assert(next.last() == p);
        }
        b = GeoBounds {
            min_x: if p.lng < b.min_x { p.lng } else { b.min_x },
            min_y: if p.lat < b.min_y { p.lat } else { b.min_y },
            max_x: if p.lng > b.max_x { p.lng } else { b.max_x },
            max_y: if p.lat > b.max_y { p.lat } else { b.max_y },
        };
        i += 1;
    }
    assert(ps@.take(i as int) =~= ps@);
    b
}

/// Extends `acc` to hold every point of every list.
fn cover_lines(acc: GeoBounds, lines: &Vec<Vec<GeoPoint>>) -> (r: GeoBounds)
    ensures
        r == cover(acc, join(lines.deep_view())),
{
    let mut b: GeoBounds = acc;
    let mut i: usize = 0;
    while i < lines.len()
        invariant
            i <= lines.len(),
            b == cover(acc, join(lines.deep_view().take(i as int))),
        decreases lines.len() - i,
    {
        proof {
            let done = lines.deep_view().take(i as int);
            let next = lines.deep_view().take(i + 1);
            assert(next.drop_last() =~= done);
            assert(next.last() =~= lines@[i as int]@);
            lemma_cover_concat(acc, join(done), lines@[i as int]@);
        }
        b = cover_points(b, &lines[i]);
        i += 1;
    }
    assert(lines.deep_view().take(i as int) =~= lines.deep_view());
    b
}

/// Extends `acc` to hold every point of every ring of every polygon.
fn cover_polygons(acc: GeoBounds, polygons: &Vec<Vec<Vec<GeoPoint>>>) -> (r: GeoBounds)
    ensures
        r == cover(acc, join_all(polygons.deep_view())),
{
    let mut b: GeoBounds = acc;
    let mut i: usize = 0;
    while i < polygons.len()
        invariant
            i <= polygons.len(),
            b == cover(acc, join_all(polygons.deep_view().take(i as int))),
        decreases polygons.len() - i,
    {
        proof {
            let done = polygons.deep_view().take(i as int);
            let next = polygons.deep_view().take(i + 1);
            assert(next.drop_last() =~= done);
            assert(next.last() == polygons@[i as int].deep_view());
            lemma_cover_concat(acc, join_all(done), join(polygons@[i as int].deep_view()));
        }
        b = cover_lines(b, &polygons[i]);
        i += 1;
    }
    assert(polygons.deep_view().take(i as int) =~= polygons.deep_view());
    b
}

/// Converts one position.
fn convert_position(p: &Position) -> (r: Option<GeoPoint>)
    ensures
        r == point_of(*p),
{
    match (p.x, p.y) {
        (Some(lng), Some(lat)) => {
            let q: GeoPoint = GeoPoint::new(lat, lng);
            if q.is_valid() {
                Some(q)
            } else {
                None
            }
        },
        _ => None,
    }
}

/// Converts a list of positions, or none of it.
fn convert_line(ps: &Vec<Position>) -> (r: Option<Vec<GeoPoint>>)
    ensures
        match line_of(ps@) {
            Some(qs) => r.is_some() && r.unwrap()@ == qs,
            None => r.is_none(),
        },
{
    let mut out: Vec<GeoPoint> = Vec::new();
    let mut i: usize = 0;
    while i < ps.len()
        invariant
            i <= ps.len(),
            out@.len() == i,
            forall|k: int| 0 <= k < i ==> (#[trigger] point_of(ps@[k])) == Some(out@[k]),
        decreases ps.len() - i,
    {
        match convert_position(&ps[i]) {
            Some(q) => {
                out.push(q);
            },
            None => {
                assert(point_of(ps@[i as int]).is_none());
                return None;
            },
        }
        i += 1;
    }
    assert(out@ =~= line_of(ps@).unwrap());
    Some(out)
}

/// Converts a list of position lists, or none of it.
fn convert_lines(ls: &Vec<Vec<Position>>) -> (r: Option<Vec<Vec<GeoPoint>>>)
    ensures
        match lines_of(ls.deep_view()) {
            Some(qs) => r.is_some() && r.unwrap().deep_view() == qs,
            None => r.is_none(),
        },
{
    let mut out: Vec<Vec<GeoPoint>> = Vec::new();
    let mut i: usize = 0;
    assert forall|k: int| 0 <= k < ls.len() implies (#[trigger] ls.deep_view()[k]) == ls@[k]@ by {
        assert(ls.deep_view()[k] =~= ls@[k]@);
    }
    while i < ls.len()
        invariant
            i <= ls.len(),
            out@.len() == i,
            forall|k: int| 0 <= k < ls.len() ==> (#[trigger] ls.deep_view()[k]) == ls@[k]@,
            forall|k: int|
                0 <= k < i ==> (#[trigger] line_of(ls.deep_view()[k])) == Some(out@[k]@),
        decreases ls.len() - i,
    {
        assert(ls.deep_view()[i as int] == ls@[i as int]@);
        match convert_line(&ls[i]) {
            Some(qs) => {
                out.push(qs);
            },
            None => {
                assert(line_of(ls.deep_view()[i as int]).is_none());
                return None;
            },
        }
        i += 1;
    }
    proof {
        let want = lines_of(ls.deep_view()).unwrap();
        assert(out.deep_view().len() == want.len());
        assert forall|k: int| 0 <= k < want.len() implies out.deep_view()[k] == want[k] by {
            assert(line_of(ls.deep_view()[k]) == Some(out@[k]@));
            assert(out.deep_view()[k] =~= out@[k]@);
        }
        assert(out.deep_view() =~= want);
    }
    Some(out)
}

/// Converts a list of polygons over positions, or none of it.
fn convert_polygons(gs: &Vec<Vec<Vec<Position>>>) -> (r: Option<Vec<Vec<Vec<GeoPoint>>>>)
    ensures
        match polygons_of(gs.deep_view()) {
            Some(qs) => r.is_some() && r.unwrap().deep_view() == qs,
            None => r.is_none(),
        },
{
    let mut out: Vec<Vec<Vec<GeoPoint>>> = Vec::new();
    let mut i: usize = 0;
    while i < gs.len()
        invariant
            i <= gs.len(),
            out@.len() == i,
            forall|k: int|
                0 <= k < i ==> (#[trigger] lines_of(gs.deep_view()[k])) == Some(
                    out@[k].deep_view(),
                ),
        decreases gs.len() - i,
    {
        assert(gs.deep_view()[i as int] == gs@[i as int].deep_view());
        match convert_lines(&gs[i]) {
            Some(qs) => {
                out.push(qs);
            },
            None => {
                assert(lines_of(gs.deep_view()[i as int]).is_none());
                return None;
            },
        }
        i += 1;
    }
    proof {
        let want = polygons_of(gs.deep_view()).unwrap();
        assert(out.deep_view().len() == want.len());
        assert forall|k: int| 0 <= k < want.len() implies out.deep_view()[k] == want[k] by {
            assert(lines_of(gs.deep_view()[k]) == Some(out@[k].deep_view()));
        }
        assert(out.deep_view() =~= want);
    }
    Some(out)
}

impl FeatureGeometry {
    /// Builds the geometry of a feature from a source geometry.
    ///
    /// Every position must stand for a valid point; its x becomes the
    /// longitude and its y the latitude. The first position that does not
    /// rejects the whole geometry with a validation error whose message
    /// names the shape. A geometry collection is rejected as a format that
    /// is not supported, whatever it holds.
    pub fn from_geojson_geometry(geometry: &Geometry) -> (r: Result<FeatureGeometry, GeoArrowError>)
        ensures
            match converted(geometry) {
                Ok(shape) => r.is_ok() && r.unwrap()@ == shape,
                Err(failure) => r.is_err() && r.unwrap_err()@ == failure,
            },
    {
        match geometry {
            Geometry::Point(p) => match convert_position(p) {
                Some(q) => Ok(FeatureGeometry::Point(q)),
                None => Err(GeoArrowError::validation("Invalid point coordinates")),
            },
            Geometry::LineString(ps) => match convert_line(ps) {
                Some(qs) => Ok(FeatureGeometry::LineString(qs)),
                None => Err(GeoArrowError::validation("Invalid line coordinates")),
            },
            Geometry::Polygon(rings) => match convert_lines(rings) {
                Some(qs) => Ok(FeatureGeometry::Polygon(qs)),
                None => Err(GeoArrowError::validation("Invalid polygon coordinates")),
            },
            Geometry::MultiPoint(ps) => match convert_line(ps) {
                Some(qs) => Ok(FeatureGeometry::MultiPoint(qs)),
                None => Err(GeoArrowError::validation("Invalid multipoint coordinates")),
            },
            Geometry::MultiLineString(lines) => match convert_lines(lines) {
                Some(qs) => Ok(FeatureGeometry::MultiLineString(qs)),
                None => Err(GeoArrowError::validation("Invalid multilinestring coordinates")),
            },
            Geometry::MultiPolygon(polygons) => match convert_polygons(polygons) {
                Some(qs) => Ok(FeatureGeometry::MultiPolygon(qs)),
                None => Err(GeoArrowError::validation("Invalid multipolygon coordinates")),
            },
            Geometry::GeometryCollection(_) => Err(
                GeoArrowError::serialization("GeometryCollection not yet supported"),
            ),
        }
    }

    /// The bounding rectangle of the geometry: x spans the longitudes and y
    /// the latitudes of its points. Holes of polygons count like any ring.
    pub fn calculate_bounds(&self) -> (b: GeoBounds)
        ensures
            b == self@.bounds(),
    {
        let start: GeoBounds = GeoBounds::new(i64::MAX, i64::MAX, i64::MIN, i64::MIN);
        match self {
            FeatureGeometry::Point(p) => {
                proof {
                    let one = seq![*p];
                    assert(one.drop_last() =~= Seq::<GeoPoint>::empty());
                    assert(cover(no_bounds(), one.drop_last()) == no_bounds());
                }
                GeoBounds::new(p.lng, p.lat, p.lng, p.lat)
            },
            FeatureGeometry::LineString(ps) => cover_points(start, ps),
            FeatureGeometry::MultiPoint(ps) => cover_points(start, ps),
            FeatureGeometry::Polygon(rings) => cover_lines(start, rings),
            FeatureGeometry::MultiLineString(lines) => cover_lines(start, lines),
            FeatureGeometry::MultiPolygon(polygons) => cover_polygons(start, polygons),
        }
    }

    /// Tells whether the geometry is valid: every point within range, every
    /// list of points, lines, rings or polygons non-empty, and every ring
    /// closed with at least four points.
    pub fn is_valid(&self) -> (r: bool)
        ensures
            r == self@.valid(),
    {
        match self {
            FeatureGeometry::Point(p) => p.is_valid(),
            FeatureGeometry::LineString(ps) => ps.len() > 0 && points_valid(ps),
            FeatureGeometry::MultiPoint(ps) => ps.len() > 0 && points_valid(ps),
            FeatureGeometry::Polygon(rings) => check_polygon(rings),
            FeatureGeometry::MultiLineString(lines) => check_lines(lines),
            FeatureGeometry::MultiPolygon(polygons) => check_polygons(polygons),
        }
    }
}

/// The source position of a point: its longitude as x and its latitude as
/// y.
pub open spec fn position_of(p: GeoPoint) -> Position {
    Position { x: Some(p.lng), y: Some(p.lat) }
}

/// The source positions of a list of points.
pub open spec fn positions_of(ps: Seq<GeoPoint>) -> Seq<Position> {
    Seq::new(ps.len(), |i: int| position_of(ps[i]))
}

/// The source positions of a list of point lists.
pub open spec fn position_lists_of(ls: Seq<Seq<GeoPoint>>) -> Seq<Seq<Position>> {
    Seq::new(ls.len(), |i: int| positions_of(ls[i]))
}

/// The source positions of a list of polygons.
pub open spec fn position_polygons_of(gs: Seq<Seq<Seq<GeoPoint>>>) -> Seq<Seq<Seq<Position>>> {
    Seq::new(gs.len(), |i: int| position_lists_of(gs[i]))
}

/// The source geometry `g` has the shape and the positions of `shape`.
pub open spec fn source_of(g: &Geometry, shape: Shape) -> bool {
    match (g, shape) {
        (Geometry::Point(q), Shape::Point(p)) => *q == position_of(p),
        (Geometry::LineString(qs), Shape::LineString(ps)) => qs@ == positions_of(ps),
        (Geometry::MultiPoint(qs), Shape::MultiPoint(ps)) => qs@ == positions_of(ps),
        (Geometry::Polygon(qs), Shape::Polygon(rings)) => qs.deep_view() == position_lists_of(
            rings,
        ),
        (Geometry::MultiLineString(qs), Shape::MultiLineString(lines)) => qs.deep_view()
            == position_lists_of(lines),
        (Geometry::MultiPolygon(qs), Shape::MultiPolygon(polygons)) => qs.deep_view()
            == position_polygons_of(polygons),
        _ => false,
    }
}

/// Every point of the shape is valid.
pub open spec fn points_valid_in(shape: Shape) -> bool {
    all_valid(shape.points())
}

/// The source positions of points.
fn points_to_positions(ps: &Vec<GeoPoint>) -> (r: Vec<Position>)
    ensures
        r@ == positions_of(ps@),
{
    let mut out: Vec<Position> = Vec::new();
    let mut i: usize = 0;
    while i < ps.len()
        invariant
            i <= ps.len(),
            out@.len() == i,
            forall|k: int| 0 <= k < i ==> out@[k] == position_of(ps@[k]),
        decreases ps.len() - i,
    {
        let p: GeoPoint = ps[i];
        out.push(Position::new(Some(p.lng), Some(p.lat)));
        i += 1;
    }
    assert(out@ =~= positions_of(ps@));
    out
}

/// The source positions of point lists.
fn lines_to_positions(ls: &Vec<Vec<GeoPoint>>) -> (r: Vec<Vec<Position>>)
    ensures
        r.deep_view() == position_lists_of(ls.deep_view()),
{
    let mut out: Vec<Vec<Position>> = Vec::new();
    let mut i: usize = 0;
    while i < ls.len()
        invariant
            i <= ls.len(),
            out@.len() == i,
            forall|k: int| 0 <= k < i ==> out@[k]@ == positions_of(ls@[k]@),
        decreases ls.len() - i,
    {
        out.push(points_to_positions(&ls[i]));
        i += 1;
    }
    proof {
        let want = position_lists_of(ls.deep_view());
        assert(out.deep_view().len() == want.len());
        assert forall|k: int| 0 <= k < want.len() implies out.deep_view()[k] == want[k] by {
            assert(ls.deep_view()[k] =~= ls@[k]@);
            assert(out.deep_view()[k] =~= out@[k]@);
        }
        assert(out.deep_view() =~= want);
    }
    out
}

/// The source positions of polygons.
fn polygons_to_positions(gs: &Vec<Vec<Vec<GeoPoint>>>) -> (r: Vec<Vec<Vec<Position>>>)
    ensures
        r.deep_view() == position_polygons_of(gs.deep_view()),
{
    let mut out: Vec<Vec<Vec<Position>>> = Vec::new();
    let mut i: usize = 0;
    while i < gs.len()
        invariant
            i <= gs.len(),
            out@.len() == i,
            forall|k: int|
                0 <= k < i ==> out@[k].deep_view() == position_lists_of(gs@[k].deep_view()),
        decreases gs.len() - i,
    {
        out.push(lines_to_positions(&gs[i]));
        i += 1;
    }
    proof {
        let want = position_polygons_of(gs.deep_view());
        assert(out.deep_view().len() == want.len());
        assert forall|k: int| 0 <= k < want.len() implies out.deep_view()[k] == want[k] by {
            assert(gs.deep_view()[k] == gs@[k].deep_view());
        }
        assert(out.deep_view() =~= want);
    }
    out
}

impl FeatureGeometry {
    /// The geometry in the form of a source: the same shape, each point as
    /// a position with its longitude as x and its latitude as y.
    pub fn to_geojson_geometry(&self) -> (g: Geometry)
        ensures
            source_of(&g, self@),
    {
        match self {
            FeatureGeometry::Point(p) => Geometry::Point(Position::new(Some(p.lng), Some(p.lat))),
            FeatureGeometry::LineString(ps) => Geometry::LineString(points_to_positions(ps)),
            FeatureGeometry::MultiPoint(ps) => Geometry::MultiPoint(points_to_positions(ps)),
            FeatureGeometry::Polygon(rings) => Geometry::Polygon(lines_to_positions(rings)),
            FeatureGeometry::MultiLineString(lines) => Geometry::MultiLineString(
                lines_to_positions(lines),
            ),
            FeatureGeometry::MultiPolygon(polygons) => Geometry::MultiPolygon(
                polygons_to_positions(polygons),
            ),
        }
    }
}

/// The points of all the lists are valid where the joined points are.
proof fn lemma_join_valid(parts: Seq<Seq<GeoPoint>>)
    requires
        all_valid(join(parts)),
    ensures
        forall|i: int| 0 <= i < parts.len() ==> all_valid(#[trigger] parts[i]),
    decreases parts.len(),
{
    if parts.len() > 0 {
        let init = parts.drop_last();
        let last = parts.last();
        let joined = join(parts);
        assert forall|k: int| 0 <= k < join(init).len() implies (#[trigger] join(init)[k]).spec_is_valid() by {
            assert(joined[k] == join(init)[k]);
        }
        lemma_join_valid(init);
        assert forall|k: int| 0 <= k < last.len() implies (#[trigger] last[k]).spec_is_valid() by {
            assert(joined[join(init).len() + k] == last[k]);
        }
        assert forall|i: int| 0 <= i < parts.len() implies all_valid(#[trigger] parts[i]) by {
            if i < parts.len() - 1 {
                assert(init[i] == parts[i]);
            }
        }
    }
}

/// The points of all the polygons are valid where the joined points are.
proof fn lemma_join_all_valid(polygons: Seq<Seq<Seq<GeoPoint>>>)
    requires
        all_valid(join_all(polygons)),
    ensures
        forall|i: int| 0 <= i < polygons.len() ==> all_valid(join(#[trigger] polygons[i])),
    decreases polygons.len(),
{
    if polygons.len() > 0 {
        let init = polygons.drop_last();
        let last = join(polygons.last());
        let joined = join_all(polygons);
        assert forall|k: int| 0 <= k < join_all(init).len() implies (#[trigger] join_all(init)[k]).spec_is_valid() by {
            assert(joined[k] == join_all(init)[k]);
        }
        lemma_join_all_valid(init);
        assert forall|k: int| 0 <= k < last.len() implies (#[trigger] last[k]).spec_is_valid() by {
            assert(joined[join_all(init).len() + k] == last[k]);
        }
        assert forall|i: int| 0 <= i < polygons.len() implies all_valid(join(#[trigger] polygons[i])) by {
            if i < polygons.len() - 1 {
                assert(init[i] == polygons[i]);
            }
        }
    }
}

/// The positions of valid points convert back to the points.
proof fn lemma_line_round_trip(ps: Seq<GeoPoint>)
    requires
        all_valid(ps),
    ensures
        line_of(positions_of(ps)) == Some(ps),
{
    let qs = positions_of(ps);
    assert forall|i: int| 0 <= i < qs.len() implies (#[trigger] point_of(qs[i])) == Some(ps[i]) by {
        assert(ps[i].spec_is_valid());
    }
    assert(line_of(qs).unwrap() =~= ps);
}

/// The positions of lists of valid points convert back to the lists.
proof fn lemma_lines_round_trip(ls: Seq<Seq<GeoPoint>>)
    requires
        forall|i: int| 0 <= i < ls.len() ==> all_valid(#[trigger] ls[i]),
    ensures
        lines_of(position_lists_of(ls)) == Some(ls),
{
    let qs = position_lists_of(ls);
    assert forall|i: int| 0 <= i < qs.len() implies (#[trigger] line_of(qs[i])) == Some(ls[i]) by {
        assert(all_valid(ls[i]));
        lemma_line_round_trip(ls[i]);
    }
    assert(lines_of(qs).unwrap() =~= ls);
}

/// A geometry in the form of a source converts back to itself where all
/// its points are valid.
pub proof fn lemma_source_round_trip(g: &Geometry, shape: Shape)
    requires
        source_of(g, shape),
        points_valid_in(shape),
    ensures
        converted(g) == Ok::<Shape, Failure>(shape),
{
    match shape {
        Shape::Point(p) => {
            assert(seq![p][0].spec_is_valid());
        },
        Shape::LineString(ps) => {
            lemma_line_round_trip(ps);
        },
        Shape::MultiPoint(ps) => {
            lemma_line_round_trip(ps);
        },
        Shape::Polygon(rings) => {
            lemma_join_valid(rings);
            lemma_lines_round_trip(rings);
        },
        Shape::MultiLineString(lines) => {
            lemma_join_valid(lines);
            lemma_lines_round_trip(lines);
        },
        Shape::MultiPolygon(polygons) => {
            lemma_join_all_valid(polygons);
            let qs = position_polygons_of(polygons);
            assert forall|i: int| 0 <= i < qs.len() implies (#[trigger] lines_of(qs[i])) == Some(
                polygons[i],
            ) by {
                assert(all_valid(join(polygons[i])));
                lemma_join_valid(polygons[i]);
                lemma_lines_round_trip(polygons[i]);
            }
            assert(polygons_of(qs).unwrap() =~= polygons);
        },
    }
}

/// The joined points of lists of valid points are valid.
proof fn lemma_valid_join(parts: Seq<Seq<GeoPoint>>)
    requires
        forall|i: int| 0 <= i < parts.len() ==> all_valid(#[trigger] parts[i]),
    ensures
        all_valid(join(parts)),
    decreases parts.len(),
{
    if parts.len() > 0 {
        let init = parts.drop_last();
        assert forall|i: int| 0 <= i < init.len() implies all_valid(#[trigger] init[i]) by {
            assert(init[i] == parts[i]);
        }
        lemma_valid_join(init);
        assert(all_valid(parts.last()));
        let joined = join(parts);
        assert forall|k: int| 0 <= k < joined.len() implies (#[trigger] joined[k]).spec_is_valid() by {
            if k < join(init).len() {
                assert(joined[k] == join(init)[k]);
            } else {
                assert(joined[k] == parts.last()[k - join(init).len()]);
            }
        }
    }
}

/// The joined points of polygons of valid points are valid.
proof fn lemma_valid_join_all(polygons: Seq<Seq<Seq<GeoPoint>>>)
    requires
        forall|i: int| 0 <= i < polygons.len() ==> all_valid(join(#[trigger] polygons[i])),
    ensures
        all_valid(join_all(polygons)),
    decreases polygons.len(),
{
    if polygons.len() > 0 {
        let init = polygons.drop_last();
        assert forall|i: int| 0 <= i < init.len() implies all_valid(join(#[trigger] init[i])) by {
            assert(init[i] == polygons[i]);
        }
        lemma_valid_join_all(init);
        let last = join(polygons.last());
        assert(all_valid(last));
        let joined = join_all(polygons);
        assert forall|k: int| 0 <= k < joined.len() implies (#[trigger] joined[k]).spec_is_valid() by {
            if k < join_all(init).len() {
                assert(joined[k] == join_all(init)[k]);
            } else {
                assert(joined[k] == last[k - join_all(init).len()]);
            }
        }
    }
}

/// The points of a converted list of positions are valid.
proof fn lemma_line_of_valid(ps: Seq<Position>)
    requires
        line_of(ps).is_some(),
    ensures
        all_valid(line_of(ps).unwrap()),
{
    let qs = line_of(ps).unwrap();
    assert forall|i: int| 0 <= i < qs.len() implies (#[trigger] qs[i]).spec_is_valid() by {
        assert(point_of(ps[i]).is_some());
    }
}

/// The points of converted lists of positions are valid.
proof fn lemma_lines_of_valid(ls: Seq<Seq<Position>>)
    requires
        lines_of(ls).is_some(),
    ensures
        all_valid(join(lines_of(ls).unwrap())),
{
    let qs = lines_of(ls).unwrap();
    assert forall|i: int| 0 <= i < qs.len() implies all_valid(#[trigger] qs[i]) by {
        assert(line_of(ls[i]).is_some());
        lemma_line_of_valid(ls[i]);
    }
    lemma_valid_join(qs);
}

/// A geometry that is accepted from a source has valid points only: what
/// the conversion lets through lies within the range of latitudes and
/// longitudes.
pub proof fn lemma_accepted_points_are_valid(g: &Geometry, shape: Shape)
    requires
        converted(g) == Ok::<Shape, Failure>(shape),
    ensures
        points_valid_in(shape),
{
    match g {
        Geometry::Point(p) => {
            assert(shape.points()[0].spec_is_valid());
        },
        Geometry::LineString(ps) => {
            lemma_line_of_valid(ps@);
        },
        Geometry::MultiPoint(ps) => {
            lemma_line_of_valid(ps@);
        },
        Geometry::Polygon(rings) => {
            lemma_lines_of_valid(rings.deep_view());
        },
        Geometry::MultiLineString(lines) => {
            lemma_lines_of_valid(lines.deep_view());
        },
        Geometry::MultiPolygon(polygons) => {
            let gs = polygons.deep_view();
            let qs = polygons_of(gs).unwrap();
            assert forall|i: int| 0 <= i < qs.len() implies all_valid(join(#[trigger] qs[i])) by {
                assert(lines_of(gs[i]).is_some());
                lemma_lines_of_valid(gs[i]);
            }
            lemma_valid_join_all(qs);
        },
        Geometry::GeometryCollection(_) => {},
    }
}

/// The bounds of a geometry hold every point of it, and each side of them
/// passes through one of its points where it has any.
pub proof fn lemma_bounds_enclose(shape: Shape)
    ensures
        forall|i: int|
            0 <= i < shape.points().len() ==> shape.bounds().spec_contains(
                (#[trigger] shape.points()[i]).lng,
                shape.points()[i].lat,
            ),
        shape.points().len() == 0 ==> shape.bounds() == no_bounds(),
        shape.points().len() > 0 ==> {
            &&& exists|i: int|
                0 <= i < shape.points().len() && (#[trigger] shape.points()[i]).lng
                    == shape.bounds().min_x
            &&& exists|i: int|
                0 <= i < shape.points().len() && (#[trigger] shape.points()[i]).lng
                    == shape.bounds().max_x
            &&& exists|i: int|
                0 <= i < shape.points().len() && (#[trigger] shape.points()[i]).lat
                    == shape.bounds().min_y
            &&& exists|i: int|
                0 <= i < shape.points().len() && (#[trigger] shape.points()[i]).lat
                    == shape.bounds().max_y
        },
{
    let ps = shape.points();
    lemma_cover_encloses(no_bounds(), ps);
    if ps.len() > 0 {
        let b = shape.bounds();
        assert(b.spec_contains(ps[0].lng, ps[0].lat));
    }
}

} // verus!
