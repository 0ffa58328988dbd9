//! The typed geometry model.
//!
//! Each collection type has a view that gives its contents as sequences, in
//! their order; the contracts of the conversions are stated over these views.
use vstd::prelude::*;

verus! {

/// A position: an x and a y.
#[derive(Clone, Copy, Debug, PartialEq)]
pub struct Coord<T> {
    pub x: T,
    pub y: T,
}

/// A position that stands as a geometry of its own.
#[derive(Clone, Copy, Debug, PartialEq)]
pub struct Point<T>(pub Coord<T>);

/// Positions joined into a path, in their order.
#[derive(Clone, Debug, PartialEq)]
pub struct LineString<T>(pub Vec<Coord<T>>);

#[derive(Clone, Debug, PartialEq)]
pub struct MultiPoint<T>(pub Vec<Point<T>>);

#[derive(Clone, Debug, PartialEq)]
pub struct MultiLineString<T>(pub Vec<LineString<T>>);

/// An exterior ring and the rings of its holes.
#[derive(Clone, Debug, PartialEq)]
pub struct Polygon<T> {
    pub exterior: LineString<T>,
    pub interiors: Vec<LineString<T>>,
}

#[derive(Clone, Debug, PartialEq)]
pub struct MultiPolygon<T>(pub Vec<Polygon<T>>);

/// The kinds of geometry that have no simple-feature form here. A geometry of
/// such a kind is carried by its kind alone.
#[derive(Clone, Copy, Debug, PartialEq, Eq)]
pub enum OtherKind {
    Line,
    Rect,
    Triangle,
    GeometryCollection,
}

#[derive(Clone, Debug, PartialEq)]
pub enum Geometry<T> {
    Point(Point<T>),
    MultiPoint(MultiPoint<T>),
    LineString(LineString<T>),
    MultiLineString(MultiLineString<T>),
    Polygon(Polygon<T>),
    MultiPolygon(MultiPolygon<T>),
    Other(OtherKind),
}

/// A geometry as the conversions hand it over.
#[derive(Clone, Debug, PartialEq)]
pub struct Geom<T> {
    pub geom: Geometry<T>,
}

pub ghost struct PolygonView<T> {
    pub exterior: Seq<Coord<T>>,
    pub interiors: Seq<Seq<Coord<T>>>,
}

pub ghost enum GeometryView<T> {
    Point(Coord<T>),
    MultiPoint(Seq<Coord<T>>),
    LineString(Seq<Coord<T>>),
    MultiLineString(Seq<Seq<Coord<T>>>),
    Polygon(PolygonView<T>),
    MultiPolygon(Seq<PolygonView<T>>),
    Other(OtherKind),
}

impl<T> View for LineString<T> {
    type V = Seq<Coord<T>>;

    open spec fn view(&self) -> Seq<Coord<T>> {
        self.0@
    }
}

impl<T> View for MultiPoint<T> {
    type V = Seq<Coord<T>>;

    open spec fn view(&self) -> Seq<Coord<T>> {
        self.0@.map_values(|p: Point<T>| p.0)
    }
}

impl<T> View for MultiLineString<T> {
    type V = Seq<Seq<Coord<T>>>;

    open spec fn view(&self) -> Seq<Seq<Coord<T>>> {
        rings_view(self.0@)
    }
}

impl<T> View for Polygon<T> {
    type V = PolygonView<T>;

    open spec fn view(&self) -> PolygonView<T> {
        PolygonView { exterior: self.exterior@, interiors: rings_view(self.interiors@) }
    }
}

impl<T> View for MultiPolygon<T> {
    type V = Seq<PolygonView<T>>;

    open spec fn view(&self) -> Seq<PolygonView<T>> {
        self.0@.map_values(|p: Polygon<T>| p@)
    }
}

impl<T> View for Geometry<T> {
    type V = GeometryView<T>;

    open spec fn view(&self) -> GeometryView<T> {
        match self {
            Geometry::Point(p) => GeometryView::Point(p.0),
            Geometry::MultiPoint(p) => GeometryView::MultiPoint(p@),
            Geometry::LineString(l) => GeometryView::LineString(l@),
            Geometry::MultiLineString(l) => GeometryView::MultiLineString(l@),
            Geometry::Polygon(p) => GeometryView::Polygon(p@),
            Geometry::MultiPolygon(p) => GeometryView::MultiPolygon(p@),
            Geometry::Other(k) => GeometryView::Other(*k),
        }
    }
}

impl<T> View for Geom<T> {
    type V = GeometryView<T>;

    open spec fn view(&self) -> GeometryView<T> {
        self.geom@
    }
}

/// The contents of each line string of `lines`, in order.
pub open spec fn rings_view<T>(lines: Seq<LineString<T>>) -> Seq<Seq<Coord<T>>> {
    lines.map_values(|l: LineString<T>| l@)
}

impl<T> Point<T> {
    pub fn new(x: T, y: T) -> (p: Point<T>)
        ensures
            p == Point(Coord { x, y }),
    {
        Point(Coord { x, y })
    }
}

impl<T: Copy> Point<T> {
    pub fn x(&self) -> (x: T)
        ensures
            x == self.0.x,
    {
        self.0.x
    }

    pub fn y(&self) -> (y: T)
        ensures
            y == self.0.y,
    {
        self.0.y
    }
}

impl<T> LineString<T> {
    pub fn new(coords: Vec<Coord<T>>) -> (l: LineString<T>)
        ensures
            l@ == coords@,
    {
        LineString(coords)
    }
}

impl<T> MultiPoint<T> {
    pub fn new(points: Vec<Point<T>>) -> (m: MultiPoint<T>)
        ensures
            m.0 == points,
    {
        MultiPoint(points)
    }
}

impl<T> MultiLineString<T> {
    pub fn new(lines: Vec<LineString<T>>) -> (m: MultiLineString<T>)
        ensures
            m.0 == lines,
    {
        MultiLineString(lines)
    }
}

impl<T> Polygon<T> {
    /// The polygon of these rings, as they are: no ring is closed or reordered.
    pub fn new(exterior: LineString<T>, interiors: Vec<LineString<T>>) -> (p: Polygon<T>)
        ensures
            p.exterior == exterior,
            p.interiors == interiors,
    {
        Polygon { exterior, interiors }
    }

    pub fn exterior(&self) -> (l: &LineString<T>)
        ensures
            *l == self.exterior,
    {
        &self.exterior
    }

    pub fn interiors(&self) -> (l: &Vec<LineString<T>>)
        ensures
            *l == self.interiors,
    {
        &self.interiors
    }
}

impl<T> MultiPolygon<T> {
    pub fn new(polygons: Vec<Polygon<T>>) -> (m: MultiPolygon<T>)
        ensures
            m.0 == polygons,
    {
        MultiPolygon(polygons)
    }
}

} // verus!
