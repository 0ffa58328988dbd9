//! Geometry from simple-feature nodes, kind by kind.
//!
//! A matrix node gives positions, a list of matrices gives the rings of a
//! polygon or the lines of a multi-line-string, and a list of such lists gives
//! a multi-polygon. Each function states what it returns on the view of its
//! node, and which error it returns instead.
use crate::error::{Error, NodeKind, ShapeError};
use crate::geometry::{
    rings_view, Coord, Geom, Geometry, GeometryView, LineString, MultiLineString, MultiPoint,
    MultiPolygon, Point, Polygon, PolygonView,
};
use crate::handle::{Handle, HandleView};
use crate::node::{lemma_items_view, ListNode, MatrixNode, MatrixView, Node, NodeView};
use crate::tags::Kind;
use vstd::prelude::*;

verus! {

/// The offset of row `i`, column `j` in a column-major buffer of `nrow` rows.
pub open spec fn spec_to_index(i: int, j: int, nrow: int) -> int {
    j * nrow + i
}

/// How the matrix departs from `r` rows of two columns, if it does. The
/// extents are tested first, then the columns, then the buffer's length.
pub open spec fn spec_matrix_shape<T>(m: MatrixView<T>) -> Option<ShapeError> {
    if m.dim.len() != 2 {
        Some(ShapeError::Dimensions { expected: 2, found: m.dim.len() as usize })
    } else if m.dim[1] != 2 {
        Some(ShapeError::Columns { expected: 2, found: m.dim[1] })
    } else if m.data.len() != 2 * m.dim[0] {
        Some(ShapeError::Buffer { rows: m.dim[0], found: m.data.len() as usize })
    } else {
        None
    }
}

/// The positions of a well-shaped matrix: row `i` gives the position whose x is
/// in column 0 and whose y is in column 1.
pub open spec fn spec_coords<T>(m: MatrixView<T>) -> Seq<Coord<T>> {
    Seq::new(
        m.dim[0] as nat,
        |i: int|
            Coord {
                x: m.data[spec_to_index(i, 0, m.dim[0] as int)],
                y: m.data[spec_to_index(i, 1, m.dim[0] as int)],
            },
    )
}

/// What a matrix node decodes to.
pub open spec fn spec_matrix_to_coords<T>(m: MatrixView<T>) -> Result<Seq<Coord<T>>, Error> {
    match spec_matrix_shape(m) {
        Some(e) => Err(Error::Shape(e)),
        None => Ok(spec_coords(m)),
    }
}

/// The results in order, or the first error among them.
pub open spec fn spec_collect<X>(rs: Seq<Result<X, Error>>) -> Result<Seq<X>, Error>
    decreases rs.len(),
{
    if rs.len() == 0 {
        Ok(Seq::empty())
    } else {
        match spec_collect(rs.drop_last()) {
            Err(e) => Err(e),
            Ok(xs) => match rs.last() {
                Err(e) => Err(e),
                Ok(x) => Ok(xs.push(x)),
            },
        }
    }
}

/// What a node decodes to where a ring or a line is needed: it must be a matrix.
pub open spec fn spec_ring<T>(n: NodeView<T>) -> Result<Seq<Coord<T>>, Error> {
    match n {
        NodeView::Matrix(m) => spec_matrix_to_coords(m),
        _ => Err(Error::spec_wrong_node(NodeKind::Matrix, n.kind())),
    }
}

/// What the items of a list decode to, each as a ring or a line.
pub open spec fn spec_rings<T>(items: Seq<NodeView<T>>) -> Result<Seq<Seq<Coord<T>>>, Error> {
    spec_collect(items.map_values(|n: NodeView<T>| spec_ring(n)))
}

/// What the items of a list decode to as the rings of one polygon: the first is
/// the exterior, the others are the interiors in their order. With no item
/// there is no exterior.
pub open spec fn spec_polygon<T>(items: Seq<NodeView<T>>) -> Result<PolygonView<T>, Error> {
    if items.len() == 0 {
        Err(Error::EmptyRings)
    } else {
        match spec_rings(items) {
            Err(e) => Err(e),
            Ok(rings) => Ok(
                PolygonView {
                    exterior: rings[0],
                    interiors: rings.subrange(1, rings.len() as int),
                },
            ),
        }
    }
}

/// What a node decodes to where a polygon is needed: it must be a list.
pub open spec fn spec_polygon_node<T>(n: NodeView<T>) -> Result<PolygonView<T>, Error> {
    match n {
        NodeView::List(l) => spec_polygon(l.items),
        _ => Err(Error::spec_wrong_node(NodeKind::List, n.kind())),
    }
}

/// What the items of a list decode to, each as a polygon.
pub open spec fn spec_polygons<T>(items: Seq<NodeView<T>>) -> Result<Seq<PolygonView<T>>, Error> {
    spec_collect(items.map_values(|n: NodeView<T>| spec_polygon_node(n)))
}

/// The handle of a geometry of one of the six kinds.
pub open spec fn spec_handle<T>(kind: Kind, geom: GeometryView<T>) -> HandleView<T> {
    HandleView { class: kind.spec_handle_class(), geom }
}

/// An error in a prefix is the error of the whole.
pub proof fn lemma_collect_prefix_err<X>(rs: Seq<Result<X, Error>>, k: int)
    requires
        0 <= k <= rs.len(),
        spec_collect(rs.take(k)) is Err,
    ensures
        spec_collect(rs) == spec_collect(rs.take(k)),
    decreases rs.len() - k,
{
    if k == rs.len() {
        assert(rs.take(k) =~= rs);
    } else {
        assert(rs.take(k + 1).drop_last() =~= rs.take(k));
        lemma_collect_prefix_err(rs, k + 1);
    }
}

/// One more result after a prefix without error.
pub proof fn lemma_collect_step<X>(rs: Seq<Result<X, Error>>, k: int)
    requires
        0 <= k < rs.len(),
        spec_collect(rs.take(k)) is Ok,
    ensures
        spec_collect(rs.take(k + 1)) == match rs[k] {
            Err(e) => Err::<Seq<X>, Error>(e),
            Ok(x) => Ok(spec_collect(rs.take(k))->Ok_0.push(x)),
        },
{
    assert(rs.take(k + 1).drop_last() =~= rs.take(k));
}

/// `spec_collect` in other words: it is `Ok` exactly where every result is, and
/// then holds each value at its place; else it is the error at the first place
/// that has one.
pub proof fn lemma_collect<X>(rs: Seq<Result<X, Error>>)
    ensures
        match spec_collect(rs) {
            Ok(xs) => {
                &&& xs.len() == rs.len()
                &&& forall|i: int| 0 <= i < rs.len() ==> #[trigger] rs[i] == Ok::<X, Error>(xs[i])
            },
            Err(e) => exists|i: int|
                {
                    &&& 0 <= i < rs.len()
                    &&& #[trigger] rs[i] == Err::<X, Error>(e)
                    &&& forall|j: int| 0 <= j < i ==> #[trigger] rs[j] is Ok
                },
        },
    decreases rs.len(),
{
    if rs.len() > 0 {
        let front = rs.drop_last();
        lemma_collect(front);
        match spec_collect(front) {
            Err(e) => {
                let i = choose|i: int|
                    {
                        &&& 0 <= i < front.len()
                        &&& #[trigger] front[i] == Err::<X, Error>(e)
                        &&& forall|j: int| 0 <= j < i ==> #[trigger] front[j] is Ok
                    };
                assert(rs[i] == front[i]);
                assert forall|j: int| 0 <= j < i implies #[trigger] rs[j] is Ok by {
                    assert(front[j] is Ok);
                }
            },
            Ok(xs) => {
                assert forall|j: int| 0 <= j < front.len() implies #[trigger] rs[j] is Ok by {
                    assert(front[j] == Ok::<X, Error>(xs[j]));
                }
                match rs.last() {
                    Err(e) => {
                        assert(rs[rs.len() - 1] == Err::<X, Error>(e));
                    },
                    Ok(x) => {
                        assert forall|i: int| 0 <= i < rs.len() implies #[trigger] rs[i] == Ok::<
                            X,
                            Error,
                        >(xs.push(x)[i]) by {
                            if i < front.len() {
                                assert(front[i] == Ok::<X, Error>(xs[i]));
                            }
                        }
                    },
                }
            },
        }
    }
}

/// The offset of row `i`, column `j` in a column-major buffer of `nrow` rows:
/// the columns lie one after the other, so column `j` begins at `j * nrow`.
pub fn to_index(i: usize, j: usize, nrow: usize) -> (k: usize)
    requires
        j * nrow + i <= usize::MAX,
    ensures
        k == spec_to_index(i as int, j as int, nrow as int),
{
    assert(j * nrow <= j * nrow + i);
    j * nrow + i
}

/// The number of rows of a matrix node, once its shape is found good.
fn matrix_rows<T>(x: &MatrixNode<T>) -> (r: Result<usize, Error>)
    ensures
        match spec_matrix_shape(x@) {
            Some(e) => r == Err::<usize, Error>(Error::Shape(e)),
            None => r == Ok::<usize, Error>(x@.dim[0]),
        },
{
    if x.dim.len() != 2 {
        return Err(Error::Shape(ShapeError::Dimensions { expected: 2, found: x.dim.len() }));
    }
    let nrow: usize = x.dim[0];
    let ncol: usize = x.dim[1];
    if ncol != 2 {
        return Err(Error::Shape(ShapeError::Columns { expected: 2, found: ncol }));
    }
    if x.data.len() % 2 != 0 || x.data.len() / 2 != nrow {
        return Err(Error::Shape(ShapeError::Buffer { rows: nrow, found: x.data.len() }));
    }
    Ok(nrow)
}

/// The positions that a matrix node holds, row by row.
///
/// The node must declare two extents, the second of them 2, and hold two
/// values for each row; else the error says which of these fails. Nothing is
/// asked of the positions themselves.
pub fn matrix_to_coords<T: Copy>(x: &MatrixNode<T>) -> (r: Result<Vec<Coord<T>>, Error>)
    ensures
        match spec_matrix_to_coords(x@) {
            Ok(s) => r matches Ok(v) && v@ == s,
            Err(e) => r matches Err(f) && f == e,
        },
{
    let nrow: usize = match matrix_rows(x) {
        Ok(n) => n,
        Err(e) => {
            return Err(e);
        },
    };
    let mut coords: Vec<Coord<T>> = Vec::with_capacity(nrow);
    let mut i: usize = 0;
    while i < nrow
        invariant
            spec_matrix_shape(x@) is None,
            nrow == x@.dim[0],
            x.data.len() == 2 * nrow,
            0 <= i <= nrow,
            coords@.len() == i,
            forall|k: int| 0 <= k < i ==> coords@[k] == spec_coords(x@)[k],
        decreases nrow - i,
    {
        let crd = Coord { x: x.data[to_index(i, 0, nrow)], y: x.data[to_index(i, 1, nrow)] };
        coords.push(crd);
        i += 1;
    }
    assert(coords@ =~= spec_coords(x@));
    Ok(coords)
}

/// The points that a matrix node holds, row by row: as `matrix_to_coords`, each
/// position as a point.
pub fn matrix_to_points<T: Copy>(x: &MatrixNode<T>) -> (r: Result<Vec<Point<T>>, Error>)
    ensures
        match spec_matrix_to_coords(x@) {
            Ok(s) => r matches Ok(v) && v@.map_values(|p: Point<T>| p.0) == s,
            Err(e) => r matches Err(f) && f == e,
        },
{
    let nrow: usize = match matrix_rows(x) {
        Ok(n) => n,
        Err(e) => {
            return Err(e);
        },
    };
    let mut points: Vec<Point<T>> = Vec::with_capacity(nrow);
    let mut i: usize = 0;
    while i < nrow
        invariant
            spec_matrix_shape(x@) is None,
            nrow == x@.dim[0],
            x.data.len() == 2 * nrow,
            0 <= i <= nrow,
            points@.len() == i,
            forall|k: int| 0 <= k < i ==> points@[k].0 == spec_coords(x@)[k],
        decreases nrow - i,
    {
        let pnt = Point::new(x.data[to_index(i, 0, nrow)], x.data[to_index(i, 1, nrow)]);
        points.push(pnt);
        i += 1;
    }
    assert(points@.map_values(|p: Point<T>| p.0) =~= spec_coords(x@));
    Ok(points)
}

/// The line strings that the items of a list hold, each item a matrix node.
fn line_strings<T: Copy>(items: &Vec<Node<T>>) -> (r: Result<Vec<LineString<T>>, Error>)
    ensures
        match spec_rings(crate::node::items_view(items@)) {
            Ok(s) => r matches Ok(v) && rings_view(v@) == s,
            Err(e) => r matches Err(f) && f == e,
        },
{
    let ghost rs = crate::node::items_view(items@).map_values(|n: NodeView<T>| spec_ring(n));
    let mut lines: Vec<LineString<T>> = Vec::with_capacity(items.len());
    let mut i: usize = 0;
    proof {
        lemma_items_view(items@);
        assert(rs.take(0) =~= Seq::empty());
        assert(rings_view(lines@) =~= Seq::empty());
    }
    while i < items.len()
        invariant
            rs == crate::node::items_view(items@).map_values(|n: NodeView<T>| spec_ring(n)),
            rs.len() == items@.len(),
            0 <= i <= items@.len(),
            spec_collect(rs.take(i as int)) == Ok::<Seq<Seq<Coord<T>>>, Error>(rings_view(lines@)),
        decreases items@.len() - i,
    {
        proof {
            lemma_items_view(items@);
            lemma_collect_step(rs, i as int);
            assert(rs[i as int] == spec_ring(items@[i as int]@));
        }
        let coords = match &items[i] {
            Node::Matrix(m) => matrix_to_coords(m),
            other => Err(Error::wrong_node(NodeKind::Matrix, other.kind())),
        };
        match coords {
            Ok(c) => {
                let ghost before = rings_view(lines@);
                lines.push(LineString::new(c));
                assert(rings_view(lines@) =~= before.push(c@));
            },
            Err(e) => {
                proof {
                    lemma_collect_prefix_err(rs, i + 1);
                }
                return Err(e);
            },
        }
        i += 1;
    }
    assert(rs.take(i as int) =~= rs);
    Ok(lines)
}

/// The polygon whose rings the items of a list hold: the first item is the
/// exterior, the others are the interiors in their order. A list without items
/// has no exterior and gives `Error::EmptyRings`.
pub(crate) fn polygon_inner<T: Copy>(x: &ListNode<T>) -> (r: Result<Polygon<T>, Error>)
    ensures
        match spec_polygon(x@.items) {
            Ok(p) => r matches Ok(v) && v@ == p,
            Err(e) => r matches Err(f) && f == e,
        },
{
    if x.items.len() == 0 {
        return Err(Error::EmptyRings);
    }
    let mut rings = match line_strings(&x.items) {
        Ok(rings) => rings,
        Err(e) => {
            return Err(e);
        },
    };
    proof {
        lemma_collect(crate::node::items_view(x.items@).map_values(|n: NodeView<T>| spec_ring(n)));
    }
    let ghost all = rings_view(rings@);
    let exterior = rings.remove(0);
    assert(rings_view(rings@) =~= all.subrange(1, all.len() as int));
    Ok(Polygon::new(exterior, rings))
}

/// The handle of a geometry of kind `kind`.
fn handle_of<T>(kind: Kind, geom: Geometry<T>) -> (h: Handle<T>)
    ensures
        h@ == spec_handle(kind, geom@),
{
    Handle { class: kind.handle_class(), geom: Geom { geom } }
}

/// A single point from an x and a y.
pub fn geom_point<T>(x: T, y: T) -> (h: Handle<T>)
    ensures
        h@ == spec_handle(Kind::Point, GeometryView::Point(Coord { x, y })),
{
    handle_of(Kind::Point, Geometry::Point(Point::new(x, y)))
}

/// A multi-point from a two-column matrix: one point for each row.
pub fn geom_multipoint<T: Copy>(x: &MatrixNode<T>) -> (r: Result<Handle<T>, Error>)
    ensures
        match spec_matrix_to_coords(x@) {
            Ok(s) => r matches Ok(h) && h@ == spec_handle(
                Kind::MultiPoint,
                GeometryView::MultiPoint(s),
            ),
            Err(e) => r matches Err(f) && f == e,
        },
{
    match matrix_to_points(x) {
        Ok(points) => Ok(
            handle_of(Kind::MultiPoint, Geometry::MultiPoint(MultiPoint::new(points))),
        ),
        Err(e) => Err(e),
    }
}

/// A line string from a two-column matrix: the rows are its positions, in order.
pub fn geom_linestring<T: Copy>(x: &MatrixNode<T>) -> (r: Result<Handle<T>, Error>)
    ensures
        match spec_matrix_to_coords(x@) {
            Ok(s) => r matches Ok(h) && h@ == spec_handle(
                Kind::LineString,
                GeometryView::LineString(s),
            ),
            Err(e) => r matches Err(f) && f == e,
        },
{
    match matrix_to_coords(x) {
        Ok(coords) => Ok(
            handle_of(Kind::LineString, Geometry::LineString(LineString::new(coords))),
        ),
        Err(e) => Err(e),
    }
}

/// A multi-line-string from a list of two-column matrices: one line for each
/// item, in order. The first item that is not such a matrix gives the error.
pub fn geom_multilinestring<T: Copy>(x: &ListNode<T>) -> (r: Result<Handle<T>, Error>)
    ensures
        match spec_rings(x@.items) {
            Ok(s) => r matches Ok(h) && h@ == spec_handle(
                Kind::MultiLineString,
                GeometryView::MultiLineString(s),
            ),
            Err(e) => r matches Err(f) && f == e,
        },
{
    match line_strings(&x.items) {
        Ok(lines) => Ok(
            handle_of(
                Kind::MultiLineString,
                Geometry::MultiLineString(MultiLineString::new(lines)),
            ),
        ),
        Err(e) => Err(e),
    }
}

/// A polygon from a list of two-column matrices: the first is the exterior
/// ring, the others are the interior rings in their order. An empty list gives
/// `Error::EmptyRings`; else the first item that is not such a matrix gives the
/// error.
pub fn geom_polygon<T: Copy>(x: &ListNode<T>) -> (r: Result<Handle<T>, Error>)
    ensures
        match spec_polygon(x@.items) {
            Ok(p) => r matches Ok(h) && h@ == spec_handle(Kind::Polygon, GeometryView::Polygon(p)),
            Err(e) => r matches Err(f) && f == e,
        },
        x@.items.len() == 0 ==> r == Err::<Handle<T>, Error>(Error::EmptyRings),
{
    match polygon_inner(x) {
        Ok(polygon) => Ok(handle_of(Kind::Polygon, Geometry::Polygon(polygon))),
        Err(e) => Err(e),
    }
}

/// A multi-polygon from a list of lists of two-column matrices: one polygon
/// for each item, in order, each read as `geom_polygon` reads it. The first
/// item that fails gives the error.
pub fn geom_multipolygon<T: Copy>(x: &ListNode<T>) -> (r: Result<Handle<T>, Error>)
    ensures
        match spec_polygons(x@.items) {
            Ok(s) => r matches Ok(h) && h@ == spec_handle(
                Kind::MultiPolygon,
                GeometryView::MultiPolygon(s),
            ),
            Err(e) => r matches Err(f) && f == e,
        },
{
    let ghost rs = x@.items.map_values(|n: NodeView<T>| spec_polygon_node(n));
    let mut polygons: Vec<Polygon<T>> = Vec::with_capacity(x.items.len());
    let mut i: usize = 0;
    proof {
        lemma_items_view(x.items@);
        assert(rs.take(0) =~= Seq::empty());
        assert(polygons@.map_values(|p: Polygon<T>| p@) =~= Seq::empty());
    }
    while i < x.items.len()
        invariant
            rs == x@.items.map_values(|n: NodeView<T>| spec_polygon_node(n)),
            rs.len() == x.items@.len(),
            0 <= i <= x.items@.len(),
            spec_collect(rs.take(i as int)) == Ok::<Seq<PolygonView<T>>, Error>(
                polygons@.map_values(|p: Polygon<T>| p@),
            ),
        decreases x.items@.len() - i,
    {
        proof {
            lemma_items_view(x.items@);
            lemma_collect_step(rs, i as int);
            assert(rs[i as int] == spec_polygon_node(x.items@[i as int]@));
        }
        let polygon = match &x.items[i] {
            Node::List(l) => polygon_inner(l),
            other => Err(Error::wrong_node(NodeKind::List, other.kind())),
        };
        match polygon {
            Ok(p) => {
                let ghost before = polygons@.map_values(|p: Polygon<T>| p@);
                polygons.push(p);
                assert(polygons@.map_values(|p: Polygon<T>| p@) =~= before.push(p@));
            },
            Err(e) => {
                proof {
                    lemma_collect_prefix_err(rs, i + 1);
                }
                return Err(e);
            },
        }
        i += 1;
    }
    assert(rs.take(i as int) =~= rs);
    Ok(handle_of(Kind::MultiPolygon, Geometry::MultiPolygon(MultiPolygon::new(polygons))))
}

} // verus!
