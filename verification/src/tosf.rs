//! From geometry to simple-feature nodes.
//!
//! Each of the six kinds is written as the node that reads back as the same
//! geometry: positions as a two-column matrix in column-major order, rings,
//! lines and polygons as lists in their order. A geometry of another kind has
//! no such form and is written as the null node.
use crate::constructors::spec_to_index;
use crate::fromsf::geoms_view;
use crate::geometry::{
    rings_view, Coord, Geom, Geometry, GeometryView, LineString, MultiLineString, MultiPoint,
    MultiPolygon, OtherKind, Point, Polygon, PolygonView,
};
use crate::node::{
    class_view, items_view, lemma_items_view, ListNode, ListView, MatrixNode, MatrixView, Node,
    NodeView,
};
use crate::tags::Kind;
use crate::vctrs::{classify, spec_classify};
use vstd::prelude::*;

verus! {

/// The buffer of the matrix of these positions: every x, then every y.
pub open spec fn spec_matrix_data<T>(coords: Seq<Coord<T>>) -> Seq<T> {
    Seq::new(
        2 * coords.len(),
        |k: int|
            if k < coords.len() {
                coords[k].x
            } else {
                coords[k - coords.len()].y
            },
    )
}

/// The matrix node of the kind `kind` that holds these positions, one to a row.
pub open spec fn spec_matrix_node<T>(kind: Kind, coords: Seq<Coord<T>>) -> NodeView<T> {
    NodeView::Matrix(
        MatrixView {
            class: kind.spec_sfg_class(),
            dim: seq![coords.len() as usize, 2usize],
            data: spec_matrix_data(coords),
        },
    )
}

/// The list node of the kind `kind` with these items.
pub open spec fn spec_list_node<T>(kind: Kind, items: Seq<NodeView<T>>) -> NodeView<T> {
    NodeView::List(ListView { class: kind.spec_sfg_class(), items })
}

/// The nodes of these lines, each a line-string matrix, in order.
pub open spec fn spec_line_nodes<T>(lines: Seq<Seq<Coord<T>>>) -> Seq<NodeView<T>> {
    lines.map_values(|l: Seq<Coord<T>>| spec_matrix_node(Kind::LineString, l))
}

/// The node of a polygon: the exterior ring first, then the interior rings in
/// their order.
pub open spec fn spec_polygon_to_sfg<T>(p: PolygonView<T>) -> NodeView<T> {
    spec_list_node(
        Kind::Polygon,
        seq![spec_matrix_node(Kind::LineString, p.exterior)] + spec_line_nodes(p.interiors),
    )
}

/// The node of a geometry.
pub open spec fn spec_to_sfg<T>(g: GeometryView<T>) -> NodeView<T> {
    match g {
        GeometryView::Point(c) => spec_matrix_node(Kind::Point, seq![c]),
        GeometryView::MultiPoint(s) => spec_matrix_node(Kind::MultiPoint, s),
        GeometryView::LineString(s) => spec_matrix_node(Kind::LineString, s),
        GeometryView::MultiLineString(s) => spec_list_node(
            Kind::MultiLineString,
            spec_line_nodes(s),
        ),
        GeometryView::Polygon(p) => spec_polygon_to_sfg(p),
        GeometryView::MultiPolygon(s) => spec_list_node(
            Kind::MultiPolygon,
            s.map_values(|p: PolygonView<T>| spec_polygon_to_sfg(p)),
        ),
        GeometryView::Other(_) => NodeView::Null,
    }
}

/// The node of an element of a vector: a missing geometry is the null node.
pub open spec fn spec_element_to_sfg<T>(g: Option<GeometryView<T>>) -> NodeView<T> {
    match g {
        Some(g) => spec_to_sfg(g),
        None => NodeView::Null,
    }
}

/// The tag of the kind of a geometry, in upper case.
pub open spec fn spec_geometry_tag<T>(g: GeometryView<T>) -> Seq<char> {
    match g {
        GeometryView::Point(_) => "POINT"@,
        GeometryView::MultiPoint(_) => "MULTIPOINT"@,
        GeometryView::LineString(_) => "LINESTRING"@,
        GeometryView::MultiLineString(_) => "MULTILINESTRING"@,
        GeometryView::Polygon(_) => "POLYGON"@,
        GeometryView::MultiPolygon(_) => "MULTIPOLYGON"@,
        GeometryView::Other(OtherKind::Line) => "LINE"@,
        GeometryView::Other(OtherKind::Rect) => "RECT"@,
        GeometryView::Other(OtherKind::Triangle) => "TRIANGLE"@,
        GeometryView::Other(OtherKind::GeometryCollection) => "GEOMETRYCOLLECTION"@,
    }
}

/// The class of a vector of geometries.
pub open spec fn spec_sfc_class<T>(geoms: Seq<Option<GeometryView<T>>>) -> Seq<char> {
    spec_classify(
        geoms.map_values(
            |g: Option<GeometryView<T>>|
                match g {
                    Some(g) => Some(spec_geometry_tag(g)),
                    None => None,
                },
        ),
        ""@,
        "GEOMETRYCOLLECTION"@,
    )
}

/// The x and the y of a position.
fn from_coord<T>(x: Coord<T>) -> (r: [T; 2])
    ensures
        r@ == seq![x.x, x.y],
{
    let r = [x.x, x.y];
    assert(r@ =~= seq![x.x, x.y]);
    r
}

/// The buffer of a matrix of `nrows` rows and `ncols` columns in column-major
/// order, whose value in row `i`, column `j` is what `f` gives for them.
fn new_matrix<T, F: Fn(usize, usize) -> T>(nrows: usize, ncols: usize, f: F) -> (out: Vec<T>)
    requires
        forall|i: usize, j: usize| i < nrows && j < ncols ==> call_requires(f, (i, j)),
    ensures
        out@.len() == nrows * ncols,
        forall|i: usize, j: usize|
            i < nrows && j < ncols ==> call_ensures(
                f,
                (i, j),
                #[trigger] out@[spec_to_index(i as int, j as int, nrows as int)],
            ),
{
    let mut out: Vec<T> = Vec::new();
    let mut j: usize = 0;
    while j < ncols
        invariant
            forall|i: usize, j: usize| i < nrows && j < ncols ==> call_requires(f, (i, j)),
            0 <= j <= ncols,
            out@.len() == j * nrows,
            forall|a: usize, b: usize|
                a < nrows && b < j ==> call_ensures(
                    f,
                    (a, b),
                    #[trigger] out@[spec_to_index(a as int, b as int, nrows as int)],
                ),
        decreases ncols - j,
    {
        let mut i: usize = 0;
        while i < nrows
            invariant
                forall|i: usize, j: usize| i < nrows && j < ncols ==> call_requires(f, (i, j)),
                0 <= j < ncols,
                0 <= i <= nrows,
                out@.len() == j * nrows + i,
                forall|a: usize, b: usize|
                    a < nrows && b < j ==> call_ensures(
                        f,
                        (a, b),
                        #[trigger] out@[spec_to_index(a as int, b as int, nrows as int)],
                    ),
                forall|a: usize|
                    a < i ==> call_ensures(
                        f,
                        (a, j),
                        #[trigger] out@[spec_to_index(a as int, j as int, nrows as int)],
                    ),
            decreases nrows - i,
        {
            let ghost before = out@;
            let v = f(i, j);
            out.push(v);
            proof {
                assert forall|a: usize, b: usize| a < nrows && b < j implies call_ensures(
                    f,
                    (a, b),
                    #[trigger] out@[spec_to_index(a as int, b as int, nrows as int)],
                ) by {
                    lemma_index_bound(a as int, b as int, nrows as int, j as int);
                    assert(out@[spec_to_index(a as int, b as int, nrows as int)]
                        == before[spec_to_index(a as int, b as int, nrows as int)]);
                }
                assert forall|a: usize| a < i + 1 implies call_ensures(
                    f,
                    (a, j),
                    #[trigger] out@[spec_to_index(a as int, j as int, nrows as int)],
                ) by {
                    if a < i {
                        assert(out@[spec_to_index(a as int, j as int, nrows as int)]
                            == before[spec_to_index(a as int, j as int, nrows as int)]);
                    }
                }
            }
            i += 1;
        }
        proof {
            assert((j + 1) * nrows == j * nrows + nrows) by (nonlinear_arith);
            assert forall|a: usize, b: usize| a < nrows && b < j + 1 implies call_ensures(
                f,
                (a, b),
                #[trigger] out@[spec_to_index(a as int, b as int, nrows as int)],
            ) by {
                if b < j {
                } else {
                    assert(b == j);
                }
            }
        }
        j += 1;
    }
    proof {
        assert(j == ncols);
        assert(nrows * ncols == ncols * nrows) by (nonlinear_arith);
    }
    out
}

/// An offset in a column before column `j` lies before the start of column `j`.
proof fn lemma_index_bound(a: int, b: int, nrows: int, j: int)
    requires
        0 <= a < nrows,
        0 <= b < j,
    ensures
        0 <= spec_to_index(a, b, nrows) < j * nrows,
{
    assert(b * nrows + a < j * nrows) by (nonlinear_arith)
        requires
            0 <= a < nrows,
            0 <= b < j,
    ;
    assert(0 <= b * nrows) by (nonlinear_arith)
        requires
            0 <= nrows,
            0 <= b,
    ;
}

/// The positions that these rows hold, each row an x and a y.
pub open spec fn spec_rows_coords<T>(rows: Seq<[T; 2]>) -> Seq<Coord<T>> {
    rows.map_values(|r: [T; 2]| Coord { x: r@[0], y: r@[1] })
}

/// The matrix node of the kind `kind` whose rows are `rows`.
fn matrix_node<T: Copy>(kind: Kind, rows: &Vec<[T; 2]>) -> (n: Node<T>)
    ensures
        n@ == spec_matrix_node(kind, spec_rows_coords(rows@)),
{
    let nrows: usize = rows.len();
    let cell = |r: usize, c: usize| -> (v: T)
        requires
            r < rows@.len(),
            c < 2,
        ensures
            v == rows@[r as int]@[c as int],
        { rows[r][c] };
    let data = new_matrix(nrows, 2, cell);
    let mut dim: Vec<usize> = Vec::with_capacity(2);
    dim.push(nrows);
    dim.push(2);
    let node = MatrixNode { class: kind.sfg_class(), dim, data };
    proof {
        let coords = spec_rows_coords(rows@);
        assert(node@.dim =~= seq![coords.len() as usize, 2usize]);
        assert(node@.data.len() == 2 * coords.len());
        assert forall|k: int| 0 <= k < 2 * coords.len() implies node@.data[k] == spec_matrix_data(
            coords,
        )[k] by {
            if k < coords.len() {
                assert(k == spec_to_index(k, 0, nrows as int));
                let a = k as usize;
                assert(call_ensures(
                    cell,
                    (a, 0usize),
                    data@[spec_to_index(a as int, 0usize as int, nrows as int)],
                ));
            } else {
                assert(k == spec_to_index(k - nrows, 1, nrows as int));
                let a = (k - nrows) as usize;
                assert(call_ensures(
                    cell,
                    (a, 1usize),
                    data@[spec_to_index(a as int, 1usize as int, nrows as int)],
                ));
            }
        }
        assert(node@.data =~= spec_matrix_data(coords));
    }
    Node::Matrix(node)
}

/// The node of a point: a matrix of one row, of the kind `POINT`.
pub fn from_point<T: Copy>(x: Point<T>) -> (n: Node<T>)
    ensures
        n@ == spec_to_sfg(GeometryView::Point(x.0)),
{
    let mut rows: Vec<[T; 2]> = Vec::with_capacity(1);
    rows.push(from_coord(x.0));
    assert(spec_rows_coords(rows@) =~= seq![x.0]);
    matrix_node(Kind::Point, &rows)
}

/// The node of a multi-point: a matrix with a row for each point, in order, of
/// the kind `MULTIPOINT`.
pub fn from_multipoint<T: Copy>(x: &MultiPoint<T>) -> (n: Node<T>)
    ensures
        n@ == spec_to_sfg(GeometryView::MultiPoint(x@)),
{
    let mut rows: Vec<[T; 2]> = Vec::with_capacity(x.0.len());
    let mut i: usize = 0;
    while i < x.0.len()
        invariant
            0 <= i <= x.0@.len(),
            rows@.len() == i,
            forall|k: int| 0 <= k < i ==> #[trigger] rows@[k]@ == seq![x.0@[k].0.x, x.0@[k].0.y],
        decreases x.0@.len() - i,
    {
        rows.push(from_coord(x.0[i].0));
        i += 1;
    }
    assert(spec_rows_coords(rows@) =~= x@);
    matrix_node(Kind::MultiPoint, &rows)
}

/// The rows of the matrix of a line: its positions, in order.
fn line_rows<T: Copy>(x: &LineString<T>) -> (rows: Vec<[T; 2]>)
    ensures
        spec_rows_coords(rows@) == x@,
{
    let mut rows: Vec<[T; 2]> = Vec::with_capacity(x.0.len());
    let mut i: usize = 0;
    while i < x.0.len()
        invariant
            0 <= i <= x.0@.len(),
            rows@.len() == i,
            forall|k: int| 0 <= k < i ==> #[trigger] rows@[k]@ == seq![x.0@[k].x, x.0@[k].y],
        decreases x.0@.len() - i,
    {
        rows.push(from_coord(x.0[i]));
        i += 1;
    }
    assert(spec_rows_coords(rows@) =~= x@);
    rows
}

/// The node of a line string: a matrix with a row for each position, in
/// order, of the kind `LINESTRING`.
pub fn from_linestring<T: Copy>(x: &LineString<T>) -> (n: Node<T>)
    ensures
        n@ == spec_to_sfg(GeometryView::LineString(x@)),
{
    let rows = line_rows(x);
    matrix_node(Kind::LineString, &rows)
}

/// The nodes of these lines, in order, behind those that `items` holds.
fn push_lines<T: Copy>(items: &mut Vec<Node<T>>, lines: &Vec<LineString<T>>)
    ensures
        items_view(final(items)@) == items_view(old(items)@) + spec_line_nodes(rings_view(lines@)),
{
    let ghost start = items_view(items@);
    let ghost want = spec_line_nodes(rings_view(lines@));
    let mut i: usize = 0;
    proof {
        assert(items_view(items@) =~= start + want.take(0));
    }
    while i < lines.len()
        invariant
            want == spec_line_nodes(rings_view(lines@)),
            0 <= i <= lines@.len(),
            items_view(items@) == start + want.take(i as int),
        decreases lines@.len() - i,
    {
        let ghost before = items@;
        let node = from_linestring(&lines[i]);
        items.push(node);
        proof {
            lemma_items_view(before);
            lemma_items_view(items@);
            assert(items_view(items@) =~= items_view(before).push(node@));
            assert(want.take(i + 1) =~= want.take(i as int).push(want[i as int]));
            assert(items_view(items@) =~= start + want.take(i + 1));
        }
        i += 1;
    }
    assert(want.take(i as int) =~= want);
}

/// The node of a multi-line-string: a list with the node of each line, in
/// order, of the kind `MULTILINESTRING`.
pub fn from_multilinestring<T: Copy>(x: &MultiLineString<T>) -> (n: Node<T>)
    ensures
        n@ == spec_to_sfg(GeometryView::MultiLineString(x@)),
{
    let mut items: Vec<Node<T>> = Vec::with_capacity(x.0.len());
    proof {
        assert(items_view(items@) =~= Seq::empty());
    }
    push_lines(&mut items, &x.0);
    proof {
        assert(items_view(items@) =~= spec_line_nodes(x@));
    }
    Node::List(ListNode { class: Kind::MultiLineString.sfg_class(), items })
}

/// The node of a polygon: a list with the node of the exterior ring first and
/// those of the interior rings behind it, in order, of the kind `POLYGON`.
pub fn from_polygon<T: Copy>(x: &Polygon<T>) -> (n: Node<T>)
    ensures
        n@ == spec_to_sfg(GeometryView::Polygon(x@)),
        n@ matches NodeView::List(l) && l.items.len() == 1 + x@.interiors.len(),
{
    let exterior = x.exterior();
    let interiors = x.interiors();
    let mut items: Vec<Node<T>> = Vec::with_capacity(1);
    let first = from_linestring(exterior);
    items.push(first);
    proof {
        lemma_items_view(items@);
        assert(items_view(items@) =~= seq![first@]);
    }
    push_lines(&mut items, interiors);
    Node::List(ListNode { class: Kind::Polygon.sfg_class(), items })
}

/// The node of a multi-polygon: a list with the node of each polygon, in
/// order, of the kind `MULTIPOLYGON`. Without polygons the list is empty; it
/// is still a list.
pub fn from_multipolygon<T: Copy>(x: &MultiPolygon<T>) -> (n: Node<T>)
    ensures
        n@ == spec_to_sfg(GeometryView::MultiPolygon(x@)),
        n@ matches NodeView::List(l) && l.items.len() == x@.len(),
{
    let ghost want = x@.map_values(|p: PolygonView<T>| spec_polygon_to_sfg(p));
    let mut items: Vec<Node<T>> = Vec::with_capacity(x.0.len());
    let mut i: usize = 0;
    proof {
        assert(items_view(items@) =~= want.take(0));
    }
    while i < x.0.len()
        invariant
            want == x@.map_values(|p: PolygonView<T>| spec_polygon_to_sfg(p)),
            0 <= i <= x.0@.len(),
            items_view(items@) == want.take(i as int),
        decreases x.0@.len() - i,
    {
        let ghost before = items@;
        let node = from_polygon(&x.0[i]);
        items.push(node);
        proof {
            lemma_items_view(before);
            lemma_items_view(items@);
            assert(items_view(items@) =~= items_view(before).push(node@));
            assert(want.take(i + 1) =~= want.take(i as int).push(want[i as int]));
        }
        i += 1;
    }
    assert(want.take(i as int) =~= want);
    Node::List(ListNode { class: Kind::MultiPolygon.sfg_class(), items })
}

/// The node of a geometry: that of its kind, for each of the six kinds that
/// have one, and the null node for a geometry of another kind.
pub fn to_sfg<T: Copy>(x: &Geom<T>) -> (n: Node<T>)
    ensures
        n@ == spec_to_sfg(x@),
{
    match &x.geom {
        Geometry::Point(x) => from_point(*x),
        Geometry::MultiPoint(x) => from_multipoint(x),
        Geometry::LineString(x) => from_linestring(x),
        Geometry::MultiLineString(x) => from_multilinestring(x),
        Geometry::Polygon(x) => from_polygon(x),
        Geometry::MultiPolygon(x) => from_multipolygon(x),
        Geometry::Other(_) => Node::Null,
    }
}

/// The list of the nodes of the geometries of a vector, position by position,
/// without a class. A missing geometry gives the null node at its place.
pub fn geoms_to_sfc<T: Copy>(x: &Vec<Option<Geom<T>>>) -> (out: ListNode<T>)
    ensures
        out@.class.len() == 0,
        out@.items == geoms_view(x@).map_values(
            |g: Option<GeometryView<T>>| spec_element_to_sfg(g),
        ),
{
    let ghost want = geoms_view(x@).map_values(
        |g: Option<GeometryView<T>>| spec_element_to_sfg(g),
    );
    let mut items: Vec<Node<T>> = Vec::with_capacity(x.len());
    let mut i: usize = 0;
    proof {
        assert(items_view(items@) =~= want.take(0));
    }
    while i < x.len()
        invariant
            want == geoms_view(x@).map_values(
                |g: Option<GeometryView<T>>| spec_element_to_sfg(g),
            ),
            0 <= i <= x@.len(),
            items_view(items@) == want.take(i as int),
        decreases x@.len() - i,
    {
        let ghost before = items@;
        let node = match &x[i] {
            Some(geo) => to_sfg(geo),
            None => Node::Null,
        };
        items.push(node);
        proof {
            lemma_items_view(before);
            lemma_items_view(items@);
            assert(items_view(items@) =~= items_view(before).push(node@));
            assert(want.take(i + 1) =~= want.take(i as int).push(want[i as int]));
        }
        i += 1;
    }
    assert(want.take(i as int) =~= want);
    let class: Vec<String> = Vec::new();
    assert(class_view(class) =~= Seq::empty());
    ListNode { class, items }
}

/// The tag of the kind of a geometry, in upper case.
fn geometry_tag<T>(g: &Geometry<T>) -> (t: &'static str)
    ensures
        t@ == spec_geometry_tag(g@),
{
    match g {
        Geometry::Point(_) => "POINT",
        Geometry::MultiPoint(_) => "MULTIPOINT",
        Geometry::LineString(_) => "LINESTRING",
        Geometry::MultiLineString(_) => "MULTILINESTRING",
        Geometry::Polygon(_) => "POLYGON",
        Geometry::MultiPolygon(_) => "MULTIPOLYGON",
        Geometry::Other(OtherKind::Line) => "LINE",
        Geometry::Other(OtherKind::Rect) => "RECT",
        Geometry::Other(OtherKind::Triangle) => "TRIANGLE",
        Geometry::Other(OtherKind::GeometryCollection) => "GEOMETRYCOLLECTION",
    }
}

/// The class of a vector of geometries: the tag of the one kind that its
/// geometries have, `GEOMETRYCOLLECTION` where they are of several kinds, and
/// the empty string where the vector holds no geometry. Missing geometries do
/// not count.
pub fn determine_sfc_class<T>(x: &Vec<Option<Geom<T>>>) -> (class: String)
    ensures
        class@ == spec_sfc_class(geoms_view(x@)),
{
    let ghost want = geoms_view(x@).map_values(
        |g: Option<GeometryView<T>>|
            match g {
                Some(g) => Some(spec_geometry_tag(g)),
                None => None,
            },
    );
    let mut tags: Vec<Option<&str>> = Vec::with_capacity(x.len());
    let mut i: usize = 0;
    while i < x.len()
        invariant
            want == geoms_view(x@).map_values(
                |g: Option<GeometryView<T>>|
                    match g {
                        Some(g) => Some(spec_geometry_tag(g)),
                        None => None,
                    },
            ),
            0 <= i <= x@.len(),
            tags@.len() == i,
            forall|k: int| 0 <= k < i ==> #[trigger] crate::vctrs::tags_view(tags@)[k] == want[k],
        decreases x@.len() - i,
    {
        let tag: Option<&str> = match &x[i] {
            Some(geom) => Some(geometry_tag(&geom.geom)),
            None => None,
        };
        let ghost before = tags@;
        tags.push(tag);
        proof {
            assert(crate::vctrs::tags_view(tags@)[i as int] == want[i as int]);
            assert forall|k: int| 0 <= k < i implies #[trigger] crate::vctrs::tags_view(tags@)[k]
                == want[k] by {
                assert(tags@[k] == before[k]);
                assert(crate::vctrs::tags_view(before)[k] == want[k]);
            }
        }
        i += 1;
    }
    assert(crate::vctrs::tags_view(tags@) =~= want);
    classify(&tags, "", "GEOMETRYCOLLECTION")
}

} // verus!
