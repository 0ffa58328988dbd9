//! From simple-feature nodes to geometry.
//!
//! The class of a node decides how it is read: its second entry names the
//! kind. A node whose class names none of the six kinds, and a null node, give
//! no geometry, which is no error. A vector of nodes is read element by
//! element; `sfc_to_rsgeo` stops at the first element that fails and says
//! where it is, `sfc_to_geoms` and `sfc_to_geometry` leave the place of a
//! failed element empty and go on, and `sfc_to_geoms_counted` also counts the
//! failures.
use crate::constructors::{
    geom_linestring, geom_multilinestring, geom_multipoint, geom_multipolygon, geom_point,
    geom_polygon, matrix_to_coords, spec_handle, spec_polygon_node, spec_polygons, spec_ring,
    spec_rings,
};
use crate::error::{ElementError, Error, NodeKind, ShapeError};
use crate::geometry::{Geom, Geometry, GeometryView};
use crate::handle::{handles_view, GeomVector, Handle, HandleView};
use crate::node::{lemma_items_view, ListNode, MatrixNode, Node, NodeView};
use crate::tags::Kind;
use crate::text::uppercase_of;
use crate::vctrs::{as_rsgeo_vctr, spec_vctrs_class, spec_vector_tag, vector_tag};
use vstd::prelude::*;

verus! {

/// What a node decodes to as a geometry of the kind `kind`.
pub open spec fn spec_geometry<T>(kind: Kind, n: NodeView<T>) -> Result<GeometryView<T>, Error> {
    match kind {
        Kind::Point => match spec_ring(n) {
            Err(e) => Err(e),
            Ok(s) => if s.len() == 1 {
                Ok(GeometryView::Point(s[0]))
            } else {
                Err(Error::Shape(ShapeError::Rows { expected: 1, found: s.len() as usize }))
            },
        },
        Kind::MultiPoint => match spec_ring(n) {
            Err(e) => Err(e),
            Ok(s) => Ok(GeometryView::MultiPoint(s)),
        },
        Kind::LineString => match spec_ring(n) {
            Err(e) => Err(e),
            Ok(s) => Ok(GeometryView::LineString(s)),
        },
        Kind::MultiLineString => match n {
            NodeView::List(l) => match spec_rings(l.items) {
                Err(e) => Err(e),
                Ok(s) => Ok(GeometryView::MultiLineString(s)),
            },
            _ => Err(Error::spec_wrong_node(NodeKind::List, n.kind())),
        },
        Kind::Polygon => match spec_polygon_node(n) {
            Err(e) => Err(e),
            Ok(p) => Ok(GeometryView::Polygon(p)),
        },
        Kind::MultiPolygon => match n {
            NodeView::List(l) => match spec_polygons(l.items) {
                Err(e) => Err(e),
                Ok(s) => Ok(GeometryView::MultiPolygon(s)),
            },
            _ => Err(Error::spec_wrong_node(NodeKind::List, n.kind())),
        },
    }
}

/// What a node decodes to: the geometry of the kind that its class names, or
/// nothing where it names none.
pub open spec fn spec_sfg_to_geom<T>(n: NodeView<T>) -> Result<Option<GeometryView<T>>, Error> {
    match Kind::spec_of_class(n.class()) {
        None => Ok(None),
        Some(kind) => match spec_geometry(kind, n) {
            Err(e) => Err(e),
            Ok(g) => Ok(Some(g)),
        },
    }
}

/// What a node decodes to, as a handle.
pub open spec fn spec_sfg_to_rsgeo<T>(n: NodeView<T>) -> Result<Option<HandleView<T>>, Error> {
    match Kind::spec_of_class(n.class()) {
        None => Ok(None),
        Some(kind) => match spec_geometry(kind, n) {
            Err(e) => Err(e),
            Ok(g) => Ok(Some(spec_handle(kind, g))),
        },
    }
}

/// The geometry of a decoded element; an element that failed has none.
pub open spec fn spec_element<T>(n: NodeView<T>) -> Option<GeometryView<T>> {
    match spec_sfg_to_geom(n) {
        Ok(g) => g,
        Err(_) => None,
    }
}

/// The number of the nodes that fail to decode.
pub open spec fn spec_failures<T>(items: Seq<NodeView<T>>) -> nat
    decreases items.len(),
{
    if items.len() == 0 {
        0
    } else {
        spec_failures(items.drop_last()) + if spec_sfg_to_geom(items.last()) is Err {
            1nat
        } else {
            0nat
        }
    }
}

/// The geometries of a vector of wrapped geometries, position by position.
pub open spec fn geoms_view<T>(geoms: Seq<Option<Geom<T>>>) -> Seq<Option<GeometryView<T>>> {
    geoms.map_values(
        |g: Option<Geom<T>>|
            match g {
                Some(g) => Some(g@),
                None => None,
            },
    )
}

/// The geometries of a vector, position by position.
pub open spec fn geometries_view<T>(geoms: Seq<Option<Geometry<T>>>) -> Seq<
    Option<GeometryView<T>>,
> {
    geoms.map_values(
        |g: Option<Geometry<T>>|
            match g {
                Some(g) => Some(g@),
                None => None,
            },
    )
}

/// The node as a matrix, where it is one.
fn as_matrix<T>(x: &Node<T>) -> (r: Result<&MatrixNode<T>, Error>)
    ensures
        match x@ {
            NodeView::Matrix(m) => r matches Ok(v) && v@ == m && *x == Node::Matrix(*v),
            _ => r matches Err(e) && e == Error::spec_wrong_node(NodeKind::Matrix, x@.kind()),
        },
{
    match x {
        Node::Matrix(m) => Ok(m),
        other => Err(Error::wrong_node(NodeKind::Matrix, other.kind())),
    }
}

/// The node as a list, where it is one.
fn as_list<T>(x: &Node<T>) -> (r: Result<&ListNode<T>, Error>)
    ensures
        match x@ {
            NodeView::List(l) => r matches Ok(v) && v@ == l && *x == Node::List(*v),
            _ => r matches Err(e) && e == Error::spec_wrong_node(NodeKind::List, x@.kind()),
        },
{
    match x {
        Node::List(l) => Ok(l),
        other => Err(Error::wrong_node(NodeKind::List, other.kind())),
    }
}

/// A point from a matrix of exactly one row.
fn point_of<T: Copy>(x: &MatrixNode<T>) -> (r: Result<Handle<T>, Error>)
    ensures
        match spec_geometry(Kind::Point, NodeView::Matrix(x@)) {
            Ok(g) => r matches Ok(h) && h@ == spec_handle(Kind::Point, g),
            Err(e) => r matches Err(f) && f == e,
        },
{
    let coords = match matrix_to_coords(x) {
        Ok(coords) => coords,
        Err(e) => {
            return Err(e);
        },
    };
    if coords.len() != 1 {
        return Err(Error::Shape(ShapeError::Rows { expected: 1, found: coords.len() }));
    }
    Ok(geom_point(coords[0].x, coords[0].y))
}

/// The handle of the geometry that a node holds.
///
/// The second entry of the node's class names the kind, and the node is read
/// as that kind asks: a point, a multi-point and a line string from a matrix,
/// the others from a list. A null node, a node with fewer than two classes
/// and a node whose second class is none of the six tags have no geometry:
/// the result is `Ok(None)`. A node that names a kind and does not have its
/// shape gives the error.
pub fn sfg_to_rsgeo<T: Copy>(x: &Node<T>) -> (r: Result<Option<Handle<T>>, Error>)
    ensures
        match spec_sfg_to_rsgeo(x@) {
            Ok(Some(h)) => r matches Ok(Some(v)) && v@ == h,
            Ok(None) => r matches Ok(None),
            Err(e) => r matches Err(f) && f == e,
        },
{
    let kind = match x {
        Node::Null => None,
        Node::Matrix(m) => Kind::of_class(&m.class),
        Node::List(l) => Kind::of_class(&l.class),
    };
    let handle = match kind {
        None => {
            return Ok(None);
        },
        Some(Kind::Point) => match as_matrix(x) {
            Ok(m) => point_of(m),
            Err(e) => Err(e),
        },
        Some(Kind::MultiPoint) => match as_matrix(x) {
            Ok(m) => geom_multipoint(m),
            Err(e) => Err(e),
        },
        Some(Kind::LineString) => match as_matrix(x) {
            Ok(m) => geom_linestring(m),
            Err(e) => Err(e),
        },
        Some(Kind::MultiLineString) => match as_list(x) {
            Ok(l) => geom_multilinestring(l),
            Err(e) => Err(e),
        },
        Some(Kind::Polygon) => match as_list(x) {
            Ok(l) => geom_polygon(l),
            Err(e) => Err(e),
        },
        Some(Kind::MultiPolygon) => match as_list(x) {
            Ok(l) => geom_multipolygon(l),
            Err(e) => Err(e),
        },
    };
    match handle {
        Ok(h) => Ok(Some(h)),
        Err(e) => Err(e),
    }
}

/// The geometry that a node holds: as `sfg_to_rsgeo`, without the handle.
pub fn sfg_to_geom<T: Copy>(x: &Node<T>) -> (r: Result<Option<Geom<T>>, Error>)
    ensures
        match spec_sfg_to_geom(x@) {
            Ok(Some(g)) => r matches Ok(Some(v)) && v@ == g,
            Ok(None) => r matches Ok(None),
            Err(e) => r matches Err(f) && f == e,
        },
{
    match sfg_to_rsgeo(x) {
        Ok(Some(h)) => Ok(Some(h.geom)),
        Ok(None) => Ok(None),
        Err(e) => Err(e),
    }
}

/// The vector of the handles of the geometries that the items of a list hold,
/// with the class that their kinds give it.
///
/// Each item is read as `sfg_to_rsgeo` reads it, and keeps its place; an item
/// without geometry leaves its place empty. The first item that fails ends
/// the conversion: the error carries its position and its cause.
pub fn sfc_to_rsgeo<T: Copy>(x: &ListNode<T>) -> (r: Result<GeomVector<T>, ElementError>)
    ensures
        match r {
            Ok(v) => {
                &&& v@.items.len() == x@.items.len()
                &&& forall|i: int|
                    0 <= i < x@.items.len() ==> spec_sfg_to_rsgeo(#[trigger] x@.items[i]) == Ok::<
                        Option<HandleView<T>>,
                        Error,
                    >(v@.items[i])
                &&& v@.class == spec_vctrs_class(uppercase_of(spec_vector_tag(v@.items)))
            },
            Err(e) => {
                &&& 0 <= e.index < x@.items.len()
                &&& spec_sfg_to_rsgeo(x@.items[e.index as int]) == Err::<
                    Option<HandleView<T>>,
                    Error,
                >(e.error)
                &&& forall|j: int|
                    0 <= j < e.index ==> spec_sfg_to_rsgeo(#[trigger] x@.items[j]) is Ok
            },
        },
{
    let mut handles: Vec<Option<Handle<T>>> = Vec::with_capacity(x.items.len());
    let mut i: usize = 0;
    proof {
        lemma_items_view(x.items@);
    }
    while i < x.items.len()
        invariant
            x@.items.len() == x.items@.len(),
            forall|k: int| 0 <= k < x.items@.len() ==> #[trigger] x@.items[k] == x.items@[k]@,
            0 <= i <= x.items@.len(),
            handles@.len() == i,
            forall|k: int|
                0 <= k < i ==> spec_sfg_to_rsgeo(#[trigger] x@.items[k]) == Ok::<
                    Option<HandleView<T>>,
                    Error,
                >(handles_view(handles@)[k]),
        decreases x.items@.len() - i,
    {
        match sfg_to_rsgeo(&x.items[i]) {
            Ok(h) => {
                let ghost before = handles@;
                handles.push(h);
                proof {
                    assert forall|k: int| 0 <= k < i + 1 implies spec_sfg_to_rsgeo(
                        #[trigger] x@.items[k],
                    ) == Ok::<Option<HandleView<T>>, Error>(handles_view(handles@)[k]) by {
                        if k < i {
                            assert(handles@[k] == before[k]);
                            assert(handles_view(before)[k] == handles_view(handles@)[k]);
                        }
                    }
                }
            },
            Err(e) => {
                return Err(ElementError { index: i, error: e });
            },
        }
        i += 1;
    }
    Ok(as_rsgeo_vctr_of(handles))
}

/// The handles as a vector with the class that their kinds give it.
fn as_rsgeo_vctr_of<T>(handles: Vec<Option<Handle<T>>>) -> (v: GeomVector<T>)
    ensures
        v.items == handles,
        v@.class == spec_vctrs_class(uppercase_of(spec_vector_tag(handles_view(handles@)))),
{
    let tag = vector_tag(&handles);
    as_rsgeo_vctr(handles, tag.as_str())
}

/// The geometries that the items of a list hold, position by position, and
/// the number of the items that failed.
///
/// An item without geometry leaves its place empty, and so does an item that
/// fails: no error ends the conversion, and no place is lost. The count tells
/// how many of the empty places stand for a failure.
pub fn sfc_to_geoms_counted<T: Copy>(x: &ListNode<T>) -> (r: (Vec<Option<Geom<T>>>, usize))
    ensures
        geoms_view(r.0@) == x@.items.map_values(|n: NodeView<T>| spec_element(n)),
        r.1 == spec_failures(x@.items),
{
    let ghost want = x@.items.map_values(|n: NodeView<T>| spec_element(n));
    let mut geoms: Vec<Option<Geom<T>>> = Vec::with_capacity(x.items.len());
    let mut failures: usize = 0;
    let mut i: usize = 0;
    proof {
        lemma_items_view(x.items@);
        assert(x@.items.take(0) =~= Seq::empty());
    }
    while i < x.items.len()
        invariant
            want == x@.items.map_values(|n: NodeView<T>| spec_element(n)),
            x@.items.len() == x.items@.len(),
            forall|k: int| 0 <= k < x.items@.len() ==> #[trigger] x@.items[k] == x.items@[k]@,
            0 <= i <= x.items@.len(),
            geoms@.len() == i,
            forall|k: int| 0 <= k < i ==> #[trigger] geoms_view(geoms@)[k] == want[k],
            failures == spec_failures(x@.items.take(i as int)),
            failures <= i,
        decreases x.items@.len() - i,
    {
        proof {
            assert(x@.items[i as int] == x.items@[i as int]@);
            assert(x@.items.take(i + 1).drop_last() =~= x@.items.take(i as int));
        }
        let geom = match sfg_to_geom(&x.items[i]) {
            Ok(g) => g,
            Err(_) => {
                failures += 1;
                None
            },
        };
        let ghost before = geoms@;
        geoms.push(geom);
        proof {
            assert forall|k: int| 0 <= k < i + 1 implies #[trigger] geoms_view(geoms@)[k]
                == want[k] by {
                if k < i {
                    assert(geoms@[k] == before[k]);
                    assert(geoms_view(before)[k] == want[k]);
                }
            }
        }
        i += 1;
    }
    proof {
        assert(geoms_view(geoms@) =~= want);
        assert(x@.items.take(i as int) =~= x@.items);
    }
    (geoms, failures)
}

/// The geometries that the items of a list hold, position by position.
///
/// An item without geometry leaves its place empty, and so does an item that
/// fails: no error ends the conversion, and no place is lost.
/// `sfc_to_geoms_counted` also tells how many items failed.
pub fn sfc_to_geoms<T: Copy>(x: &ListNode<T>) -> (r: Vec<Option<Geom<T>>>)
    ensures
        geoms_view(r@) == x@.items.map_values(|n: NodeView<T>| spec_element(n)),
{
    sfc_to_geoms_counted(x).0
}

/// The geometries that the items of a list hold, position by position, each
/// without its wrapper: as `sfc_to_geoms`.
pub fn sfc_to_geometry<T: Copy>(x: &ListNode<T>) -> (r: Vec<Option<Geometry<T>>>)
    ensures
        geometries_view(r@) == x@.items.map_values(|n: NodeView<T>| spec_element(n)),
{
    let ghost want = x@.items.map_values(|n: NodeView<T>| spec_element(n));
    let mut geoms: Vec<Option<Geometry<T>>> = Vec::with_capacity(x.items.len());
    let mut i: usize = 0;
    proof {
        lemma_items_view(x.items@);
    }
    while i < x.items.len()
        invariant
            want == x@.items.map_values(|n: NodeView<T>| spec_element(n)),
            x@.items.len() == x.items@.len(),
            forall|k: int| 0 <= k < x.items@.len() ==> #[trigger] x@.items[k] == x.items@[k]@,
            0 <= i <= x.items@.len(),
            geoms@.len() == i,
            forall|k: int| 0 <= k < i ==> #[trigger] geometries_view(geoms@)[k] == want[k],
        decreases x.items@.len() - i,
    {
        let geom = match sfg_to_geom(&x.items[i]) {
            Ok(Some(g)) => Some(g.geom),
            _ => None,
        };
        let ghost before = geoms@;
        geoms.push(geom);
        proof {
            assert(x@.items[i as int] == x.items@[i as int]@);
            assert forall|k: int| 0 <= k < i + 1 implies #[trigger] geometries_view(geoms@)[k]
                == want[k] by {
                if k < i {
                    assert(geoms@[k] == before[k]);
                    assert(geometries_view(before)[k] == want[k]);
                }
            }
        }
        i += 1;
    }
    assert(geometries_view(geoms@) =~= want);
    geoms
}

} // verus!
