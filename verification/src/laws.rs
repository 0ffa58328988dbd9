//! What holds of the conversions together.
//!
//! The laws are stated over the views of nodes and geometries, by the same
//! functions that the contracts of the conversions use.
use crate::constructors::{
    lemma_collect, spec_coords, spec_matrix_shape, spec_matrix_to_coords,
    spec_polygon, spec_polygon_node, spec_polygons, spec_ring, spec_rings, spec_to_index,
};
use crate::error::{Error, ShapeError};
use crate::fromsf::{spec_geometry, spec_sfg_to_geom};
use crate::geometry::{Coord, GeometryView, PolygonView};
use crate::node::{ListView, MatrixView, NodeView};
use crate::tags::{lemma_tag_names_kind, Kind};
use crate::tosf::{
    spec_line_nodes, spec_list_node, spec_matrix_node, spec_polygon_to_sfg,
    spec_to_sfg,
};
use crate::vctrs::{
    all_absent, lemma_uniform_unique, spec_classify, spec_is_rsgeo, spec_vctrs_class, uniform,
};
use vstd::prelude::*;

verus! {

/// Whether a node is a matrix of the kind `kind`, of the class that the
/// conversions write and of a good shape: two extents, two columns, two
/// values to a row.
pub open spec fn is_matrix_of<T>(n: NodeView<T>, kind: Kind) -> bool {
    n matches NodeView::Matrix(m) && m.class == kind.spec_sfg_class() && spec_matrix_shape(m)
        is None
}

/// Whether every node of `items` is a line-string matrix.
pub open spec fn all_lines<T>(items: Seq<NodeView<T>>) -> bool {
    forall|i: int| 0 <= i < items.len() ==> is_matrix_of(#[trigger] items[i], Kind::LineString)
}

/// Whether a node is a polygon: a list of the class `POLYGON` with at least
/// one ring, each ring a line-string matrix.
pub open spec fn is_polygon_node<T>(n: NodeView<T>) -> bool {
    n matches NodeView::List(l) && l.class == Kind::Polygon.spec_sfg_class() && l.items.len() >= 1
        && all_lines(l.items)
}

/// Whether a node is a well-formed node of one of the six kinds.
pub open spec fn well_formed<T>(n: NodeView<T>) -> bool {
    ||| is_matrix_of(n, Kind::Point) && n->Matrix_0.dim[0] == 1
    ||| is_matrix_of(n, Kind::MultiPoint)
    ||| is_matrix_of(n, Kind::LineString)
    ||| n matches NodeView::List(l) && l.class == Kind::MultiLineString.spec_sfg_class()
        && all_lines(l.items)
    ||| is_polygon_node(n)
    ||| n matches NodeView::List(l) && l.class == Kind::MultiPolygon.spec_sfg_class()
        && forall|i: int| 0 <= i < l.items.len() ==> is_polygon_node(#[trigger] l.items[i])
}

/// Whether the positions of a geometry can be counted in a `usize`, as those
/// of every geometry in memory can.
pub open spec fn fits<T>(g: GeometryView<T>) -> bool {
    match g {
        GeometryView::Point(_) => true,
        GeometryView::MultiPoint(s) => s.len() <= usize::MAX,
        GeometryView::LineString(s) => s.len() <= usize::MAX,
        GeometryView::MultiLineString(s) => forall|i: int|
            0 <= i < s.len() ==> (#[trigger] s[i]).len() <= usize::MAX,
        GeometryView::Polygon(p) => polygon_fits(p),
        GeometryView::MultiPolygon(s) => forall|i: int|
            0 <= i < s.len() ==> polygon_fits(#[trigger] s[i]),
        GeometryView::Other(_) => true,
    }
}

/// Whether the positions of each ring of a polygon can be counted in a `usize`.
pub open spec fn polygon_fits<T>(p: PolygonView<T>) -> bool {
    &&& p.exterior.len() <= usize::MAX
    &&& forall|i: int|
        0 <= i < p.interiors.len() ==> (#[trigger] p.interiors[i]).len() <= usize::MAX
}

/// A well-shaped matrix is the matrix of the positions that it decodes to.
pub proof fn lemma_matrix_round_trip<T>(m: MatrixView<T>, kind: Kind)
    requires
        m.class == kind.spec_sfg_class(),
        spec_matrix_shape(m) is None,
    ensures
        spec_matrix_to_coords(m) == Ok::<Seq<Coord<T>>, Error>(spec_coords(m)),
        spec_matrix_node(kind, spec_coords(m)) == NodeView::Matrix(m),
{
    let coords = spec_coords(m);
    let back = spec_matrix_node(kind, coords)->Matrix_0;
    assert(back.dim =~= m.dim);
    assert(back.data.len() == m.data.len());
    assert forall|k: int| 0 <= k < m.data.len() implies back.data[k] == m.data[k] by {
        let r = m.dim[0] as int;
        if k < r {
            assert(spec_to_index(k, 0, r) == k);
        } else {
            assert(spec_to_index(k - r, 1, r) == k);
        }
    }
    assert(back.data =~= m.data);
}

/// The positions of a matrix decode from the matrix that holds them.
pub proof fn lemma_coords_round_trip<T>(coords: Seq<Coord<T>>, kind: Kind)
    requires
        coords.len() <= usize::MAX,
    ensures
        spec_ring(spec_matrix_node(kind, coords)) == Ok::<Seq<Coord<T>>, Error>(coords),
        is_matrix_of(spec_matrix_node(kind, coords), kind),
{
    let m = spec_matrix_node(kind, coords)->Matrix_0;
    let r = coords.len() as int;
    assert(spec_matrix_shape(m) is None);
    assert(spec_coords(m).len() == coords.len());
    assert forall|i: int| 0 <= i < coords.len() implies spec_coords(m)[i] == coords[i] by {
        assert(spec_to_index(i, 0, r) == i);
        assert(spec_to_index(i, 1, r) == r + i);
    }
    assert(spec_coords(m) =~= coords);
}

/// A list of line-string matrices is the list of the nodes of the lines that it
/// decodes to.
pub proof fn lemma_lines_round_trip<T>(items: Seq<NodeView<T>>)
    requires
        all_lines(items),
    ensures
        spec_rings(items) is Ok,
        spec_rings(items)->Ok_0.len() == items.len(),
        forall|i: int|
            0 <= i < items.len() ==> spec_ring(#[trigger] items[i]) == Ok::<Seq<Coord<T>>, Error>(
                spec_rings(items)->Ok_0[i],
            ),
        spec_line_nodes(spec_rings(items)->Ok_0) == items,
{
    let rs = items.map_values(|n: NodeView<T>| spec_ring(n));
    lemma_collect(rs);
    assert forall|i: int| 0 <= i < items.len() implies #[trigger] rs[i] is Ok by {
        assert(is_matrix_of(items[i], Kind::LineString));
    }
    let rings = spec_rings(items)->Ok_0;
    assert forall|i: int| 0 <= i < items.len() implies spec_ring(#[trigger] items[i]) == Ok::<
        Seq<Coord<T>>,
        Error,
    >(rings[i]) by {
        assert(rs[i] == Ok::<Seq<Coord<T>>, Error>(rings[i]));
    }
    assert forall|i: int| 0 <= i < items.len() implies spec_line_nodes(rings)[i] == items[i] by {
        assert(is_matrix_of(items[i], Kind::LineString));
        assert(rs[i] == Ok::<Seq<Coord<T>>, Error>(rings[i]));
        lemma_matrix_round_trip(items[i]->Matrix_0, Kind::LineString);
    }
    assert(spec_line_nodes(rings) =~= items);
}

/// The lines of a list decode from the list of their nodes.
pub proof fn lemma_line_nodes_round_trip<T>(lines: Seq<Seq<Coord<T>>>)
    requires
        forall|i: int| 0 <= i < lines.len() ==> (#[trigger] lines[i]).len() <= usize::MAX,
    ensures
        spec_rings(spec_line_nodes(lines)) == Ok::<Seq<Seq<Coord<T>>>, Error>(lines),
        all_lines(spec_line_nodes(lines)),
{
    let items = spec_line_nodes(lines);
    assert forall|i: int| 0 <= i < items.len() implies is_matrix_of(
        #[trigger] items[i],
        Kind::LineString,
    ) by {
        lemma_coords_round_trip(lines[i], Kind::LineString);
    }
    lemma_lines_round_trip(items);
    let rings = spec_rings(items)->Ok_0;
    assert forall|i: int| 0 <= i < lines.len() implies rings[i] == lines[i] by {
        lemma_coords_round_trip(lines[i], Kind::LineString);
        assert(spec_ring(items[i]) == Ok::<Seq<Coord<T>>, Error>(rings[i]));
    }
    assert(rings =~= lines);
}

/// A polygon node is the node of the polygon that it decodes to.
pub proof fn lemma_polygon_round_trip<T>(n: NodeView<T>)
    requires
        is_polygon_node(n),
    ensures
        spec_polygon_node(n) is Ok,
        spec_polygon_to_sfg(spec_polygon_node(n)->Ok_0) == n,
{
    let l = n->List_0;
    lemma_lines_round_trip(l.items);
    let rings = spec_rings(l.items)->Ok_0;
    let p = spec_polygon(l.items)->Ok_0;
    let back = seq![spec_matrix_node(Kind::LineString, p.exterior)] + spec_line_nodes(p.interiors);
    assert(back.len() == l.items.len());
    assert forall|i: int| 0 <= i < l.items.len() implies back[i] == l.items[i] by {
        assert(spec_line_nodes(rings)[i] == l.items[i]);
        if i > 0 {
            assert(p.interiors[i - 1] == rings[i]);
        }
    }
    assert(back =~= l.items);
}

/// A polygon decodes from its node.
pub proof fn lemma_polygon_node_round_trip<T>(p: PolygonView<T>)
    requires
        polygon_fits(p),
    ensures
        spec_polygon_node(spec_polygon_to_sfg(p)) == Ok::<PolygonView<T>, Error>(p),
        is_polygon_node(spec_polygon_to_sfg(p)),
{
    let all = seq![p.exterior] + p.interiors;
    let items = seq![spec_matrix_node(Kind::LineString, p.exterior)] + spec_line_nodes(
        p.interiors,
    );
    assert(items =~= spec_line_nodes(all));
    assert forall|i: int| 0 <= i < all.len() implies (#[trigger] all[i]).len() <= usize::MAX by {
        if i > 0 {
            assert(all[i] == p.interiors[i - 1]);
        }
    }
    lemma_line_nodes_round_trip(all);
    assert(all.subrange(1, all.len() as int) =~= p.interiors);
    assert(all[0] == p.exterior);
}

/// Decoding and encoding again gives the node back.
///
/// A well-formed node of any of the six kinds decodes without error to a
/// geometry, and the node of that geometry is the node that was decoded: the
/// same class, the same extents, the same values at the same places, and the
/// same items in the same order at every level.
pub proof fn law_decode_encode<T>(n: NodeView<T>)
    requires
        well_formed(n),
    ensures
        spec_sfg_to_geom(n) matches Ok(Some(g)) && spec_to_sfg(g) == n,
{
    lemma_tag_names_kind(Kind::Point);
    lemma_tag_names_kind(Kind::MultiPoint);
    lemma_tag_names_kind(Kind::LineString);
    lemma_tag_names_kind(Kind::MultiLineString);
    lemma_tag_names_kind(Kind::Polygon);
    lemma_tag_names_kind(Kind::MultiPolygon);
    if is_matrix_of(n, Kind::Point) && n->Matrix_0.dim[0] == 1 {
        let m = n->Matrix_0;
        lemma_matrix_round_trip(m, Kind::Point);
        assert(spec_coords(m) =~= seq![spec_coords(m)[0]]);
    } else if is_matrix_of(n, Kind::MultiPoint) {
        lemma_matrix_round_trip(n->Matrix_0, Kind::MultiPoint);
    } else if is_matrix_of(n, Kind::LineString) {
        lemma_matrix_round_trip(n->Matrix_0, Kind::LineString);
    } else if is_polygon_node(n) {
        lemma_polygon_round_trip(n);
    } else if n matches NodeView::List(l) && l.class == Kind::MultiLineString.spec_sfg_class() {
        lemma_lines_round_trip(n->List_0.items);
    } else {
        let l = n->List_0;
        let rs = l.items.map_values(|c: NodeView<T>| spec_polygon_node(c));
        lemma_collect(rs);
        assert forall|i: int| 0 <= i < l.items.len() implies #[trigger] rs[i] is Ok by {
            lemma_polygon_round_trip(l.items[i]);
        }
        let polygons = spec_polygons(l.items)->Ok_0;
        let back = polygons.map_values(|p: PolygonView<T>| spec_polygon_to_sfg(p));
        assert forall|i: int| 0 <= i < l.items.len() implies back[i] == l.items[i] by {
            lemma_polygon_round_trip(l.items[i]);
            assert(rs[i] == Ok::<PolygonView<T>, Error>(polygons[i]));
        }
        assert(back =~= l.items);
    }
}

/// Encoding and decoding again gives the geometry back.
///
/// The node of a geometry of any of the six kinds is well formed and decodes
/// to that geometry.
pub proof fn law_encode_decode<T>(g: GeometryView<T>)
    requires
        !(g is Other),
        fits(g),
    ensures
        well_formed(spec_to_sfg(g)),
        spec_sfg_to_geom(spec_to_sfg(g)) == Ok::<Option<GeometryView<T>>, Error>(Some(g)),
{
    lemma_tag_names_kind(Kind::Point);
    lemma_tag_names_kind(Kind::MultiPoint);
    lemma_tag_names_kind(Kind::LineString);
    lemma_tag_names_kind(Kind::MultiLineString);
    lemma_tag_names_kind(Kind::Polygon);
    lemma_tag_names_kind(Kind::MultiPolygon);
    match g {
        GeometryView::Point(c) => {
            lemma_coords_round_trip(seq![c], Kind::Point);
        },
        GeometryView::MultiPoint(s) => {
            lemma_coords_round_trip(s, Kind::MultiPoint);
        },
        GeometryView::LineString(s) => {
            lemma_coords_round_trip(s, Kind::LineString);
        },
        GeometryView::MultiLineString(s) => {
            lemma_line_nodes_round_trip(s);
        },
        GeometryView::Polygon(p) => {
            lemma_polygon_node_round_trip(p);
        },
        GeometryView::MultiPolygon(s) => {
            let items = s.map_values(|p: PolygonView<T>| spec_polygon_to_sfg(p));
            let rs = items.map_values(|c: NodeView<T>| spec_polygon_node(c));
            lemma_collect(rs);
            assert forall|i: int| 0 <= i < s.len() implies #[trigger] rs[i] == Ok::<
                PolygonView<T>,
                Error,
            >(s[i]) && is_polygon_node(items[i]) by {
                lemma_polygon_node_round_trip(s[i]);
            }
            assert forall|i: int| 0 <= i < items.len() implies is_polygon_node(
                #[trigger] items[i],
            ) by {
                assert(rs[i] == Ok::<PolygonView<T>, Error>(s[i]));
            }
            let polygons = spec_polygons(items)->Ok_0;
            assert forall|i: int| 0 <= i < s.len() implies polygons[i] == s[i] by {
                assert(rs[i] == Ok::<PolygonView<T>, Error>(s[i]));
                assert(rs[i] == Ok::<PolygonView<T>, Error>(polygons[i]));
            }
            assert(polygons =~= s);
        },
        GeometryView::Other(_) => {},
    }
}

/// A matrix of another number of columns than two never decodes: whatever the
/// number of its rows and whatever its buffer holds, the result is the error
/// that names the two columns expected and the number found.
pub proof fn law_column_count<T>(m: MatrixView<T>)
    requires
        m.dim.len() == 2,
        m.dim[1] != 2,
    ensures
        spec_matrix_to_coords(m) == Err::<Seq<Coord<T>>, Error>(
            Error::Shape(ShapeError::Columns { expected: 2, found: m.dim[1] }),
        ),
        forall|kind: Kind| #[trigger]
            spec_geometry(kind, NodeView::Matrix(m)) is Err,
{
    assert forall|kind: Kind| #[trigger] spec_geometry(kind, NodeView::Matrix(m)) is Err by {
        match kind {
            Kind::Point => {},
            Kind::MultiPoint => {},
            Kind::LineString => {},
            Kind::MultiLineString => {},
            Kind::Polygon => {},
            Kind::MultiPolygon => {},
        }
    }
}

/// A polygon without rings never decodes: a list of the class `POLYGON` with
/// no item gives `Error::EmptyRings`, and so does the empty list wherever a
/// polygon is read.
pub proof fn law_empty_exterior<T>(l: ListView<T>)
    requires
        l.items.len() == 0,
    ensures
        spec_polygon::<T>(l.items) == Err::<PolygonView<T>, Error>(Error::EmptyRings),
        Kind::spec_of_class(l.class) == Some(Kind::Polygon) ==> spec_sfg_to_geom(
            NodeView::List(l),
        ) == Err::<Option<GeometryView<T>>, Error>(Error::EmptyRings),
{
}

/// Order is kept through a multi-polygon.
///
/// Where a list of polygon nodes decodes, polygon `i` of the result is read
/// from item `i`: its exterior from the first matrix of that item, its
/// interior `j` from matrix `j + 1`. Encoded again, item `i` holds the nodes
/// of these rings at the same places.
pub proof fn law_order_kept<T>(items: Seq<NodeView<T>>)
    requires
        spec_polygons(items) is Ok,
    ensures
        spec_polygons(items)->Ok_0.len() == items.len(),
        forall|i: int|
            0 <= i < items.len() ==> {
                let p = #[trigger] spec_polygons(items)->Ok_0[i];
                &&& items[i] matches NodeView::List(l)
                &&& l.items.len() == 1 + p.interiors.len()
                &&& spec_ring(l.items[0]) == Ok::<Seq<Coord<T>>, Error>(p.exterior)
                &&& forall|j: int|
                    0 <= j < p.interiors.len() ==> spec_ring(#[trigger] l.items[j + 1]) == Ok::<
                        Seq<Coord<T>>,
                        Error,
                    >(p.interiors[j])
                &&& spec_polygon_to_sfg(p) matches NodeView::List(back)
                &&& back.items.len() == l.items.len()
                &&& back.items[0] == spec_matrix_node(Kind::LineString, p.exterior)
                &&& forall|j: int|
                    0 <= j < p.interiors.len() ==> #[trigger] back.items[j + 1] == spec_matrix_node(
                        Kind::LineString,
                        p.interiors[j],
                    )
            },
{
    let rs = items.map_values(|c: NodeView<T>| spec_polygon_node(c));
    lemma_collect(rs);
    let polygons = spec_polygons(items)->Ok_0;
    assert forall|i: int| 0 <= i < items.len() implies {
        let p = #[trigger] polygons[i];
        &&& items[i] matches NodeView::List(l)
        &&& l.items.len() == 1 + p.interiors.len()
        &&& spec_ring(l.items[0]) == Ok::<Seq<Coord<T>>, Error>(p.exterior)
        &&& forall|j: int|
            0 <= j < p.interiors.len() ==> spec_ring(#[trigger] l.items[j + 1]) == Ok::<
                Seq<Coord<T>>,
                Error,
            >(p.interiors[j])
        &&& spec_polygon_to_sfg(p) matches NodeView::List(back)
        &&& back.items.len() == l.items.len()
        &&& back.items[0] == spec_matrix_node(Kind::LineString, p.exterior)
        &&& forall|j: int|
            0 <= j < p.interiors.len() ==> #[trigger] back.items[j + 1] == spec_matrix_node(
                Kind::LineString,
                p.interiors[j],
            )
    } by {
        let p = polygons[i];
        assert(rs[i] == Ok::<PolygonView<T>, Error>(p));
        let l = items[i]->List_0;
        let ring_results = l.items.map_values(|c: NodeView<T>| spec_ring(c));
        lemma_collect(ring_results);
        let rings = spec_rings(l.items)->Ok_0;
        assert(ring_results[0] == Ok::<Seq<Coord<T>>, Error>(rings[0]));
        assert forall|j: int| 0 <= j < p.interiors.len() implies spec_ring(
            #[trigger] l.items[j + 1],
        ) == Ok::<Seq<Coord<T>>, Error>(p.interiors[j]) by {
            assert(ring_results[j + 1] == Ok::<Seq<Coord<T>>, Error>(rings[j + 1]));
        }
    }
}

/// A multi-polygon without polygons is written as a list without items, of
/// the class `MULTIPOLYGON`: it is present and empty, not null.
pub proof fn law_empty_is_present<T>()
    ensures
        spec_to_sfg(GeometryView::<T>::MultiPolygon(Seq::empty())) == spec_list_node::<T>(
            Kind::MultiPolygon,
            Seq::empty(),
        ),
        !(spec_to_sfg(GeometryView::<T>::MultiPolygon(Seq::empty())) is Null),
{
    assert(Seq::<PolygonView<T>>::empty().map_values(|p: PolygonView<T>| spec_polygon_to_sfg(p))
        =~= Seq::<NodeView<T>>::empty());
}

/// A vector whose present elements all carry one tag has that tag, however
/// many elements are missing among them.
pub proof fn law_one_tag(
    tags: Seq<Option<Seq<char>>>,
    t: Seq<char>,
    empty: Seq<char>,
    mixed: Seq<char>,
)
    requires
        uniform(tags, t),
    ensures
        spec_classify(tags, empty, mixed) == t,
{
    let i = choose|i: int| 0 <= i < tags.len() && #[trigger] tags[i] == Some(t);
    assert(tags[i] is Some);
    let s = choose|s: Seq<char>| uniform(tags, s);
    lemma_uniform_unique(tags, s, t);
}

/// A vector with two present elements of different tags is mixed.
pub proof fn law_two_tags(
    tags: Seq<Option<Seq<char>>>,
    i: int,
    j: int,
    empty: Seq<char>,
    mixed: Seq<char>,
)
    requires
        0 <= i < tags.len(),
        0 <= j < tags.len(),
        tags[i] is Some,
        tags[j] is Some,
        tags[i] != tags[j],
    ensures
        spec_classify(tags, empty, mixed) == mixed,
{
    assert forall|s: Seq<char>| !uniform(tags, s) by {
        if uniform(tags, s) {
            assert(tags[i] == Some(s));
            assert(tags[j] == Some(s));
        }
    }
}

/// A missing element does not change the tag of a vector, wherever it stands.
pub proof fn law_missing_ignored(
    tags: Seq<Option<Seq<char>>>,
    at: int,
    empty: Seq<char>,
    mixed: Seq<char>,
)
    requires
        0 <= at <= tags.len(),
    ensures
        spec_classify(tags.insert(at, None), empty, mixed) == spec_classify(tags, empty, mixed),
{
    let more = tags.insert(at, None);
    assert forall|k: int| 0 <= k < tags.len() implies tags[k] == more[if k < at {
        k
    } else {
        k + 1
    }] by {}
    assert forall|k: int| 0 <= k < more.len() && k != at implies more[k] == tags[if k < at {
        k
    } else {
        k - 1
    }] by {}
    assert(more[at] is None);
    if all_absent(tags) {
        assert forall|k: int| 0 <= k < more.len() implies #[trigger] more[k] is None by {
            if k != at {
                assert(tags[if k < at {
                    k
                } else {
                    k - 1
                }] is None);
            }
        }
    } else {
        let i = choose|i: int| 0 <= i < tags.len() && !(#[trigger] tags[i] is None);
        assert(!(more[if i < at {
            i
        } else {
            i + 1
        }] is None));
        assert forall|s: Seq<char>| uniform(tags, s) <==> uniform(more, s) by {
            if uniform(tags, s) {
                let a = choose|a: int| 0 <= a < tags.len() && #[trigger] tags[a] == Some(s);
                assert(more[if a < at {
                    a
                } else {
                    a + 1
                }] == Some(s));
                assert forall|k: int|
                    0 <= k < more.len() && #[trigger] more[k] is Some implies more[k] == Some(
                    s,
                ) by {
                    assert(tags[if k < at {
                        k
                    } else {
                        k - 1
                    }] is Some);
                }
            }
            if uniform(more, s) {
                let a = choose|a: int| 0 <= a < more.len() && #[trigger] more[a] == Some(s);
                assert(a != at);
                assert(tags[if a < at {
                    a
                } else {
                    a - 1
                }] == Some(s));
                assert forall|k: int|
                    0 <= k < tags.len() && #[trigger] tags[k] is Some implies tags[k] == Some(
                    s,
                ) by {
                    assert(more[if k < at {
                        k
                    } else {
                        k + 1
                    }] is Some);
                }
            }
        }
        if exists|s: Seq<char>| uniform(tags, s) {
            let s = choose|s: Seq<char>| uniform(tags, s);
            assert(uniform(more, s));
            law_one_tag(more, s, empty, mixed);
        } else {
            assert forall|s: Seq<char>| !uniform(more, s) by {
                assert(uniform(tags, s) <==> uniform(more, s));
            }
        }
    }
}

/// The class stack of a vector marks it as a vector of geometry handles, and
/// what follows `rs_` in its first class is the kind that the stack was made
/// of.
pub proof fn law_class_marks_vector(upper: Seq<char>)
    ensures
        spec_is_rsgeo(spec_vctrs_class(upper)),
        spec_vctrs_class(upper)[0].subrange(3, spec_vctrs_class(upper)[0].len() as int) == upper,
{
    reveal_strlit("rs_");
    let first = spec_vctrs_class(upper)[0];
    assert(first.subrange(0, 3) =~= "rs_"@);
    assert(first.subrange(3, first.len() as int) =~= upper);
}

} // verus!
