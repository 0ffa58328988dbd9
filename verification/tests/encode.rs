use sfconversions::{
    determine_sfc_class, from_linestring, from_multilinestring, from_multipoint,
    from_multipolygon, from_point, from_polygon, geoms_to_sfc, sfg_to_geom, to_sfg, Coord, Geom,
    Geometry, LineString, ListNode, MatrixNode, MultiLineString, MultiPoint, MultiPolygon, Node,
    OtherKind, Point, Polygon,
};

fn sfg_class(tag: &str) -> Vec<String> {
    vec!["XY".to_string(), tag.to_string(), "sfg".to_string()]
}

fn line(points: &[(f64, f64)]) -> LineString<f64> {
    LineString(points.iter().map(|p| Coord { x: p.0, y: p.1 }).collect())
}

fn line_node(tag: &str, points: &[(f64, f64)]) -> Node<f64> {
    let mut data: Vec<f64> = points.iter().map(|p| p.0).collect();
    data.extend(points.iter().map(|p| p.1));
    Node::Matrix(MatrixNode { class: sfg_class(tag), dim: vec![points.len(), 2], data })
}

const SQUARE: [(f64, f64); 5] = [(0.0, 0.0), (4.0, 0.0), (4.0, 4.0), (0.0, 4.0), (0.0, 0.0)];

const HOLE: [(f64, f64); 4] = [(1.0, 1.0), (2.0, 1.0), (1.0, 2.0), (1.0, 1.0)];

const OTHER: [(f64, f64); 4] = [(10.0, 10.0), (12.0, 10.0), (10.0, 12.0), (10.0, 10.0)];

#[test]
fn point_is_written_as_one_row() {
    let node = from_point(Point(Coord { x: 1.5, y: -2.5 }));
    assert_eq!(
        node,
        Node::Matrix(MatrixNode { class: sfg_class("POINT"), dim: vec![1, 2], data: vec![1.5, -2.5] })
    );
}

#[test]
fn linestring_is_written_column_by_column() {
    let node = from_linestring(&line(&[(0.0, 10.0), (1.0, 11.0), (2.0, 12.0)]));
    assert_eq!(
        node,
        Node::Matrix(MatrixNode {
            class: sfg_class("LINESTRING"),
            dim: vec![3, 2],
            data: vec![0.0, 1.0, 2.0, 10.0, 11.0, 12.0],
        })
    );
}

#[test]
fn multipoint_is_written_column_by_column() {
    let mp = MultiPoint(vec![Point(Coord { x: 1.0, y: 2.0 }), Point(Coord { x: 3.0, y: 4.0 })]);
    assert_eq!(
        from_multipoint(&mp),
        Node::Matrix(MatrixNode {
            class: sfg_class("MULTIPOINT"),
            dim: vec![2, 2],
            data: vec![1.0, 3.0, 2.0, 4.0],
        })
    );
}

#[test]
fn empty_line_is_a_matrix_without_rows() {
    assert_eq!(
        from_linestring::<f64>(&LineString(vec![])),
        Node::Matrix(MatrixNode { class: sfg_class("LINESTRING"), dim: vec![0, 2], data: vec![] })
    );
}

#[test]
fn multilinestring_is_a_list_of_lines() {
    let mls = MultiLineString(vec![line(&SQUARE), line(&HOLE)]);
    assert_eq!(
        from_multilinestring(&mls),
        Node::List(ListNode {
            class: sfg_class("MULTILINESTRING"),
            items: vec![line_node("LINESTRING", &SQUARE), line_node("LINESTRING", &HOLE)],
        })
    );
}

#[test]
fn polygon_is_written_exterior_first() {
    let p = Polygon::new(line(&SQUARE), vec![line(&HOLE), line(&OTHER)]);
    assert_eq!(
        from_polygon(&p),
        Node::List(ListNode {
            class: sfg_class("POLYGON"),
            items: vec![
                line_node("LINESTRING", &SQUARE),
                line_node("LINESTRING", &HOLE),
                line_node("LINESTRING", &OTHER)
            ],
        })
    );
}

#[test]
fn closed_square_polygon_round_trips_with_one_child() {
    let node = Node::List(ListNode {
        class: sfg_class("POLYGON"),
        items: vec![line_node("LINESTRING", &SQUARE[..4])],
    });
    let geom = sfg_to_geom(&node).unwrap().unwrap();
    match &geom.geom {
        Geometry::Polygon(p) => {
            assert_eq!(p.exterior(), &line(&SQUARE[..4]));
            assert!(p.interiors().is_empty());
        },
        other => panic!("not a polygon: {:?}", other),
    }
    let back = to_sfg(&geom);
    match &back {
        Node::List(l) => assert_eq!(l.items.len(), 1),
        other => panic!("not a list: {:?}", other),
    }
    assert_eq!(back, node);
}

#[test]
fn multipolygon_keeps_polygon_and_ring_order() {
    let polygons = [
        [&SQUARE[..], &HOLE[..]],
        [&OTHER[..], &HOLE[..]],
        [&HOLE[..], &OTHER[..]],
    ];
    let node = Node::List(ListNode {
        class: sfg_class("MULTIPOLYGON"),
        items: polygons
            .iter()
            .map(|rings| {
                Node::List(ListNode {
                    class: sfg_class("POLYGON"),
                    items: rings.iter().map(|r| line_node("LINESTRING", r)).collect(),
                })
            })
            .collect(),
    });
    let geom = sfg_to_geom(&node).unwrap().unwrap();
    assert_eq!(
        geom.geom,
        Geometry::MultiPolygon(MultiPolygon(vec![
            Polygon::new(line(&SQUARE), vec![line(&HOLE)]),
            Polygon::new(line(&OTHER), vec![line(&HOLE)]),
            Polygon::new(line(&HOLE), vec![line(&OTHER)]),
        ]))
    );
    assert_eq!(to_sfg(&geom), node);
}

#[test]
fn empty_multipolygon_is_an_empty_list_not_null() {
    let node = from_multipolygon::<f64>(&MultiPolygon(vec![]));
    assert_eq!(node, Node::List(ListNode { class: sfg_class("MULTIPOLYGON"), items: vec![] }));
    assert_ne!(node, Node::Null);
    let geom = Geom { geom: Geometry::<f64>::MultiPolygon(MultiPolygon(vec![])) };
    assert_eq!(to_sfg(&geom), node);
}

#[test]
fn other_kinds_are_written_as_null() {
    for kind in
        [OtherKind::Line, OtherKind::Rect, OtherKind::Triangle, OtherKind::GeometryCollection]
    {
        assert_eq!(to_sfg(&Geom { geom: Geometry::<f64>::Other(kind) }), Node::Null);
    }
}

#[test]
fn every_kind_round_trips_from_geometry() {
    let geoms = vec![
        Geometry::Point(Point(Coord { x: 1.0, y: 2.0 })),
        Geometry::MultiPoint(MultiPoint(vec![Point(Coord { x: 1.0, y: 2.0 })])),
        Geometry::MultiPoint(MultiPoint(vec![])),
        Geometry::LineString(line(&SQUARE)),
        Geometry::MultiLineString(MultiLineString(vec![line(&SQUARE), line(&[])])),
        Geometry::MultiLineString(MultiLineString(vec![])),
        Geometry::Polygon(Polygon::new(line(&SQUARE), vec![line(&HOLE)])),
        Geometry::Polygon(Polygon::new(line(&[]), vec![])),
        Geometry::MultiPolygon(MultiPolygon(vec![Polygon::new(line(&SQUARE), vec![])])),
    ];
    for g in geoms {
        let geom = Geom { geom: g };
        let node = to_sfg(&geom);
        assert_eq!(sfg_to_geom(&node), Ok(Some(geom)));
    }
}

#[test]
fn coordinates_keep_their_bits() {
    let values = [f64::NAN, -0.0, 0.0, f64::INFINITY, f64::MIN_POSITIVE, -1.0e-300];
    let data: Vec<f64> = values.iter().chain(values.iter().rev()).copied().collect();
    let node = Node::Matrix(MatrixNode {
        class: sfg_class("LINESTRING"),
        dim: vec![values.len(), 2],
        data: data.clone(),
    });
    let geom = sfg_to_geom(&node).unwrap().unwrap();
    match to_sfg(&geom) {
        Node::Matrix(m) => {
            assert_eq!(m.dim, vec![values.len(), 2]);
            let bits: Vec<u64> = m.data.iter().map(|v| v.to_bits()).collect();
            let want: Vec<u64> = data.iter().map(|v| v.to_bits()).collect();
            assert_eq!(bits, want);
        },
        other => panic!("not a matrix: {:?}", other),
    }
}

#[test]
fn integer_coordinates_convert_too() {
    let node = Node::Matrix(MatrixNode {
        class: sfg_class("MULTIPOINT"),
        dim: vec![2, 2],
        data: vec![1i32, 2, 3, 4],
    });
    let geom = sfg_to_geom(&node).unwrap().unwrap();
    assert_eq!(
        geom.geom,
        Geometry::MultiPoint(MultiPoint(vec![
            Point(Coord { x: 1, y: 3 }),
            Point(Coord { x: 2, y: 4 })
        ]))
    );
    assert_eq!(to_sfg(&geom), node);
}

#[test]
fn vector_is_written_place_by_place() {
    let geoms = vec![
        None,
        Some(Geom { geom: Geometry::Point(Point(Coord { x: 1.0, y: 2.0 })) }),
        None,
        None,
        Some(Geom { geom: Geometry::Other(OtherKind::Triangle) }),
        Some(Geom { geom: Geometry::LineString(line(&HOLE)) }),
    ];
    let out = geoms_to_sfc(&geoms);
    assert!(out.class.is_empty());
    assert_eq!(
        out.items,
        vec![
            Node::Null,
            line_node("POINT", &[(1.0, 2.0)]),
            Node::Null,
            Node::Null,
            Node::Null,
            line_node("LINESTRING", &HOLE),
        ]
    );
    assert!(geoms_to_sfc::<f64>(&vec![]).items.is_empty());
}

#[test]
fn class_of_a_vector_of_geometries() {
    let point = || Some(Geom { geom: Geometry::Point(Point(Coord { x: 1.0, y: 2.0 })) });
    let lines = || Some(Geom { geom: Geometry::LineString(line(&HOLE)) });
    assert_eq!(determine_sfc_class::<f64>(&vec![]), "");
    assert_eq!(determine_sfc_class::<f64>(&vec![None, None]), "");
    assert_eq!(determine_sfc_class(&vec![point(), point(), point()]), "POINT");
    assert_eq!(determine_sfc_class(&vec![None, lines(), None]), "LINESTRING");
    assert_eq!(determine_sfc_class(&vec![point(), lines()]), "GEOMETRYCOLLECTION");
    assert_eq!(determine_sfc_class(&vec![point(), None, point(), lines()]), "GEOMETRYCOLLECTION");
    let each = [
        (Geometry::MultiPoint(MultiPoint(vec![])), "MULTIPOINT"),
        (Geometry::MultiLineString(MultiLineString(vec![])), "MULTILINESTRING"),
        (Geometry::Polygon(Polygon::new(line(&SQUARE), vec![])), "POLYGON"),
        (Geometry::MultiPolygon(MultiPolygon(vec![])), "MULTIPOLYGON"),
        (Geometry::Other(OtherKind::Line), "LINE"),
        (Geometry::Other(OtherKind::Rect), "RECT"),
        (Geometry::Other(OtherKind::Triangle), "TRIANGLE"),
        (Geometry::Other(OtherKind::GeometryCollection), "GEOMETRYCOLLECTION"),
    ];
    for (g, tag) in each {
        assert_eq!(determine_sfc_class::<f64>(&vec![Some(Geom { geom: g })]), tag);
    }
}
