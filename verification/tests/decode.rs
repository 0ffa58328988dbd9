use sfconversions::{
    geom_linestring, geom_multilinestring, geom_multipoint, geom_multipolygon, geom_point,
    geom_polygon, matrix_to_coords, matrix_to_points, sfc_to_geometry, sfc_to_geoms,
    sfc_to_geoms_counted, sfc_to_rsgeo, sfg_to_geom, sfg_to_rsgeo, to_index, Coord, ElementError,
    Error, Geom, Geometry, LineString, ListNode, MatrixNode, MultiLineString, MultiPoint,
    MultiPolygon, Node, NodeKind, Point, Polygon, ShapeError,
};

fn class_of(tag: &str) -> Vec<String> {
    vec!["XY".to_string(), tag.to_string(), "sfg".to_string()]
}

fn matrix(tag: &str, nrow: usize, data: &[f64]) -> MatrixNode<f64> {
    MatrixNode { class: class_of(tag), dim: vec![nrow, 2], data: data.to_vec() }
}

fn list(tag: &str, items: Vec<Node<f64>>) -> ListNode<f64> {
    ListNode { class: class_of(tag), items }
}

fn square(lo: f64, hi: f64) -> MatrixNode<f64> {
    matrix("LINESTRING", 5, &[lo, hi, hi, lo, lo, lo, lo, hi, hi, lo])
}

fn square_coords(lo: f64, hi: f64) -> Vec<Coord<f64>> {
    vec![
        Coord { x: lo, y: lo },
        Coord { x: hi, y: lo },
        Coord { x: hi, y: hi },
        Coord { x: lo, y: hi },
        Coord { x: lo, y: lo },
    ]
}

#[test]
fn to_index_is_column_major() {
    assert_eq!(to_index(0, 0, 3), 0);
    assert_eq!(to_index(2, 0, 3), 2);
    assert_eq!(to_index(0, 1, 3), 3);
    assert_eq!(to_index(2, 1, 3), 5);
    assert_eq!(to_index(4, 1, 7), 11);
    assert_eq!(to_index(0, 1, 0), 0);
}

#[test]
fn linestring_matrix_decodes_row_by_row() {
    let m = matrix("LINESTRING", 3, &[0.0, 1.0, 2.0, 10.0, 11.0, 12.0]);
    let coords = matrix_to_coords(&m).unwrap();
    assert_eq!(
        coords,
        vec![Coord { x: 0.0, y: 10.0 }, Coord { x: 1.0, y: 11.0 }, Coord { x: 2.0, y: 12.0 }]
    );
    let geom = sfg_to_geom(&Node::Matrix(m)).unwrap().unwrap();
    assert_eq!(geom.geom, Geometry::LineString(LineString(coords)));
}

#[test]
fn matrix_decodes_to_points() {
    let m = matrix("MULTIPOINT", 2, &[1.5, 2.5, -3.0, 4.0]);
    assert_eq!(
        matrix_to_points(&m).unwrap(),
        vec![Point(Coord { x: 1.5, y: -3.0 }), Point(Coord { x: 2.5, y: 4.0 })]
    );
}

#[test]
fn matrix_without_rows_decodes_to_nothing() {
    let m = matrix("LINESTRING", 0, &[]);
    assert_eq!(matrix_to_coords(&m).unwrap(), vec![]);
    assert_eq!(matrix_to_points(&m).unwrap(), vec![]);
}

#[test]
fn wrong_column_count_is_refused_for_any_row_count() {
    for (nrow, len) in [(0usize, 0usize), (1, 3), (4, 12)] {
        let m = MatrixNode {
            class: class_of("LINESTRING"),
            dim: vec![nrow, 3],
            data: vec![0.0f64; len],
        };
        let want = Error::Shape(ShapeError::Columns { expected: 2, found: 3 });
        assert_eq!(matrix_to_coords(&m), Err(want.clone()));
        assert_eq!(matrix_to_points(&m), Err(want.clone()));
        assert_eq!(sfg_to_geom(&Node::Matrix(m)), Err(want));
    }
    let one = MatrixNode { class: class_of("MULTIPOINT"), dim: vec![2, 1], data: vec![0.0f64, 1.0] };
    assert_eq!(
        matrix_to_coords(&one),
        Err(Error::Shape(ShapeError::Columns { expected: 2, found: 1 }))
    );
}

#[test]
fn wrong_number_of_extents_is_refused() {
    let none = MatrixNode { class: class_of("LINESTRING"), dim: vec![], data: vec![1.0f64, 2.0] };
    assert_eq!(
        matrix_to_coords(&none),
        Err(Error::Shape(ShapeError::Dimensions { expected: 2, found: 0 }))
    );
    let three =
        MatrixNode { class: class_of("LINESTRING"), dim: vec![1, 2, 1], data: vec![1.0f64, 2.0] };
    assert_eq!(
        matrix_to_coords(&three),
        Err(Error::Shape(ShapeError::Dimensions { expected: 2, found: 3 }))
    );
}

#[test]
fn buffer_of_wrong_length_is_refused() {
    let short = MatrixNode { class: class_of("LINESTRING"), dim: vec![3, 2], data: vec![0.0f64; 5] };
    assert_eq!(
        matrix_to_coords(&short),
        Err(Error::Shape(ShapeError::Buffer { rows: 3, found: 5 }))
    );
    let long = MatrixNode { class: class_of("LINESTRING"), dim: vec![1, 2], data: vec![0.0f64; 4] };
    assert_eq!(
        matrix_to_coords(&long),
        Err(Error::Shape(ShapeError::Buffer { rows: 1, found: 4 }))
    );
}

#[test]
fn point_is_one_row() {
    let node = Node::Matrix(matrix("POINT", 1, &[3.0, 4.0]));
    let handle = sfg_to_rsgeo(&node).unwrap().unwrap();
    assert_eq!(handle.class, vec!["point".to_string(), "Geom".to_string()]);
    assert_eq!(handle.geom.geom, Geometry::Point(Point(Coord { x: 3.0, y: 4.0 })));
    assert_eq!(handle, geom_point(3.0, 4.0));

    let two = Node::Matrix(matrix("POINT", 2, &[3.0, 4.0, 5.0, 6.0]));
    assert_eq!(
        sfg_to_rsgeo(&two),
        Err(Error::Shape(ShapeError::Rows { expected: 1, found: 2 }))
    );
    let zero = Node::Matrix(matrix("POINT", 0, &[]));
    assert_eq!(
        sfg_to_geom(&zero),
        Err(Error::Shape(ShapeError::Rows { expected: 1, found: 0 }))
    );
}

#[test]
fn handles_carry_the_name_of_their_kind() {
    let m = matrix("MULTIPOINT", 1, &[1.0, 2.0]);
    let h = geom_multipoint(&m).unwrap();
    assert_eq!(h.class, vec!["multipoint".to_string(), "Geom".to_string()]);
    assert_eq!(h.geom.geom, Geometry::MultiPoint(MultiPoint(vec![Point(Coord { x: 1.0, y: 2.0 })])));

    let h = geom_linestring(&m).unwrap();
    assert_eq!(h.class, vec!["linestring".to_string(), "Geom".to_string()]);
    assert_eq!(h.geom.geom, Geometry::LineString(LineString(vec![Coord { x: 1.0, y: 2.0 }])));

    let l = list("MULTILINESTRING", vec![Node::Matrix(square(0.0, 1.0))]);
    let h = geom_multilinestring(&l).unwrap();
    assert_eq!(h.class, vec!["multilinestring".to_string(), "Geom".to_string()]);
    let h = geom_polygon(&l).unwrap();
    assert_eq!(h.class, vec!["polygon".to_string(), "Geom".to_string()]);
    let h = geom_multipolygon(&list("MULTIPOLYGON", vec![Node::List(l)])).unwrap();
    assert_eq!(h.class, vec!["multipolygon".to_string(), "Geom".to_string()]);
}

#[test]
fn multilinestring_keeps_the_order_of_its_lines() {
    let l = list(
        "MULTILINESTRING",
        vec![
            Node::Matrix(matrix("LINESTRING", 2, &[0.0, 1.0, 0.0, 1.0])),
            Node::Matrix(matrix("LINESTRING", 0, &[])),
            Node::Matrix(matrix("LINESTRING", 1, &[7.0, 8.0])),
        ],
    );
    let geom = sfg_to_geom(&Node::List(l)).unwrap().unwrap();
    assert_eq!(
        geom.geom,
        Geometry::MultiLineString(MultiLineString(vec![
            LineString(vec![Coord { x: 0.0, y: 0.0 }, Coord { x: 1.0, y: 1.0 }]),
            LineString(vec![]),
            LineString(vec![Coord { x: 7.0, y: 8.0 }]),
        ]))
    );
}

#[test]
fn polygon_of_one_ring_has_no_interiors() {
    let l = list("POLYGON", vec![Node::Matrix(square(0.0, 1.0))]);
    let geom = sfg_to_geom(&Node::List(l)).unwrap().unwrap();
    assert_eq!(
        geom.geom,
        Geometry::Polygon(Polygon { exterior: LineString(square_coords(0.0, 1.0)), interiors: vec![] })
    );
}

#[test]
fn polygon_reads_the_first_ring_as_exterior() {
    let l = list(
        "POLYGON",
        vec![
            Node::Matrix(square(0.0, 10.0)),
            Node::Matrix(square(1.0, 2.0)),
            Node::Matrix(square(3.0, 4.0)),
        ],
    );
    let geom = sfg_to_geom(&Node::List(l)).unwrap().unwrap();
    assert_eq!(
        geom.geom,
        Geometry::Polygon(Polygon {
            exterior: LineString(square_coords(0.0, 10.0)),
            interiors: vec![
                LineString(square_coords(1.0, 2.0)),
                LineString(square_coords(3.0, 4.0))
            ],
        })
    );
}

#[test]
fn polygon_rings_are_taken_as_they_are() {
    let open = matrix("LINESTRING", 3, &[0.0, 1.0, 1.0, 0.0, 0.0, 1.0]);
    let l = list("POLYGON", vec![Node::Matrix(open)]);
    let geom = sfg_to_geom(&Node::List(l)).unwrap().unwrap();
    match geom.geom {
        Geometry::Polygon(p) => assert_eq!(p.exterior.0.len(), 3),
        other => panic!("not a polygon: {:?}", other),
    }
}

#[test]
fn polygon_without_rings_is_refused() {
    let empty = list("POLYGON", vec![]);
    assert_eq!(geom_polygon(&empty), Err(Error::EmptyRings));
    assert_eq!(sfg_to_geom(&Node::List(empty)), Err(Error::EmptyRings));
    let inside = list("MULTIPOLYGON", vec![Node::List(list("POLYGON", vec![]))]);
    assert_eq!(geom_multipolygon(&inside), Err(Error::EmptyRings));
    assert_eq!(sfg_to_rsgeo(&Node::List(inside)), Err(Error::EmptyRings));
}

#[test]
fn multipolygon_without_polygons_is_empty() {
    let empty = list("MULTIPOLYGON", vec![]);
    let geom = sfg_to_geom(&Node::List(empty)).unwrap().unwrap();
    assert_eq!(geom.geom, Geometry::MultiPolygon(MultiPolygon(vec![])));
}

#[test]
fn node_of_another_form_is_refused() {
    let as_point = Node::List(list("POINT", vec![]));
    assert_eq!(
        sfg_to_geom(&as_point),
        Err(Error::Shape(ShapeError::Node {
            expected_kind: NodeKind::Matrix,
            found_kind: NodeKind::List
        }))
    );
    let as_polygon = Node::Matrix(matrix("POLYGON", 1, &[0.0, 0.0]));
    assert_eq!(
        sfg_to_geom(&as_polygon),
        Err(Error::Shape(ShapeError::Node {
            expected_kind: NodeKind::List,
            found_kind: NodeKind::Matrix
        }))
    );
    let as_lines = Node::Matrix(matrix("MULTILINESTRING", 1, &[0.0, 0.0]));
    assert_eq!(
        sfg_to_geom(&as_lines),
        Err(Error::Shape(ShapeError::Node {
            expected_kind: NodeKind::List,
            found_kind: NodeKind::Matrix
        }))
    );
    let null_ring = list("POLYGON", vec![Node::Matrix(square(0.0, 1.0)), Node::Null]);
    assert_eq!(
        geom_polygon(&null_ring),
        Err(Error::Shape(ShapeError::Node {
            expected_kind: NodeKind::Matrix,
            found_kind: NodeKind::Null
        }))
    );
    let flat = list("MULTIPOLYGON", vec![Node::Matrix(square(0.0, 1.0))]);
    assert_eq!(
        geom_multipolygon(&flat),
        Err(Error::Shape(ShapeError::Node {
            expected_kind: NodeKind::List,
            found_kind: NodeKind::Matrix
        }))
    );
}

#[test]
fn first_failing_ring_gives_the_error() {
    let bad_cols =
        MatrixNode { class: class_of("LINESTRING"), dim: vec![1, 3], data: vec![0.0f64; 3] };
    let l = list(
        "MULTILINESTRING",
        vec![Node::Matrix(square(0.0, 1.0)), Node::Matrix(bad_cols), Node::Null],
    );
    assert_eq!(
        geom_multilinestring(&l),
        Err(Error::Shape(ShapeError::Columns { expected: 2, found: 3 }))
    );
}

#[test]
fn unknown_tags_give_no_geometry() {
    assert_eq!(sfg_to_geom::<f64>(&Node::Null), Ok(None));
    assert_eq!(sfg_to_rsgeo::<f64>(&Node::Null), Ok(None));
    let collection = Node::List(list("GEOMETRYCOLLECTION", vec![]));
    assert_eq!(sfg_to_geom(&collection), Ok(None));
    let lower = Node::Matrix(matrix("point", 1, &[0.0, 0.0]));
    assert_eq!(sfg_to_geom(&lower), Ok(None));
    let untagged = Node::Matrix(MatrixNode { class: vec![], dim: vec![1, 2], data: vec![0.0f64, 0.0] });
    assert_eq!(sfg_to_geom(&untagged), Ok(None));
    let short = Node::Matrix(MatrixNode {
        class: vec!["POINT".to_string()],
        dim: vec![1, 2],
        data: vec![0.0f64, 0.0],
    });
    assert_eq!(sfg_to_geom(&short), Ok(None));
}

#[test]
fn second_class_decides_the_kind() {
    let node = Node::Matrix(MatrixNode {
        class: vec!["POLYGON".to_string(), "LINESTRING".to_string(), "MULTIPOINT".to_string()],
        dim: vec![1, 2],
        data: vec![5.0f64, 6.0],
    });
    let geom = sfg_to_geom(&node).unwrap().unwrap();
    assert_eq!(geom.geom, Geometry::LineString(LineString(vec![Coord { x: 5.0, y: 6.0 }])));
}

#[test]
fn vector_conversion_stops_at_the_first_failure() {
    let bad = MatrixNode { class: class_of("LINESTRING"), dim: vec![2, 4], data: vec![0.0f64; 8] };
    let x = ListNode {
        class: vec![],
        items: vec![
            Node::Matrix(matrix("POINT", 1, &[1.0, 2.0])),
            Node::Null,
            Node::Matrix(bad),
            Node::List(list("POLYGON", vec![])),
        ],
    };
    assert_eq!(
        sfc_to_rsgeo(&x),
        Err(ElementError {
            index: 2,
            error: Error::Shape(ShapeError::Columns { expected: 2, found: 4 })
        })
    );
}

#[test]
fn vector_conversion_keeps_places() {
    let x = ListNode {
        class: vec![],
        items: vec![
            Node::Matrix(matrix("POINT", 1, &[1.0, 2.0])),
            Node::Null,
            Node::Null,
            Node::Matrix(matrix("POINT", 1, &[3.0, 4.0])),
        ],
    };
    let v = sfc_to_rsgeo(&x).unwrap();
    assert_eq!(v.items.len(), 4);
    assert_eq!(v.items[0], Some(geom_point(1.0, 2.0)));
    assert_eq!(v.items[1], None);
    assert_eq!(v.items[2], None);
    assert_eq!(v.items[3], Some(geom_point(3.0, 4.0)));
    assert_eq!(
        v.class,
        vec![
            "rs_POINT".to_string(),
            "rsgeo".to_string(),
            "vctrs_vctr".to_string(),
            "list".to_string()
        ]
    );
}

#[test]
fn failed_elements_leave_their_place_empty() {
    let bad = MatrixNode { class: class_of("LINESTRING"), dim: vec![2, 4], data: vec![0.0f64; 8] };
    let x = ListNode {
        class: vec![],
        items: vec![
            Node::Matrix(bad),
            Node::Matrix(matrix("POINT", 1, &[1.0, 2.0])),
            Node::List(list("POLYGON", vec![])),
            Node::Null,
            Node::Matrix(matrix("LINESTRING", 1, &[3.0, 4.0])),
        ],
    };
    let point = Geometry::Point(Point(Coord { x: 1.0, y: 2.0 }));
    let line = Geometry::LineString(LineString(vec![Coord { x: 3.0, y: 4.0 }]));
    assert_eq!(
        sfc_to_geoms(&x),
        vec![
            None,
            Some(Geom { geom: point.clone() }),
            None,
            None,
            Some(Geom { geom: line.clone() })
        ]
    );
    assert_eq!(sfc_to_geometry(&x), vec![None, Some(point), None, None, Some(line)]);
}

#[test]
fn empty_vector_converts_to_empty_vector() {
    let x: ListNode<f64> = ListNode { class: vec![], items: vec![] };
    assert_eq!(sfc_to_geoms(&x), vec![]);
    assert_eq!(sfc_to_geometry(&x), vec![]);
    let v = sfc_to_rsgeo(&x).unwrap();
    assert!(v.items.is_empty());
    assert_eq!(v.class[0], "rs_UNKNOWN");
}

#[test]
fn failed_elements_are_counted() {
    let bad = MatrixNode { class: class_of("LINESTRING"), dim: vec![2, 4], data: vec![0.0f64; 8] };
    let x = ListNode {
        class: vec![],
        items: vec![
            Node::Matrix(bad),
            Node::Null,
            Node::Matrix(matrix("POINT", 1, &[1.0, 2.0])),
            Node::List(list("POLYGON", vec![])),
            Node::List(list("GEOMETRYCOLLECTION", vec![])),
        ],
    };
    let (geoms, failures) = sfc_to_geoms_counted(&x);
    assert_eq!(failures, 2);
    assert_eq!(geoms, sfc_to_geoms(&x));
    assert_eq!(geoms.iter().filter(|g| g.is_none()).count(), 4);
    let none: ListNode<f64> = ListNode { class: vec![], items: vec![Node::Null, Node::Null] };
    assert_eq!(sfc_to_geoms_counted(&none), (vec![None, None], 0));
}
