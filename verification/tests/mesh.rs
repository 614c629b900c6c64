use fbx2u3d::error::ConversionError;
use fbx2u3d::mesh::{
    resolve_material_slot, triangulate_polygons, AttributeLayer, LayerKind, LayerMapping, MaterialLayer,
    MaterialMapping, ReferenceType, TriangulatedFace,
};

fn feature_message(e: ConversionError) -> String {
    match e {
        ConversionError::UnsupportedFbxFeature(m) => m,
        other => panic!("unexpected error {other:?}"),
    }
}

#[test]
fn triangulate_polygons_fans_a_quad_into_two_triangles() {
    let faces = triangulate_polygons(&[0, 1, 2, -4], 4).expect("faces");
    assert_eq!(
        faces,
        vec![
            TriangulatedFace { position_indices: [0, 1, 2], polygon_vertex_indices: [0, 1, 2], polygon_index: 0 },
            TriangulatedFace { position_indices: [0, 2, 3], polygon_vertex_indices: [0, 2, 3], polygon_index: 0 },
        ]
    );
}

#[test]
fn triangulate_polygons_numbers_polygons_and_corners_across_the_list() {
    let faces = triangulate_polygons(&[0, 1, -3, 2, 3, 0, 1, -5], 5).expect("faces");
    assert_eq!(faces.len(), 1 + 3);
    assert_eq!(faces[0].position_indices, [0, 1, 2]);
    assert_eq!(faces[1].position_indices, [2, 3, 0]);
    assert_eq!(faces[1].polygon_vertex_indices, [3, 4, 5]);
    assert_eq!(faces[3].position_indices, [2, 1, 4]);
    assert_eq!(faces[3].polygon_vertex_indices, [3, 6, 7]);
    assert_eq!(faces[3].polygon_index, 1);
}

#[test]
fn triangulate_polygons_skips_degenerate_polygons_but_counts_them() {
    let faces = triangulate_polygons(&[0, -2, 0, 1, -3], 3).expect("faces");
    assert_eq!(faces.len(), 1);
    assert_eq!(faces[0].polygon_index, 1);
    assert_eq!(faces[0].polygon_vertex_indices, [2, 3, 4]);
}

#[test]
fn triangulate_polygons_rejects_out_of_range_vertices() {
    let error = triangulate_polygons(&[0, 1, -5], 4).expect_err("out of range");
    assert_eq!(feature_message(error), "PolygonVertexIndex references a vertex outside the Vertices array");
}

#[test]
fn triangulate_polygons_rejects_an_unterminated_polygon() {
    let error = triangulate_polygons(&[0, 1, 2], 4).expect_err("unterminated");
    assert_eq!(feature_message(error), "PolygonVertexIndex ended with an unterminated polygon");
}

#[test]
fn triangulate_polygons_accepts_an_empty_list() {
    assert!(triangulate_polygons(&[], 0).expect("faces").is_empty());
}

#[test]
fn layer_mappings_read_their_fbx_names() {
    assert_eq!(LayerMapping::from_fbx_value("ByPolygonVertex").expect("mapping"), LayerMapping::ByPolygonVertex);
    assert_eq!(LayerMapping::from_fbx_value("ByVertice").expect("mapping"), LayerMapping::ByControlPoint);
    assert_eq!(LayerMapping::from_fbx_value("ByVertex").expect("mapping"), LayerMapping::ByControlPoint);
    assert_eq!(LayerMapping::from_fbx_value("ByControlPoint").expect("mapping"), LayerMapping::ByControlPoint);
    let error = LayerMapping::from_fbx_value("ByEdge").expect_err("unsupported");
    assert_eq!(feature_message(error), "unsupported layer mapping type: ByEdge");
}

#[test]
fn material_mappings_read_their_fbx_names() {
    assert_eq!(MaterialMapping::from_fbx_value("AllSame").expect("mapping"), MaterialMapping::AllSame);
    assert_eq!(MaterialMapping::from_fbx_value("ByPolygon").expect("mapping"), MaterialMapping::ByPolygon);
    let error = MaterialMapping::from_fbx_value("ByEdge").expect_err("unsupported");
    assert_eq!(feature_message(error), "unsupported material mapping type: ByEdge");
}

#[test]
fn reference_types_read_their_fbx_names() {
    assert_eq!(ReferenceType::from_fbx_value("Direct").expect("reference"), ReferenceType::Direct);
    assert_eq!(ReferenceType::from_fbx_value("IndexToDirect").expect("reference"), ReferenceType::IndexToDirect);
    let error = ReferenceType::from_fbx_value("Index").expect_err("unsupported");
    assert_eq!(feature_message(error), "unsupported layer reference type: Index");
}

#[test]
fn slot_for_polygon_follows_the_mapping() {
    let all_same = MaterialLayer { mapping: MaterialMapping::AllSame, materials: vec![2, 0] };
    assert_eq!(all_same.slot_for_polygon(1), Some(2));
    let by_polygon = MaterialLayer { mapping: MaterialMapping::ByPolygon, materials: vec![1, 0, -1] };
    assert_eq!(by_polygon.slot_for_polygon(1), Some(0));
    assert_eq!(by_polygon.slot_for_polygon(2), None);
    assert_eq!(by_polygon.slot_for_polygon(9), Some(1));
    let empty = MaterialLayer { mapping: MaterialMapping::ByPolygon, materials: Vec::new() };
    assert_eq!(empty.slot_for_polygon(0), Some(0));
}

#[test]
fn resolve_material_slot_checks_the_binding_count() {
    let layer = MaterialLayer { mapping: MaterialMapping::ByPolygon, materials: vec![0, 2] };
    assert_eq!(resolve_material_slot(Some(&layer), 0, 1).expect("slot"), 0);
    assert_eq!(resolve_material_slot(None, 5, 1).expect("slot"), 0);
    let negative = MaterialLayer { mapping: MaterialMapping::AllSame, materials: vec![-3] };
    assert_eq!(resolve_material_slot(Some(&negative), 0, 1).expect("slot"), 0);
    let error = resolve_material_slot(Some(&layer), 1, 2).expect_err("slot past bindings");
    assert_eq!(
        feature_message(error),
        "material layer references slot 2, but only 2 material bindings were found"
    );
}

#[test]
fn attribute_layer_resolves_direct_and_indexed_values() {
    let direct = AttributeLayer {
        kind: LayerKind::Uv,
        mapping: LayerMapping::ByControlPoint,
        reference: ReferenceType::Direct,
        values: vec![(0.0, 0.5), (1.0, 0.25)],
        indices: Vec::new(),
    };
    assert_eq!(direct.resolve(7, 1).expect("uv"), (1.0, 0.25));
    let indexed = AttributeLayer {
        kind: LayerKind::Normal,
        mapping: LayerMapping::ByPolygonVertex,
        reference: ReferenceType::IndexToDirect,
        values: vec![(0.0, 0.0, 1.0), (0.0, 1.0, 0.0)],
        indices: vec![1, 0, -1, 5],
    };
    assert_eq!(indexed.resolve(0, 9).expect("normal"), (0.0, 1.0, 0.0));
    assert_eq!(
        feature_message(indexed.resolve(2, 0).expect_err("negative index")),
        "LayerElementNormal IndexToDirect mapping referenced a missing normal index"
    );
    assert_eq!(
        feature_message(indexed.resolve(3, 0).expect_err("index past values")),
        "LayerElementNormal referenced a normal outside the normal array"
    );
    assert_eq!(
        feature_message(direct.resolve(0, 2).expect_err("past values")),
        "LayerElementUV referenced a UV coordinate outside the UV array"
    );
}
