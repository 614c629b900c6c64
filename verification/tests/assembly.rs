use fbx2u3d::assembly::{
    assemble_scene, make_scene_names_unique, use_staged_textures, RenderedPart, RenderedShading,
    RenderedTransform, ShadingTexture,
};
use fbx2u3d::document::{idtf_document, prepare_idtf_scene, scene_counts};
use fbx2u3d::error::ConversionError;
use fbx2u3d::fbx::{FbxNode, FbxProperty};
use fbx2u3d::idtf::check_idtf_scene;
use fbx2u3d::layout::{scene_layout, SceneLayout};
use fbx2u3d::objects::RotationOrder;
use fbx2u3d::part::{build_part_topology, mesh_resource_name};
use fbx2u3d::scene::{read_scene_objects, SceneObjects};
use fbx2u3d::shading::{build_shadings_for_model, model_material_ids};
use fbx2u3d::scene::SceneConnections;

fn node(name: &str, properties: Vec<FbxProperty<f64>>, children: Vec<FbxNode<f64>>) -> FbxNode<f64> {
    FbxNode { name: name.to_owned(), properties, children }
}

fn text(value: &str) -> FbxProperty<f64> {
    FbxProperty::String(value.to_owned())
}

fn record(values: Vec<FbxProperty<f64>>) -> FbxNode<f64> {
    node("P", values, Vec::new())
}

fn quad_geometry(id: i64, label: &str, kind: &str) -> FbxNode<f64> {
    node(
        "Geometry",
        vec![FbxProperty::I64(id), text(label), text(kind)],
        vec![
            node(
                "Vertices",
                vec![FbxProperty::F64Array(vec![0.0, 0.0, 0.0, 1.0, 0.0, 0.0, 1.0, 1.0, 0.0, 0.0, 1.0, 0.0])],
                Vec::new(),
            ),
            node("PolygonVertexIndex", vec![FbxProperty::I32Array(vec![0, 1, 2, -4])], Vec::new()),
        ],
    )
}

fn model(id: i64, label: &str, kind: &str, records: Vec<FbxNode<f64>>) -> FbxNode<f64> {
    node(
        "Model",
        vec![FbxProperty::I64(id), text(label), text(kind)],
        vec![node("Properties70", Vec::new(), records)],
    )
}

fn link(child: i64, parent: i64) -> FbxNode<f64> {
    node("C", vec![text("OO"), FbxProperty::I64(child), FbxProperty::I64(parent)], Vec::new())
}

fn document(objects: Vec<FbxNode<f64>>, connections: Vec<FbxNode<f64>>) -> Vec<FbxNode<f64>> {
    vec![node("Objects", Vec::new(), objects), node("Connections", Vec::new(), connections)]
}

fn identity_transform(translation: &str) -> RenderedTransform {
    RenderedTransform {
        first_row: "1.000000 0.000000 0.000000 0.000000".to_owned(),
        second_row: "0.000000 1.000000 0.000000 0.000000".to_owned(),
        third_row: "0.000000 0.000000 1.000000 0.000000".to_owned(),
        fourth_row: format!("{translation} 1.000000"),
    }
}

fn rendered_shading(shader: &str, material: &str, texture: Option<(&str, &str)>) -> RenderedShading {
    RenderedShading {
        shader_name: shader.to_owned(),
        material_name: material.to_owned(),
        ambient: "0.180000 0.180000 0.180000".to_owned(),
        diffuse: "0.705882 0.705882 0.705882".to_owned(),
        specular: "0.050000 0.050000 0.050000".to_owned(),
        emissive: "0.000000 0.000000 0.000000".to_owned(),
        reflectivity: "0.000000".to_owned(),
        opacity: "1.000000".to_owned(),
        texture: texture.map(|(name, file)| ShadingTexture { texture_name: name.to_owned(), file_name: file.to_owned() }),
    }
}

/// The parts of a layout rendered the way the command renders them, with
/// untextured shadings and upward normals.
fn render_parts(objects: &SceneObjects<f64>, connections: &SceneConnections, layout: &SceneLayout) -> Vec<RenderedPart> {
    let mut parts = Vec::new();
    for part in &layout.parts {
        let geometry = objects.geometries.get(part.geometry_id).expect("geometry");
        let material_ids = model_material_ids(connections, part.model_id);
        let built = build_shadings_for_model(objects, connections, &part.base_name, &material_ids);
        let textured = vec![false; built.shadings.len()];
        let topology = build_part_topology(geometry, &textured).expect("topology");
        parts.push(RenderedPart {
            mesh_name: mesh_resource_name(&part.base_name, &geometry.name),
            positions: geometry.vertices.iter().map(|(x, y, z)| format!("{x:.6} {y:.6} {z:.6}")).collect(),
            normals: vec!["0.000000 0.000000 1.000000".to_owned(); topology.normals.len()],
            texture_coords: Vec::new(),
            triangles: topology.triangles,
            shadings: built
                .shadings
                .iter()
                .map(|s| rendered_shading(&s.shader_name, &s.material_name, None))
                .collect(),
        });
    }
    parts
}

fn hierarchy_file() -> Vec<FbxNode<f64>> {
    document(
        vec![
            quad_geometry(1001, "Geometry::Body", "Mesh"),
            model(2001, "Model::Body", "Mesh", Vec::new()),
            model(3001, "Model::Assembly", "Null", Vec::new()),
        ],
        vec![link(1001, 2001), link(2001, 3001)],
    )
}

fn corners() -> Vec<String> {
    vec![
        "0.500000 0.500000 0.000000".to_owned(),
        "0.550000 0.500000 0.000000".to_owned(),
        "0.500000 0.550000 0.000000".to_owned(),
    ]
}

#[test]
fn extracted_hierarchy_is_assembled_and_written() {
    let (objects, connections) = read_scene_objects(&hierarchy_file()).expect("scene");
    let layout = scene_layout(&objects, &connections).expect("layout");
    let transforms: Vec<RenderedTransform> = layout
        .nodes
        .iter()
        .map(|n| identity_transform(if n.name == "Assembly" { "10.000000 0.000000 0.000000" } else { "2.000000 3.000000 4.000000" }))
        .collect();
    let parts = render_parts(&objects, &connections, &layout);
    let mut scene = assemble_scene(&layout, transforms, parts);

    assert!(check_idtf_scene(&scene));
    assert_eq!(scene.names.node_names, vec!["Assembly".to_owned(), "Body".to_owned()]);
    assert_eq!(scene.nodes[0].parent_index, None);
    assert_eq!(scene.nodes[0].mesh_index, None);
    assert_eq!(scene.nodes[1].parent_index, Some(0));
    assert_eq!(scene.nodes[1].mesh_index, Some(0));
    assert_eq!(scene.nodes[1].transform_rows[3], "2.000000 3.000000 4.000000 1.000000");
    assert_eq!(scene.parts.len(), 1);
    assert_eq!(scene.parts[0].node_index, 1);
    assert_eq!(scene.parts[0].shading_count, 1);
    assert_eq!(scene.names.mesh_names, vec!["Body_Mesh".to_owned()]);
    assert_eq!(scene.shadings.len(), 1);
    assert_eq!(scene.view_translation, "");
    assert_eq!(scene.light_translation, "");

    let counts = scene_counts(&scene).expect("counts");
    assert_eq!((counts.nodes, counts.parts, counts.vertices, counts.triangles), (2, 1, 4, 2));

    scene.view_translation = "12.500000 -3.000000 5.400000".to_owned();
    scene.light_translation = "13.500000 -1.500000 5.000000".to_owned();
    let idtf = idtf_document(scene, corners());
    assert_eq!(idtf.matches("NODE \"GROUP\" {").count(), 1);
    assert_eq!(idtf.matches("NODE \"MODEL\" {").count(), 2);
    assert!(idtf.contains("NODE \"GROUP\" {\n\tNODE_NAME \"Assembly\""));
    assert!(idtf.contains("NODE \"MODEL\" {\n\tNODE_NAME \"Body\""));
    assert!(idtf.contains("PARENT_NAME \"Assembly\""));
    assert!(idtf.contains("RESOURCE_LIST \"MODEL\" {\n\tRESOURCE_COUNT 2\n"));
    assert!(idtf.contains("RESOURCE_LIST \"SHADER\" {\n\tRESOURCE_COUNT 2\n"));
    assert!(idtf.contains("RESOURCE_LIST \"MATERIAL\" {\n\tRESOURCE_COUNT 2\n"));
    assert!(idtf.contains("\t\t\t\t10.000000 0.000000 0.000000 1.000000\n"));
    assert!(!idtf.contains("RESOURCE_LIST \"TEXTURE\""));
}

#[test]
fn assembled_shadings_follow_their_parts() {
    let layout_file = document(
        vec![
            quad_geometry(1001, "Geometry::A", "Mesh"),
            quad_geometry(1002, "Geometry::B", "Mesh"),
            model(2001, "Model::A", "Mesh", Vec::new()),
            model(2002, "Model::B", "Mesh", Vec::new()),
        ],
        vec![link(1001, 2001), link(1002, 2002)],
    );
    let (objects, connections) = read_scene_objects(&layout_file).expect("scene");
    let layout = scene_layout(&objects, &connections).expect("layout");
    let transforms: Vec<RenderedTransform> = layout.nodes.iter().map(|_| identity_transform("0.000000 0.000000 0.000000")).collect();
    let mut parts = render_parts(&objects, &connections, &layout);
    parts[1].shadings = vec![
        rendered_shading("B_Shader1", "B_Material1", Some(("B_Diffuse_1", "b.tga"))),
        rendered_shading("B_Shader2", "B_Material2", None),
    ];
    let scene = assemble_scene(&layout, transforms, parts);
    assert!(check_idtf_scene(&scene));
    assert_eq!(scene.parts[0].shading_count, 1);
    assert_eq!(scene.parts[1].shading_count, 2);
    assert_eq!(scene.shadings.len(), 3);
    assert_eq!(scene.names.shadings[1].shader_name, "B_Shader1");
    assert_eq!(scene.names.shadings[1].texture_name.as_deref(), Some("B_Diffuse_1"));
    assert_eq!(scene.shadings[1].texture_path.as_deref(), Some("b.tga"));
    assert_eq!(scene.names.shadings[2].material_name, "B_Material2");
    assert!(scene.shadings[2].texture_path.is_none());
    assert!(scene.names.shadings[2].texture_name.is_none());
}

#[test]
fn staged_texture_names_replace_only_textured_paths() {
    let (objects, connections) = read_scene_objects(&hierarchy_file()).expect("scene");
    let layout = scene_layout(&objects, &connections).expect("layout");
    let transforms: Vec<RenderedTransform> = layout.nodes.iter().map(|_| identity_transform("0.000000 0.000000 0.000000")).collect();
    let mut parts = render_parts(&objects, &connections, &layout);
    parts[0].shadings = vec![
        rendered_shading("S1", "M1", Some(("T1", "panel.tga"))),
        rendered_shading("S2", "M2", None),
    ];
    let mut scene = assemble_scene(&layout, transforms, parts);
    use_staged_textures(&mut scene, &vec![Some("panel-1.tga".to_owned()), Some("ignored.tga".to_owned())]);
    assert_eq!(scene.shadings[0].texture_path.as_deref(), Some("panel-1.tga"));
    assert!(scene.shadings[1].texture_path.is_none());
    assert!(check_idtf_scene(&scene));

    use_staged_textures(&mut scene, &Vec::new());
    assert_eq!(scene.shadings[0].texture_path.as_deref(), Some("panel-1.tga"));
}

#[test]
fn scene_names_are_made_unique_in_place() {
    let file = document(
        vec![
            quad_geometry(1001, "Geometry::Twin", "Mesh"),
            quad_geometry(1002, "Geometry::Twin", "Mesh"),
            model(2001, "Model::Twin", "Mesh", Vec::new()),
            model(2002, "Model::Twin", "Mesh", Vec::new()),
        ],
        vec![link(1001, 2001), link(1002, 2002)],
    );
    let (objects, connections) = read_scene_objects(&file).expect("scene");
    let layout = scene_layout(&objects, &connections).expect("layout");
    let transforms: Vec<RenderedTransform> = layout.nodes.iter().map(|_| identity_transform("0.000000 0.000000 0.000000")).collect();
    let parts = render_parts(&objects, &connections, &layout);
    let mut scene = assemble_scene(&layout, transforms, parts);
    assert_eq!(scene.names.node_names, vec!["Twin".to_owned(), "Twin".to_owned()]);
    make_scene_names_unique(&mut scene);
    assert_eq!(scene.names.node_names, vec!["Twin".to_owned(), "Twin_2".to_owned()]);
    assert_eq!(scene.names.mesh_names, vec!["Twin_Mesh".to_owned(), "Twin_Mesh_2".to_owned()]);
    assert!(check_idtf_scene(&scene));
}

#[test]
fn a_document_without_mesh_geometry_has_no_mesh() {
    let file = document(
        vec![quad_geometry(1001, "Geometry::Curve", "Shape"), model(2001, "Model::Curve", "Mesh", Vec::new())],
        vec![link(1001, 2001)],
    );
    assert!(matches!(read_scene_objects(&file), Err(ConversionError::MeshMissing)));
}

#[test]
fn a_scene_with_a_mesh_lays_out_at_least_one_part() {
    let file = document(vec![quad_geometry(1001, "Geometry::Loose", "Mesh")], Vec::new());
    let (objects, connections) = read_scene_objects(&file).expect("scene");
    let layout = scene_layout(&objects, &connections).expect("layout");
    assert_eq!(layout.parts.len(), 1);
    assert_eq!(layout.nodes[layout.parts[0].node_index].mesh_index, Some(0));
}

#[test]
fn the_last_parent_record_wins() {
    let file = document(
        vec![
            quad_geometry(1001, "Geometry::Body", "Mesh"),
            model(2001, "Model::Body", "Mesh", Vec::new()),
            model(3001, "Model::First", "Null", Vec::new()),
            model(3002, "Model::Second", "Null", Vec::new()),
        ],
        vec![link(1001, 2001), link(2001, 3001), link(2001, 3002)],
    );
    let (objects, connections) = read_scene_objects(&file).expect("scene");
    let layout = scene_layout(&objects, &connections).expect("layout");
    let body = layout.nodes.iter().position(|n| n.name == "Body").expect("body");
    let parent = layout.nodes[body].parent_index.expect("parent");
    assert_eq!(layout.nodes[parent].name, "Second");
}

#[test]
fn model_settings_default_without_records() {
    let file = document(
        vec![quad_geometry(1001, "Geometry::Body", "Mesh"), model(2001, "Model::Body", "Mesh", Vec::new())],
        vec![link(1001, 2001)],
    );
    let (objects, _) = read_scene_objects(&file).expect("scene");
    let body = objects.models.get(2001).expect("model");
    assert!(body.properties.translation.is_none());
    assert!(body.properties.rotation.is_none());
    assert!(body.properties.scaling.is_none());
    assert_eq!(body.properties.rotation_order, RotationOrder::Xyz);
}

#[test]
fn rotation_order_records_are_read_and_checked() {
    let order = |value: i32| {
        record(vec![text("RotationOrder"), text("enum"), text(""), text(""), FbxProperty::I32(value)])
    };
    let file = document(
        vec![quad_geometry(1001, "Geometry::Body", "Mesh"), model(2001, "Model::Body", "Mesh", vec![order(4)])],
        vec![link(1001, 2001)],
    );
    let (objects, _) = read_scene_objects(&file).expect("scene");
    assert_eq!(objects.models.get(2001).expect("model").properties.rotation_order, RotationOrder::Zxy);

    let file = document(
        vec![quad_geometry(1001, "Geometry::Body", "Mesh"), model(2001, "Model::Body", "Mesh", vec![order(6)])],
        vec![link(1001, 2001)],
    );
    match read_scene_objects(&file) {
        Err(ConversionError::UnsupportedFbxFeature(m)) => assert_eq!(m, "RotationOrder property uses an unsupported value"),
        other => panic!("unexpected {:?}", other.map(|_| ())),
    }

    let short = record(vec![text("RotationOrder"), text("enum"), text(""), text("")]);
    let file = document(
        vec![quad_geometry(1001, "Geometry::Body", "Mesh"), model(2001, "Model::Body", "Mesh", vec![short])],
        vec![link(1001, 2001)],
    );
    match read_scene_objects(&file) {
        Err(ConversionError::UnsupportedFbxFeature(m)) => {
            assert_eq!(m, "RotationOrder property is missing its numeric value")
        }
        other => panic!("unexpected {:?}", other.map(|_| ())),
    }
}

#[test]
fn the_notice_mesh_comes_last_and_yields_a_taken_name() {
    let (objects, connections) = read_scene_objects(&hierarchy_file()).expect("scene");
    let layout = scene_layout(&objects, &connections).expect("layout");
    let transforms: Vec<RenderedTransform> = layout.nodes.iter().map(|_| identity_transform("0.000000 0.000000 0.000000")).collect();
    let parts = render_parts(&objects, &connections, &layout);
    let scene = assemble_scene(&layout, transforms, parts);
    let prepared = prepare_idtf_scene(scene, corners());
    assert_eq!(prepared.nodes[0].mesh_index, Some(1));
    assert_eq!(prepared.names.mesh_names[1], "FBX2U3D_NoticeMesh");

    let transforms: Vec<RenderedTransform> = layout.nodes.iter().map(|_| identity_transform("0.000000 0.000000 0.000000")).collect();
    let mut parts = render_parts(&objects, &connections, &layout);
    parts[0].mesh_name = "FBX2U3D_NoticeMesh".to_owned();
    let scene = assemble_scene(&layout, transforms, parts);
    let prepared = prepare_idtf_scene(scene, corners());
    assert_eq!(prepared.names.mesh_names[0], "FBX2U3D_NoticeMesh");
    assert_eq!(prepared.names.mesh_names[1], "FBX2U3D_NoticeMesh_2");
}
