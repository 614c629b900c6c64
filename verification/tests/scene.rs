use fbx2u3d::error::ConversionError;
use fbx2u3d::fbx::{FbxNode, FbxProperty, Number};
use fbx2u3d::hierarchy::model_chain;
use fbx2u3d::layout::{scene_layout, scene_model_links};
use fbx2u3d::objects::Opacity;
use fbx2u3d::part::{build_part_topology, mesh_resource_name, NormalEntry};
use fbx2u3d::scene::read_scene_objects;
use fbx2u3d::shading::{build_shadings_for_model, model_material_ids};

fn node(name: &str, properties: Vec<FbxProperty<f64>>, children: Vec<FbxNode<f64>>) -> FbxNode<f64> {
    FbxNode { name: name.to_owned(), properties, children }
}

fn text(value: &str) -> FbxProperty<f64> {
    FbxProperty::String(value.to_owned())
}

fn string_child(name: &str, value: &str) -> FbxNode<f64> {
    node(name, vec![text(value)], Vec::new())
}

fn properties70_vec3(name: &str, value: [f64; 3]) -> FbxNode<f64> {
    node(
        "P",
        vec![
            text(name),
            text(name),
            text(""),
            text("A"),
            FbxProperty::F64(value[0]),
            FbxProperty::F64(value[1]),
            FbxProperty::F64(value[2]),
        ],
        Vec::new(),
    )
}

fn properties70_f64(name: &str, value: f64) -> FbxNode<f64> {
    node("P", vec![text(name), text(name), text(""), text("A"), FbxProperty::F64(value)], Vec::new())
}

fn quad_geometry(id: i64, label: &str, layers: Vec<FbxNode<f64>>) -> FbxNode<f64> {
    let mut children = vec![
        node(
            "Vertices",
            vec![FbxProperty::F64Array(vec![0.0, 0.0, 0.0, 1.0, 0.0, 0.0, 1.0, 1.0, 0.0, 0.0, 1.0, 0.0])],
            Vec::new(),
        ),
        node("PolygonVertexIndex", vec![FbxProperty::I32Array(vec![0, 1, 2, -4])], Vec::new()),
    ];
    children.extend(layers);
    node("Geometry", vec![FbxProperty::I64(id), text(label), text("Mesh")], children)
}

fn model(id: i64, label: &str, kind: &str, translation: [f64; 3]) -> FbxNode<f64> {
    node(
        "Model",
        vec![FbxProperty::I64(id), text(label), text(kind)],
        vec![node(
            "Properties70",
            Vec::new(),
            vec![
                properties70_vec3("Lcl Translation", translation),
                properties70_vec3("Lcl Rotation", [0.0, 0.0, 0.0]),
                properties70_vec3("Lcl Scaling", [1.0, 1.0, 1.0]),
            ],
        )],
    )
}

fn link(kind: &str, child: i64, parent: i64) -> FbxNode<f64> {
    node("C", vec![text(kind), FbxProperty::I64(child), FbxProperty::I64(parent)], Vec::new())
}

fn document(objects: Vec<FbxNode<f64>>, connections: Vec<FbxNode<f64>>) -> Vec<FbxNode<f64>> {
    vec![node("Objects", Vec::new(), objects), node("Connections", Vec::new(), connections)]
}

fn synthetic_mesh_file() -> Vec<FbxNode<f64>> {
    document(
        vec![quad_geometry(1001, "Geometry::Box", Vec::new()), model(2001, "Model::Box", "Mesh", [2.0, 3.0, 4.0])],
        vec![link("OO", 1001, 2001)],
    )
}

fn synthetic_hierarchy_file() -> Vec<FbxNode<f64>> {
    document(
        vec![
            quad_geometry(1001, "Geometry::Body", Vec::new()),
            model(2001, "Model::Body", "Mesh", [2.0, 3.0, 4.0]),
            model(3001, "Model::Assembly", "Null", [10.0, 0.0, 0.0]),
        ],
        vec![link("OO", 1001, 2001), link("OO", 2001, 3001)],
    )
}

fn synthetic_instanced_geometry_file() -> Vec<FbxNode<f64>> {
    document(
        vec![
            quad_geometry(1001, "Geometry::SharedBody", Vec::new()),
            model(2001, "Model::BodyA", "Mesh", [2.0, 0.0, 0.0]),
            model(2002, "Model::BodyB", "Mesh", [6.0, 0.0, 0.0]),
            model(3001, "Model::Assembly", "Null", [10.0, 0.0, 0.0]),
        ],
        vec![link("OO", 1001, 2001), link("OO", 1001, 2002), link("OO", 2001, 3001), link("OO", 2002, 3001)],
    )
}

fn layer_element_material_node() -> FbxNode<f64> {
    node(
        "LayerElementMaterial",
        Vec::new(),
        vec![
            string_child("MappingInformationType", "AllSame"),
            string_child("ReferenceInformationType", "IndexToDirect"),
            node("Materials", vec![FbxProperty::I32Array(vec![0])], Vec::new()),
        ],
    )
}

fn layer_element_uv_node() -> FbxNode<f64> {
    node(
        "LayerElementUV",
        Vec::new(),
        vec![
            string_child("MappingInformationType", "ByPolygonVertex"),
            string_child("ReferenceInformationType", "IndexToDirect"),
            node("UV", vec![FbxProperty::F64Array(vec![0.0, 0.0, 1.0, 0.0, 1.0, 1.0, 0.0, 1.0])], Vec::new()),
            node("UVIndex", vec![FbxProperty::I32Array(vec![0, 1, 2, 3])], Vec::new()),
        ],
    )
}

fn layer_element_normal_node() -> FbxNode<f64> {
    node(
        "LayerElementNormal",
        Vec::new(),
        vec![
            string_child("MappingInformationType", "ByPolygonVertex"),
            string_child("ReferenceInformationType", "Direct"),
            node(
                "Normals",
                vec![FbxProperty::F64Array(vec![0.0, 0.6, 0.8, 0.0, 0.6, 0.8, 0.0, 0.6, 0.8, 0.0, 0.6, 0.8])],
                Vec::new(),
            ),
        ],
    )
}

fn synthetic_textured_mesh_file(texture_file_name: &str) -> Vec<FbxNode<f64>> {
    document(
        vec![
            quad_geometry(1001, "Geometry::Panel", vec![layer_element_material_node(), layer_element_uv_node()]),
            model(2001, "Model::Panel", "Mesh", [0.0, 0.0, 0.0]),
            node(
                "Material",
                vec![FbxProperty::I64(3001), text("Material::Paint"), text("")],
                vec![node(
                    "Properties70",
                    Vec::new(),
                    vec![
                        properties70_vec3("AmbientColor", [0.1, 0.2, 0.3]),
                        properties70_vec3("DiffuseColor", [0.25, 0.5, 0.75]),
                        properties70_vec3("SpecularColor", [0.6, 0.5, 0.4]),
                        properties70_vec3("EmissiveColor", [0.05, 0.0, 0.0]),
                        properties70_f64("ReflectionFactor", 0.2),
                        properties70_f64("Opacity", 0.85),
                    ],
                )],
            ),
            node("Texture", vec![FbxProperty::I64(4001), text("Texture::Diffuse"), text("")], Vec::new()),
            node(
                "Video",
                vec![FbxProperty::I64(5001), text("Video::Diffuse"), text("")],
                vec![string_child("RelativeFilename", texture_file_name)],
            ),
        ],
        vec![
            link("OO", 1001, 2001),
            link("OO", 3001, 2001),
            node(
                "C",
                vec![text("OP"), FbxProperty::I64(4001), FbxProperty::I64(3001), text("DiffuseColor")],
                Vec::new(),
            ),
            link("OO", 5001, 4001),
        ],
    )
}

#[test]
fn extract_scene_mesh_preserves_parent_group_hierarchy() {
    let (objects, connections) = read_scene_objects(&synthetic_hierarchy_file()).expect("scene");
    let layout = scene_layout(&objects, &connections).expect("layout");

    assert_eq!(layout.nodes.len(), 2);
    assert_eq!(layout.nodes[0].name, "Assembly");
    assert_eq!(layout.nodes[0].mesh_index, None);
    assert_eq!(layout.nodes[0].parent_index, None);
    assert_eq!(layout.nodes[1].name, "Body");
    assert_eq!(layout.nodes[1].parent_index, Some(0));
    assert_eq!(layout.nodes[1].mesh_index, Some(0));
    assert_eq!(layout.parts.len(), 1);
    assert_eq!(layout.parts[0].node_index, 1);
    assert_eq!(layout.parts[0].geometry_id, 1001);
}

#[test]
fn extract_scene_mesh_preserves_multiple_instances_of_shared_geometry() {
    let (objects, connections) = read_scene_objects(&synthetic_instanced_geometry_file()).expect("scene");
    let layout = scene_layout(&objects, &connections).expect("layout");

    assert_eq!(layout.nodes.len(), 3);
    assert_eq!(layout.parts.len(), 2);
    assert_eq!(layout.nodes[0].name, "Assembly");
    assert_eq!(layout.nodes[1].name, "BodyA");
    assert_eq!(layout.nodes[2].name, "BodyB");
    assert_eq!(layout.nodes[1].parent_index, Some(0));
    assert_eq!(layout.nodes[2].parent_index, Some(0));
    assert_eq!(layout.nodes[1].mesh_index, Some(0));
    assert_eq!(layout.nodes[2].mesh_index, Some(1));
    assert_eq!(layout.parts[0].geometry_id, layout.parts[1].geometry_id);
    assert_eq!(mesh_resource_name(&layout.parts[0].base_name, "SharedBody"), "BodyA_Mesh");
    assert_eq!(mesh_resource_name(&layout.parts[1].base_name, "SharedBody"), "BodyB_Mesh");
}

#[test]
fn synthetic_mesh_reads_one_box_model() {
    let (objects, connections) = read_scene_objects(&synthetic_mesh_file()).expect("scene");
    let layout = scene_layout(&objects, &connections).expect("layout");
    assert_eq!(layout.nodes.len(), 1);
    assert_eq!(layout.nodes[0].name, "Box");
    assert_eq!(layout.nodes[0].mesh_index, Some(0));
    assert_eq!(layout.nodes[0].model_id, Some(2001));

    let box_model = objects.models.get(2001).expect("model");
    let translation = box_model.properties.translation.expect("translation");
    assert_eq!(translation.x, Number::Float(2.0));
    assert_eq!(translation.y, Number::Float(3.0));
    assert_eq!(translation.z, Number::Float(4.0));

    let geometry = objects.geometries.get(1001).expect("geometry");
    assert_eq!(geometry.name, "Box");
    assert_eq!(geometry.vertices[2], (1.0, 1.0, 0.0));
    let shadings = build_shadings_for_model(&objects, &connections, "Box", &Vec::new());
    let textured: Vec<bool> = shadings.shadings.iter().map(|s| s.diffuse_texture.is_some()).collect();
    let topology = build_part_topology(geometry, &textured).expect("topology");
    let positions: Vec<[usize; 3]> = topology.triangles.iter().map(|t| t.position_indices).collect();
    assert_eq!(positions, vec![[0, 1, 2], [0, 2, 3]]);
    assert!(topology.texture_coords.is_empty());
    assert!(matches!(topology.normals[3], NormalEntry::Face(1)));
    assert_eq!(mesh_resource_name("Box", "Box"), "Box_Mesh");
}

#[test]
fn extract_scene_mesh_preserves_source_normals_when_present() {
    let file = document(
        vec![
            quad_geometry(1001, "Geometry::SmoothPanel", vec![layer_element_normal_node()]),
            model(2001, "Model::SmoothPanel", "Mesh", [0.0, 0.0, 0.0]),
        ],
        vec![link("OO", 1001, 2001)],
    );
    let (objects, connections) = read_scene_objects(&file).expect("scene");
    let geometry = objects.geometries.get(1001).expect("geometry");
    let shadings = build_shadings_for_model(&objects, &connections, "SmoothPanel", &Vec::new());
    assert_eq!(shadings.shadings.len(), 1);
    let topology = build_part_topology(geometry, &vec![false]).expect("topology");
    assert_eq!(topology.normals.len(), 6);
    assert!(matches!(topology.normals[0], NormalEntry::Stored((x, y, z)) if x == 0.0 && y == 0.6 && z == 0.8));
    assert_eq!(topology.triangles[0].normal_indices, [0, 1, 2]);
    assert_eq!(topology.triangles[1].normal_indices, [3, 4, 5]);
}

#[test]
fn extract_scene_mesh_exports_material_color_and_texture_data() {
    let (objects, connections) = read_scene_objects(&synthetic_textured_mesh_file("panel.tga")).expect("scene");
    let material_ids = model_material_ids(&connections, Some(2001));
    assert_eq!(material_ids, vec![3001]);
    let shadings = build_shadings_for_model(&objects, &connections, "Panel", &material_ids);
    assert!(shadings.error.is_none());
    assert_eq!(shadings.shadings.len(), 1);
    let shading = &shadings.shadings[0];
    assert_eq!(shading.shader_name, "Panel_Shader1");
    assert_eq!(shading.material_name, "Panel_Paint");
    let diffuse = shading.properties.diffuse.expect("diffuse");
    assert_eq!((diffuse.x, diffuse.y, diffuse.z), (Number::Float(0.25), Number::Float(0.5), Number::Float(0.75)));
    assert_eq!(shading.properties.opacity, Some(Opacity::Direct(Number::Float(0.85))));
    let texture = shading.diffuse_texture.as_ref().expect("diffuse texture");
    assert_eq!(texture.texture_name, "Panel_Diffuse_1");
    assert_eq!(texture.raw_path, "panel.tga");

    let geometry = objects.geometries.get(1001).expect("geometry");
    let topology = build_part_topology(geometry, &vec![true]).expect("topology");
    assert_eq!(topology.texture_coords.len(), 6);
    assert!(topology.triangles.iter().all(|triangle| triangle.texture_coord_indices.is_some()));
    assert_eq!(topology.triangles[1].texture_coord_indices, Some([3, 4, 5]));
    assert_eq!(topology.texture_coords[4], (1.0, 1.0));
}

#[test]
fn textured_shading_needs_a_uv_layer() {
    let (objects, _) = read_scene_objects(&synthetic_mesh_file()).expect("scene");
    let geometry = objects.geometries.get(1001).expect("geometry");
    match build_part_topology(geometry, &vec![true]) {
        Err(ConversionError::UnsupportedFbxFeature(m)) => {
            assert_eq!(m, "a diffuse texture is connected, but the mesh is missing LayerElementUV data")
        }
        other => panic!("unexpected {other:?}"),
    }
}

#[test]
fn model_chain_walks_up_to_the_root() {
    let (objects, connections) = read_scene_objects(&synthetic_hierarchy_file()).expect("scene");
    let links = scene_model_links(&objects, &connections);
    assert_eq!(model_chain(&links, Some(2001)).expect("chain"), vec![2001, 3001]);
    assert_eq!(model_chain(&links, Some(3001)).expect("chain"), vec![3001]);
    assert!(model_chain(&links, None).expect("chain").is_empty());
}

#[test]
fn cyclic_hierarchies_are_refused() {
    let file = document(
        vec![
            quad_geometry(1001, "Geometry::Body", Vec::new()),
            model(2001, "Model::A", "Mesh", [0.0, 0.0, 0.0]),
            model(2002, "Model::B", "Null", [0.0, 0.0, 0.0]),
        ],
        vec![link("OO", 1001, 2001), link("OO", 2001, 2002), link("OO", 2002, 2001)],
    );
    let (objects, connections) = read_scene_objects(&file).expect("scene");
    match scene_layout(&objects, &connections) {
        Err(ConversionError::UnsupportedFbxFeature(m)) => assert_eq!(m, "model hierarchy is cyclic"),
        other => panic!("unexpected {other:?}"),
    }
    let links = scene_model_links(&objects, &connections);
    match model_chain(&links, Some(2001)) {
        Err(ConversionError::UnsupportedFbxFeature(m)) => assert_eq!(m, "model hierarchy is too deep or cyclic"),
        other => panic!("unexpected {other:?}"),
    }
}

#[test]
fn unbound_geometries_become_numbered_root_bodies() {
    let file = document(
        vec![quad_geometry(1002, "Geometry::", Vec::new()), quad_geometry(1001, "Geometry::Loose", Vec::new())],
        Vec::new(),
    );
    let (objects, connections) = read_scene_objects(&file).expect("scene");
    let layout = scene_layout(&objects, &connections).expect("layout");
    assert_eq!(layout.nodes.len(), 2);
    assert_eq!(layout.nodes[0].name, "Loose");
    assert_eq!(layout.nodes[1].name, "Body2");
    assert_eq!(layout.parts[1].geometry_id, 1002);
    assert_eq!(layout.nodes[1].parent_index, None);
}

#[test]
fn a_document_without_geometry_has_no_mesh() {
    let file = document(vec![model(2001, "Model::Empty", "Null", [0.0, 0.0, 0.0])], Vec::new());
    assert!(matches!(read_scene_objects(&file), Err(ConversionError::MeshMissing)));
    assert!(matches!(read_scene_objects::<f64>(&Vec::new()), Err(ConversionError::MeshMissing)));
}

#[test]
fn part_topology_indices_point_at_existing_entries() {
    let (objects, _) = read_scene_objects(&synthetic_textured_mesh_file("panel.tga")).expect("scene");
    let geometry = objects.geometries.get(1001).expect("geometry");
    let topology = build_part_topology(geometry, &vec![true]).expect("topology");
    for triangle in &topology.triangles {
        for j in 0..3 {
            assert!(triangle.position_indices[j] < geometry.vertices.len());
            assert!(triangle.normal_indices[j] < topology.normals.len());
            assert!(triangle.texture_coord_indices.expect("textured")[j] < topology.texture_coords.len());
        }
        assert_eq!(triangle.shading_index, 0);
    }
}
