use fbx2u3d::document::{
    idtf_document, idtf_document_text, prepare_idtf_scene, scene_counts, scene_with_notice_root,
};
use fbx2u3d::idtf::{check_idtf_scene, IdtfNode, IdtfPart, IdtfScene, IdtfShading};
use fbx2u3d::names::{SceneNames, ShadingNames};
use fbx2u3d::part::SceneTriangle;

const NOTICE_NODE_NAME: &str =
    "FBX2U3D | https://github.com/MysticFrog/FBX2U3D | fbx2u3d@monkeyco.net | non-commercial output";
const NOTICE_MESH_NAME: &str = "FBX2U3D_NoticeMesh";

fn strings(values: &[&str]) -> Vec<String> {
    values.iter().map(|v| (*v).to_owned()).collect()
}

fn identity_rows(translation: &str) -> Vec<String> {
    vec![
        "1.000000 0.000000 0.000000 0.000000".to_owned(),
        "0.000000 1.000000 0.000000 0.000000".to_owned(),
        "0.000000 0.000000 1.000000 0.000000".to_owned(),
        format!("{translation} 1.000000"),
    ]
}

fn triangle(a: usize, b: usize, c: usize, n: usize, textured: Option<usize>) -> SceneTriangle {
    SceneTriangle {
        position_indices: [a, b, c],
        normal_indices: [n, n + 1, n + 2],
        shading_index: 0,
        texture_coord_indices: textured.map(|t| [t, t + 1, t + 2]),
    }
}

fn quad_part(node_index: usize, textured: bool) -> IdtfPart {
    IdtfPart {
        node_index,
        positions: strings(&[
            "0.000000 0.000000 0.000000",
            "1.000000 0.000000 0.000000",
            "1.000000 1.000000 0.000000",
            "0.000000 1.000000 0.000000",
        ]),
        normals: vec!["0.000000 0.000000 1.000000".to_owned(); 6],
        texture_coords: if textured {
            strings(&["0.000000 0.000000", "1.000000 0.000000", "1.000000 1.000000", "0.000000 0.000000", "1.000000 1.000000", "0.000000 1.000000"])
        } else {
            Vec::new()
        },
        triangles: vec![
            triangle(0, 1, 2, 0, if textured { Some(0) } else { None }),
            triangle(0, 2, 3, 3, if textured { Some(3) } else { None }),
        ],
        shading_count: 1,
    }
}

fn plain_shading(texture_path: Option<&str>) -> IdtfShading {
    IdtfShading {
        ambient: "0.180000 0.180000 0.180000".to_owned(),
        diffuse: "0.705882 0.705882 0.705882".to_owned(),
        specular: "0.050000 0.050000 0.050000".to_owned(),
        emissive: "0.000000 0.000000 0.000000".to_owned(),
        reflectivity: "0.000000".to_owned(),
        opacity: "1.000000".to_owned(),
        texture_path: texture_path.map(|p| p.to_owned()),
    }
}

fn shading_names(base: &str, texture: Option<&str>) -> ShadingNames {
    ShadingNames {
        shader_name: format!("{base}_Shader1"),
        material_name: format!("{base}_Material1"),
        texture_name: texture.map(|t| t.to_owned()),
    }
}

fn box_scene() -> IdtfScene {
    IdtfScene {
        names: SceneNames {
            node_names: strings(&["Box"]),
            mesh_names: strings(&["Box_Mesh"]),
            shadings: vec![shading_names("Box", None)],
        },
        nodes: vec![IdtfNode { parent_index: None, transform_rows: identity_rows("2.000000 3.000000 4.000000"), mesh_index: Some(0) }],
        parts: vec![quad_part(0, false)],
        shadings: vec![plain_shading(None)],
        view_translation: "0.500000 -3.000000 1.400000".to_owned(),
        light_translation: "1.500000 -1.500000 1.000000".to_owned(),
    }
}

fn hierarchy_scene() -> IdtfScene {
    IdtfScene {
        names: SceneNames {
            node_names: strings(&["Assembly", "Body"]),
            mesh_names: strings(&["Body_Mesh"]),
            shadings: vec![shading_names("Body", None)],
        },
        nodes: vec![
            IdtfNode { parent_index: None, transform_rows: identity_rows("10.000000 0.000000 0.000000"), mesh_index: None },
            IdtfNode { parent_index: Some(0), transform_rows: identity_rows("2.000000 3.000000 4.000000"), mesh_index: Some(0) },
        ],
        parts: vec![quad_part(1, false)],
        shadings: vec![plain_shading(None)],
        view_translation: "12.500000 -3.000000 5.400000".to_owned(),
        light_translation: "13.500000 -1.500000 5.000000".to_owned(),
    }
}

fn notice_corners() -> Vec<String> {
    strings(&["0.500000 0.500000 0.000000", "0.550000 0.500000 0.000000", "0.500000 0.550000 0.000000"])
}

#[test]
fn write_idtf_document_contains_mesh_counts() {
    let idtf = idtf_document(box_scene(), notice_corners());
    assert!(idtf.contains("NODE_NAME \"Box\""));
    assert!(idtf.contains("MODEL_POSITION_COUNT 4"));
    assert!(idtf.contains("FACE_COUNT 2"));
    assert!(idtf.contains("RESOURCE_NAME \"Box_Mesh\""));
    assert!(idtf.contains("RESOURCE_LIST \"MODEL\""));
}

#[test]
fn write_idtf_document_preserves_group_hierarchy() {
    let idtf = idtf_document(hierarchy_scene(), notice_corners());
    assert!(idtf.contains("NODE \"GROUP\" {"));
    assert!(idtf.contains("NODE_NAME \"Assembly\""));
    assert!(idtf.contains("NODE_NAME \"Body\""));
    assert!(idtf.contains("PARENT_NAME \"Assembly\""));
}

#[test]
fn write_idtf_document_adds_notice_root_model() {
    let idtf = idtf_document(hierarchy_scene(), notice_corners());
    let expected_parent = format!(
        "NODE \"GROUP\" {{\n\tNODE_NAME \"Assembly\"\n\tPARENT_LIST {{\n\t\tPARENT_COUNT 1\n\t\tPARENT 0 {{\n\t\t\tPARENT_NAME \"{}\"",
        NOTICE_NODE_NAME
    );
    assert!(idtf.contains(&format!("NODE \"MODEL\" {{\n\tNODE_NAME \"{}\"", NOTICE_NODE_NAME)));
    assert!(idtf.contains(&format!("NODE_NAME \"{}\"", NOTICE_NODE_NAME)));
    assert!(idtf.contains(&format!("RESOURCE_NAME \"{}\"", NOTICE_MESH_NAME)));
    assert!(idtf.contains(&expected_parent));
}

#[test]
fn write_idtf_document_uses_source_normals_when_present() {
    let mut scene = box_scene();
    scene.parts[0].normals = vec!["0.000000 0.600000 0.800000".to_owned(); 6];
    let idtf = idtf_document(scene, notice_corners());
    assert!(idtf.contains("MODEL_NORMAL_COUNT 6"));
    assert!(idtf.contains("0.000000 0.600000 0.800000"));
    assert!(idtf.contains("MESH_FACE_NORMAL_LIST"));
}

#[test]
fn write_idtf_document_keeps_multiple_model_nodes_for_shared_geometry_instances() {
    let scene = IdtfScene {
        names: SceneNames {
            node_names: strings(&["Assembly", "BodyA", "BodyB"]),
            mesh_names: strings(&["BodyA_Mesh", "BodyB_Mesh"]),
            shadings: vec![shading_names("BodyA", None), shading_names("BodyB", None)],
        },
        nodes: vec![
            IdtfNode { parent_index: None, transform_rows: identity_rows("10.000000 0.000000 0.000000"), mesh_index: None },
            IdtfNode { parent_index: Some(0), transform_rows: identity_rows("2.000000 0.000000 0.000000"), mesh_index: Some(0) },
            IdtfNode { parent_index: Some(0), transform_rows: identity_rows("6.000000 0.000000 0.000000"), mesh_index: Some(1) },
        ],
        parts: vec![quad_part(1, false), quad_part(2, false)],
        shadings: vec![plain_shading(None), plain_shading(None)],
        view_translation: "14.500000 -17.500000 7.000000".to_owned(),
        light_translation: "19.500000 -10.000000 5.000000".to_owned(),
    };
    let idtf = idtf_document(scene, notice_corners());
    assert!(idtf.contains("\tRESOURCE_COUNT 3\n\tRESOURCE 0 {\n\t\tRESOURCE_NAME \"BodyA_Mesh\""));
    assert!(idtf.contains("\tRESOURCE 1 {\n\t\tRESOURCE_NAME \"BodyB_Mesh\""));
    assert!(idtf.contains(&format!("\tRESOURCE 2 {{\n\t\tRESOURCE_NAME \"{}\"", NOTICE_MESH_NAME)));
    assert!(idtf.contains("NODE_NAME \"BodyA\""));
    assert!(idtf.contains("NODE_NAME \"BodyB\""));
    assert!(idtf.contains("PARENT_NAME \"Assembly\""));
}

fn textured_scene() -> IdtfScene {
    let mut shading = plain_shading(Some("textures\\panel.tga"));
    shading.diffuse = "0.250000 0.500000 0.750000".to_owned();
    IdtfScene {
        names: SceneNames {
            node_names: strings(&["Panel"]),
            mesh_names: strings(&["Panel_Mesh"]),
            shadings: vec![ShadingNames {
                shader_name: "Panel_Shader1".to_owned(),
                material_name: "Panel_Paint".to_owned(),
                texture_name: Some("Panel_Diffuse_1".to_owned()),
            }],
        },
        nodes: vec![IdtfNode { parent_index: None, transform_rows: identity_rows("0.000000 0.000000 0.000000"), mesh_index: Some(0) }],
        parts: vec![quad_part(0, true)],
        shadings: vec![shading],
        view_translation: "0.500000 -3.000000 1.400000".to_owned(),
        light_translation: "1.500000 -1.500000 1.000000".to_owned(),
    }
}

#[test]
fn write_idtf_document_contains_texture_sections() {
    let idtf = idtf_document(textured_scene(), notice_corners());
    assert!(idtf.contains("RESOURCE_LIST \"TEXTURE\""));
    assert!(idtf.contains("MODEL_TEXTURE_COORD_COUNT 6"));
    assert!(idtf.contains("MESH_FACE_TEXTURE_COORD_LIST"));
    assert!(idtf.contains("SHADER_ACTIVE_TEXTURE_COUNT 1"));
    assert!(idtf.contains("MATERIAL_DIFFUSE 0.250000 0.500000 0.750000"));
    assert!(idtf.contains("\t\tTEXTURE_PATH \"textures/panel.tga\"\n"));
    assert!(idtf.contains("\t\t\t\tFACE 1 {\n\t\t\t\t\tTEXTURE_LAYER 0 TEX_COORD: 3 4 5\n\t\t\t\t}\n"));
    assert!(idtf.contains("\t\t\t\t1.000000 1.000000 0.000000 0.000000\n"));
    assert!(idtf.contains("\t\t\t\t\tTEXTURE_COORD_DIMENSION_LIST {\n\t\t\t\t\t\tTEXTURE_LAYER 0 DIMENSION: 2\n"));
}

#[test]
fn an_untextured_document_has_no_texture_list() {
    let idtf = idtf_document(box_scene(), notice_corners());
    assert!(!idtf.contains("RESOURCE_LIST \"TEXTURE\""));
    assert!(!idtf.contains("MESH_FACE_TEXTURE_COORD_LIST"));
    assert!(idtf.contains("SHADER_ACTIVE_TEXTURE_COUNT 0"));
}

#[test]
fn idtf_document_text_writes_every_section_in_order() {
    let idtf = idtf_document_text(&box_scene());
    let expected_start = "FILE_FORMAT \"IDTF\"\nFORMAT_VERSION 100\n\nNODE \"VIEW\" {\n\tNODE_NAME \"DefaultView\"\n";
    assert!(idtf.starts_with(expected_start));
    assert!(idtf.contains("\t\t\t\t0.500000 -3.000000 1.400000 1.000000\n"));
    assert!(idtf.contains("\t\t\t\t1.500000 -1.500000 1.000000 1.000000\n"));
    let order = [
        "NODE \"VIEW\"",
        "NODE \"MODEL\" {\n\tNODE_NAME \"Box\"",
        "NODE \"LIGHT\"",
        "RESOURCE_LIST \"VIEW\"",
        "RESOURCE_LIST \"LIGHT\"",
        "RESOURCE_LIST \"SHADER\"",
        "RESOURCE_LIST \"MATERIAL\"",
        "RESOURCE_LIST \"MODEL\"",
        "MODIFIER \"SHADING\"",
    ];
    let mut at = 0;
    for marker in order {
        let found = idtf[at..].find(marker).unwrap_or_else(|| panic!("missing {marker}"));
        at += found + marker.len();
    }
    assert!(idtf.contains("\t\t\t\t2.000000 3.000000 4.000000 1.000000\n"));
    assert!(idtf.contains("\t\t\tMESH_FACE_POSITION_LIST {\n\t\t\t\t0 1 2\n\t\t\t\t0 2 3\n\t\t\t}\n"));
    assert!(idtf.contains("\t\t\tMESH_FACE_NORMAL_LIST {\n\t\t\t\t0 1 2\n\t\t\t\t3 4 5\n\t\t\t}\n"));
    assert!(idtf.contains("\t\t\tMESH_FACE_SHADING_LIST {\n\t\t\t\t0\n\t\t\t\t0\n\t\t\t}\n"));
    assert!(idtf.contains("\t\t\t\t\tSHADER_ID 0\n"));
    assert!(idtf.contains(
        "MODIFIER \"SHADING\" {\n\tMODIFIER_NAME \"Box\"\n\tPARAMETERS {\n\t\tSHADER_LIST_COUNT 1\n\t\tSHADER_LIST_LIST {\n\t\t\tSHADER_LIST 0 {\n\t\t\t\tSHADER_COUNT 1\n\t\t\t\tSHADER_NAME_LIST {\n\t\t\t\t\tSHADER 0 NAME: \"Box_Shader1\"\n"
    ));
    assert!(idtf.ends_with("\t\t}\n\t}\n}\n\n"));
}

#[test]
fn shader_ids_count_shadings_over_all_parts() {
    let scene = IdtfScene {
        names: SceneNames {
            node_names: strings(&["A", "B"]),
            mesh_names: strings(&["A_Mesh", "B_Mesh"]),
            shadings: vec![shading_names("A", None), shading_names("B", None)],
        },
        nodes: vec![
            IdtfNode { parent_index: None, transform_rows: identity_rows("0.000000 0.000000 0.000000"), mesh_index: Some(0) },
            IdtfNode { parent_index: None, transform_rows: identity_rows("0.000000 0.000000 0.000000"), mesh_index: Some(1) },
        ],
        parts: vec![quad_part(0, false), quad_part(1, false)],
        shadings: vec![plain_shading(None), plain_shading(None)],
        view_translation: "0.000000 0.000000 0.000000".to_owned(),
        light_translation: "0.000000 0.000000 0.000000".to_owned(),
    };
    let idtf = idtf_document_text(&scene);
    assert!(idtf.contains("\t\t\t\tSHADING_DESCRIPTION 0 {\n\t\t\t\t\tTEXTURE_LAYER_COUNT 0\n\t\t\t\t\tSHADER_ID 1\n"));
    assert!(idtf.contains("\tRESOURCE 1 {\n\t\tRESOURCE_NAME \"B_Shader1\"\n\t\tSHADER_MATERIAL_NAME \"B_Material1\"\n"));
}

#[test]
fn scene_with_notice_root_hangs_every_root_under_the_notice_node() {
    let rooted = scene_with_notice_root(hierarchy_scene(), notice_corners());
    assert_eq!(rooted.nodes.len(), 3);
    assert_eq!(rooted.names.node_names[0], NOTICE_NODE_NAME);
    assert_eq!(rooted.nodes[0].parent_index, None);
    assert_eq!(rooted.nodes[0].mesh_index, Some(1));
    assert_eq!(rooted.nodes[0].transform_rows, identity_rows("0.000000 0.000000 0.000000"));
    assert_eq!(rooted.nodes[1].parent_index, Some(0));
    assert_eq!(rooted.nodes[2].parent_index, Some(1));
    assert_eq!(rooted.parts[0].node_index, 2);
    assert_eq!(rooted.parts[1].node_index, 0);
    assert_eq!(rooted.parts[1].positions, notice_corners());
    assert_eq!(rooted.parts[1].normals, vec!["0.000000 0.000000 1.000000".to_owned(); 3]);
    assert_eq!(rooted.parts[1].triangles.len(), 1);
    assert_eq!(rooted.names.mesh_names[1], NOTICE_MESH_NAME);
    assert_eq!(rooted.names.shadings[1].shader_name, "FBX2U3D_NoticeShader");
    assert_eq!(rooted.names.shadings[1].material_name, "FBX2U3D_NoticeMaterial");
    assert_eq!(rooted.shadings[1].opacity, "0.000000");
    assert_eq!(rooted.shadings[1].diffuse, "0.000000 0.000000 0.000000");
    assert!(check_idtf_scene(&rooted));
}

#[test]
fn prepare_idtf_scene_renames_clashes_with_the_notice_node() {
    let mut scene = box_scene();
    scene.names.node_names[0] = NOTICE_NODE_NAME.to_owned();
    let prepared = prepare_idtf_scene(scene, notice_corners());
    assert_eq!(prepared.names.node_names[0], NOTICE_NODE_NAME);
    assert_eq!(prepared.names.node_names[1], format!("{NOTICE_NODE_NAME}_2"));
}

#[test]
fn check_idtf_scene_finds_lists_that_disagree() {
    assert!(check_idtf_scene(&box_scene()));
    let mut bad_parent = box_scene();
    bad_parent.nodes[0].parent_index = Some(1);
    assert!(!check_idtf_scene(&bad_parent));
    let mut bad_rows = box_scene();
    bad_rows.nodes[0].transform_rows.pop();
    assert!(!check_idtf_scene(&bad_rows));
    let mut bad_count = box_scene();
    bad_count.parts[0].shading_count = 2;
    assert!(!check_idtf_scene(&bad_count));
    let mut bad_texture = box_scene();
    bad_texture.shadings[0].texture_path = Some("x.png".to_owned());
    assert!(!check_idtf_scene(&bad_texture));
    let mut bad_node = box_scene();
    bad_node.parts[0].node_index = 3;
    assert!(!check_idtf_scene(&bad_node));
}

#[test]
fn scene_counts_sum_over_parts() {
    let counts = scene_counts(&textured_scene()).expect("counts");
    assert_eq!(counts.nodes, 1);
    assert_eq!(counts.parts, 1);
    assert_eq!(counts.vertices, 4);
    assert_eq!(counts.triangles, 2);
    assert_eq!(counts.materials, 1);
    assert_eq!(counts.textured_shaders, 1);
    let counts = scene_counts(&hierarchy_scene()).expect("counts");
    assert_eq!((counts.nodes, counts.parts, counts.textured_shaders), (2, 1, 0));
}

#[test]
fn a_repeated_shader_name_points_at_its_last_shader() {
    let scene = IdtfScene {
        names: SceneNames {
            node_names: strings(&["A", "B"]),
            mesh_names: strings(&["A_Mesh", "B_Mesh"]),
            shadings: vec![shading_names("Same", None), shading_names("Same", None)],
        },
        nodes: vec![
            IdtfNode { parent_index: None, transform_rows: identity_rows("0.000000 0.000000 0.000000"), mesh_index: Some(0) },
            IdtfNode { parent_index: None, transform_rows: identity_rows("0.000000 0.000000 0.000000"), mesh_index: Some(1) },
        ],
        parts: vec![quad_part(0, false), quad_part(1, false)],
        shadings: vec![plain_shading(None), plain_shading(None)],
        view_translation: "0.000000 0.000000 0.000000".to_owned(),
        light_translation: "0.000000 0.000000 0.000000".to_owned(),
    };
    let idtf = idtf_document_text(&scene);
    assert_eq!(idtf.matches("\t\t\t\t\tSHADER_ID 1\n").count(), 2);
    assert!(!idtf.contains("\t\t\t\t\tSHADER_ID 0\n"));
    let written = idtf_document(scene, notice_corners());
    assert!(written.contains("\t\t\t\t\tSHADER_ID 0\n"));
    assert!(written.contains("\t\t\t\t\tSHADER_ID 1\n"));
    assert!(written.contains("\t\t\t\t\tSHADER_ID 2\n"));
}
