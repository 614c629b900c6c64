use fbx2u3d::names::{ensure_unique_scene_resource_names, unique_resource_name, SceneNames, ShadingNames};

fn shading(shader: &str, material: &str, texture: Option<&str>) -> ShadingNames {
    ShadingNames {
        shader_name: shader.to_owned(),
        material_name: material.to_owned(),
        texture_name: texture.map(|t| t.to_owned()),
    }
}

#[test]
fn ensure_unique_scene_resource_names_deduplicates_shader_material_and_texture_names() {
    let mut scene = SceneNames {
        node_names: vec!["RepeatedNode".to_owned(), "RepeatedNode".to_owned()],
        mesh_names: vec!["RepeatedMesh".to_owned(), "RepeatedMesh".to_owned()],
        shadings: vec![
            shading("RepeatedShader", "RepeatedMaterial", Some("RepeatedTexture")),
            shading("RepeatedShader", "RepeatedMaterial", Some("RepeatedTexture")),
        ],
    };

    ensure_unique_scene_resource_names(&mut scene);

    assert_eq!(scene.node_names[0], "RepeatedNode");
    assert_eq!(scene.node_names[1], "RepeatedNode_2");
    assert_eq!(scene.mesh_names[0], "RepeatedMesh");
    assert_eq!(scene.mesh_names[1], "RepeatedMesh_2");
    assert_eq!(scene.shadings[0].shader_name, "RepeatedShader");
    assert_eq!(scene.shadings[1].shader_name, "RepeatedShader_2");
    assert_eq!(scene.shadings[0].material_name, "RepeatedMaterial");
    assert_eq!(scene.shadings[1].material_name, "RepeatedMaterial_2");
    assert_eq!(
        scene.shadings[0].texture_name.as_ref().expect("first texture"),
        "RepeatedTexture"
    );
    assert_eq!(
        scene.shadings[1].texture_name.as_ref().expect("second texture"),
        "RepeatedTexture_2"
    );
}

#[test]
fn unique_resource_name_keeps_a_free_name() {
    let mut used = vec!["Other".to_owned()];
    assert_eq!(unique_resource_name("Body", "Node1", &mut used), "Body");
    assert_eq!(used, vec!["Other".to_owned(), "Body".to_owned()]);
}

#[test]
fn unique_resource_name_takes_the_first_free_suffix() {
    let mut used = vec!["Body".to_owned(), "Body_2".to_owned()];
    assert_eq!(unique_resource_name("Body", "Node1", &mut used), "Body_3");
    assert_eq!(used.len(), 3);
}

#[test]
fn unique_resource_name_falls_back_for_blank_names() {
    let mut used = Vec::new();
    assert_eq!(unique_resource_name("  \u{3000}", "Node4", &mut used), "Node4");
    assert_eq!(unique_resource_name("", "Node4", &mut used), "Node4_2");
    assert_eq!(unique_resource_name("  \t", "Node4", &mut used), "  _");
}

#[test]
fn unique_resource_name_sanitizes_quotes_and_breaks() {
    let mut used = Vec::new();
    assert_eq!(unique_resource_name("a\"b\nc\td", "Node1", &mut used), "a_b_c_d");
}

#[test]
fn ensure_unique_numbers_blank_names_by_position() {
    let mut scene = SceneNames {
        node_names: vec!["".to_owned(), " ".to_owned()],
        mesh_names: vec!["".to_owned()],
        shadings: vec![shading("", "", Some(" ")), shading("S", "M", None)],
    };
    ensure_unique_scene_resource_names(&mut scene);
    assert_eq!(scene.node_names, vec!["Node1".to_owned(), "Node2".to_owned()]);
    assert_eq!(scene.mesh_names, vec!["Mesh1".to_owned()]);
    assert_eq!(scene.shadings[0].shader_name, "Shader1");
    assert_eq!(scene.shadings[0].material_name, "Material1");
    assert_eq!(scene.shadings[0].texture_name.as_deref(), Some("Texture1"));
    assert_eq!(scene.shadings[1].shader_name, "S");
    assert_eq!(scene.shadings[1].texture_name, None);
}

#[test]
fn ensure_unique_names_never_repeat_within_a_kind() {
    let mut scene = SceneNames {
        node_names: vec!["A".to_owned(), "A_2".to_owned(), "A".to_owned(), "A".to_owned()],
        mesh_names: Vec::new(),
        shadings: Vec::new(),
    };
    ensure_unique_scene_resource_names(&mut scene);
    assert_eq!(
        scene.node_names,
        vec!["A".to_owned(), "A_2".to_owned(), "A_3".to_owned(), "A_4".to_owned()]
    );
}

#[test]
fn ensure_unique_twice_changes_nothing() {
    let mut scene = SceneNames {
        node_names: vec!["A".to_owned(), "".to_owned(), "A".to_owned(), "Node2".to_owned(), "x\ty".to_owned()],
        mesh_names: vec!["M".to_owned(), "M".to_owned()],
        shadings: vec![shading("S", "", Some("T")), shading("S", "", None), shading("", "Mat", Some("T"))],
    };
    ensure_unique_scene_resource_names(&mut scene);
    let once = scene.clone();
    ensure_unique_scene_resource_names(&mut scene);
    assert_eq!(scene.node_names, once.node_names);
    assert_eq!(scene.mesh_names, once.mesh_names);
    for (a, b) in scene.shadings.iter().zip(once.shadings.iter()) {
        assert_eq!(a.shader_name, b.shader_name);
        assert_eq!(a.material_name, b.material_name);
        assert_eq!(a.texture_name, b.texture_name);
    }
    assert_eq!(
        once.node_names,
        vec!["A".to_owned(), "Node2".to_owned(), "A_2".to_owned(), "Node2_2".to_owned(), "x_y".to_owned()]
    );
}
