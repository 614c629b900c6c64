use fbx2u3d::error::ConversionError;
use fbx2u3d::fbx::{FbxNode, FbxProperty};
use fbx2u3d::scene::{read_scene_objects, TextureBinding};
use fbx2u3d::shading::{build_shadings_for_model, default_shading, select_texture_binding, signed_decimal};

fn node(name: &str, properties: Vec<FbxProperty<f64>>, children: Vec<FbxNode<f64>>) -> FbxNode<f64> {
    FbxNode { name: name.to_owned(), properties, children }
}

fn text(value: &str) -> FbxProperty<f64> {
    FbxProperty::String(value.to_owned())
}

fn binding(texture_id: i64, property: Option<&str>) -> TextureBinding {
    TextureBinding { texture_id, property_name: property.map(|p| p.to_owned()) }
}

#[test]
fn select_texture_binding_prefers_the_diffuse_channel() {
    let bindings = vec![binding(1, Some("NormalMap")), binding(2, Some("Maya|diffuse_color")), binding(3, None)];
    assert_eq!(select_texture_binding(&bindings).expect("binding"), 1);
    let bindings = vec![binding(1, Some("SpecularColor")), binding(2, None)];
    assert_eq!(select_texture_binding(&bindings).expect("binding"), 1);
    let bindings = vec![binding(1, Some("SpecularColor")), binding(2, Some("Bump"))];
    assert_eq!(select_texture_binding(&bindings).expect("binding"), 0);
    let bindings = vec![binding(7, Some("DIFFUSECOLOR"))];
    assert_eq!(select_texture_binding(&bindings).expect("binding"), 0);
    match select_texture_binding(&Vec::new()) {
        Err(ConversionError::UnsupportedFbxFeature(m)) => {
            assert_eq!(m, "material texture bindings were present but empty")
        }
        other => panic!("unexpected {other:?}"),
    }
}

#[test]
fn default_shading_is_named_after_the_model() {
    let shading = default_shading::<f64>("Box \"1\"");
    assert_eq!(shading.shader_name, "Box _1__Shader1");
    assert_eq!(shading.material_name, "Box _1__Material1");
    assert!(shading.diffuse_texture.is_none());
    assert!(shading.properties.diffuse.is_none());
}

#[test]
fn signed_decimal_renders_negative_ids() {
    assert_eq!(signed_decimal(-42), "-42");
    assert_eq!(signed_decimal(42), "42");
    assert_eq!(signed_decimal(i64::MIN), i64::MIN.to_string());
}

fn materials_document() -> Vec<FbxNode<f64>> {
    vec![
        node(
            "Objects",
            Vec::new(),
            vec![
                node(
                    "Geometry",
                    vec![FbxProperty::I64(1), text("Geometry::G"), text("Mesh")],
                    vec![
                        node("Vertices", vec![FbxProperty::F64Array(vec![0.0, 0.0, 0.0])], Vec::new()),
                        node("PolygonVertexIndex", vec![FbxProperty::I32Array(Vec::new())], Vec::new()),
                    ],
                ),
                node("Material", vec![FbxProperty::I64(10), text("Material::Red"), text("")], Vec::new()),
                node("Material", vec![FbxProperty::I64(11), text("Material::"), text("")], Vec::new()),
                node("Texture", vec![FbxProperty::I64(20), text("Texture::NoFile"), text("")], Vec::new()),
            ],
        ),
        node(
            "Connections",
            Vec::new(),
            vec![node("C", vec![text("OP"), FbxProperty::I64(20), FbxProperty::I64(11), text("DiffuseColor")], Vec::new())],
        ),
    ]
}

#[test]
fn build_shadings_for_model_names_each_slot() {
    let (objects, connections) = read_scene_objects(&materials_document()).expect("scene");
    let result = build_shadings_for_model(&objects, &connections, "Part", &vec![10, 99]);
    assert!(result.error.is_none());
    assert_eq!(result.shadings.len(), 2);
    assert_eq!(result.shadings[0].shader_name, "Part_Shader1");
    assert_eq!(result.shadings[0].material_name, "Part_Red");
    assert_eq!(result.shadings[1].shader_name, "Part_Shader2");
    assert_eq!(result.shadings[1].material_name, "Part_Material2");
}

#[test]
fn build_shadings_for_model_stops_at_the_first_unresolved_texture() {
    let (objects, connections) = read_scene_objects(&materials_document()).expect("scene");
    let result = build_shadings_for_model(&objects, &connections, "Part", &vec![10, 11, 10]);
    assert_eq!(result.shadings.len(), 1);
    match result.error {
        Some(ConversionError::UnsupportedFbxFeature(m)) => {
            assert_eq!(m, "a diffuse texture is connected, but no FileName or RelativeFilename was found")
        }
        other => panic!("unexpected {other:?}"),
    }
}

#[test]
fn build_shadings_for_model_without_materials_gives_one_default_shading() {
    let (objects, connections) = read_scene_objects(&materials_document()).expect("scene");
    let result = build_shadings_for_model(&objects, &connections, "Part", &Vec::new());
    assert!(result.error.is_none());
    assert_eq!(result.shadings.len(), 1);
    assert_eq!(result.shadings[0].shader_name, "Part_Shader1");
    assert_eq!(result.shadings[0].material_name, "Part_Material1");
}
