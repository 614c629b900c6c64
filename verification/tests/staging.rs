use fbx2u3d::staging::{staged_file_names, StagingRequest};

fn request(stem: Option<&str>, extension: Option<&str>, texture: &str, in_staging: Option<&str>) -> StagingRequest {
    StagingRequest {
        file_stem: stem.map(|s| s.to_owned()),
        extension: extension.map(|e| e.to_owned()),
        texture_name: texture.to_owned(),
        name_in_staging: in_staging.map(|n| n.to_owned()),
    }
}

#[test]
fn staged_names_keep_stem_and_extension() {
    let names = staged_file_names(&vec![request(Some("panel"), Some("tga"), "Panel_Diffuse_1", None)]);
    assert_eq!(names, vec!["panel.tga".to_owned()]);
}

#[test]
fn a_repeated_stem_is_numbered() {
    let names = staged_file_names(&vec![
        request(Some("wood"), Some("png"), "A", None),
        request(Some("wood"), Some("png"), "B", None),
        request(Some("wood"), Some("jpg"), "C", None),
        request(Some("metal"), None, "D", None),
    ]);
    assert_eq!(names, vec!["wood.png".to_owned(), "wood-1.png".to_owned(), "wood-2.jpg".to_owned(), "metal".to_owned()]);
}

#[test]
fn an_image_is_never_staged_onto_itself() {
    let names = staged_file_names(&vec![
        request(Some("panel"), Some("tga"), "A", Some("panel.tga")),
        request(Some("panel"), Some("tga"), "B", None),
    ]);
    assert_eq!(names, vec!["panel-1.tga".to_owned(), "panel-2.tga".to_owned()]);
}

#[test]
fn a_missing_stem_falls_back_to_the_sanitized_texture_name() {
    let names = staged_file_names(&vec![
        request(None, Some("png"), "Model:Tex", None),
        request(Some(""), None, "unused", None),
    ]);
    assert_eq!(names, vec!["Model_Tex.png".to_owned(), "texture".to_owned()]);
}
