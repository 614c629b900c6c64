use fbx2u3d::text::{
    clean_fbx_object_label, decimal_string, eq_ignore_ascii_case, is_blank, lowered_contains,
    sanitize_file_component, sanitize_idtf_name, str_equal, string_from,
};

#[test]
fn sanitize_idtf_name_replaces_quotes_and_breaks() {
    assert_eq!(sanitize_idtf_name("Box \"A\"\r\n\tend"), "Box _A____end");
    assert_eq!(sanitize_idtf_name("Plain|Name::x"), "Plain|Name::x");
    assert_eq!(sanitize_idtf_name(""), "");
}

#[test]
fn sanitize_file_component_replaces_reserved_characters() {
    assert_eq!(sanitize_file_component("a<b>c:d\"e/f\\g|h?i*j"), "a_b_c_d_e_f_g_h_i_j");
    assert_eq!(sanitize_file_component("panel"), "panel");
}

#[test]
fn sanitize_file_component_names_an_empty_stem_texture() {
    assert_eq!(sanitize_file_component(""), "texture");
}

#[test]
fn clean_fbx_object_label_keeps_the_part_after_the_last_class_separator() {
    assert_eq!(clean_fbx_object_label("Model::Box"), "Box");
    assert_eq!(clean_fbx_object_label("Geometry::Sub::Part"), "Part");
    assert_eq!(clean_fbx_object_label("Plain"), "Plain");
}

#[test]
fn clean_fbx_object_label_stops_at_the_first_nul() {
    assert_eq!(clean_fbx_object_label("Box\u{0}\u{1}Model"), "Box");
    assert_eq!(clean_fbx_object_label("Model::Body\u{0}\u{1}Model::Other"), "Body");
    assert_eq!(clean_fbx_object_label("Model::"), "");
    assert_eq!(clean_fbx_object_label(""), "");
}

#[test]
fn decimal_string_renders_numbers() {
    assert_eq!(decimal_string(0), "0");
    assert_eq!(decimal_string(7), "7");
    assert_eq!(decimal_string(1000), "1000");
    assert_eq!(decimal_string(u64::MAX), u64::MAX.to_string());
}

#[test]
fn eq_ignore_ascii_case_compares_letters_without_case() {
    assert!(eq_ignore_ascii_case("DiffuseColor", "diffusecolor"));
    assert!(eq_ignore_ascii_case("FBX", "fbx"));
    assert!(!eq_ignore_ascii_case("fbx", "fbz"));
    assert!(!eq_ignore_ascii_case("fbx", "fbxx"));
    assert!(!eq_ignore_ascii_case("É", "é"));
}

#[test]
fn lowered_contains_finds_a_needle_in_any_case() {
    assert!(lowered_contains("Maya|DIFFUSE_map", "diffuse"));
    assert!(lowered_contains("diffuse", "diffuse"));
    assert!(!lowered_contains("Specular", "diffuse"));
    assert!(lowered_contains("anything", ""));
}

#[test]
fn is_blank_sees_unicode_whitespace() {
    assert!(is_blank(""));
    assert!(is_blank(" \t\r\n"));
    assert!(is_blank("\u{3000}\u{a0}"));
    assert!(!is_blank(" x "));
}

#[test]
fn string_helpers_copy_and_join() {
    assert_eq!(string_from("abc"), "abc");
    assert_eq!(fbx2u3d::text::concat("ab", "cd"), "abcd");
    assert!(str_equal("same", "same"));
    assert!(!str_equal("same", "Same"));
}
