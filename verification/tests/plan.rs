use fbx2u3d::cli::Backend;
use fbx2u3d::error::ConversionError;
use fbx2u3d::plan::{
    check_input, check_output, ensure_binary_fbx, is_binary_fbx_header, is_fbx_file, is_u3d_file, select_converter,
};

#[test]
fn backend_names_itself() {
    assert_eq!(Backend::Idtf.as_str(), "idtf");
}

#[test]
fn extensions_are_compared_without_ascii_case() {
    assert!(is_fbx_file(Some("FBX")));
    assert!(is_fbx_file(Some("fbx")));
    assert!(!is_fbx_file(Some("obj")));
    assert!(!is_fbx_file(None));
    assert!(is_u3d_file(Some("U3d")));
    assert!(!is_u3d_file(Some("u3dx")));
    assert!(!is_u3d_file(None));
}

#[test]
fn check_input_tests_scale_then_existence_then_extension() {
    assert!(matches!(check_input(false, false, None, "x"), Err(ConversionError::InvalidUnitsScale)));
    match check_input(true, false, Some("fbx"), "missing.fbx") {
        Err(ConversionError::InputMissing(p)) => assert_eq!(p, "missing.fbx"),
        other => panic!("unexpected {other:?}"),
    }
    match check_input(true, true, Some("obj"), "gearbox.obj") {
        Err(ConversionError::UnsupportedInput(p)) => assert_eq!(p, "gearbox.obj"),
        other => panic!("unexpected {other:?}"),
    }
    assert!(check_input(true, true, Some("FBX"), "gearbox.FBX").is_ok());
}

#[test]
fn check_output_tests_extension_then_folder_then_overwrite() {
    match check_output("out.obj", Some("obj"), Some("dir"), true, false, false) {
        Err(ConversionError::UnsupportedOutput(p)) => assert_eq!(p, "out.obj"),
        other => panic!("unexpected {other:?}"),
    }
    match check_output("missing/out.u3d", Some("u3d"), Some("missing"), false, false, false) {
        Err(ConversionError::OutputDirectoryMissing(p)) => assert_eq!(p, "missing"),
        other => panic!("unexpected {other:?}"),
    }
    assert!(check_output("out.u3d", Some("u3d"), Some(""), false, false, false).is_ok());
    match check_output("gearbox.u3d", Some("u3d"), None, false, true, false) {
        Err(ConversionError::OutputExists(p)) => assert_eq!(p, "gearbox.u3d"),
        other => panic!("unexpected {other:?}"),
    }
    assert!(check_output("gearbox.u3d", Some("u3d"), None, false, true, true).is_ok());
}

#[test]
fn binary_fbx_headers_are_recognized() {
    let mut header = b"Kaydara FBX Binary  \0".to_vec();
    assert!(is_binary_fbx_header(&header));
    assert!(ensure_binary_fbx(&header).is_ok());
    header[0] = b'k';
    assert!(!is_binary_fbx_header(&header));
    match ensure_binary_fbx(b"; FBX 7.4.0 project file") {
        Err(ConversionError::UnsupportedFbxFlavor(m)) => {
            assert_eq!(m, "only binary FBX 7.x files are supported by the current backend")
        }
        other => panic!("unexpected {other:?}"),
    }
    assert!(!is_binary_fbx_header(b"Kaydara"));
}

#[test]
fn select_converter_takes_the_first_existing_candidate() {
    let candidates = vec!["a.exe".to_owned(), "b.exe".to_owned(), "c.exe".to_owned()];
    assert_eq!(select_converter(&candidates, &vec![false, true, true]).expect("found"), 1);
    match select_converter(&candidates, &vec![false, false, false]) {
        Err(ConversionError::IdtfConverterMissing(m)) => assert_eq!(m, "a.exe, b.exe, c.exe"),
        other => panic!("unexpected {other:?}"),
    }
    match select_converter(&Vec::new(), &Vec::new()) {
        Err(ConversionError::IdtfConverterMissing(m)) => assert_eq!(m, ""),
        other => panic!("unexpected {other:?}"),
    }
}
