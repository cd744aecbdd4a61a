use typst_lib_wrapper::add;
use typst_lib_wrapper::clock::{date_part, offset_seconds};
use typst_lib_wrapper::errors::{input_path_failure, FileError, IoFailure, PackageError, WrapperError};
use typst_lib_wrapper::input::{is_in_memory_path, validate_input, Input, RESERVED_IN_MEMORY_IDENTIFIER};
use typst_lib_wrapper::package::{PackageSpec, PackageVersion};

#[test]
fn add_sums() {
    assert_eq!(add(2, 3), 5);
    assert_eq!(add(0, 0), 0);
}

#[test]
fn content_input_is_never_forbidden() {
    let input = Input::content(format!("= {}", RESERVED_IN_MEMORY_IDENTIFIER));
    assert!(matches!(input, Input::Content(ref c) if c.starts_with("= ")));
    assert!(!input.is_forbidden());
    assert_eq!(validate_input(&input), Ok(()));
}

#[test]
fn file_input_with_plain_names_is_accepted() {
    let input = Input::file("main.typ".to_string(), "./project".to_string());
    match &input {
        Input::File { entry, root } => {
            assert_eq!(entry, "main.typ");
            assert_eq!(root, "./project");
        }
        Input::Content(_) => panic!("expected a file input"),
    }
    assert!(!input.is_forbidden());
    assert_eq!(validate_input(&input), Ok(()));
}

#[test]
fn reserved_marker_in_entry_is_forbidden() {
    let entry = format!("a{}b.typ", RESERVED_IN_MEMORY_IDENTIFIER);
    let input = Input::file(entry, "./project".to_string());
    assert!(input.is_forbidden());
    assert_eq!(validate_input(&input), Err(WrapperError::ForbiddenFilenamePathText));
}

#[test]
fn reserved_marker_in_root_is_forbidden() {
    let root = format!("/tmp/{}/x", RESERVED_IN_MEMORY_IDENTIFIER);
    let input = Input::file("main.typ".to_string(), root);
    assert!(input.is_forbidden());
}

#[test]
fn partial_marker_is_not_forbidden() {
    let input = Input::file("CUSTOM_SOURCE_CONTENT.typ".to_string(), "IN_MEMORY_FILE".to_string());
    assert!(!input.is_forbidden());
}

#[test]
fn in_memory_path_is_recognised() {
    assert!(is_in_memory_path(RESERVED_IN_MEMORY_IDENTIFIER));
    assert!(!is_in_memory_path("chapters/intro.typ"));
}

#[test]
fn missing_root_maps_to_input_not_found() {
    let e = input_path_failure("./missing".to_string(), IoFailure::NotFound);
    assert_eq!(e, WrapperError::InputNotFound("./missing".to_string()));
}

#[test]
fn other_canonicalize_failure_maps_to_io() {
    let e = input_path_failure("./root".to_string(), IoFailure::Other("permission denied".to_string()));
    assert_eq!(e, WrapperError::Io("permission denied".to_string()));
    assert_ne!(e, WrapperError::InputNotFound("./root".to_string()));
}

#[test]
fn errors_convert_into_wrapper_error() {
    let spec = PackageSpec {
        namespace: "preview".to_string(),
        name: "cetz".to_string(),
        version: PackageVersion { major: 0, minor: 3, patch: 1 },
    };
    let p = PackageError::NotFound(spec.clone());
    assert_eq!(WrapperError::from(p.clone()), WrapperError::Package(p.clone()));
    assert_eq!(FileError::from(p.clone()), FileError::Package(p));
    assert_eq!(WrapperError::from(FileError::IsDirectory), WrapperError::File(FileError::IsDirectory));
    let d = PackageError::NetworkFailed(Some("down".to_string()));
    assert_eq!(d.duplicate(), d);
    assert_eq!(spec.duplicate(), spec);
}

#[test]
fn utc_offsets_in_seconds() {
    assert_eq!(offset_seconds(1), Some(3600));
    assert_eq!(offset_seconds(-5), Some(-18000));
    assert_eq!(offset_seconds(0), Some(0));
    assert_eq!(offset_seconds(596523), Some(2147482800));
    assert_eq!(offset_seconds(596524), None);
    assert_eq!(offset_seconds(-596524), None);
    assert_eq!(offset_seconds(i64::MAX), None);
}

#[test]
fn date_parts_fit_in_a_byte() {
    assert_eq!(date_part(12), Some(12));
    assert_eq!(date_part(255), Some(255));
    assert_eq!(date_part(256), None);
}

#[test]
fn inputs_convert_from_text_and_pairs() {
    let c = Input::from("= Hi".to_string());
    assert!(matches!(c, Input::Content(ref t) if t == "= Hi"));
    let f = Input::from(("main.typ".to_string(), "./p".to_string()));
    assert!(matches!(f, Input::File { ref entry, ref root } if entry == "main.typ" && root == "./p"));
}
