use typst_lib_wrapper::errors::WrapperError;
use typst_lib_wrapper::fonts::{DiscoveredFace, FaceSource, FontRegistry, FontState};

fn face(path: &str, index: u32, info: &str) -> DiscoveredFace<String> {
    DiscoveredFace { source: FaceSource::File(path.to_string()), index, probe: Some(Some(info.to_string())) }
}

fn is_loaded(state: &FontState<u32>) -> Option<(u32, usize)> {
    match state {
        FontState::Loaded { font, size } => Some((*font, *size)),
        FontState::Unloaded => None,
    }
}

#[test]
fn inserting_a_font_twice_appends_two_slots() {
    let mut reg: FontRegistry<String, u32> = FontRegistry::new();
    reg.insert_faces(vec![face("/f/a.ttf", 0, "A")]).unwrap();
    reg.insert_faces(vec![face("/f/a.ttf", 0, "A")]).unwrap();
    assert_eq!(reg.len(), 2);
    let (infos, slots) = reg.snapshot();
    assert_eq!(infos, vec!["A".to_string(), "A".to_string()]);
    assert_eq!(slots[0].path, "/f/a.ttf");
    assert_eq!(slots[1].path, "/f/a.ttf");
    assert!(is_loaded(&slots[0].state).is_none());
    assert!(is_loaded(&slots[1].state).is_none());
}

#[test]
fn update_cache_warms_only_the_selected_cold_slot() {
    let mut reg: FontRegistry<String, u32> = FontRegistry::new();
    reg.insert_faces(vec![face("/f/a.ttf", 0, "A"), face("/f/a.ttf", 0, "A")]).unwrap();
    reg.update_cache(Some(0), 7, 100);
    let (_, slots) = reg.snapshot();
    assert_eq!(is_loaded(&slots[0].state), Some((7, 100)));
    assert!(is_loaded(&slots[1].state).is_none());
    reg.update_cache(Some(0), 9, 300);
    let (_, slots) = reg.snapshot();
    assert_eq!(is_loaded(&slots[0].state), Some((7, 100)));
    assert!(is_loaded(&slots[1].state).is_none());
}

#[test]
fn update_cache_ignores_missing_selection() {
    let mut reg: FontRegistry<String, u32> = FontRegistry::new();
    reg.insert_faces(vec![face("/f/a.ttf", 0, "A")]).unwrap();
    reg.update_cache(None, 1, 10);
    reg.update_cache(Some(5), 1, 10);
    assert_eq!(reg.cache_size(false), 0);
}

#[test]
fn binary_and_unusable_faces_are_skipped() {
    let mut reg: FontRegistry<String, u32> = FontRegistry::new();
    let faces = vec![
        DiscoveredFace { source: FaceSource::Binary, index: 0, probe: Some(Some("M".to_string())) },
        DiscoveredFace { source: FaceSource::File("/f/bad.ttf".to_string()), index: 0, probe: Some(None) },
        face("/f/ok.ttc", 3, "OK"),
    ];
    assert_eq!(reg.insert_faces(faces), Ok(()));
    assert_eq!(reg.len(), 1);
    let (infos, slots) = reg.snapshot();
    assert_eq!(infos, vec!["OK".to_string()]);
    assert_eq!(slots[0].index, 3);
    assert!(!slots[0].embedded);
}

#[test]
fn unreadable_face_stops_insertion() {
    let mut reg: FontRegistry<String, u32> = FontRegistry::new();
    let faces = vec![
        face("/f/a.ttf", 0, "A"),
        DiscoveredFace { source: FaceSource::File("/f/broken.ttf".to_string()), index: 0, probe: None },
        face("/f/c.ttf", 0, "C"),
    ];
    assert_eq!(reg.insert_faces(faces), Err(WrapperError::FontFaceLoadingError("/f/broken.ttf".to_string())));
    assert_eq!(reg.len(), 1);
}

#[test]
fn cache_size_and_clear_respect_embedded_flag() {
    let mut reg: FontRegistry<String, u32> = FontRegistry::new();
    reg.push_face("A".to_string(), "/f/a.ttf".to_string(), 0);
    reg.push_face("B".to_string(), "/f/b.ttf".to_string(), 0);
    reg.push_embedded("E".to_string(), 42, 1000, 0);
    reg.update_cache(Some(0), 1, 10);
    reg.update_cache(Some(1), 2, 20);
    assert_eq!(reg.cache_size(false), 30);
    assert_eq!(reg.cache_size(true), 1000);
    reg.clear_cache(false);
    assert_eq!(reg.cache_size(false), 0);
    assert_eq!(reg.cache_size(true), 1000);
    assert_eq!(reg.len(), 3);
    reg.clear_cache(true);
    assert_eq!(reg.cache_size(true), 0);
    let (infos, slots) = reg.snapshot();
    assert_eq!(infos.len(), 3);
    assert!(slots[2].embedded);
    assert_eq!(slots[2].path, "");
}

#[test]
fn cache_size_saturates() {
    let mut reg: FontRegistry<String, u32> = FontRegistry::new();
    reg.push_face("A".to_string(), "/a".to_string(), 0);
    reg.push_face("B".to_string(), "/b".to_string(), 0);
    reg.update_cache(Some(0), 1, usize::MAX);
    reg.update_cache(Some(1), 2, 5);
    assert_eq!(reg.cache_size(false), usize::MAX);
}
