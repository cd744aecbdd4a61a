use typst_syntax::{FileId, VirtualPath};

use typst_lib_wrapper::errors::FileError;
use typst_lib_wrapper::files::{decode_text, FileIdentity, FileStore, SourceFile, VirtualFileSlot};
use typst_lib_wrapper::package::{PackageSpec, PackageVersion};

fn main_id() -> FileId {
    FileId::new(None, VirtualPath::new("main.typ"))
}

fn identity(path: &str) -> FileIdentity {
    FileIdentity { package: None, vpath: path.to_string() }
}

#[test]
fn decode_text_strips_byte_order_mark() {
    assert_eq!(decode_text(b"\xef\xbb\xbfhi"), Ok("hi".to_string()));
    assert_eq!(decode_text(b"hi"), Ok("hi".to_string()));
    assert_eq!(decode_text(b""), Ok(String::new()));
    assert_eq!(decode_text(b"\xef\xbb\xbf"), Ok(String::new()));
    assert_eq!(decode_text("é".as_bytes()), Ok("é".to_string()));
}

#[test]
fn decode_text_rejects_invalid_utf8() {
    assert_eq!(decode_text(&[0x61, 0xff]), Err(FileError::InvalidUtf8));
    assert_eq!(decode_text(&[0xef, 0xbb]), Err(FileError::InvalidUtf8));
}

fn read_source(slot: &mut VirtualFileSlot, bytes: &[u8]) -> Result<SourceFile, FileError> {
    let bytes = bytes.to_vec();
    match slot.source(move || Ok(bytes)) {
        Ok(file) => {
            assert_eq!(file.source().text(), file.text());
            assert_eq!(file.source().id(), file.id());
            Ok(SourceFile::new(file.id(), file.text().to_string()))
        }
        Err(e) => Err(e.clone()),
    }
}

#[test]
fn slot_source_reads_once_per_round() {
    let mut slot = VirtualFileSlot::new(main_id());
    let mut loads = 0;
    let s = slot.source(|| {
        loads += 1;
        Ok(b"= Title".to_vec())
    });
    assert_eq!(s.as_ref().unwrap().text(), "= Title");
    let s = slot.source(|| {
        loads += 1;
        Ok(b"changed".to_vec())
    });
    assert_eq!(s.as_ref().unwrap().text(), "= Title");
    assert_eq!(loads, 1);
}

#[test]
fn slot_source_updates_in_place_when_bytes_change() {
    let mut slot = VirtualFileSlot::new(main_id());
    let first = read_source(&mut slot, b"Hello").unwrap();
    assert_eq!(first.id(), main_id());
    slot.reset();
    let second = read_source(&mut slot, b"Hello world").unwrap();
    assert_eq!(second.text(), "Hello world");
    assert_eq!(second.id(), main_id());
    slot.reset();
    let third = read_source(&mut slot, b"Hello world").unwrap();
    assert_eq!(third.text(), "Hello world");
}

#[test]
fn non_ascii_edits_keep_source_and_text_together() {
    let cases: [(&str, &str); 8] = [
        ("\u{20ac}", "\u{ac}"),
        ("\u{e9}", "\u{a9}"),
        ("a\u{20ac}b", "a\u{ac}b"),
        ("\u{1f600}x", "\u{1f601}x"),
        ("x\u{e9}\u{e9}", "x\u{e9}"),
        ("", "\u{e9}t\u{e9}"),
        ("\u{e9}t\u{e9}", ""),
        ("= A\n\u{20ac}\n", "= A\n\u{a3}\n"),
    ];
    for (old, new) in cases {
        let mut slot = VirtualFileSlot::new(main_id());
        assert_eq!(read_source(&mut slot, old.as_bytes()).unwrap().text(), old);
        slot.reset();
        assert_eq!(read_source(&mut slot, new.as_bytes()).unwrap().text(), new);
    }
}

#[test]
fn replace_updates_the_same_source() {
    let mut file = SourceFile::new(main_id(), "caf\u{e9} = 1".to_string());
    file.replace("caf\u{e8} = 12");
    assert_eq!(file.text(), "caf\u{e8} = 12");
    assert_eq!(file.source().text(), "caf\u{e8} = 12");
    file.replace("caf\u{e8} = 12");
    assert_eq!(file.source().text(), "caf\u{e8} = 12");
    file.replace("");
    assert_eq!(file.source().text(), "");
    assert_eq!(file.id(), main_id());
}

#[test]
fn slot_source_reports_invalid_utf8_and_directories() {
    let mut slot = VirtualFileSlot::new(main_id());
    assert!(matches!(slot.source(|| Ok(vec![0xc3])), Err(FileError::InvalidUtf8)));
    slot.reset();
    assert!(matches!(slot.source(|| Err(FileError::IsDirectory)), Err(FileError::IsDirectory)));
}

#[test]
fn slot_file_returns_raw_bytes() {
    let mut slot = VirtualFileSlot::new(main_id());
    let bytes = slot.file(|| Ok(vec![0xff, 0x00, 0x10])).clone().unwrap();
    assert_eq!(bytes, vec![0xff, 0x00, 0x10]);
    assert!(slot.source.data.is_none());
    assert!(slot.file.accessed);
}

#[test]
fn store_creates_one_slot_per_identity() {
    let mut store = FileStore::new();
    assert_eq!(store.len(), 0);
    let a = store.slot_for(identity("a.typ"), main_id());
    assert_eq!(store.len(), 1);
    let again = store.slot_for(identity("a.typ"), main_id());
    assert_eq!(a, again);
    assert_eq!(store.len(), 1);
    let b = store.slot_for(identity("b.typ"), main_id());
    assert_ne!(a, b);
    assert_eq!(store.len(), 2);
    assert_eq!(store.position(&identity("b.typ")), Some(b));
    assert_eq!(store.position(&identity("c.typ")), None);
}

#[test]
fn package_files_are_distinct_from_project_files() {
    let spec = PackageSpec {
        namespace: "preview".to_string(),
        name: "cetz".to_string(),
        version: PackageVersion { major: 0, minor: 3, patch: 1 },
    };
    let in_package = FileIdentity { package: Some(spec.clone()), vpath: "lib.typ".to_string() };
    let other_version = FileIdentity {
        package: Some(PackageSpec { version: PackageVersion { major: 0, minor: 3, patch: 2 }, ..spec }),
        vpath: "lib.typ".to_string(),
    };
    assert!(!in_package.same_as(&identity("lib.typ")));
    assert!(!in_package.same_as(&other_version));
    assert!(in_package.same_as(&in_package.clone()));
    let mut store = FileStore::new();
    store.slot_for(in_package, main_id());
    store.slot_for(identity("lib.typ"), main_id());
    store.slot_for(other_version, main_id());
    assert_eq!(store.len(), 3);
}

#[test]
fn store_reads_through_slots_and_resets_rounds() {
    let mut store = FileStore::new();
    let i = store.slot_for(identity("main.typ"), main_id());
    let mut loads = 0;
    let s = store.source_at(i, || {
        loads += 1;
        Ok(b"x".to_vec())
    });
    assert_eq!(s.as_ref().unwrap().text(), "x");
    let f = store.file_at(i, || {
        loads += 1;
        Ok(b"x".to_vec())
    });
    assert_eq!(f.as_ref().unwrap(), &b"x".to_vec());
    store.source_at(i, || {
        loads += 1;
        Ok(b"y".to_vec())
    })
    .as_ref()
    .unwrap();
    assert_eq!(loads, 2);
    store.reset_round();
    let s = store.source_at(i, || {
        loads += 1;
        Ok(b"y".to_vec())
    });
    assert_eq!(s.as_ref().unwrap().text(), "y");
    assert_eq!(loads, 3);
}
