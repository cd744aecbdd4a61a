use typst_lib_wrapper::pages::{collect_pages, PageCollector};

fn page(i: u8) -> Vec<u8> {
    vec![b'p', i]
}

#[test]
fn one_failed_page_withholds_the_document() {
    let outcomes = vec![
        (0, Ok(page(0))),
        (1, Ok(page(1))),
        (2, Err("encoding failed".to_string())),
        (3, Ok(page(3))),
        (4, Ok(page(4))),
    ];
    let (pages, errors) = collect_pages(5, Vec::new(), outcomes);
    assert!(pages.is_none());
    assert_eq!(errors, vec!["encoding failed".to_string()]);
}

#[test]
fn reverse_completion_keeps_page_order() {
    let outcomes: Vec<(usize, Result<Vec<u8>, String>)> = (0..5u8).rev().map(|i| (i as usize, Ok(page(i)))).collect();
    let (pages, errors) = collect_pages(5, Vec::new(), outcomes);
    assert_eq!(pages, Some(vec![page(0), page(1), page(2), page(3), page(4)]));
    assert!(errors.is_empty());
}

#[test]
fn upstream_diagnostics_come_first() {
    let outcomes = vec![(1, Err("late".to_string())), (0, Ok(page(0)))];
    let (pages, errors) = collect_pages(2, vec!["warned".to_string()], outcomes);
    assert!(pages.is_none());
    assert_eq!(errors, vec!["warned".to_string(), "late".to_string()]);
}

#[test]
fn empty_encoding_counts_as_failure() {
    let outcomes: Vec<(usize, Result<Vec<u8>, String>)> = vec![(0, Ok(Vec::new())), (1, Ok(page(1)))];
    let (pages, errors) = collect_pages(2, Vec::new(), outcomes);
    assert!(pages.is_none());
    assert!(errors.is_empty());
}

#[test]
fn document_without_pages_is_delivered_empty() {
    let (pages, errors) = collect_pages::<String>(0, Vec::new(), Vec::new());
    assert_eq!(pages, Some(Vec::new()));
    assert!(errors.is_empty());
}

#[test]
fn collector_places_pages_by_index() {
    let mut c: PageCollector<String> = PageCollector::new(3, Vec::new());
    c.record(2, Ok(page(2)));
    c.record(0, Ok(page(0)));
    c.record(7, Ok(page(7)));
    c.record(1, Ok(page(1)));
    let (pages, errors) = c.finish();
    assert_eq!(pages, Some(vec![page(0), page(1), page(2)]));
    assert!(errors.is_empty());
}

#[test]
fn missing_page_withholds_the_document() {
    let mut c: PageCollector<String> = PageCollector::new(2, Vec::new());
    c.record(0, Ok(page(0)));
    let (pages, _) = c.finish();
    assert!(pages.is_none());
}
