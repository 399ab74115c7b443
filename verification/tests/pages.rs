use signer::pages::{plan, Page};
use signer::scan::Frame;

fn page(index: usize, rotation: Option<i32>) -> Page<u32, ()> {
    Page { index, date: Some(1), signature: None, frame: rotation.map(|rotation| Frame { rotation, size: () }) }
}

#[test]
fn a_document_without_a_blank_is_refused() {
    let error = plan::<u32, ()>(&vec![], "Datum:", "Klient:").unwrap_err();
    assert_eq!(error.date_label, "Datum:");
    assert_eq!(error.signature_label, "Klient:");
}

#[test]
fn a_digital_document_keeps_its_rotation() {
    assert_eq!(plan(&vec![page(0, None), page(2, None)], "Datum:", "Klient:").unwrap(), None);
}

#[test]
fn a_scan_is_turned_as_its_first_read_page_says() {
    let pages = vec![page(0, None), page(1, Some(180)), page(3, Some(0))];
    assert_eq!(plan(&pages, "Datum:", "Klient:").unwrap(), Some(180));
}
