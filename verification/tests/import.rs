use fastfileocr_core::import::{
    check_import, check_paste, check_pdf_pages, downscaled, flatten, images_of, page_name, source_of,
};

#[test]
fn only_known_kinds_within_their_size_are_imported() {
    assert_eq!(check_import(0, "PNG", true, 10).unwrap(), "png");
    assert_eq!(check_import(999, "pdf", true, 1024 * 1024 * 1024).unwrap(), "pdf");
    assert_eq!(check_import(1000, "png", true, 1).err().unwrap(), "@i18n(pageLimit,)");
    assert_eq!(check_import(0, "gif", true, 1).err().unwrap(), "@i18n(unsupportedFile,)");
    assert_eq!(check_import(0, "jpg", true, 100 * 1024 * 1024 + 1).err().unwrap(), "@i18n(fileTooLarge,)");
    assert_eq!(check_import(0, "jpg", false, 1).err().unwrap(), "@i18n(fileTooLarge,)");
}

#[test]
fn pdf_pages_and_pastes_respect_the_page_limit() {
    assert!(check_pdf_pages(998, 2).is_ok());
    assert!(check_pdf_pages(999, 2).is_err());
    assert!(check_paste(999).is_ok());
    assert!(check_paste(1000).is_err());
}

#[test]
fn imported_pages_are_named_and_placed_by_id() {
    assert_eq!(page_name("invoice.pdf", 0), "invoice.pdf · 1");
    assert_eq!(source_of("u1", "pdf"), "sources/u1.pdf");
    assert_eq!(images_of("u1"), ("pages/u1.jpg".to_string(), "pages/u1-thumb.jpg".to_string()));
    assert!(downscaled(4001, 10));
    assert!(!downscaled(4000, 4000));
}

#[test]
fn transparent_pixels_are_laid_over_white() {
    assert_eq!(flatten(0, 0), 255);
    assert_eq!(flatten(10, 255), 10);
    assert_eq!(flatten(0, 128), 127);
}
