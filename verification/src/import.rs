//! What may be imported into a project, and how imported pages are named and placed.
use crate::i18n::{key_text, text};
use crate::strings::{decimal, lowercase, push_decimal, same_text, to_lower};
use vstd::prelude::*;

verus! {

/// The most pages a project holds.
pub open spec fn page_limit() -> int {
    1000int
}

/// The extensions that can be imported, in lower case.
pub open spec fn importable(extension: Seq<char>) -> bool {
    extension == "pdf"@ || extension == "png"@ || extension == "jpg"@ || extension == "jpeg"@
        || extension == "webp"@ || extension == "bmp"@
}

/// The largest file of a kind that can be imported: 1 GiB for a PDF, 100 MiB for an image.
pub open spec fn size_limit(extension: Seq<char>) -> int {
    if extension == "pdf"@ {
        1073741824int
    } else {
        104857600int
    }
}

/// Why a file cannot be imported, if it cannot: a full project, an unknown kind, or a
/// file that is not a regular file or is too large, checked in that order.
pub open spec fn import_error(pages: int, extension: Seq<char>, regular: bool, size: u64) -> Option<Seq<char>> {
    if pages >= page_limit() {
        Some(key_text("pageLimit"@))
    } else if !importable(lowercase(extension)) {
        Some(key_text("unsupportedFile"@))
    } else if !regular || size > size_limit(lowercase(extension)) {
        Some(key_text("fileTooLarge"@))
    } else {
        None
    }
}

/// Whether a file can be imported; on success, the kind in lower case.
pub fn check_import(pages: usize, extension: &str, regular: bool, size: u64) -> (r: Result<String, String>)
    ensures
        match import_error(pages as int, extension@, regular, size) {
            Some(e) => r matches Err(m) && m@ == e,
            None => r matches Ok(x) && x@ == lowercase(extension@),
        },
{
    if pages >= 1000 {
        return Err(text("pageLimit"));
    }
    let kind = to_lower(extension);
    let k = kind.as_str();
    if !(same_text(k, "pdf") || same_text(k, "png") || same_text(k, "jpg") || same_text(k, "jpeg")
        || same_text(k, "webp") || same_text(k, "bmp")) {
        return Err(text("unsupportedFile"));
    }
    let limit: u64 = if same_text(k, "pdf") {
        1073741824
    } else {
        104857600
    };
    if !regular || size > limit {
        return Err(text("fileTooLarge"));
    }
    Ok(kind)
}

/// Whether a PDF's pages still fit in the project.
pub fn check_pdf_pages(pages: usize, more: usize) -> (r: Result<(), String>)
    ensures
        pages + more > page_limit() ==> (r matches Err(e) && e@ == key_text("pageLimitShort"@)),
        pages + more <= page_limit() ==> r is Ok,
{
    if more > 1000 || pages > 1000 - more {
        Err(text("pageLimitShort"))
    } else {
        Ok(())
    }
}

/// Whether one more page, pasted from the clipboard, fits in the project.
pub fn check_paste(pages: usize) -> (r: Result<(), String>)
    ensures
        pages >= page_limit() ==> (r matches Err(e) && e@ == key_text("pageLimitShort"@)),
        pages < page_limit() ==> r is Ok,
{
    if pages >= 1000 {
        Err(text("pageLimitShort"))
    } else {
        Ok(())
    }
}

/// The name of a PDF's page: the file name, a middle dot, and the page's number.
pub open spec fn pdf_page_name(name: Seq<char>, index: usize) -> Seq<char> {
    name + " · "@ + decimal(index as nat + 1)
}

/// The name of a PDF's page, counted from zero.
pub fn page_name(name: &str, index: usize) -> (r: String)
    requires
        index < usize::MAX,
    ensures
        r@ == pdf_page_name(name@, index),
{
    let mut r = name.to_string();
    r.append(" · ");
    push_decimal(&mut r, (index + 1) as u64);
    r
}

/// Where an imported file's copy is kept in the workspace.
pub open spec fn source_path(uid: Seq<char>, extension: Seq<char>) -> Seq<char> {
    "sources/"@ + uid + "."@ + extension
}

/// Where an imported file's copy is kept.
pub fn source_of(uid: &str, extension: &str) -> (r: String)
    ensures
        r@ == source_path(uid@, extension@),
{
    let mut r = "sources/".to_string();
    r.append(uid);
    r.append(".");
    r.append(extension);
    r
}

/// Where a page's image and thumbnail are kept.
pub open spec fn image_paths(uid: Seq<char>) -> (Seq<char>, Seq<char>) {
    ("pages/"@ + uid + ".jpg"@, "pages/"@ + uid + "-thumb.jpg"@)
}

/// Where a page's image and thumbnail are kept.
pub fn images_of(uid: &str) -> (r: (String, String))
    ensures
        (r.0@, r.1@) == image_paths(uid@),
{
    let mut image = "pages/".to_string();
    image.append(uid);
    image.append(".jpg");
    let mut thumb = "pages/".to_string();
    thumb.append(uid);
    thumb.append("-thumb.jpg");
    (image, thumb)
}

/// Whether a page image is scaled down to fit in 4000 pixels, keeping its aspect
/// ratio; a page is never cropped or tiled.
pub fn downscaled(width: u32, height: u32) -> (r: bool)
    ensures
        r == (width > 4000 || height > 4000),
{
    width > 4000 || height > 4000
}

/// A colour channel laid over white by its alpha, as a flattened JPEG shows it.
pub open spec fn over_white(c: u8, a: u8) -> int {
    ((c as int) * (a as int) + 255 * (255 - a as int)) / 255
}

/// A colour channel laid over white.
pub fn flatten(c: u8, a: u8) -> (r: u8)
    ensures
        r == over_white(c, a),
{
    assert((c as int) * (a as int) <= 255 * (a as int)) by (nonlinear_arith)
        requires
            c <= 255,
    ;
    let product: u32 = (c as u32) * (a as u32);
    let v: u32 = product + 255 * (255 - a as u32);
    assert(v <= 65025);
    (v / 255) as u8
}

} // verus!
