//! The cover of the book: which files count as images, and under which
//! extension.

use crate::archive::EntryView;
use crate::epub::{cover_entries, cover_entry};
use crate::path::{extension, file_extension};
use crate::pdf::{cover_html, cover_page};
use crate::text::{ascii_lower, text_eq, to_ascii_lower};
use vstd::prelude::*;

verus! {

/// The cover file as found on disk.
#[derive(Debug, PartialEq, Eq)]
pub struct CoverFile {
    /// The absolute location of the file.
    pub location: String,
    /// What the file holds.
    pub data: Vec<u8>,
}

/// The extensions of the image formats that can serve as a cover.
pub open spec fn is_image_extension(ext: Seq<char>) -> bool {
    ||| ext == "png"@
    ||| ext == "jpg"@
    ||| ext == "jpeg"@
    ||| ext == "gif"@
    ||| ext == "webp"@
    ||| ext == "svg"@
}

/// Whether a lower-case extension names an image format.
pub fn is_image(ext: &str) -> (image: bool)
    ensures
        image == is_image_extension(ext@),
{
    text_eq(ext, "png") || text_eq(ext, "jpg") || text_eq(ext, "jpeg") || text_eq(ext, "gif")
        || text_eq(ext, "webp") || text_eq(ext, "svg")
}

/// The extension under which a cover of this file name is shown: its own
/// in small ASCII letters, where that names an image format. A cover of any
/// other extension, or of none, is not shown.
pub open spec fn cover_image(name: Seq<char>) -> Option<Seq<char>> {
    match extension(name) {
        Some(ext) => if is_image_extension(ascii_lower(ext)) {
            Some(ascii_lower(ext))
        } else {
            None
        },
        None => None,
    }
}

/// The extension under which a cover of this file name is shown, if it is
/// shown at all.
pub fn cover_extension(name: &str) -> (ext: Option<String>)
    ensures
        match ext {
            Some(e) => cover_image(name@) == Some(e@),
            None => cover_image(name@) is None,
        },
{
    match file_extension(name) {
        Some(ext) => {
            let lower = to_ascii_lower(ext.as_str());
            if is_image(lower.as_str()) {
                Some(lower)
            } else {
                None
            }
        },
        None => None,
    }
}

/// A cover that exists enters both the EPUB package and the print
/// document, or neither, by its extension taken without regard to ASCII
/// case: with the extension of an image format it is the package entry
/// `cover` with that extension in small letters and the cover page of the
/// print document; with any other extension, or with none, it is in
/// neither.
pub proof fn lemma_cover_by_extension(name: Seq<char>, location: Seq<char>, data: Seq<u8>)
    ensures
        cover_image(name) is Some <==> (extension(name) matches Some(ext) && is_image_extension(
            ascii_lower(ext),
        )),
        match cover_image(name) {
            Some(ext) => cover_entries(Some(name), Some(data)) == seq![cover_entry(ext, data)]
                && cover_html(Some(name), Some(location)) == cover_page(location),
            None => cover_entries(Some(name), Some(data)) == Seq::<EntryView>::empty()
                && cover_html(Some(name), Some(location)) == Seq::<char>::empty(),
        },
{
}

} // verus!
