//! The EPUB package: package document, navigation map, one XHTML document
//! per chapter, and the order of the container's entries.

use crate::archive::{
    archive_admits, archive_bytes, entries_fit, lemma_entries_fit_each, Archive, Compression,
    EntryView,
};
use crate::config::Config;
use crate::cover::{cover_extension, cover_image, CoverFile};
use crate::error::{ErrorKind, PapyrusError};
use crate::markdown::{chapters, Chapter, MarkdownFile};
use crate::number::{
    decimal, decimal3, lemma_decimal3_injective, lemma_decimal_injective, push_decimal,
    push_decimal3,
};
use crate::text::{
    concat_pieces, lemma_concat_pieces_none, lemma_concat_pieces_step, lemma_flat_map_step,
    text_eq, xml_escape, xml_escaped, LINE_BREAK,
};
use vstd::prelude::*;
use vstd::utf8::encode_utf8;

verus! {

// The names of the entries and what the fixed ones hold.

pub const MIMETYPE_NAME: &'static str = "mimetype";

pub const MIMETYPE: &'static str = "application/epub+zip";

pub const CONTAINER_NAME: &'static str = "META-INF/container.xml";

/// The container description: it points at the package document.
pub const CONTAINER_XML: &'static str = r#"<?xml version="1.0" encoding="UTF-8"?>
<container version="1.0" xmlns="urn:oasis:names:tc:opendocument:xmlns:container">
    <rootfiles>
        <rootfile full-path="OEBPS/content.opf" media-type="application/oebps-package+xml"/>
    </rootfiles>
</container>
"#;

pub const OPF_NAME: &'static str = "OEBPS/content.opf";

/// The directory of the package inside the container.
pub const PACKAGE_DIR: &'static str = "OEBPS/";

// The resources of the package besides the chapters: how the manifest calls
// them, where they are below the package directory, and what they are.

pub const NCX_ID: &'static str = "ncx";

pub const NCX_HREF: &'static str = "toc.ncx";

pub const NCX_MEDIA: &'static str = "application/x-dtbncx+xml";

pub const STYLE_ID: &'static str = "style";

pub const STYLE_HREF: &'static str = "style.css";

pub const STYLE_MEDIA: &'static str = "text/css";

pub const COVER_ID: &'static str = "cover";

/// The file of the cover without its extension.
pub const COVER_HREF: &'static str = "cover.";

pub const CHAPTER_MEDIA: &'static str = "application/xhtml+xml";

pub const CHAPTER_STEM: &'static str = "chapter";

pub const CHAPTER_SUFFIX: &'static str = ".xhtml";

// The fixed text of the package document, in the order of the document.

pub const OPF_HEAD: &'static str = r#"<?xml version="1.0" encoding="UTF-8"?>
<package xmlns="http://www.idpf.org/2007/opf" version="3.0" unique-identifier="bookid">
    <metadata xmlns:dc="http://purl.org/dc/elements/1.1/">
        <dc:title>"#;

pub const OPF_CREATOR: &'static str = r#"</dc:title>
        <dc:creator>"#;

pub const OPF_LANGUAGE: &'static str = r#"</dc:creator>
        <dc:language>"#;

pub const OPF_IDENTIFIER: &'static str = r#"</dc:language>
        <dc:identifier id="bookid">urn:uuid:"#;

pub const OPF_MANIFEST: &'static str = r#"</dc:identifier>
    </metadata>
    <manifest>
"#;

pub const OPF_SPINE: &'static str = r#"    </manifest>
    <spine toc="ncx">
"#;

pub const OPF_TAIL: &'static str = r#"    </spine>
</package>"#;

pub const ITEM_OPEN: &'static str = "        <item id=\"";

pub const ITEM_HREF: &'static str = "\" href=\"";

pub const ITEM_MEDIA: &'static str = "\" media-type=\"";

pub const ITEM_CLOSE: &'static str = "\"/>\n";

pub const ITEMREF_OPEN: &'static str = "        <itemref idref=\"";

pub const ITEMREF_CLOSE: &'static str = "\"/>\n";

// The fixed text of the navigation map, in the order of the document.

pub const NCX_HEAD: &'static str = r#"<?xml version="1.0" encoding="UTF-8"?>
<ncx xmlns="http://www.daisy.org/z3986/2005/ncx/" version="2005-1">
    <head>
        <meta name="dtb:uid" content="urn:uuid:"#;

pub const NCX_TITLE: &'static str = r#""/>
        <meta name="dtb:depth" content="1"/>
        <meta name="dtb:totalPageCount" content="0"/>
        <meta name="dtb:maxPageNumber" content="0"/>
    </head>
    <docTitle>
        <text>"#;

pub const NCX_MAP: &'static str = r#"</text>
    </docTitle>
    <navMap>
"#;

pub const NCX_TAIL: &'static str = r#"    </navMap>
</ncx>"#;

pub const NAV_OPEN: &'static str = "        <navPoint id=\"navpoint-";

pub const NAV_ORDER: &'static str = "\" playOrder=\"";

pub const NAV_LABEL: &'static str = "\">\n            <navLabel>\n                <text>";

pub const NAV_SOURCE: &'static str =
    "</text>\n            </navLabel>\n            <content src=\"";

pub const NAV_CLOSE: &'static str = "\"/>\n        </navPoint>\n";

// The fixed text of a chapter's document, in the order of the document.

pub const XHTML_HEAD: &'static str = r#"<?xml version="1.0" encoding="UTF-8"?>
<!DOCTYPE html>
<html xmlns="http://www.w3.org/1999/xhtml">
<head>
    <title>"#;

pub const XHTML_BODY: &'static str = r#"</title>
    <link rel="stylesheet" type="text/css" href="style.css"/>
</head>
<body>
"#;

pub const XHTML_TAIL: &'static str = r#"
</body>
</html>"#;

/// The identifier of the chapter at place `number` in manifest and spine.
pub open spec fn chapter_id(number: nat) -> Seq<char> {
    CHAPTER_STEM@ + decimal(number)
}

/// The file of the chapter at place `number`, relative to the package
/// directory: the number has at least three digits.
pub open spec fn chapter_file(number: nat) -> Seq<char> {
    CHAPTER_STEM@ + decimal3(number) + CHAPTER_SUFFIX@
}

/// A resource of the package as the manifest lists it: the identifier
/// under which the package document refers to it, its file below the
/// package directory, and its media type.
pub ghost struct Resource {
    pub id: Seq<char>,
    pub href: Seq<char>,
    pub media: Seq<char>,
}

/// The manifest item of a resource.
pub open spec fn resource_line(resource: Resource) -> Seq<char> {
    ITEM_OPEN@ + resource.id + ITEM_HREF@ + resource.href + ITEM_MEDIA@ + resource.media
        + ITEM_CLOSE@
}

/// The navigation map as a resource.
pub open spec fn ncx_resource() -> Resource {
    Resource { id: NCX_ID@, href: NCX_HREF@, media: NCX_MEDIA@ }
}

/// The style sheet as a resource.
pub open spec fn style_resource() -> Resource {
    Resource { id: STYLE_ID@, href: STYLE_HREF@, media: STYLE_MEDIA@ }
}

/// The chapter at place `number` as a resource: the manifest binds its
/// identifier to its file.
pub open spec fn chapter_resource(number: nat) -> Resource {
    Resource { id: chapter_id(number), href: chapter_file(number), media: CHAPTER_MEDIA@ }
}

/// The media type of an image of this extension.
pub open spec fn image_media(ext: Seq<char>) -> Seq<char> {
    if ext == "png"@ {
        "image/png"@
    } else if ext == "jpg"@ || ext == "jpeg"@ {
        "image/jpeg"@
    } else if ext == "gif"@ {
        "image/gif"@
    } else if ext == "webp"@ {
        "image/webp"@
    } else {
        "image/svg+xml"@
    }
}

/// The cover of this extension as a resource.
pub open spec fn cover_resource(ext: Seq<char>) -> Resource {
    Resource { id: COVER_ID@, href: COVER_HREF@ + ext, media: image_media(ext) }
}

/// The style sheet as a list of resources: itself where the book has one.
pub open spec fn style_resources(style: bool) -> Seq<Resource> {
    if style {
        seq![style_resource()]
    } else {
        Seq::empty()
    }
}

/// The chapters as a list of resources, in the collection's order.
pub open spec fn chapter_resources(count: nat) -> Seq<Resource> {
    Seq::new(count, |i: int| chapter_resource((i + 1) as nat))
}

/// The cover as a list of resources: itself where one is embedded, under
/// the extension given.
pub open spec fn cover_resources(cover: Option<Seq<char>>) -> Seq<Resource> {
    match cover {
        Some(ext) => seq![cover_resource(ext)],
        None => Seq::empty(),
    }
}

/// The resources that the manifest lists: the navigation map, the style
/// sheet where the book has one, the chapters, and the cover where one is
/// embedded.
pub open spec fn manifest_resources(count: nat, style: bool, cover: Option<Seq<char>>) -> Seq<
    Resource,
> {
    seq![ncx_resource()] + style_resources(style) + chapter_resources(count) + cover_resources(
        cover,
    )
}

/// The items of a manifest that lists these resources, in their order.
pub open spec fn manifest_text(resources: Seq<Resource>) -> Seq<char> {
    resources.map_values(|resource: Resource| resource_line(resource)).flatten()
}

/// The spine entry that refers to a chapter by its identifier.
pub open spec fn spine_item(number: nat) -> Seq<char> {
    ITEMREF_OPEN@ + chapter_id(number) + ITEMREF_CLOSE@
}

/// The navigation point of a chapter: its place as `playOrder`, its name
/// and its file.
pub open spec fn nav_point(chapter: Chapter, number: nat) -> Seq<char> {
    NAV_OPEN@ + decimal(number) + NAV_ORDER@ + decimal(number) + NAV_LABEL@ + chapter.xml_label(
        number,
    ) + NAV_SOURCE@ + chapter_file(number) + NAV_CLOSE@
}

/// The spine entries by index.
pub open spec fn spine_items() -> spec_fn(int) -> Seq<char> {
    |i: int| spine_item((i + 1) as nat)
}

/// The navigation points by index.
pub open spec fn nav_points(chapters: Seq<Chapter>) -> spec_fn(int) -> Seq<char> {
    |i: int| nav_point(chapters[i], (i + 1) as nat)
}

/// What the package document says of the book.
pub ghost struct BookView {
    pub title: Seq<char>,
    pub author: Seq<char>,
    pub language: Seq<char>,
}

impl Config {
    /// What the package document says of the book.
    pub open spec fn book(&self) -> BookView {
        BookView { title: self.title@, author: self.author@, language: self.language_code() }
    }
}

/// The package document of a book of `count` chapters: metadata, a
/// manifest item per resource and the spine, which lists the chapters in
/// the collection's order. `style` says whether the book has a style sheet,
/// `cover` under which extension a cover is embedded, if one is.
pub open spec fn opf_document(
    book: BookView,
    identifier: Seq<char>,
    count: nat,
    style: bool,
    cover: Option<Seq<char>>,
) -> Seq<char> {
    OPF_HEAD@ + xml_escaped(book.title) + OPF_CREATOR@ + xml_escaped(book.author) + OPF_LANGUAGE@
        + xml_escaped(book.language) + OPF_IDENTIFIER@ + identifier + OPF_MANIFEST@
        + manifest_text(manifest_resources(count, style, cover)) + OPF_SPINE@ + concat_pieces(
        count,
        spine_items(),
    ) + OPF_TAIL@
}

/// The navigation map: one point per chapter, in the collection's order.
pub open spec fn ncx_document(title: Seq<char>, identifier: Seq<char>, chapters: Seq<Chapter>) -> Seq<
    char,
> {
    NCX_HEAD@ + identifier + NCX_TITLE@ + xml_escaped(title) + NCX_MAP@ + concat_pieces(
        chapters.len(),
        nav_points(chapters),
    ) + NCX_TAIL@
}

/// What opens the body of a chapter's document: the heading that shows the
/// chapter's title, on a line of its own; nothing for a chapter without a
/// title.
pub open spec fn heading_line(chapter: Chapter) -> Seq<char> {
    match chapter.title {
        Some(title) => chapter.heading() + LINE_BREAK@,
        None => Seq::<char>::empty(),
    }
}

/// The XHTML document of a chapter: its name as the title of the document;
/// as the body the heading with the chapter's title, where it has one, and
/// then the rendered body, unescaped.
pub open spec fn chapter_document(chapter: Chapter, number: nat) -> Seq<char> {
    XHTML_HEAD@ + chapter.html_label(number) + XHTML_BODY@ + heading_line(chapter) + chapter.html
        + XHTML_TAIL@
}

/// An entry of the package.
#[derive(Debug, PartialEq, Eq)]
pub struct EpubEntry {
    pub name: String,
    pub compression: Compression,
    pub data: Vec<u8>,
}

impl View for EpubEntry {
    type V = EntryView;

    open spec fn view(&self) -> EntryView {
        EntryView { name: self.name@, compression: self.compression, data: self.data@ }
    }
}

/// The entries of a list as plain values.
pub open spec fn entry_views(entries: Seq<EpubEntry>) -> Seq<EntryView> {
    entries.map_values(|entry: EpubEntry| entry@)
}

/// A compressed entry that holds a text.
pub open spec fn text_entry(name: Seq<char>, text: Seq<char>) -> EntryView {
    EntryView { name, compression: Compression::Deflated, data: encode_utf8(text) }
}

/// The entry that opens every package: the media type, not compressed.
pub open spec fn mimetype_entry() -> EntryView {
    EntryView {
        name: MIMETYPE_NAME@,
        compression: Compression::Stored,
        data: encode_utf8(MIMETYPE@),
    }
}

/// The entry of the chapter at index `i`.
pub open spec fn chapter_entry(chapters: Seq<Chapter>, i: int) -> EntryView {
    text_entry(
        PACKAGE_DIR@ + chapter_file((i + 1) as nat),
        chapter_document(chapters[i], (i + 1) as nat),
    )
}

/// The entries of the chapters, in the collection's order.
pub open spec fn chapter_entries(chapters: Seq<Chapter>) -> Seq<EntryView> {
    Seq::new(chapters.len(), |i: int| chapter_entry(chapters, i))
}

/// The entry of the style sheet, where the book has one.
pub open spec fn style_entries(css: Option<Seq<char>>) -> Seq<EntryView> {
    match css {
        Some(text) => seq![text_entry(PACKAGE_DIR@ + STYLE_HREF@, text)],
        None => Seq::empty(),
    }
}

/// The entry of a cover that is embedded under this extension.
pub open spec fn cover_entry(ext: Seq<char>, data: Seq<u8>) -> EntryView {
    EntryView {
        name: PACKAGE_DIR@ + COVER_HREF@ + ext,
        compression: Compression::Deflated,
        data,
    }
}

/// The extension under which the cover is embedded: that of a cover that is
/// configured, exists and is an image.
pub open spec fn embedded_cover(name: Option<Seq<char>>, data: Option<Seq<u8>>) -> Option<
    Seq<char>,
> {
    match (name, data) {
        (Some(name), Some(_)) => cover_image(name),
        _ => None,
    }
}

/// The entry of the cover, where one is embedded.
pub open spec fn cover_entries(name: Option<Seq<char>>, data: Option<Seq<u8>>) -> Seq<EntryView> {
    match (embedded_cover(name, data), data) {
        (Some(ext), Some(data)) => seq![cover_entry(ext, data)],
        _ => Seq::empty(),
    }
}

/// What the package consists of.
pub ghost struct PackageView {
    pub book: BookView,
    pub opf_identifier: Seq<char>,
    pub ncx_identifier: Seq<char>,
    pub chapters: Seq<Chapter>,
    pub css: Option<Seq<char>>,
    pub cover_name: Option<Seq<char>>,
    pub cover_data: Option<Seq<u8>>,
}

impl PackageView {
    /// The resources that the manifest of the package lists.
    pub open spec fn resources(self) -> Seq<Resource> {
        manifest_resources(
            self.chapters.len(),
            self.css is Some,
            embedded_cover(self.cover_name, self.cover_data),
        )
    }

    /// The package document of the package.
    pub open spec fn package_document(self) -> Seq<char> {
        opf_document(
            self.book,
            self.opf_identifier,
            self.chapters.len(),
            self.css is Some,
            embedded_cover(self.cover_name, self.cover_data),
        )
    }
}

/// The four entries that open every package.
pub open spec fn leading_entries(package: PackageView) -> Seq<EntryView> {
    seq![
        mimetype_entry(),
        text_entry(CONTAINER_NAME@, CONTAINER_XML@),
        text_entry(OPF_NAME@, package.package_document()),
        text_entry(
            PACKAGE_DIR@ + NCX_HREF@,
            ncx_document(package.book.title, package.ncx_identifier, package.chapters),
        ),
    ]
}

/// The entries of the package in the order of the container: media type,
/// container description, package document, navigation map, the chapters,
/// then the style sheet and the cover where there are any.
pub open spec fn epub_entries(package: PackageView) -> Seq<EntryView> {
    leading_entries(package) + chapter_entries(package.chapters) + style_entries(package.css)
        + cover_entries(package.cover_name, package.cover_data)
}

/// Whether a text has the form of a hyphenated identifier: 36 characters,
/// hyphens at the places 8, 13, 18 and 23, small hexadecimal digits at the
/// others.
pub open spec fn is_identifier(text: Seq<char>) -> bool {
    &&& text.len() == 36
    &&& forall|i: int|
        0 <= i < 36 ==> if i == 8 || i == 13 || i == 18 || i == 23 {
            #[trigger] text[i] == '-'
        } else {
            '0' <= text[i] <= '9' || 'a' <= text[i] <= 'f'
        }
}

/// `Uuid::new_v4` in its hyphenated form: a random identifier, a new one at
/// each call. Only its form is claimed.
#[verifier::external_body]
pub(crate) fn fresh_identifier() -> (identifier: String)
    ensures
        is_identifier(identifier@),
{
    uuid::Uuid::new_v4().to_string()
}

/// The file of the chapter at place `number`.
pub fn chapter_file_name(number: usize) -> (name: String)
    ensures
        name@ == chapter_file(number as nat),
{
    let mut name = String::from_str(CHAPTER_STEM);
    push_decimal3(&mut name, number);
    name.append(CHAPTER_SUFFIX);
    name
}

/// The manifest item of a resource.
fn resource_text(id: &str, href: &str, media: &str) -> (line: String)
    ensures
        line@ == resource_line(Resource { id: id@, href: href@, media: media@ }),
{
    let mut line = String::from_str(ITEM_OPEN);
    line.append(id);
    line.append(ITEM_HREF);
    line.append(href);
    line.append(ITEM_MEDIA);
    line.append(media);
    line.append(ITEM_CLOSE);
    line
}

/// The media type of an image of this extension.
pub fn image_media_type(ext: &str) -> (media: &'static str)
    ensures
        media@ == image_media(ext@),
{
    if text_eq(ext, "png") {
        "image/png"
    } else if text_eq(ext, "jpg") || text_eq(ext, "jpeg") {
        "image/jpeg"
    } else if text_eq(ext, "gif") {
        "image/gif"
    } else if text_eq(ext, "webp") {
        "image/webp"
    } else {
        "image/svg+xml"
    }
}

/// The characters of an optional text.
pub open spec fn text_view(text: Option<&str>) -> Option<Seq<char>> {
    match text {
        Some(t) => Some(t@),
        None => None,
    }
}

/// The items of the manifest of a package of `count` chapters, with a style
/// sheet if `style` says so and a cover of the extension `cover`, if any.
pub fn manifest_section(count: usize, style: bool, cover: Option<&str>) -> (section: String)
    ensures
        section@ == manifest_text(manifest_resources(count as nat, style, text_view(cover))),
{
    let ghost list = manifest_resources(count as nat, style, text_view(cover));
    let ghost line = |resource: Resource| resource_line(resource);
    let ghost offset: int = if style {
        2
    } else {
        1
    };
    let mut section = resource_text(NCX_ID, NCX_HREF, NCX_MEDIA);
    proof {
        assert(list.take(0).map_values(line) =~= Seq::<Seq<char>>::empty());
        assert(list[0] == ncx_resource());
        lemma_flat_map_step(list, line, 0);
        assert(section@ =~= manifest_text(list.take(1)));
    }
    if style {
        section.append(resource_text(STYLE_ID, STYLE_HREF, STYLE_MEDIA).as_str());
        proof {
            assert(list[1] == style_resource());
            lemma_flat_map_step(list, line, 1);
        }
    }
    let mut i: usize = 0;
    while i < count
        invariant
            i <= count,
            list == manifest_resources(count as nat, style, text_view(cover)),
            line == |resource: Resource| resource_line(resource),
            offset == if style {
                2int
            } else {
                1int
            },
            section@ == manifest_text(list.take(offset + i)),
        decreases count - i,
    {
        let mut id = String::from_str(CHAPTER_STEM);
        push_decimal(&mut id, i + 1);
        let file = chapter_file_name(i + 1);
        section.append(resource_text(id.as_str(), file.as_str(), CHAPTER_MEDIA).as_str());
        proof {
            assert(list[offset + i] == chapter_resource((i + 1) as nat));
            lemma_flat_map_step(list, line, offset + i);
        }
        i += 1;
    }
    if let Some(ext) = cover {
        let href = String::from_str(COVER_HREF).concat(ext);
        section.append(resource_text(COVER_ID, href.as_str(), image_media_type(ext)).as_str());
        proof {
            assert(list[offset + count] == cover_resource(ext@));
            lemma_flat_map_step(list, line, offset + count);
        }
    }
    assert(list.take(list.len() as int) =~= list);
    section
}

/// The spine entries of `count` chapters.
pub fn spine_section(count: usize) -> (section: String)
    ensures
        section@ == concat_pieces(count as nat, spine_items()),
{
    let mut section = String::new();
    let mut i: usize = 0;
    proof {
        lemma_concat_pieces_none(spine_items());
    }
    while i < count
        invariant
            i <= count,
            section@ == concat_pieces(i as nat, spine_items()),
        decreases count - i,
    {
        let mut item = String::from_str(ITEMREF_OPEN);
        item.append(CHAPTER_STEM);
        push_decimal(&mut item, i + 1);
        item.append(ITEMREF_CLOSE);
        assert(item@ =~= spine_item((i + 1) as nat));
        section.append(item.as_str());
        proof {
            lemma_concat_pieces_step(i as nat, spine_items());
        }
        i += 1;
    }
    section
}

/// The package document of a book of `count` chapters under the given
/// identifier; `style` says whether the book has a style sheet, `cover`
/// under which extension a cover is embedded, if one is.
pub fn package_document(
    config: &Config,
    identifier: &str,
    count: usize,
    style: bool,
    cover: Option<&str>,
) -> (opf: String)
    ensures
        opf@ == opf_document(config.book(), identifier@, count as nat, style, text_view(cover)),
{
    let mut opf = String::from_str(OPF_HEAD);
    opf.append(xml_escape(config.title.as_str()).as_str());
    opf.append(OPF_CREATOR);
    opf.append(xml_escape(config.author.as_str()).as_str());
    opf.append(OPF_LANGUAGE);
    opf.append(xml_escape(config.language()).as_str());
    opf.append(OPF_IDENTIFIER);
    opf.append(identifier);
    opf.append(OPF_MANIFEST);
    opf.append(manifest_section(count, style, cover).as_str());
    opf.append(OPF_SPINE);
    opf.append(spine_section(count).as_str());
    opf.append(OPF_TAIL);
    opf
}

/// The package document of the book under a fresh identifier; `style` says
/// whether the book has a style sheet, `cover` under which extension a cover
/// is embedded, if one is.
pub fn generate_opf(config: &Config, files: &Vec<MarkdownFile>, style: bool, cover: Option<&str>) -> (opf:
    String)
    ensures
        exists|identifier: Seq<char>|
            is_identifier(identifier) && opf@ == #[trigger] opf_document(
                config.book(),
                identifier,
                files@.len(),
                style,
                text_view(cover),
            ),
{
    let identifier = fresh_identifier();
    package_document(config, identifier.as_str(), files.len(), style, cover)
}

/// The navigation points of the chapters.
pub fn nav_section(files: &Vec<MarkdownFile>) -> (section: String)
    ensures
        section@ == concat_pieces(files@.len(), nav_points(chapters(files@))),
{
    let ghost chs = chapters(files@);
    let mut section = String::new();
    let mut i: usize = 0;
    proof {
        lemma_concat_pieces_none(nav_points(chs));
    }
    while i < files.len()
        invariant
            i <= files.len(),
            chs == chapters(files@),
            section@ == concat_pieces(i as nat, nav_points(chs)),
        decreases files.len() - i,
    {
        let mut point = String::from_str(NAV_OPEN);
        push_decimal(&mut point, i + 1);
        point.append(NAV_ORDER);
        push_decimal(&mut point, i + 1);
        point.append(NAV_LABEL);
        point.append(files[i].xml_label(i + 1).as_str());
        point.append(NAV_SOURCE);
        point.append(chapter_file_name(i + 1).as_str());
        point.append(NAV_CLOSE);
        assert(point@ == nav_point(chs[i as int], (i + 1) as nat));
        section.append(point.as_str());
        proof {
            lemma_concat_pieces_step(i as nat, nav_points(chs));
        }
        i += 1;
    }
    section
}

/// The navigation map of the book under the given identifier.
pub fn navigation_document(config: &Config, identifier: &str, files: &Vec<MarkdownFile>) -> (ncx:
    String)
    ensures
        ncx@ == ncx_document(config.title@, identifier@, chapters(files@)),
{
    let mut ncx = String::from_str(NCX_HEAD);
    ncx.append(identifier);
    ncx.append(NCX_TITLE);
    ncx.append(xml_escape(config.title.as_str()).as_str());
    ncx.append(NCX_MAP);
    ncx.append(nav_section(files).as_str());
    ncx.append(NCX_TAIL);
    ncx
}

/// The navigation map of the book under a fresh identifier.
pub fn generate_ncx(config: &Config, files: &Vec<MarkdownFile>) -> (ncx: String)
    ensures
        exists|identifier: Seq<char>|
            is_identifier(identifier) && ncx@ == #[trigger] ncx_document(
                config.title@,
                identifier,
                chapters(files@),
            ),
{
    let identifier = fresh_identifier();
    navigation_document(config, identifier.as_str(), files)
}

/// The XHTML document of a chapter, `number` being its 1-based place.
pub fn chapter_xhtml(file: &MarkdownFile, number: usize) -> (document: String)
    ensures
        document@ == chapter_document(file.chapter(), number as nat),
{
    let mut document = String::from_str(XHTML_HEAD);
    document.append(file.html_label(number).as_str());
    document.append(XHTML_BODY);
    if file.title().is_some() {
        document.append(file.heading().as_str());
        document.append(LINE_BREAK);
    }
    document.append(file.html.as_str());
    document.append(XHTML_TAIL);
    document
}

/// A compressed entry that holds a text.
pub fn new_text_entry(name: &str, text: &str) -> (entry: EpubEntry)
    ensures
        entry@ == text_entry(name@, text@),
{
    EpubEntry {
        name: String::from_str(name),
        compression: Compression::Deflated,
        data: text.as_bytes_vec(),
    }
}

/// A copy of the bytes.
fn copy_bytes(data: &Vec<u8>) -> (copy: Vec<u8>)
    ensures
        copy@ == data@,
{
    let mut copy: Vec<u8> = Vec::new();
    let mut i: usize = 0;
    while i < data.len()
        invariant
            i <= data.len(),
            copy@ == data@.take(i as int),
        decreases data.len() - i,
    {
        copy.push(data[i]);
        i += 1;
    }
    copy
}

/// What the package of a book consists of, the style sheet and the cover
/// file being given where they exist.
pub open spec fn package_of(
    config: &Config,
    files: Seq<MarkdownFile>,
    css: Option<&str>,
    cover: Option<&CoverFile>,
    opf_identifier: Seq<char>,
    ncx_identifier: Seq<char>,
) -> PackageView {
    PackageView {
        book: config.book(),
        opf_identifier,
        ncx_identifier,
        chapters: chapters(files),
        css: match css {
            Some(text) => Some(text@),
            None => None,
        },
        cover_name: match config.cover {
            Some(name) => Some(name@),
            None => None,
        },
        cover_data: match cover {
            Some(file) => Some(file.data@),
            None => None,
        },
    }
}

/// The entries of the package of a book, in the order of the container.
pub fn epub_package(
    config: &Config,
    files: &Vec<MarkdownFile>,
    css: Option<&str>,
    cover: Option<&CoverFile>,
    opf_identifier: &str,
    ncx_identifier: &str,
) -> (entries: Vec<EpubEntry>)
    ensures
        entry_views(entries@) == epub_entries(
            package_of(config, files@, css, cover, opf_identifier@, ncx_identifier@),
        ),
{
    let ghost package = package_of(config, files@, css, cover, opf_identifier@, ncx_identifier@);
    let ghost chs = chapters(files@);
    let mut entries: Vec<EpubEntry> = Vec::new();
    entries.push(
        EpubEntry {
            name: String::from_str(MIMETYPE_NAME),
            compression: Compression::Stored,
            data: MIMETYPE.as_bytes_vec(),
        },
    );
    entries.push(new_text_entry(CONTAINER_NAME, CONTAINER_XML));
    let embedded: Option<String> = match (&config.cover, cover) {
        (Some(name), Some(_)) => cover_extension(name.as_str()),
        _ => None,
    };
    let embedded_ext: Option<&str> = match &embedded {
        Some(ext) => Some(ext.as_str()),
        None => None,
    };
    let opf = package_document(config, opf_identifier, files.len(), css.is_some(), embedded_ext);
    entries.push(new_text_entry(OPF_NAME, opf.as_str()));
    let ncx = navigation_document(config, ncx_identifier, files);
    entries.push(
        new_text_entry(String::from_str(PACKAGE_DIR).concat(NCX_HREF).as_str(), ncx.as_str()),
    );
    assert(entry_views(entries@) =~= leading_entries(package));
    let mut i: usize = 0;
    while i < files.len()
        invariant
            i <= files.len(),
            chs == chapters(files@),
            entry_views(entries@) == leading_entries(package) + chapter_entries(chs).take(
                i as int,
            ),
        decreases files.len() - i,
    {
        let ghost before = entry_views(entries@);
        let mut name = String::from_str(PACKAGE_DIR);
        name.append(chapter_file_name(i + 1).as_str());
        let document = chapter_xhtml(&files[i], i + 1);
        let entry = new_text_entry(name.as_str(), document.as_str());
        assert(entry@ == chapter_entry(chs, i as int));
        entries.push(entry);
        assert(entry_views(entries@) =~= before.push(chapter_entry(chs, i as int)));
        assert(chapter_entries(chs).take(i + 1) =~= chapter_entries(chs).take(i as int).push(
            chapter_entry(chs, i as int),
        ));
        i += 1;
    }
    assert(chapter_entries(chs).take(files.len() as int) =~= chapter_entries(chs));
    let ghost with_chapters = entry_views(entries@);
    if let Some(text) = css {
        entries.push(
            new_text_entry(String::from_str(PACKAGE_DIR).concat(STYLE_HREF).as_str(), text),
        );
    }
    assert(entry_views(entries@) =~= with_chapters + style_entries(package.css));
    let ghost with_style = entry_views(entries@);
    if let Some(ext) = embedded_ext {
        if let Some(file) = cover {
            let mut entry_name = String::from_str(PACKAGE_DIR);
            entry_name.append(COVER_HREF);
            entry_name.append(ext);
            entries.push(
                EpubEntry {
                    name: entry_name,
                    compression: Compression::Deflated,
                    data: copy_bytes(&file.data),
                },
            );
        }
    }
    assert(entry_views(entries@) =~= with_style + cover_entries(
        package.cover_name,
        package.cover_data,
    ));
    entries
}

/// Adds the entries to the container, in their order, after those that it
/// holds. The container is handed back with the entries in it exactly
/// where the ZIP library takes them all; where it refuses one, the error is
/// a ZIP error.
pub fn fill_archive(archive: Archive, entries: &Vec<EpubEntry>) -> (filled: Result<
    Archive,
    PapyrusError,
>)
    ensures
        match filled {
            Ok(full) => entries_fit(archive.entries(), entry_views(entries@)) && full.entries()
                == archive.entries() + entry_views(entries@),
            Err(error) => !entries_fit(archive.entries(), entry_views(entries@)) && error@.kind
                == ErrorKind::Zip,
        },
{
    let ghost held = archive.entries();
    let ghost more = entry_views(entries@);
    let mut current = archive;
    let mut i: usize = 0;
    assert(held + more.take(0) =~= held);
    while i < entries.len()
        invariant
            i <= entries.len(),
            held == archive.entries(),
            more == entry_views(entries@),
            entries_fit(held, more.take(i as int)),
            current.entries() == held + more.take(i as int),
        decreases entries.len() - i,
    {
        let entry = &entries[i];
        match current.add(entry.name.as_str(), entry.compression, entry.data.as_slice()) {
            Ok(next) => {
                current = next;
            },
            Err(error) => {
                proof {
                    if entries_fit(held, more) {
                        lemma_entries_fit_each(held, more, i as int);
                    }
                }
                return Err(error);
            },
        }
        proof {
            let upto = more.take(i + 1);
            assert(upto.drop_last() =~= more.take(i as int));
            assert(upto.last() == entry@);
            assert(held + upto =~= (held + more.take(i as int)).push(entry@));
        }
        i += 1;
    }
    assert(more.take(entries.len() as int) =~= more);
    Ok(current)
}

/// Packs the entries, in their order, into a ZIP container and gives its
/// bytes: a new container filled by `fill_archive` and closed. The bytes
/// are given exactly where the ZIP library admits the entries; where it
/// does not, the error is a ZIP error that carries the library's words.
pub fn pack_archive(entries: &Vec<EpubEntry>) -> (bytes: Result<Vec<u8>, PapyrusError>)
    ensures
        match bytes {
            Ok(b) => archive_admits(entry_views(entries@)) && archive_bytes(
                entry_views(entries@),
            ) == Some(b@),
            Err(error) => !archive_admits(entry_views(entries@)) && error@.kind
                == ErrorKind::Zip,
        },
{
    let archive = Archive::new();
    let full = match fill_archive(archive, entries) {
        Ok(full) => full,
        Err(error) => {
            return Err(error);
        },
    };
    assert(full.entries() =~= entry_views(entries@));
    full.close()
}

/// The extension of an EPUB package.
pub const EPUB_EXTENSION: &'static str = ".epub";

/// Builds the EPUB package of a book from its highlighted chapters and
/// gives the bytes of the container.
///
/// `css` is the text of the book's style sheet and `cover` the configured
/// cover file, each `None` where the file does not exist. Package document
/// and navigation map each get a fresh identifier; the container holds the
/// entries of the package in their order. The package is given exactly
/// where the ZIP library admits its entries; where it does not, the error
/// is a ZIP error.
pub fn generate_epub(
    config: &Config,
    files: &Vec<MarkdownFile>,
    css: Option<&str>,
    cover: Option<&CoverFile>,
) -> (bytes: Result<Vec<u8>, PapyrusError>)
    ensures
        exists|opf_identifier: Seq<char>, ncx_identifier: Seq<char>|
            is_identifier(opf_identifier) && is_identifier(ncx_identifier) && ({
                let entries = #[trigger] epub_entries(
                    package_of(config, files@, css, cover, opf_identifier, ncx_identifier),
                );
                match bytes {
                    Ok(b) => archive_admits(entries) && archive_bytes(entries) == Some(b@),
                    Err(error) => !archive_admits(entries) && error@.kind == ErrorKind::Zip,
                }
            }),
{
    let opf_identifier = fresh_identifier();
    let ncx_identifier = fresh_identifier();
    let entries = epub_package(
        config,
        files,
        css,
        cover,
        opf_identifier.as_str(),
        ncx_identifier.as_str(),
    );
    let bytes = pack_archive(&entries);
    assert(entry_views(entries@) == epub_entries(
        package_of(config, files@, css, cover, opf_identifier@, ncx_identifier@),
    ));
    bytes
}

/// Every package opens with the media type: the first entry is named
/// `mimetype`, is stored without compression and holds the twenty bytes of
/// `application/epub+zip`; every entry after it is compressed.
pub proof fn lemma_mimetype_first(package: PackageView)
    ensures
        epub_entries(package).len() >= 4 + package.chapters.len(),
        epub_entries(package)[0] == mimetype_entry(),
        mimetype_entry().name == MIMETYPE_NAME@,
        mimetype_entry().compression == Compression::Stored,
        mimetype_entry().data.len() == 20,
        forall|i: int| 0 <= i < 20 ==> mimetype_entry().data[i] == MIMETYPE@[i] as u8,
        forall|k: int|
            1 <= k < epub_entries(package).len() ==> (#[trigger] epub_entries(
                package,
            )[k]).compression == Compression::Deflated,
{
    reveal_strlit("application/epub+zip");
    assert(vstd::utf8::is_ascii_chars(MIMETYPE@));
    vstd::utf8::is_ascii_chars_encode_utf8(MIMETYPE@);
    let all = epub_entries(package);
    let lead = leading_entries(package);
    let chs = chapter_entries(package.chapters);
    let style = style_entries(package.css);
    let cover = cover_entries(package.cover_name, package.cover_data);
    assert(all[0] == lead[0]);
    assert forall|k: int| 1 <= k < all.len() implies (#[trigger] all[k]).compression
        == Compression::Deflated by {
        if k < 4 {
            assert(all[k] == lead[k]);
        } else if k < 4 + chs.len() {
            assert(all[k] == chs[k - 4]);
        } else if k < 4 + chs.len() + style.len() {
            assert(all[k] == style[k - 4 - chs.len()]);
        } else {
            assert(all[k] == cover[k - 4 - chs.len() - style.len()]);
        }
    }
}

/// Different places have different chapter identifiers and chapter files.
pub proof fn lemma_chapter_names_differ(a: nat, b: nat)
    requires
        a != b,
    ensures
        chapter_id(a) != chapter_id(b),
        chapter_file(a) != chapter_file(b),
{
    let stem = CHAPTER_STEM@;
    if chapter_id(a) == chapter_id(b) {
        assert(chapter_id(a).skip(stem.len() as int) =~= decimal(a));
        assert(chapter_id(b).skip(stem.len() as int) =~= decimal(b));
        lemma_decimal_injective(a, b);
    }
    if chapter_file(a) == chapter_file(b) {
        let x = decimal3(a);
        let y = decimal3(b);
        let from = stem.len() as int;
        assert(chapter_file(a).len() == stem.len() + x.len() + CHAPTER_SUFFIX@.len());
        assert(chapter_file(b).len() == stem.len() + y.len() + CHAPTER_SUFFIX@.len());
        assert(chapter_file(a).subrange(from, from + x.len()) =~= x);
        assert(chapter_file(b).subrange(from, from + y.len()) =~= y);
        lemma_decimal3_injective(a, b);
    }
}

/// Spine, navigation map and chapter files number the chapters alike, from
/// one on, in the collection's order.
///
/// For the chapter at index `i` the spine entry at that index carries the
/// identifier of place `i + 1`, which the chapter's manifest item binds to
/// the file of place `i + 1`; the navigation point at that index has `i + 1`
/// as its `playOrder` and that file as its source; and the chapter's entry
/// in the container, the one at index `4 + i`, is that file in the package
/// directory and holds the chapter's document. No other place shares the
/// identifier or the file.
pub proof fn lemma_chapter_numbering(package: PackageView, i: int, j: int)
    requires
        0 <= i < package.chapters.len(),
        0 <= j < package.chapters.len(),
    ensures
        ({
            let number = (i + 1) as nat;
            let chapter = package.chapters[i];
            let first = if package.css is Some {
                2int
            } else {
                1int
            };
            &&& spine_items()(i) == ITEMREF_OPEN@ + chapter_id(number) + ITEMREF_CLOSE@
            &&& package.resources()[first + i] == chapter_resource(number)
            &&& resource_line(chapter_resource(number)) == ITEM_OPEN@ + chapter_id(number)
                + ITEM_HREF@ + chapter_file(number) + ITEM_MEDIA@ + CHAPTER_MEDIA@ + ITEM_CLOSE@
            &&& nav_points(package.chapters)(i) == NAV_OPEN@ + decimal(number) + NAV_ORDER@
                + decimal(number) + NAV_LABEL@ + chapter.xml_label(number) + NAV_SOURCE@
                + chapter_file(number) + NAV_CLOSE@
            &&& epub_entries(package)[4 + i].name == PACKAGE_DIR@ + chapter_file(number)
            &&& epub_entries(package)[4 + i].data == encode_utf8(
                chapter_document(chapter, number),
            )
        }),
        i != j ==> chapter_id((i + 1) as nat) != chapter_id((j + 1) as nat) && chapter_file(
            (i + 1) as nat,
        ) != chapter_file((j + 1) as nat),
{
    let all = epub_entries(package);
    let chs = chapter_entries(package.chapters);
    assert(all[4 + i] == chs[i]);
    if i != j {
        lemma_chapter_names_differ((i + 1) as nat, (j + 1) as nat);
    }
}

/// Where the resource at index `i` of the manifest stands among the entries
/// of the container: the navigation map after the package document, the
/// chapters after it, then the style sheet and the cover.
pub open spec fn entry_of_resource(package: PackageView, i: int) -> int {
    let count = package.chapters.len() as int;
    let style: int = if package.css is Some {
        1
    } else {
        0
    };
    if i == 0 {
        3
    } else if i <= style {
        4 + count
    } else if i <= style + count {
        4 + (i - 1 - style)
    } else {
        4 + count + style
    }
}

/// The files of the resources of a package are all different.
pub proof fn lemma_resource_files_differ(package: PackageView, i: int, j: int)
    requires
        0 <= i < j < package.resources().len(),
    ensures
        package.resources()[i].href != package.resources()[j].href,
{
    reveal_strlit("toc.ncx");
    reveal_strlit("style.css");
    reveal_strlit("chapter");
    reveal_strlit("cover.");
    let resources = package.resources();
    let count = package.chapters.len() as int;
    let style: int = if package.css is Some {
        1
    } else {
        0
    };
    let a = resources[i].href;
    let b = resources[j].href;
    // The navigation map begins with `t`, the style sheet with `s`, a
    // chapter with `ch` and the cover with `co`.
    assert(i == 0 ==> a[0] == 't');
    assert(1 <= i <= style ==> a[0] == 's');
    if style < i <= style + count {
        assert(a == chapter_file((i - style) as nat));
        assert(a[0] == CHAPTER_STEM@[0] && a[1] == CHAPTER_STEM@[1]);
    }
    if 1 <= j <= style {
        assert(b[0] == 's');
    }
    if style < j <= style + count {
        assert(b == chapter_file((j - style) as nat));
        assert(b[0] == CHAPTER_STEM@[0] && b[1] == CHAPTER_STEM@[1]);
        if style < i {
            lemma_chapter_names_differ((i - style) as nat, (j - style) as nat);
        }
    }
    if j > style + count {
        assert(b[0] == COVER_HREF@[0] && b[1] == COVER_HREF@[1]);
    }
}

/// The manifest lists the resources of the package, each once: every file
/// that the container holds below the package directory, but the package
/// document itself, is the file of exactly one manifest item, and every
/// manifest item names such a file.
///
/// The manifest has one item for each entry of the container from the
/// navigation map on; `entry_of_resource` pairs the items with these
/// entries, one to one; the entry paired with an item is the item's file
/// in the package directory; and no two items name the same file.
pub proof fn lemma_manifest_lists_the_resources(package: PackageView)
    ensures
        package.package_document() == OPF_HEAD@ + xml_escaped(package.book.title) + OPF_CREATOR@
            + xml_escaped(package.book.author) + OPF_LANGUAGE@ + xml_escaped(
            package.book.language,
        ) + OPF_IDENTIFIER@ + package.opf_identifier + OPF_MANIFEST@ + manifest_text(
            package.resources(),
        ) + OPF_SPINE@ + concat_pieces(package.chapters.len(), spine_items()) + OPF_TAIL@,
        package.resources().len() + 3 == epub_entries(package).len(),
        forall|i: int|
            0 <= i < package.resources().len() ==> {
                let k = entry_of_resource(package, i);
                &&& 3 <= k < epub_entries(package).len()
                &&& epub_entries(package)[k].name == PACKAGE_DIR@ + (
                #[trigger] package.resources()[i]).href
            },
        forall|i: int, j: int|
            0 <= i < j < package.resources().len() ==> entry_of_resource(package, i)
                != entry_of_resource(package, j) && (#[trigger] package.resources()[i]).href != (
            #[trigger] package.resources()[j]).href,
{
    let resources = package.resources();
    let entries = epub_entries(package);
    let count = package.chapters.len() as int;
    let style: int = if package.css is Some {
        1
    } else {
        0
    };
    assert forall|i: int| 0 <= i < resources.len() implies {
        let k = entry_of_resource(package, i);
        &&& 3 <= k < entries.len()
        &&& entries[k].name == PACKAGE_DIR@ + (#[trigger] resources[i]).href
    } by {
        let k = entry_of_resource(package, i);
        if i == 0 {
            assert(entries[3] == leading_entries(package)[3]);
        } else if i <= style {
            assert(entries[k] == style_entries(package.css)[0]);
        } else if i <= style + count {
            assert(entries[k] == chapter_entries(package.chapters)[i - 1 - style]);
            assert(resources[i] == chapter_resource((i - style) as nat));
        } else {
            assert(entries[k] == cover_entries(package.cover_name, package.cover_data)[0]);
            assert(PACKAGE_DIR@ + COVER_HREF@ + resources[i].href.skip(COVER_HREF@.len() as int)
                =~= PACKAGE_DIR@ + resources[i].href);
        }
    }
    assert forall|i: int, j: int| 0 <= i < j < resources.len() implies entry_of_resource(
        package,
        i,
    ) != entry_of_resource(package, j) && (#[trigger] resources[i]).href != (
    #[trigger] resources[j]).href by {
        lemma_resource_files_differ(package, i, j);
    }
}

} // verus!
