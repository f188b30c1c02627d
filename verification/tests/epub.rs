use papyrus::archive::{Archive, Compression};
use papyrus::config::Config;
use papyrus::cover::{cover_extension, CoverFile};
use papyrus::epub::{
    chapter_file_name, chapter_xhtml, epub_package, fill_archive, generate_epub, generate_ncx,
    generate_opf, image_media_type, manifest_section, navigation_document, pack_archive,
    package_document, EpubEntry,
};
use papyrus::markdown::MarkdownFile;
use papyrus::matter::FrontMatter;
use std::io::{Cursor, Read};

fn chapter(title: Option<&str>, html: &str) -> MarkdownFile {
    MarkdownFile {
        path: "chapter.md".to_string(),
        frontmatter: title.map(|t| FrontMatter {
            title: Some(t.to_string()),
            author: None,
            date: None,
            extra: Vec::new(),
        }),
        content: String::new(),
        html: html.to_string(),
    }
}

fn book(title: &str, author: &str) -> Config {
    let mut config = Config::default();
    config.title = title.to_string();
    config.author = author.to_string();
    config
}

fn names(entries: &[EpubEntry]) -> Vec<String> {
    entries.iter().map(|e| e.name.clone()).collect()
}

const ID: &str = "123e4567-e89b-42d3-a456-426614174000";

#[test]
fn package_document_of_two_chapters() {
    let config = book("Tom & Jerry", "A <B>");
    let opf = package_document(&config, ID, 2, true, None);
    let expected = r#"<?xml version="1.0" encoding="UTF-8"?>
<package xmlns="http://www.idpf.org/2007/opf" version="3.0" unique-identifier="bookid">
    <metadata xmlns:dc="http://purl.org/dc/elements/1.1/">
        <dc:title>Tom &amp; Jerry</dc:title>
        <dc:creator>A &lt;B&gt;</dc:creator>
        <dc:language>en</dc:language>
        <dc:identifier id="bookid">urn:uuid:123e4567-e89b-42d3-a456-426614174000</dc:identifier>
    </metadata>
    <manifest>
        <item id="ncx" href="toc.ncx" media-type="application/x-dtbncx+xml"/>
        <item id="style" href="style.css" media-type="text/css"/>
        <item id="chapter1" href="chapter001.xhtml" media-type="application/xhtml+xml"/>
        <item id="chapter2" href="chapter002.xhtml" media-type="application/xhtml+xml"/>
    </manifest>
    <spine toc="ncx">
        <itemref idref="chapter1"/>
        <itemref idref="chapter2"/>
    </spine>
</package>"#;
    assert_eq!(opf, expected);
}

#[test]
fn package_document_without_chapters_has_an_empty_spine() {
    let opf = package_document(&book("T", "A"), ID, 0, false, None);
    assert!(opf.contains("    <spine toc=\"ncx\">\n    </spine>\n</package>"));
    assert!(!opf.contains("itemref"));
    assert!(opf.contains(
        "    <manifest>\n        <item id=\"ncx\" href=\"toc.ncx\" media-type=\"application/x-dtbncx+xml\"/>\n    </manifest>\n"
    ));
}

#[test]
fn manifest_lists_the_style_sheet_only_where_there_is_one() {
    let with = manifest_section(1, true, None);
    assert_eq!(
        with,
        "        <item id=\"ncx\" href=\"toc.ncx\" media-type=\"application/x-dtbncx+xml\"/>\n        <item id=\"style\" href=\"style.css\" media-type=\"text/css\"/>\n        <item id=\"chapter1\" href=\"chapter001.xhtml\" media-type=\"application/xhtml+xml\"/>\n"
    );
    let without = manifest_section(1, false, None);
    assert_eq!(
        without,
        "        <item id=\"ncx\" href=\"toc.ncx\" media-type=\"application/x-dtbncx+xml\"/>\n        <item id=\"chapter1\" href=\"chapter001.xhtml\" media-type=\"application/xhtml+xml\"/>\n"
    );
}

#[test]
fn manifest_lists_the_cover_where_one_is_embedded() {
    let section = manifest_section(0, false, Some("jpeg"));
    assert_eq!(
        section,
        "        <item id=\"ncx\" href=\"toc.ncx\" media-type=\"application/x-dtbncx+xml\"/>\n        <item id=\"cover\" href=\"cover.jpeg\" media-type=\"image/jpeg\"/>\n"
    );
    assert!(manifest_section(2, true, Some("svg")).ends_with(
        "<item id=\"chapter2\" href=\"chapter002.xhtml\" media-type=\"application/xhtml+xml\"/>\n        <item id=\"cover\" href=\"cover.svg\" media-type=\"image/svg+xml\"/>\n"
    ));
}

#[test]
fn images_have_the_media_type_of_their_extension() {
    for (ext, media) in [
        ("png", "image/png"),
        ("jpg", "image/jpeg"),
        ("jpeg", "image/jpeg"),
        ("gif", "image/gif"),
        ("webp", "image/webp"),
        ("svg", "image/svg+xml"),
    ] {
        assert_eq!(image_media_type(ext), media);
    }
}

/// The files that the manifest of a package document names, in its order.
fn manifest_files(opf: &str) -> Vec<String> {
    let from = opf.find("<manifest>").unwrap();
    let until = opf.find("</manifest>").unwrap();
    opf[from..until]
        .split("<item ")
        .skip(1)
        .map(|item| between(item, "href=\"", "\""))
        .collect()
}

#[test]
fn manifest_has_one_item_for_every_resource_of_the_package() {
    let files = vec![chapter(Some("One"), "<p>1</p>"), chapter(None, "<p>2</p>")];
    let cover = CoverFile { location: "/images/c".to_string(), data: vec![1] };
    for (css, cover_name) in [
        (None, None),
        (Some("p {}"), None),
        (None, Some("front.PNG")),
        (Some("p {}"), Some("front.gif")),
        (Some("p {}"), Some("front.pdf")),
        (None, Some("front")),
    ] {
        let mut config = book("T", "A");
        config.cover = cover_name.map(|n| n.to_string());
        let entries = epub_package(&config, &files, css, Some(&cover), ID, ID);
        let opf = String::from_utf8(entries[2].data.clone()).unwrap();
        let mut listed: Vec<String> = manifest_files(&opf).iter().map(|h| format!("OEBPS/{}", h)).collect();
        let mut held: Vec<String> = names(&entries)[3..].to_vec();
        listed.sort();
        held.sort();
        assert_eq!(listed, held);
        held.dedup();
        assert_eq!(held.len(), entries.len() - 3);
    }
}

#[test]
fn package_document_uses_the_configured_language_escaped() {
    let mut config = book("T", "A");
    config.language = Some("fr".to_string());
    assert!(package_document(&config, ID, 0, false, None).contains("<dc:language>fr</dc:language>"));
    config.language = None;
    assert!(package_document(&config, ID, 0, false, None).contains("<dc:language>en</dc:language>"));
    config.language = Some("<x>".to_string());
    assert!(package_document(&config, ID, 0, false, None).contains("<dc:language>&lt;x&gt;</dc:language>"));
}

#[test]
fn navigation_document_of_two_chapters() {
    let files = vec![chapter(Some("It's <here>"), "<p>a</p>"), chapter(None, "<p>b</p>")];
    let ncx = navigation_document(&book("Tom & Jerry", "A"), ID, &files);
    let expected = r#"<?xml version="1.0" encoding="UTF-8"?>
<ncx xmlns="http://www.daisy.org/z3986/2005/ncx/" version="2005-1">
    <head>
        <meta name="dtb:uid" content="urn:uuid:123e4567-e89b-42d3-a456-426614174000"/>
        <meta name="dtb:depth" content="1"/>
        <meta name="dtb:totalPageCount" content="0"/>
        <meta name="dtb:maxPageNumber" content="0"/>
    </head>
    <docTitle>
        <text>Tom &amp; Jerry</text>
    </docTitle>
    <navMap>
        <navPoint id="navpoint-1" playOrder="1">
            <navLabel>
                <text>It&apos;s &lt;here&gt;</text>
            </navLabel>
            <content src="chapter001.xhtml"/>
        </navPoint>
        <navPoint id="navpoint-2" playOrder="2">
            <navLabel>
                <text>Chapter 2</text>
            </navLabel>
            <content src="chapter002.xhtml"/>
        </navPoint>
    </navMap>
</ncx>"#;
    assert_eq!(ncx, expected);
}

#[test]
fn chapter_document_wraps_the_body_unescaped() {
    let document = chapter_xhtml(&chapter(Some("A & B's"), "<p>1 &lt; 2</p>\n"), 3);
    let expected = r#"<?xml version="1.0" encoding="UTF-8"?>
<!DOCTYPE html>
<html xmlns="http://www.w3.org/1999/xhtml">
<head>
    <title>A &amp; B&#x27;s</title>
    <link rel="stylesheet" type="text/css" href="style.css"/>
</head>
<body>
<h1>A &amp; B&#x27;s</h1>
<p>1 &lt; 2</p>

</body>
</html>"#;
    assert_eq!(document, expected);
}

#[test]
fn chapter_document_without_title_is_called_by_its_number() {
    let document = chapter_xhtml(&chapter(None, "<p>x</p>"), 12);
    assert!(document.contains("<title>Chapter 12</title>"));
    assert!(document.contains("<body>\n<p>x</p>\n</body>"));
    assert!(!document.contains("<h1>"));
}

#[test]
fn chapter_files_are_numbered_with_three_digits() {
    assert_eq!(chapter_file_name(1), "chapter001.xhtml");
    assert_eq!(chapter_file_name(42), "chapter042.xhtml");
    assert_eq!(chapter_file_name(1000), "chapter1000.xhtml");
}

#[test]
fn generated_documents_carry_fresh_identifiers() {
    let config = book("T", "A");
    let files = vec![chapter(None, "x")];
    let opf = generate_opf(&config, &files, true, Some("png"));
    let ncx = generate_ncx(&config, &files);
    let opf_id = between(&opf, "urn:uuid:", "</dc:identifier>");
    let ncx_id = between(&ncx, "urn:uuid:", "\"/>");
    for id in [&opf_id, &ncx_id] {
        assert_eq!(id.len(), 36);
        for (i, c) in id.chars().enumerate() {
            if i == 8 || i == 13 || i == 18 || i == 23 {
                assert_eq!(c, '-');
            } else {
                assert!(c.is_ascii_digit() || ('a'..='f').contains(&c));
            }
        }
    }
    assert_ne!(opf_id, ncx_id);
    assert_ne!(generate_opf(&config, &files, true, Some("png")), opf);
    assert_eq!(opf, package_document(&config, &opf_id, 1, true, Some("png")));
    assert_eq!(ncx, navigation_document(&config, &ncx_id, &files));
}

fn between(text: &str, open: &str, close: &str) -> String {
    let from = text.find(open).unwrap() + open.len();
    let until = from + text[from..].find(close).unwrap();
    text[from..until].to_string()
}

#[test]
fn package_entries_come_in_the_order_of_the_container() {
    let mut config = book("T", "A");
    config.cover = Some("front.PNG".to_string());
    let files = vec![chapter(Some("One"), "<p>1</p>"), chapter(None, "<p>2</p>")];
    let cover = CoverFile { location: "/b/assets/images/front.PNG".to_string(), data: vec![1, 2, 3] };
    let entries = epub_package(&config, &files, Some("body {}"), Some(&cover), ID, ID);
    assert_eq!(
        names(&entries),
        vec![
            "mimetype",
            "META-INF/container.xml",
            "OEBPS/content.opf",
            "OEBPS/toc.ncx",
            "OEBPS/chapter001.xhtml",
            "OEBPS/chapter002.xhtml",
            "OEBPS/style.css",
            "OEBPS/cover.png",
        ]
    );
    assert_eq!(entries[0].compression, Compression::Stored);
    assert_eq!(entries[0].data, b"application/epub+zip".to_vec());
    for entry in &entries[1..] {
        assert_eq!(entry.compression, Compression::Deflated);
    }
    assert!(String::from_utf8(entries[1].data.clone()).unwrap().contains("full-path=\"OEBPS/content.opf\""));
    assert_eq!(entries[2].data, package_document(&config, ID, 2, true, Some("png")).into_bytes());
    assert_eq!(entries[3].data, navigation_document(&config, ID, &files).into_bytes());
    assert_eq!(entries[4].data, chapter_xhtml(&files[0], 1).into_bytes());
    assert_eq!(entries[5].data, chapter_xhtml(&files[1], 2).into_bytes());
    assert_eq!(entries[6].data, b"body {}".to_vec());
    assert_eq!(entries[7].data, vec![1, 2, 3]);
}

#[test]
fn package_without_style_and_cover_has_only_documents() {
    let entries = epub_package(&book("T", "A"), &vec![chapter(None, "x")], None, None, ID, ID);
    assert_eq!(
        names(&entries),
        vec!["mimetype", "META-INF/container.xml", "OEBPS/content.opf", "OEBPS/toc.ncx", "OEBPS/chapter001.xhtml"]
    );
}

#[test]
fn package_of_no_chapters_has_the_four_leading_entries() {
    let entries = epub_package(&book("T", "A"), &Vec::new(), None, None, ID, ID);
    assert_eq!(entries.len(), 4);
    assert_eq!(entries[0].name, "mimetype");
}

#[test]
fn spine_navigation_and_files_number_the_chapters_alike() {
    let files: Vec<MarkdownFile> = (0..12).map(|i| chapter(None, &format!("<p>{}</p>", i))).collect();
    let config = book("T", "A");
    let opf = package_document(&config, ID, files.len(), false, None);
    let ncx = navigation_document(&config, ID, &files);
    let entries = epub_package(&config, &files, None, None, ID, ID);
    let mut spine_at = 0;
    let mut nav_at = 0;
    for i in 0..files.len() {
        let number = i + 1;
        let file = format!("chapter{:03}.xhtml", number);
        let item = format!("<item id=\"chapter{}\" href=\"{}\"", number, file);
        assert_eq!(opf.matches(&item).count(), 1);
        let itemref = format!("<itemref idref=\"chapter{}\"/>", number);
        let found = opf[spine_at..].find(&itemref).unwrap();
        spine_at += found + itemref.len();
        let point = format!("<navPoint id=\"navpoint-{}\" playOrder=\"{}\">", number, number);
        let found = ncx[nav_at..].find(&point).unwrap();
        nav_at += found + point.len();
        let source = format!("<content src=\"{}\"/>", file);
        assert!(ncx[nav_at..].starts_with(&format!(
            "\n            <navLabel>\n                <text>Chapter {}</text>\n            </navLabel>\n            {}",
            number, source
        )));
        assert_eq!(entries[4 + i].name, format!("OEBPS/{}", file));
        assert!(String::from_utf8(entries[4 + i].data.clone()).unwrap().contains(&format!("<p>{}</p>", i)));
    }
}

#[test]
fn cover_with_an_image_extension_enters_the_package() {
    for (name, ext) in [
        ("c.png", "png"),
        ("c.jpg", "jpg"),
        ("c.jpeg", "jpeg"),
        ("c.gif", "gif"),
        ("c.webp", "webp"),
        ("c.svg", "svg"),
        ("C.PNG", "png"),
        ("photo.final.JpEg", "jpeg"),
    ] {
        assert_eq!(cover_extension(name), Some(ext.to_string()));
        let mut config = book("T", "A");
        config.cover = Some(name.to_string());
        let cover = CoverFile { location: format!("/images/{}", name), data: vec![9] };
        let entries = epub_package(&config, &Vec::new(), None, Some(&cover), ID, ID);
        assert_eq!(entries.last().unwrap().name, format!("OEBPS/cover.{}", ext));
        assert_eq!(entries.last().unwrap().data, vec![9]);
    }
}

#[test]
fn cover_with_another_extension_is_left_out() {
    for name in ["cover.pdf", "cover.bmp", "cover.png.txt", "cover.", "cover.tiff", "cover", ".hidden", "png", ".png"] {
        assert_eq!(cover_extension(name), None);
        let mut config = book("T", "A");
        config.cover = Some(name.to_string());
        let cover = CoverFile { location: format!("/images/{}", name), data: vec![9] };
        let entries = epub_package(&config, &Vec::new(), None, Some(&cover), ID, ID);
        assert_eq!(entries.len(), 4);
    }
}

#[test]
fn cover_that_is_configured_but_absent_is_left_out() {
    let mut config = book("T", "A");
    config.cover = Some("cover.png".to_string());
    let entries = epub_package(&config, &Vec::new(), None, None, ID, ID);
    assert_eq!(entries.len(), 4);
    config.cover = None;
    let cover = CoverFile { location: "/images/cover.png".to_string(), data: vec![9] };
    let entries = epub_package(&config, &Vec::new(), None, Some(&cover), ID, ID);
    assert_eq!(entries.len(), 4);
}

fn read_back(bytes: Vec<u8>) -> Vec<(String, zip::CompressionMethod, Vec<u8>)> {
    let mut archive = zip::ZipArchive::new(Cursor::new(bytes)).unwrap();
    let mut found = Vec::new();
    for i in 0..archive.len() {
        let mut file = archive.by_index(i).unwrap();
        let mut data = Vec::new();
        file.read_to_end(&mut data).unwrap();
        found.push((file.name().to_string(), file.compression(), data));
    }
    found
}

#[test]
fn packed_container_holds_the_entries_in_their_order() {
    let entries = vec![
        EpubEntry { name: "mimetype".to_string(), compression: Compression::Stored, data: b"application/epub+zip".to_vec() },
        EpubEntry { name: "a/b.txt".to_string(), compression: Compression::Deflated, data: vec![7; 1000] },
        EpubEntry { name: "empty".to_string(), compression: Compression::Deflated, data: Vec::new() },
    ];
    let found = read_back(pack_archive(&entries).unwrap());
    assert_eq!(found.len(), 3);
    assert_eq!(found[0], ("mimetype".to_string(), zip::CompressionMethod::Stored, b"application/epub+zip".to_vec()));
    assert_eq!(found[1], ("a/b.txt".to_string(), zip::CompressionMethod::Deflated, vec![7; 1000]));
    assert_eq!(found[2], ("empty".to_string(), zip::CompressionMethod::Deflated, Vec::new()));
}

#[test]
fn packing_the_same_entries_gives_the_same_bytes() {
    let entries = vec![
        EpubEntry { name: "mimetype".to_string(), compression: Compression::Stored, data: b"application/epub+zip".to_vec() },
        EpubEntry { name: "text".to_string(), compression: Compression::Deflated, data: b"some text, some text, some text".to_vec() },
    ];
    assert_eq!(pack_archive(&entries).unwrap(), pack_archive(&entries).unwrap());
}

#[test]
fn container_holds_what_was_added_to_it() {
    let archive = Archive::new();
    let archive = archive.add("first", Compression::Stored, b"one").unwrap();
    let archive = archive.add("second", Compression::Deflated, b"two two two").unwrap();
    let archive = archive.add("first", Compression::Stored, b"again").unwrap();
    let found = read_back(archive.close().unwrap());
    assert_eq!(
        found,
        vec![
            ("first".to_string(), zip::CompressionMethod::Stored, b"one".to_vec()),
            ("second".to_string(), zip::CompressionMethod::Deflated, b"two two two".to_vec()),
            ("first".to_string(), zip::CompressionMethod::Stored, b"again".to_vec()),
        ]
    );
}

#[test]
fn filling_adds_the_entries_after_those_that_the_container_holds() {
    let archive = Archive::new().add("held", Compression::Stored, b"0").unwrap();
    let more = vec![
        EpubEntry { name: "a".to_string(), compression: Compression::Deflated, data: b"1".to_vec() },
        EpubEntry { name: "b".to_string(), compression: Compression::Stored, data: Vec::new() },
    ];
    let found = read_back(fill_archive(archive, &more).unwrap().close().unwrap());
    let names: Vec<&str> = found.iter().map(|e| e.0.as_str()).collect();
    assert_eq!(names, vec!["held", "a", "b"]);
    assert_eq!(found[1].2, b"1".to_vec());
    assert_eq!(found[2].2, Vec::<u8>::new());
}

#[test]
fn entries_of_a_container_are_readable_by_all_and_writable_by_the_owner() {
    let bytes = Archive::new().add("x", Compression::Deflated, b"x").unwrap().close().unwrap();
    let mut archive = zip::ZipArchive::new(Cursor::new(bytes)).unwrap();
    assert_eq!(archive.by_index(0).unwrap().unix_mode(), Some(0o100644));
}

#[test]
fn packed_container_of_no_entries_is_an_empty_archive() {
    let found = read_back(pack_archive(&Vec::new()).unwrap());
    assert!(found.is_empty());
}

#[test]
fn epub_begins_with_the_stored_media_type() {
    let files = vec![chapter(Some("Intro"), "<p>Hello</p>")];
    let bytes = generate_epub(&book("My Book", "Me"), &files, Some("p {}"), None).unwrap();
    // The container opens with the local header of the first entry: signature, then at
    // offset 8 the method (0 is stored), at 26 the length of the name, at 30 the name,
    // and right after it the bytes of the entry.
    assert_eq!(&bytes[0..4], b"PK\x03\x04");
    assert_eq!(&bytes[8..10], &[0, 0]);
    assert_eq!(&bytes[26..28], &[8, 0]);
    assert_eq!(&bytes[28..30], &[0, 0]);
    assert_eq!(&bytes[30..38], b"mimetype");
    assert_eq!(&bytes[38..58], b"application/epub+zip");
    let found = read_back(bytes);
    let names: Vec<&str> = found.iter().map(|e| e.0.as_str()).collect();
    assert_eq!(
        names,
        vec![
            "mimetype",
            "META-INF/container.xml",
            "OEBPS/content.opf",
            "OEBPS/toc.ncx",
            "OEBPS/chapter001.xhtml",
            "OEBPS/style.css",
        ]
    );
    assert_eq!(found[0].1, zip::CompressionMethod::Stored);
    assert_eq!(found[0].2, b"application/epub+zip".to_vec());
    for entry in &found[1..] {
        assert_eq!(entry.1, zip::CompressionMethod::Deflated);
    }
    let chapter_text = String::from_utf8(found[4].2.clone()).unwrap();
    assert!(chapter_text.contains("<title>Intro</title>"));
    assert!(chapter_text.contains("<body>\n<h1>Intro</h1>\n<p>Hello</p>\n</body>"));
    let opf_text = String::from_utf8(found[2].2.clone()).unwrap();
    assert_eq!(
        manifest_files(&opf_text),
        vec!["toc.ncx", "style.css", "chapter001.xhtml"]
    );
    assert_eq!(found[5].2, b"p {}".to_vec());
}

#[test]
fn ascii_case_decides_on_covers_as_full_lowercasing_does() {
    let images = ["png", "jpg", "jpeg", "gif", "webp", "svg"];
    for name in [
        "c.PNG", "c.Png", "c.JPEG", "c.GiF", "c.WEBP", "c.Svg", "c.pdf", "c.PDF", "c.pn\u{212a}", "c.\u{130}mg",
        "c.JP\u{c9}G", "c.sv\u{121}", "c.gIf", "c.\u{17f}vg",
    ] {
        let ext = std::path::Path::new(name).extension().unwrap().to_str().unwrap().to_lowercase();
        let expected = if images.contains(&ext.as_str()) { Some(ext) } else { None };
        assert_eq!(cover_extension(name), expected, "{}", name);
    }
}
