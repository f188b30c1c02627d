//! The print document of the PDF export: cover page, table of contents and
//! chapters separated by page breaks.

use crate::backend::{JobView, PdfJob};
use crate::config::Config;
use crate::cover::{cover_extension, cover_image, CoverFile};
use crate::error::{ErrorKind, PapyrusError};
use crate::markdown::{chapters, Chapter, MarkdownFile};
use crate::template::{render_template, theme_missing, themed, RenderContext, THEME_MISSING};
use crate::number::{decimal, push_decimal};
use crate::path::{child_path, path_below};
use crate::text::{
    artifact_name, export_name, joined, joined_piece, lemma_joined_step, text_eq, LINE_BREAK,
};
use vstd::prelude::*;

verus! {

// The fixed text of the print document.

pub const TOC_HEAD: &'static str =
    "<div class=\"toc-page\" style=\"page-break-after: always; padding: 2cm;\">\n    <h1 style=\"text-align: center; margin-bottom: 2cm; font-size: 2em;\">Table of Contents</h1>\n    <ul style=\"list-style: none; padding: 0; font-size: 1.1em; line-height: 1.8;\">\n";

pub const TOC_TAIL: &'static str = "\n    </ul>\n</div>";

pub const TOC_ITEM_OPEN: &'static str =
    "        <li style=\"margin-bottom: 0.5em;\">\n            <a href=\"#chapter-";

pub const TOC_ITEM_LINK: &'static str = "\" style=\"text-decoration: none; color: inherit;\">";

pub const TOC_ITEM_CLOSE: &'static str = "</a>\n        </li>";

pub const HEADING_OPEN: &'static str = "<h1 id=\"chapter-";

pub const HEADING_LINK: &'static str = "\">";

pub const HEADING_CLOSE: &'static str = "</h1>";

pub const PAGE_BREAK: &'static str = "<div style=\"page-break-before: always;\"></div>";

pub const COVER_OPEN: &'static str =
    "<div class=\"cover-page\" style=\"page-break-after: always; text-align: center; padding: 2cm; min-height: 100vh; display: flex; align-items: center; justify-content: center; page: cover;\">\n                            <img src=\"file://";

pub const COVER_CLOSE: &'static str =
    "\" alt=\"Cover\" style=\"max-width: 100%; max-height: 80vh; object-fit: contain;\" />\n                        </div>";

/// The entry of the table of contents for the chapter at place `number`: a
/// link to the chapter's anchor, labelled with the chapter's name.
pub open spec fn toc_item(chapter: Chapter, number: nat) -> Seq<char> {
    TOC_ITEM_OPEN@ + decimal(number) + TOC_ITEM_LINK@ + chapter.html_label(number)
        + TOC_ITEM_CLOSE@
}

/// The entries of the table of contents by index.
pub open spec fn toc_items(chapters: Seq<Chapter>) -> spec_fn(int) -> Seq<char> {
    |i: int| toc_item(chapters[i], (i + 1) as nat)
}

/// The table of contents: one entry per chapter, in the collection's order,
/// each on a line of its own.
pub open spec fn toc_html(chapters: Seq<Chapter>) -> Seq<char> {
    TOC_HEAD@ + joined(chapters.len(), toc_items(chapters), LINE_BREAK@) + TOC_TAIL@
}

/// The heading that a chapter's entry in the table of contents points to.
pub open spec fn chapter_heading(chapter: Chapter, number: nat) -> Seq<char> {
    HEADING_OPEN@ + decimal(number) + HEADING_LINK@ + chapter.html_label(number)
        + HEADING_CLOSE@
}

/// What stands before a chapter's heading: a forced page break, except
/// before the first chapter.
pub open spec fn page_break(number: nat) -> Seq<char> {
    if number > 1 {
        PAGE_BREAK@
    } else {
        Seq::<char>::empty()
    }
}

/// A chapter of the print document: page break, heading and body, each on
/// a line of its own.
pub open spec fn print_chapter(chapter: Chapter, number: nat) -> Seq<char> {
    page_break(number) + LINE_BREAK@ + chapter_heading(chapter, number) + LINE_BREAK@
        + chapter.html
}

/// The chapters of the print document by index.
pub open spec fn print_chapters(chapters: Seq<Chapter>) -> spec_fn(int) -> Seq<char> {
    |i: int| print_chapter(chapters[i], (i + 1) as nat)
}

/// The chapters of the print document, in the collection's order.
pub open spec fn print_body(chapters: Seq<Chapter>) -> Seq<char> {
    joined(chapters.len(), print_chapters(chapters), LINE_BREAK@)
}

/// A location as a file URL path: every `\` becomes `/`.
pub open spec fn slashed(location: Seq<char>) -> Seq<char> {
    location.map_values(
        |c: char|
            if c == '\\' {
                '/'
            } else {
                c
            },
    )
}

/// The full-page cover image.
pub open spec fn cover_page(location: Seq<char>) -> Seq<char> {
    COVER_OPEN@ + slashed(location) + COVER_CLOSE@
}

/// The cover fragment: the cover page where the configured cover exists and
/// is an image, else nothing.
pub open spec fn cover_html(name: Option<Seq<char>>, location: Option<Seq<char>>) -> Seq<char> {
    match (name, location) {
        (Some(name), Some(location)) => if cover_image(name) is Some {
            cover_page(location)
        } else {
            Seq::<char>::empty()
        },
        _ => Seq::<char>::empty(),
    }
}

/// What the theme receives as its content: cover, table of contents and
/// chapters, each part on a line of its own.
pub open spec fn print_content(
    name: Option<Seq<char>>,
    location: Option<Seq<char>>,
    chapters: Seq<Chapter>,
) -> Seq<char> {
    cover_html(name, location) + LINE_BREAK@ + toc_html(chapters) + LINE_BREAK@ + print_body(
        chapters,
    )
}

/// The table of contents of the print document.
pub fn generate_toc(files: &Vec<MarkdownFile>) -> (toc: String)
    ensures
        toc@ == toc_html(chapters(files@)),
{
    let ghost chs = chapters(files@);
    let mut toc = String::from_str(TOC_HEAD);
    let mut i: usize = 0;
    proof {
        lemma_joined_step(0, toc_items(chs), LINE_BREAK@);
        assert(toc@ =~= TOC_HEAD@ + joined(0, toc_items(chs), LINE_BREAK@));
    }
    while i < files.len()
        invariant
            i <= files.len(),
            chs == chapters(files@),
            toc@ == TOC_HEAD@ + joined(i as nat, toc_items(chs), LINE_BREAK@),
        decreases files.len() - i,
    {
        let ghost before = toc@;
        let mut item = String::from_str(TOC_ITEM_OPEN);
        push_decimal(&mut item, i + 1);
        item.append(TOC_ITEM_LINK);
        let label = files[i].html_label(i + 1);
        item.append(label.as_str());
        item.append(TOC_ITEM_CLOSE);
        assert(item@ == toc_item(chs[i as int], (i + 1) as nat));
        if i > 0 {
            toc.append(LINE_BREAK);
        }
        toc.append(item.as_str());
        proof {
            lemma_joined_step(i as nat, toc_items(chs), LINE_BREAK@);
            assert(toc@ =~= before + joined_piece(toc_items(chs), LINE_BREAK@, i as int));
            assert(toc@ =~= TOC_HEAD@ + joined((i + 1) as nat, toc_items(chs), LINE_BREAK@));
        }
        i += 1;
    }
    toc.append(TOC_TAIL);
    toc
}

/// The chapters of the print document.
pub fn generate_body(files: &Vec<MarkdownFile>) -> (body: String)
    ensures
        body@ == print_body(chapters(files@)),
{
    let ghost chs = chapters(files@);
    let mut body = String::new();
    let mut i: usize = 0;
    proof {
        lemma_joined_step(0, print_chapters(chs), LINE_BREAK@);
    }
    while i < files.len()
        invariant
            i <= files.len(),
            chs == chapters(files@),
            body@ == joined(i as nat, print_chapters(chs), LINE_BREAK@),
        decreases files.len() - i,
    {
        let ghost before = body@;
        let mut chapter = String::new();
        if i > 0 {
            chapter.append(PAGE_BREAK);
        }
        chapter.append(LINE_BREAK);
        let mut heading = String::from_str(HEADING_OPEN);
        push_decimal(&mut heading, i + 1);
        heading.append(HEADING_LINK);
        let label = files[i].html_label(i + 1);
        heading.append(label.as_str());
        heading.append(HEADING_CLOSE);
        assert(heading@ == chapter_heading(chs[i as int], (i + 1) as nat));
        chapter.append(heading.as_str());
        chapter.append(LINE_BREAK);
        chapter.append(files[i].html.as_str());
        assert(chapter@ =~= print_chapter(chs[i as int], (i + 1) as nat));
        if i > 0 {
            body.append(LINE_BREAK);
        }
        body.append(chapter.as_str());
        proof {
            lemma_joined_step(i as nat, print_chapters(chs), LINE_BREAK@);
            assert(body@ =~= before + joined_piece(print_chapters(chs), LINE_BREAK@, i as int));
        }
        i += 1;
    }
    body
}

/// The cover fragment of the print document.
pub fn generate_cover(name: Option<&str>, cover: Option<&CoverFile>) -> (html: String)
    ensures
        html@ == cover_html(
            match name {
                Some(n) => Some(n@),
                None => None,
            },
            match cover {
                Some(c) => Some(c.location@),
                None => None,
            },
        ),
{
    let mut html = String::new();
    if let Some(name) = name {
        if let Some(cover) = cover {
            if cover_extension(name).is_some() {
                html.append(COVER_OPEN);
                let url = with_slashes(cover.location.as_str());
                html.append(url.as_str());
                html.append(COVER_CLOSE);
                assert(html@ =~= cover_page(cover.location@));
            }
        }
    }
    html
}

/// A location with every backslash turned into `/`.
pub fn with_slashes(location: &str) -> (out: String)
    ensures
        out@ == slashed(location@),
{
    broadcast use vstd::string::group_string_axioms;

    let mut out = String::new();
    let chars = location.chars();
    for c in it: chars
        invariant
            it.seq() == location@,
            out@ == slashed(location@.take(it.index())),
    {
        if c == '\\' {
            out.push('/');
        } else {
            out.push(c);
        }
        assert(slashed(location@.take(it.index() + 1)) =~= slashed(
            location@.take(it.index()),
        ).push(
            if c == '\\' {
                '/'
            } else {
                c
            },
        ));
    }
    assert(location@.take(location@.len() as int) == location@);
    out
}

/// What the theme of the print document receives as its content.
pub fn print_document(config: &Config, files: &Vec<MarkdownFile>, cover: Option<&CoverFile>) -> (
    content: String
)
    ensures
        content@ == print_content(
            match config.cover {
                Some(n) => Some(n@),
                None => None,
            },
            match cover {
                Some(c) => Some(c.location@),
                None => None,
            },
            chapters(files@),
        ),
{
    let name = match &config.cover {
        Some(n) => Some(n.as_str()),
        None => None,
    };
    let mut content = generate_cover(name, cover);
    content.append(LINE_BREAK);
    let toc = generate_toc(files);
    content.append(toc.as_str());
    content.append(LINE_BREAK);
    let body = generate_body(files);
    content.append(body.as_str());
    content
}

/// The theme file of the dark theme.
pub const THEME_DARK: &'static str = "theme-dark.html";

/// The theme file of the light theme.
pub const THEME_LIGHT: &'static str = "theme-light.html";

/// The theme file of a theme name: the dark one for `dark`, the light one
/// for every other name.
pub open spec fn theme_file_name(theme: Seq<char>) -> Seq<char> {
    if theme == "dark"@ {
        THEME_DARK@
    } else {
        THEME_LIGHT@
    }
}

/// The theme file of a theme name.
pub fn theme_file(theme: &str) -> (file: &'static str)
    ensures
        file@ == theme_file_name(theme@),
{
    if text_eq(theme, "dark") {
        THEME_DARK
    } else {
        THEME_LIGHT
    }
}

/// The name of the temporary file that holds the print document.
pub const TEMP_DOCUMENT: &'static str = "temp_pdf.html";

/// The name of the temporary file that holds the footer of wkhtmltopdf.
pub const FOOTER_FILE: &'static str = "footer.html";

/// The extension of a PDF.
pub const PDF_EXTENSION: &'static str = ".pdf";

/// The job of printing `document` for a book of this title into the export
/// directory.
pub open spec fn print_job(title: Seq<char>, export_dir: Seq<char>, document: Seq<char>) -> JobView {
    JobView {
        html_path: path_below(export_dir, TEMP_DOCUMENT@),
        pdf_path: path_below(export_dir, artifact_name(title, PDF_EXTENSION@)),
        footer_path: path_below(export_dir, FOOTER_FILE@),
        document,
    }
}

/// Turns the rendered print document into the job of printing it; a
/// failed rendering is handed on.
pub fn plan_pdf(config: &Config, export_dir: &str, rendered: Result<String, PapyrusError>) -> (job:
    Result<PdfJob, PapyrusError>)
    ensures
        match rendered {
            Ok(document) => job matches Ok(j) && j@ == print_job(
                config.title@,
                export_dir@,
                document@,
            ),
            Err(error) => job == Err::<PdfJob, PapyrusError>(error),
        },
{
    match rendered {
        Ok(document) => {
            let name = export_name(config.title.as_str(), PDF_EXTENSION);
            Ok(
                PdfJob {
                    html_path: child_path(export_dir, TEMP_DOCUMENT),
                    pdf_path: child_path(export_dir, name.as_str()),
                    footer_path: child_path(export_dir, FOOTER_FILE),
                    document,
                },
            )
        },
        Err(error) => Err(error),
    }
}

/// What the print document of a book is, the theme being given: what the
/// template engine makes of the theme with the book's title and the print
/// content. Nothing where the text is no theme or the engine refuses it.
pub open spec fn print_text(
    template: Seq<char>,
    config: &Config,
    cover: Option<&CoverFile>,
    chapters: Seq<Chapter>,
) -> Option<Seq<char>> {
    themed(
        template,
        config.title@,
        print_content(
            match config.cover {
                Some(n) => Some(n@),
                None => None,
            },
            match cover {
                Some(c) => Some(c.location@),
                None => None,
            },
            chapters,
        ),
    )
}

/// Prepares the PDF export of a book: assembles the print document from the
/// highlighted chapters, substitutes it into the theme and plans the
/// backends' work in the export directory.
///
/// `template` is the text of the theme file at `theme_path`, or `None` where
/// that file does not exist, which is an asset error. The substitution is
/// the template engine's: the job is that of `print_job` for the text that
/// it makes of the theme with the book's title and the print content; a
/// text that is no theme, or a theme that the engine refuses, is a template
/// error.
pub fn generate_pdf(
    config: &Config,
    files: &Vec<MarkdownFile>,
    theme_path: &str,
    template: Option<&str>,
    cover: Option<&CoverFile>,
    export_dir: &str,
) -> (job: Result<PdfJob, PapyrusError>)
    ensures
        match template {
            None => job matches Err(error) && error@.kind == ErrorKind::Asset && error@.detail
                == THEME_MISSING@ + theme_path@,
            Some(theme) => match job {
                Ok(j) => print_text(theme@, config, cover, chapters(files@)) == Some(j@.document)
                    && j@ == print_job(config.title@, export_dir@, j@.document),
                Err(error) => print_text(theme@, config, cover, chapters(files@)) is None
                    && error@.kind == ErrorKind::Template,
            },
        },
{
    let template = match template {
        Some(text) => text,
        None => {
            return Err(theme_missing(theme_path));
        },
    };
    let context = RenderContext {
        title: config.title.clone(),
        content: print_document(config, files, cover),
    };
    let rendered = render_template(template, &context);
    plan_pdf(config, export_dir, rendered)
}

} // verus!
