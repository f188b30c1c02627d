//! The HTML bundle: every chapter in one themed document.

use crate::config::Config;
use crate::error::{ErrorKind, PapyrusError};
use crate::markdown::{chapters, Chapter, MarkdownFile};
use crate::template::{render_template, theme_missing, themed, RenderContext, THEME_MISSING};
use crate::text::{joined, joined_piece, lemma_joined_step, LINE_BREAK};
use vstd::prelude::*;

verus! {

/// The extension of an HTML bundle.
pub const HTML_EXTENSION: &'static str = ".html";

/// What stands between two chapters: a horizontal rule on a line of its own.
pub const RULE: &'static str = "\n<hr>\n";

/// A chapter of the bundle: heading, then the body on the next line.
pub open spec fn bundle_chapter(chapter: Chapter) -> Seq<char> {
    chapter.heading() + LINE_BREAK@ + chapter.html
}

/// The chapters of the bundle by index.
pub open spec fn bundle_chapters(chapters: Seq<Chapter>) -> spec_fn(int) -> Seq<char> {
    |i: int| bundle_chapter(chapters[i])
}

/// The content of the bundle: the chapters in the collection's order,
/// separated by horizontal rules.
pub open spec fn bundle_content(chapters: Seq<Chapter>) -> Seq<char> {
    joined(chapters.len(), bundle_chapters(chapters), RULE@)
}

/// The content of the bundle.
pub fn combine_html(files: &Vec<MarkdownFile>) -> (content: String)
    ensures
        content@ == bundle_content(chapters(files@)),
{
    let ghost chs = chapters(files@);
    let mut content = String::new();
    let mut i: usize = 0;
    proof {
        lemma_joined_step(0, bundle_chapters(chs), RULE@);
    }
    while i < files.len()
        invariant
            i <= files.len(),
            chs == chapters(files@),
            content@ == joined(i as nat, bundle_chapters(chs), RULE@),
        decreases files.len() - i,
    {
        let ghost before = content@;
        let mut chapter = files[i].heading();
        chapter.append(LINE_BREAK);
        chapter.append(files[i].html.as_str());
        if i > 0 {
            content.append(RULE);
        }
        content.append(chapter.as_str());
        proof {
            lemma_joined_step(i as nat, bundle_chapters(chs), RULE@);
            assert(content@ =~= before + joined_piece(bundle_chapters(chs), RULE@, i as int));
        }
        i += 1;
    }
    content
}

/// What the HTML bundle of a book is, the theme being given: what the
/// template engine makes of the theme with the book's title and the
/// content of the bundle. Nothing where the text is no theme or the engine
/// refuses it.
pub open spec fn bundle_text(template: Seq<char>, title: Seq<char>, chapters: Seq<Chapter>) -> Option<
    Seq<char>,
> {
    themed(template, title, bundle_content(chapters))
}

/// Builds the HTML bundle of a book from its highlighted chapters: the
/// content of `combine_html` substituted into the theme.
///
/// `template` is the text of the theme file at `theme_path`, or `None` where
/// that file does not exist, which is an asset error. The substitution is
/// the template engine's; a text that is no theme, or a theme that the
/// engine refuses, is a template error.
pub fn generate_html(
    config: &Config,
    files: &Vec<MarkdownFile>,
    theme_path: &str,
    template: Option<&str>,
) -> (bundle: Result<String, PapyrusError>)
    ensures
        match template {
            None => bundle matches Err(error) && error@.kind == ErrorKind::Asset && error@.detail
                == THEME_MISSING@ + theme_path@,
            Some(theme) => match bundle {
                Ok(text) => bundle_text(theme@, config.title@, chapters(files@)) == Some(text@),
                Err(error) => bundle_text(theme@, config.title@, chapters(files@)) is None
                    && error@.kind == ErrorKind::Template,
            },
        },
{
    let template = match template {
        Some(text) => text,
        None => {
            return Err(theme_missing(theme_path));
        },
    };
    let context = RenderContext { title: config.title.clone(), content: combine_html(files) };
    render_template(template, &context)
}

} // verus!
