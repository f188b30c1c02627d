//! Chapters: their frontmatter, their Markdown body and the HTML rendered
//! from it.

use crate::error::{ErrorKind, PapyrusError};
use crate::matter::{
    data_view, entries_ordered, is_ordered, matter_body, matter_data, matter_fault, ordered,
    split_matter, FrontMatter, MatterValue, MatterView, MATTER_FAILED,
};
use crate::number::{decimal, push_decimal};
use crate::text::{html_escape, html_escaped, xml_escape, xml_escaped};
use vstd::prelude::*;

verus! {

/// One chapter of the book.
#[derive(Debug, PartialEq, Eq)]
pub struct MarkdownFile {
    pub path: String,
    pub frontmatter: Option<FrontMatter>,
    /// The Markdown body: the lines after the frontmatter block, as the
    /// frontmatter parser joins them.
    pub content: String,
    /// The body rendered to HTML.
    pub html: String,
}

/// What the publishers read of a chapter.
pub ghost struct Chapter {
    pub title: Option<Seq<char>>,
    pub html: Seq<char>,
}

impl MarkdownFile {
    /// What the publishers read of the chapter.
    pub open spec fn chapter(&self) -> Chapter {
        Chapter {
            title: match self.frontmatter {
                Some(matter) => match matter.title {
                    Some(title) => Some(title@),
                    None => None,
                },
                None => None,
            },
            html: self.html@,
        }
    }

    /// The title given in the chapter's frontmatter, if any.
    pub fn title(&self) -> (title: Option<&str>)
        ensures
            match title {
                Some(t) => self.chapter().title == Some(t@),
                None => self.chapter().title is None,
            },
    {
        match &self.frontmatter {
            Some(matter) => match &matter.title {
                Some(title) => Some(title.as_str()),
                None => None,
            },
            None => None,
        }
    }
}

/// The words that stand for a chapter without a title, before its number.
pub const UNTITLED: &'static str = "Chapter ";

/// The opening of the heading that shows a chapter's title.
pub const TITLE_OPEN: &'static str = "<h1>";

/// The end of the heading that shows a chapter's title.
pub const TITLE_CLOSE: &'static str = "</h1>";

impl Chapter {
    /// The heading that shows the chapter's title, escaped; nothing for a
    /// chapter without a title.
    pub open spec fn heading(self) -> Seq<char> {
        match self.title {
            Some(title) => TITLE_OPEN@ + html_escaped(title) + TITLE_CLOSE@,
            None => Seq::<char>::empty(),
        }
    }

    /// How the chapter is called inside HTML text: its escaped title, or
    /// `Chapter N` where it has none.
    pub open spec fn html_label(self, number: nat) -> Seq<char> {
        match self.title {
            Some(title) => html_escaped(title),
            None => UNTITLED@ + decimal(number),
        }
    }

    /// How the chapter is called inside XML text: its escaped title, or
    /// `Chapter N` where it has none.
    pub open spec fn xml_label(self, number: nat) -> Seq<char> {
        match self.title {
            Some(title) => xml_escaped(title),
            None => UNTITLED@ + decimal(number),
        }
    }
}

impl MarkdownFile {
    /// The heading that shows the chapter's title; nothing for a chapter
    /// without a title.
    pub fn heading(&self) -> (heading: String)
        ensures
            heading@ == self.chapter().heading(),
    {
        let mut heading = String::new();
        if let Some(title) = self.title() {
            heading.append(TITLE_OPEN);
            heading.append(html_escape(title).as_str());
            heading.append(TITLE_CLOSE);
        }
        assert(heading@ =~= self.chapter().heading());
        heading
    }

    /// The chapter's name for HTML text, `number` being its 1-based place.
    pub fn html_label(&self, number: usize) -> (label: String)
        ensures
            label@ == self.chapter().html_label(number as nat),
    {
        match self.title() {
            Some(title) => html_escape(title),
            None => {
                let mut label = String::from_str(UNTITLED);
                push_decimal(&mut label, number);
                label
            },
        }
    }

    /// The chapter's name for XML text, `number` being its 1-based place.
    pub fn xml_label(&self, number: usize) -> (label: String)
        ensures
            label@ == self.chapter().xml_label(number as nat),
    {
        match self.title() {
            Some(title) => xml_escape(title),
            None => {
                let mut label = String::from_str(UNTITLED);
                push_decimal(&mut label, number);
                label
            },
        }
    }
}

/// The chapters of a collection, in its order.
pub open spec fn chapters(files: Seq<MarkdownFile>) -> Seq<Chapter> {
    files.map_values(|file: MarkdownFile| file.chapter())
}

/// The HTML that the Markdown renderer gives for a text with the named
/// extensions switched on or off.
pub uninterp spec fn rendered_markdown(
    text: Seq<char>,
    strikethrough: bool,
    tables: bool,
    footnotes: bool,
    tasklists: bool,
) -> Seq<char>;

/// `Parser::new_ext` and `html::push_html`: the HTML of a Markdown text
/// with the named extensions.
#[verifier::external_body]
fn render_markdown(
    text: &str,
    strikethrough: bool,
    tables: bool,
    footnotes: bool,
    tasklists: bool,
) -> (html: String)
    ensures
        html@ == rendered_markdown(text@, strikethrough, tables, footnotes, tasklists),
{
    let mut options = pulldown_cmark::Options::empty();
    options.set(pulldown_cmark::Options::ENABLE_STRIKETHROUGH, strikethrough);
    options.set(pulldown_cmark::Options::ENABLE_TABLES, tables);
    options.set(pulldown_cmark::Options::ENABLE_FOOTNOTES, footnotes);
    options.set(pulldown_cmark::Options::ENABLE_TASKLISTS, tasklists);
    let mut html = String::new();
    pulldown_cmark::html::push_html(&mut html, pulldown_cmark::Parser::new_ext(text, options));
    html
}

/// The HTML of a chapter's body: Markdown with strikethrough, tables,
/// footnotes and task lists.
pub open spec fn body_html(body: Seq<char>) -> Seq<char> {
    rendered_markdown(body, true, true, true, true)
}

/// A chapter file as read from disk.
#[derive(Debug, PartialEq, Eq)]
pub struct SourceText {
    pub path: String,
    pub text: String,
}

/// Why the text of a chapter file cannot be parsed, if it cannot: its
/// frontmatter block holds data that is no frontmatter.
pub open spec fn parse_fault(text: Seq<char>) -> Option<Seq<char>> {
    match matter_data(text) {
        Some(data) => matter_fault(data),
        None => None,
    }
}

impl MarkdownFile {
    /// Whether the chapter is put together from these parts: the path, the
    /// data of the frontmatter block where there is one, the body and its
    /// HTML.
    pub open spec fn is_made_of(
        &self,
        path: Seq<char>,
        data: Option<MatterView>,
        content: Seq<char>,
        html: Seq<char>,
    ) -> bool {
        &&& self.path@ == path
        &&& self.content@ == content
        &&& self.html@ == html
        &&& match data {
            Some(data) => self.frontmatter matches Some(matter) && matter.is_matter_of(data),
            None => self.frontmatter is None,
        }
    }

    /// Whether the entries that the frontmatter keeps come in dictionary
    /// order of their keys, as do those of every table among their values.
    pub open spec fn is_ordered(&self) -> bool {
        self.frontmatter matches Some(matter) ==> entries_ordered(matter.extra@)
    }

    /// Whether the chapter is what the text of the file at `path` gives:
    /// its frontmatter is that of the block that the text opens with, with
    /// the entries that it keeps in dictionary order of their keys; its
    /// body is the body that the frontmatter parser makes of the text; and
    /// its HTML is the body rendered.
    pub open spec fn is_parsed_from(&self, path: Seq<char>, text: Seq<char>) -> bool {
        &&& self.is_made_of(
            path,
            matter_data(text),
            matter_body(text),
            body_html(matter_body(text)),
        )
        &&& self.is_ordered()
    }

    /// Puts a chapter together from its parts; `data` is the value of its
    /// frontmatter block, where it has one.
    ///
    /// A chapter without a block has no frontmatter. With a block the
    /// chapter exists if and only if `FrontMatter::from_value` reads the
    /// block, whose error it hands on otherwise.
    pub fn assemble(path: &str, data: Option<MatterValue>, content: String, html: String) -> (file:
        Result<MarkdownFile, PapyrusError>)
        ensures
            match file {
                Ok(f) => {
                    &&& data matches Some(value) ==> matter_fault(value@) is None
                    &&& f.is_made_of(path@, data_view(data), content@, html@)
                    &&& (data matches Some(value) && is_ordered(value)) ==> f.is_ordered()
                },
                Err(error) => data matches Some(value) && (matter_fault(value@) matches Some(
                    fault,
                ) && error@.kind == ErrorKind::Markdown && error@.detail == MATTER_FAILED@
                    + fault),
            },
    {
        let frontmatter = match data {
            None => None,
            Some(value) => match FrontMatter::from_value(value) {
                Ok(matter) => Some(matter),
                Err(error) => {
                    return Err(error);
                },
            },
        };
        Ok(MarkdownFile { path: String::from_str(path), frontmatter, content, html })
    }

    /// Parses the text of the chapter file at `path`: splits the
    /// frontmatter block from the body and renders the body to HTML with
    /// strikethrough, tables, footnotes and task lists.
    ///
    /// The split and the rendering are the work of the frontmatter parser
    /// and of the Markdown renderer. The text is parsed unless its block
    /// holds data that is no frontmatter, which is a Markdown error.
    pub fn parse(path: &str, text: &str) -> (file: Result<MarkdownFile, PapyrusError>)
        ensures
            match file {
                Ok(f) => parse_fault(text@) is None && f.is_parsed_from(path@, text@),
                Err(error) => parse_fault(text@) matches Some(fault) && error@.kind
                    == ErrorKind::Markdown && error@.detail == MATTER_FAILED@ + fault,
            },
    {
        let (data, content) = split_matter(text);
        let data = match data {
            Some(value) => Some(ordered(value)),
            None => None,
        };
        let html = render_markdown(content.as_str(), true, true, true, true);
        MarkdownFile::assemble(path, data, content, html)
    }
}

/// Parses the chapter files in their order; the first that cannot be
/// parsed ends the work with its error.
pub fn parse_markdown_files(sources: &Vec<SourceText>) -> (files: Result<
    Vec<MarkdownFile>,
    PapyrusError,
>)
    ensures
        match files {
            Ok(parsed) => parsed.len() == sources.len() && forall|i: int|
                0 <= i < parsed.len() ==> parse_fault(sources[i].text@) is None && (
                #[trigger] parsed[i]).is_parsed_from(sources[i].path@, sources[i].text@),
            Err(error) => exists|i: int|
                0 <= i < sources.len() && (forall|k: int|
                    0 <= k < i ==> parse_fault(#[trigger] sources[k].text@) is None) && (
                #[trigger] parse_fault(sources[i].text@) matches Some(fault) && error@.kind
                    == ErrorKind::Markdown && error@.detail == MATTER_FAILED@ + fault),
        },
{
    let mut parsed: Vec<MarkdownFile> = Vec::new();
    let mut i: usize = 0;
    while i < sources.len()
        invariant
            i <= sources.len(),
            parsed.len() == i,
            forall|k: int| 0 <= k < i ==> parse_fault(#[trigger] sources[k].text@) is None,
            forall|k: int|
                0 <= k < i ==> (#[trigger] parsed[k]).is_parsed_from(
                    sources[k].path@,
                    sources[k].text@,
                ),
        decreases sources.len() - i,
    {
        match MarkdownFile::parse(sources[i].path.as_str(), sources[i].text.as_str()) {
            Ok(file) => {
                parsed.push(file);
            },
            Err(error) => {
                assert(parse_fault(sources[i as int].text@) is Some);
                return Err(error);
            },
        }
        i += 1;
    }
    Ok(parsed)
}

} // verus!
