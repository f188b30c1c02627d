//! The commands of the program and what each of them exports.

use crate::path::{child_path, path_below};
use vstd::prelude::*;

verus! {

/// What the program is asked to do.
#[derive(Debug, PartialEq, Eq)]
pub enum Commands {
    /// Initialize a new book project at `path`.
    Init { path: String },
    /// Generate a PDF eBook.
    Pdf { theme: String, content: Option<String>, book_dir: Option<String> },
    /// Generate an EPUB eBook.
    Epub { content: Option<String>, book_dir: Option<String> },
    /// Generate an HTML eBook.
    Html { content: Option<String>, book_dir: Option<String> },
    /// Generate a sample PDF.
    Sample { theme: String },
}

/// The command line of the program.
#[derive(Debug, PartialEq, Eq)]
pub struct Cli {
    pub command: Commands,
}

/// The formats of an export.
#[derive(Debug, Clone, Copy, PartialEq, Eq, Structural)]
pub enum Format {
    Pdf,
    Epub,
    Html,
}

/// An export with every directory settled.
#[derive(Debug, PartialEq, Eq)]
pub struct Export {
    pub format: Format,
    /// The theme of a PDF; not used by the other formats.
    pub theme: String,
    /// Where configuration and assets are.
    pub book_dir: String,
    /// Where the chapters are.
    pub content_dir: String,
}

/// An export as plain values.
pub ghost struct ExportView {
    pub format: Format,
    pub theme: Seq<char>,
    pub book_dir: Seq<char>,
    pub content_dir: Seq<char>,
}

impl View for Export {
    type V = ExportView;

    open spec fn view(&self) -> ExportView {
        ExportView {
            format: self.format,
            theme: self.theme@,
            book_dir: self.book_dir@,
            content_dir: self.content_dir@,
        }
    }
}

/// The book directory of a command that names none.
pub const HERE: &'static str = ".";

/// The directory of the chapters below the book directory.
pub const CONTENT_DIR: &'static str = "content";

/// The theme of a command that names none.
pub const DEFAULT_THEME: &'static str = "light";

/// The book directory of a command: the one it names, else `.`.
pub open spec fn book_dir_of(book_dir: Option<String>) -> Seq<char> {
    match book_dir {
        Some(dir) => dir@,
        None => HERE@,
    }
}

/// The content directory of a command: the one it names, else `content`
/// below the book directory.
pub open spec fn content_dir_of(content: Option<String>, book_dir: Option<String>) -> Seq<char> {
    match content {
        Some(dir) => dir@,
        None => path_below(book_dir_of(book_dir), CONTENT_DIR@),
    }
}

impl Commands {
    /// What the command exports, if it exports anything: `init` does not; a
    /// sample is a PDF of the book in the current directory, its chapters
    /// in `content`.
    pub open spec fn export_view(&self) -> Option<ExportView> {
        match self {
            Commands::Init { path } => None,
            Commands::Pdf { theme, content, book_dir } => Some(
                ExportView {
                    format: Format::Pdf,
                    theme: theme@,
                    book_dir: book_dir_of(*book_dir),
                    content_dir: content_dir_of(*content, *book_dir),
                },
            ),
            Commands::Epub { content, book_dir } => Some(
                ExportView {
                    format: Format::Epub,
                    theme: DEFAULT_THEME@,
                    book_dir: book_dir_of(*book_dir),
                    content_dir: content_dir_of(*content, *book_dir),
                },
            ),
            Commands::Html { content, book_dir } => Some(
                ExportView {
                    format: Format::Html,
                    theme: DEFAULT_THEME@,
                    book_dir: book_dir_of(*book_dir),
                    content_dir: content_dir_of(*content, *book_dir),
                },
            ),
            Commands::Sample { theme } => Some(
                ExportView {
                    format: Format::Pdf,
                    theme: theme@,
                    book_dir: HERE@,
                    content_dir: CONTENT_DIR@,
                },
            ),
        }
    }

    /// What the command exports, with its directories settled.
    pub fn export(&self) -> (export: Option<Export>)
        ensures
            match export {
                Some(e) => self.export_view() == Some(e@),
                None => self.export_view() is None,
            },
    {
        match self {
            Commands::Init { .. } => None,
            Commands::Pdf { theme, content, book_dir } => Some(
                settle(Format::Pdf, theme.as_str(), content, book_dir),
            ),
            Commands::Epub { content, book_dir } => Some(
                settle(Format::Epub, DEFAULT_THEME, content, book_dir),
            ),
            Commands::Html { content, book_dir } => Some(
                settle(Format::Html, DEFAULT_THEME, content, book_dir),
            ),
            Commands::Sample { theme } => Some(
                Export {
                    format: Format::Pdf,
                    theme: theme.clone(),
                    book_dir: String::from_str(HERE),
                    content_dir: String::from_str(CONTENT_DIR),
                },
            ),
        }
    }
}

/// An export of this format with the directories that the command names,
/// or their defaults.
fn settle(format: Format, theme: &str, content: &Option<String>, book_dir: &Option<String>) -> (export:
    Export)
    ensures
        export@ == (ExportView {
            format,
            theme: theme@,
            book_dir: book_dir_of(*book_dir),
            content_dir: content_dir_of(*content, *book_dir),
        }),
{
    let book = match book_dir {
        Some(dir) => dir.clone(),
        None => String::from_str(HERE),
    };
    let content_dir = match content {
        Some(dir) => dir.clone(),
        None => child_path(book.as_str(), CONTENT_DIR),
    };
    Export { format, theme: String::from_str(theme), book_dir: book, content_dir }
}

} // verus!
