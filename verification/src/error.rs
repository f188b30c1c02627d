//! The error kinds of an export.

use vstd::prelude::*;

verus! {

/// Why an export was abandoned. Each variant carries the detail that
/// follows the kind in the message shown to the user.
#[derive(Debug, Clone, PartialEq, Eq)]
pub enum PapyrusError {
    /// A file could not be read, written or removed.
    Io(String),
    /// The project configuration is missing or invalid.
    Config(String),
    /// A chapter's frontmatter or body could not be parsed.
    Markdown(String),
    /// The theme template has a syntax error or names an unknown placeholder.
    Template(String),
    /// A YAML document could not be read.
    Yaml(String),
    /// A TOML document could not be read.
    Toml(String),
    /// The EPUB package could not be assembled.
    Epub(String),
    /// No PDF backend produced a document.
    Pdf(String),
    /// A required theme file or content directory is missing.
    Asset(String),
    /// The ZIP container could not be written.
    Zip(String),
    /// The content directory could not be walked.
    Walkdir(String),
}

/// The kind of an error, without its detail.
#[derive(Debug, Clone, Copy, PartialEq, Eq, Structural)]
pub enum ErrorKind {
    Io,
    Config,
    Markdown,
    Template,
    Yaml,
    Toml,
    Epub,
    Pdf,
    Asset,
    Zip,
    Walkdir,
}

/// An error as its kind and the characters of its detail.
pub ghost struct ErrorView {
    pub kind: ErrorKind,
    pub detail: Seq<char>,
}

impl View for PapyrusError {
    type V = ErrorView;

    open spec fn view(&self) -> ErrorView {
        ErrorView { kind: self.spec_kind(), detail: self.detail() }
    }
}

impl PapyrusError {
    /// The kind of the error.
    pub open spec fn spec_kind(&self) -> ErrorKind {
        match self {
            PapyrusError::Io(_) => ErrorKind::Io,
            PapyrusError::Config(_) => ErrorKind::Config,
            PapyrusError::Markdown(_) => ErrorKind::Markdown,
            PapyrusError::Template(_) => ErrorKind::Template,
            PapyrusError::Yaml(_) => ErrorKind::Yaml,
            PapyrusError::Toml(_) => ErrorKind::Toml,
            PapyrusError::Epub(_) => ErrorKind::Epub,
            PapyrusError::Pdf(_) => ErrorKind::Pdf,
            PapyrusError::Asset(_) => ErrorKind::Asset,
            PapyrusError::Zip(_) => ErrorKind::Zip,
            PapyrusError::Walkdir(_) => ErrorKind::Walkdir,
        }
    }

    /// The kind of the error.
    #[verifier::when_used_as_spec(spec_kind)]
    pub fn kind(&self) -> (kind: ErrorKind)
        ensures
            kind == self.spec_kind(),
    {
        match self {
            PapyrusError::Io(_) => ErrorKind::Io,
            PapyrusError::Config(_) => ErrorKind::Config,
            PapyrusError::Markdown(_) => ErrorKind::Markdown,
            PapyrusError::Template(_) => ErrorKind::Template,
            PapyrusError::Yaml(_) => ErrorKind::Yaml,
            PapyrusError::Toml(_) => ErrorKind::Toml,
            PapyrusError::Epub(_) => ErrorKind::Epub,
            PapyrusError::Pdf(_) => ErrorKind::Pdf,
            PapyrusError::Asset(_) => ErrorKind::Asset,
            PapyrusError::Zip(_) => ErrorKind::Zip,
            PapyrusError::Walkdir(_) => ErrorKind::Walkdir,
        }
    }

    /// The words that name the kind at the start of the message.
    pub open spec fn prefix(&self) -> Seq<char> {
        match self {
            PapyrusError::Io(_) => "IO error: "@,
            PapyrusError::Config(_) => "Configuration error: "@,
            PapyrusError::Markdown(_) => "Markdown parsing error: "@,
            PapyrusError::Template(_) => "Template error: "@,
            PapyrusError::Yaml(_) => "YAML parsing error: "@,
            PapyrusError::Toml(_) => "TOML parsing error: "@,
            PapyrusError::Epub(_) => "EPUB generation error: "@,
            PapyrusError::Pdf(_) => "PDF generation error: "@,
            PapyrusError::Asset(_) => "Asset error: "@,
            PapyrusError::Zip(_) => "ZIP error: "@,
            PapyrusError::Walkdir(_) => "Walkdir error: "@,
        }
    }

    /// The detail carried by the error.
    pub open spec fn detail(&self) -> Seq<char> {
        match self {
            PapyrusError::Io(d) => d@,
            PapyrusError::Config(d) => d@,
            PapyrusError::Markdown(d) => d@,
            PapyrusError::Template(d) => d@,
            PapyrusError::Yaml(d) => d@,
            PapyrusError::Toml(d) => d@,
            PapyrusError::Epub(d) => d@,
            PapyrusError::Pdf(d) => d@,
            PapyrusError::Asset(d) => d@,
            PapyrusError::Zip(d) => d@,
            PapyrusError::Walkdir(d) => d@,
        }
    }

    /// The message shown to the user: the kind, then the detail.
    pub fn message(&self) -> (text: String)
        ensures
            text@ == self.prefix() + self.detail(),
    {
        match self {
            PapyrusError::Io(d) => String::from_str("IO error: ").concat(d.as_str()),
            PapyrusError::Config(d) => String::from_str("Configuration error: ").concat(
                d.as_str(),
            ),
            PapyrusError::Markdown(d) => String::from_str("Markdown parsing error: ").concat(
                d.as_str(),
            ),
            PapyrusError::Template(d) => String::from_str("Template error: ").concat(d.as_str()),
            PapyrusError::Yaml(d) => String::from_str("YAML parsing error: ").concat(d.as_str()),
            PapyrusError::Toml(d) => String::from_str("TOML parsing error: ").concat(d.as_str()),
            PapyrusError::Epub(d) => String::from_str("EPUB generation error: ").concat(
                d.as_str(),
            ),
            PapyrusError::Pdf(d) => String::from_str("PDF generation error: ").concat(d.as_str()),
            PapyrusError::Asset(d) => String::from_str("Asset error: ").concat(d.as_str()),
            PapyrusError::Zip(d) => String::from_str("ZIP error: ").concat(d.as_str()),
            PapyrusError::Walkdir(d) => String::from_str("Walkdir error: ").concat(d.as_str()),
        }
    }
}

} // verus!
