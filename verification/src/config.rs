//! The project configuration of a book.

use vstd::prelude::*;

verus! {

/// The page range of a sample export.
#[derive(Debug, Clone, PartialEq, Eq)]
pub struct SampleConfig {
    pub start_page: Option<u32>,
    pub end_page: Option<u32>,
}

/// A font made available to the themes.
#[derive(Debug, Clone, PartialEq, Eq)]
pub struct FontConfig {
    pub name: String,
    pub path: String,
}

/// What the project's configuration file says about the book.
#[derive(Debug, Clone, PartialEq, Eq)]
pub struct Config {
    pub title: String,
    pub author: String,
    pub language: Option<String>,
    /// File name of the cover, below the book's image directory.
    pub cover: Option<String>,
    pub version: Option<String>,
    /// The chapters in reading order, relative to the content directory.
    pub md_file_list: Option<Vec<String>>,
    pub sample: Option<SampleConfig>,
    pub fonts: Option<Vec<FontConfig>>,
}

/// The language code used where the configuration names none.
pub const DEFAULT_LANGUAGE: &'static str = "en";

impl Config {
    /// The language code of the book: the configured one, else `en`.
    pub open spec fn language_code(&self) -> Seq<char> {
        match self.language {
            Some(code) => code@,
            None => DEFAULT_LANGUAGE@,
        }
    }

    /// The configuration of a freshly initialised project.
    pub fn default() -> (config: Config)
        ensures
            config.title@ == "My Book"@,
            config.author@ == "Author Name"@,
            config.language matches Some(code) && code@ == "en"@,
            config.cover is None,
            config.version matches Some(v) && v@ == "1.0.0"@,
            config.md_file_list is None,
            config.sample is None,
            config.fonts is None,
    {
        Config {
            title: String::from_str("My Book"),
            author: String::from_str("Author Name"),
            language: Some(String::from_str("en")),
            cover: None,
            version: Some(String::from_str("1.0.0")),
            md_file_list: None,
            sample: None,
            fonts: None,
        }
    }

    /// The language code of the book: the configured one, else `en`.
    pub fn language(&self) -> (code: &str)
        ensures
            code@ == self.language_code(),
    {
        match &self.language {
            Some(code) => code.as_str(),
            None => DEFAULT_LANGUAGE,
        }
    }
}

} // verus!
