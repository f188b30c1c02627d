use papyrus::cli::{Cli, Commands, Export, Format};
use papyrus::config::{Config, FontConfig, SampleConfig};
use papyrus::error::{ErrorKind, PapyrusError};

#[test]
fn default_configuration_of_a_new_project() {
    let config = Config::default();
    assert_eq!(
        config,
        Config {
            title: "My Book".to_string(),
            author: "Author Name".to_string(),
            language: Some("en".to_string()),
            cover: None,
            version: Some("1.0.0".to_string()),
            md_file_list: None,
            sample: None,
            fonts: None,
        }
    );
}

#[test]
fn language_falls_back_to_english() {
    let mut config = Config::default();
    assert_eq!(config.language(), "en");
    config.language = None;
    assert_eq!(config.language(), "en");
    config.language = Some("de".to_string());
    assert_eq!(config.language(), "de");
}

#[test]
fn configuration_holds_sample_and_fonts() {
    let mut config = Config::default();
    config.sample = Some(SampleConfig { start_page: Some(1), end_page: None });
    config.fonts = Some(vec![FontConfig { name: "Serif".to_string(), path: "fonts/serif.ttf".to_string() }]);
    config.md_file_list = Some(vec!["a.md".to_string()]);
    let copy = config.clone();
    assert_eq!(copy, config);
}

#[test]
fn pdf_command_defaults_to_the_current_directory() {
    let cli = Cli { command: Commands::Pdf { theme: "dark".to_string(), content: None, book_dir: None } };
    assert_eq!(
        cli.command.export(),
        Some(Export {
            format: Format::Pdf,
            theme: "dark".to_string(),
            book_dir: ".".to_string(),
            content_dir: "./content".to_string(),
        })
    );
}

#[test]
fn content_defaults_to_the_directory_below_the_book() {
    let command = Commands::Epub { content: None, book_dir: Some("books/one".to_string()) };
    let export = command.export().unwrap();
    assert_eq!(export.format, Format::Epub);
    assert_eq!(export.book_dir, "books/one");
    assert_eq!(export.content_dir, "books/one/content");
    let command = Commands::Html { content: None, book_dir: Some("books/one/".to_string()) };
    assert_eq!(command.export().unwrap().content_dir, "books/one/content");
}

#[test]
fn named_content_directory_is_taken_as_it_is() {
    let command = Commands::Html { content: Some("chapters".to_string()), book_dir: Some("b".to_string()) };
    let export = command.export().unwrap();
    assert_eq!(export.format, Format::Html);
    assert_eq!(export.book_dir, "b");
    assert_eq!(export.content_dir, "chapters");
    assert_eq!(export.theme, "light");
}

#[test]
fn sample_is_a_pdf_of_the_book_in_the_current_directory() {
    let command = Commands::Sample { theme: "light".to_string() };
    assert_eq!(
        command.export(),
        Some(Export {
            format: Format::Pdf,
            theme: "light".to_string(),
            book_dir: ".".to_string(),
            content_dir: "content".to_string(),
        })
    );
}

#[test]
fn init_exports_nothing() {
    assert_eq!(Commands::Init { path: ".".to_string() }.export(), None);
}

#[test]
fn every_error_names_its_kind_before_its_detail() {
    let cases = [
        (PapyrusError::Io("d".to_string()), ErrorKind::Io, "IO error: d"),
        (PapyrusError::Config("d".to_string()), ErrorKind::Config, "Configuration error: d"),
        (PapyrusError::Markdown("d".to_string()), ErrorKind::Markdown, "Markdown parsing error: d"),
        (PapyrusError::Template("d".to_string()), ErrorKind::Template, "Template error: d"),
        (PapyrusError::Yaml("d".to_string()), ErrorKind::Yaml, "YAML parsing error: d"),
        (PapyrusError::Toml("d".to_string()), ErrorKind::Toml, "TOML parsing error: d"),
        (PapyrusError::Epub("d".to_string()), ErrorKind::Epub, "EPUB generation error: d"),
        (PapyrusError::Pdf("d".to_string()), ErrorKind::Pdf, "PDF generation error: d"),
        (PapyrusError::Asset("d".to_string()), ErrorKind::Asset, "Asset error: d"),
        (PapyrusError::Zip("d".to_string()), ErrorKind::Zip, "ZIP error: d"),
        (PapyrusError::Walkdir("d".to_string()), ErrorKind::Walkdir, "Walkdir error: d"),
    ];
    for (error, kind, message) in cases {
        assert_eq!(error.kind(), kind);
        assert_eq!(error.message(), message);
    }
    assert_eq!(PapyrusError::Io(String::new()).message(), "IO error: ");
}
