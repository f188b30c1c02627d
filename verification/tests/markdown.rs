use papyrus::config::Config;
use papyrus::epub::chapter_xhtml;
use papyrus::error::{ErrorKind, PapyrusError};
use papyrus::highlight::{highlight_files, Syntaxes};
use papyrus::html::generate_html;
use papyrus::markdown::{parse_markdown_files, MarkdownFile, SourceText};
use papyrus::matter::{ordered, FrontMatter, MatterEntry, MatterValue};
use papyrus::pdf::generate_pdf;

fn entry(key: &str, value: MatterValue) -> MatterEntry {
    MatterEntry { key: key.to_string(), value }
}

fn text(value: &str) -> MatterValue {
    MatterValue::Text(value.to_string())
}

#[test]
fn parse_splits_frontmatter_from_body() {
    let file = MarkdownFile::parse("content/01.md", "---\ntitle: \"Intro\"\nauthor: Me\n---\n\n# Intro\n\nHello *world*.\n").unwrap();
    assert_eq!(file.path, "content/01.md");
    let matter = file.frontmatter.unwrap();
    assert_eq!(matter.title, Some("Intro".to_string()));
    assert_eq!(matter.author, Some("Me".to_string()));
    assert_eq!(matter.date, None);
    assert!(matter.extra.is_empty());
    assert_eq!(file.content, "# Intro\n\nHello *world*.");
    assert_eq!(file.html, "<h1>Intro</h1>\n<p>Hello <em>world</em>.</p>\n");
}

#[test]
fn parse_without_frontmatter_keeps_the_whole_text() {
    let file = MarkdownFile::parse("a.md", "# Title\n\nBody\n").unwrap();
    assert_eq!(file.frontmatter, None);
    assert_eq!(file.content, "# Title\n\nBody");
    assert_eq!(file.html, "<h1>Title</h1>\n<p>Body</p>\n");
}

#[test]
fn parse_of_an_empty_text_is_an_empty_chapter() {
    let file = MarkdownFile::parse("a.md", "").unwrap();
    assert_eq!(file.frontmatter, None);
    assert_eq!(file.content, "");
    assert_eq!(file.html, "");
}

#[test]
fn parse_keeps_unknown_keys() {
    let source = "---\ntitle: T\ndraft: true\nweight: 3\nratio: 1.5\ntags:\n  - a\n  - b\nnested:\n  key: value\nnothing: ~\n---\nBody\n";
    let file = MarkdownFile::parse("a.md", source).unwrap();
    let matter = file.frontmatter.unwrap();
    assert_eq!(matter.title, Some("T".to_string()));
    assert_eq!(
        matter.extra,
        vec![
            entry("draft", MatterValue::Boolean(true)),
            entry("nested", MatterValue::Table(vec![entry("key", text("value"))])),
            entry("nothing", MatterValue::Null),
            entry("ratio", MatterValue::Real(1.5f64.to_bits())),
            entry("tags", MatterValue::List(vec![text("a"), text("b")])),
            entry("weight", MatterValue::Integer(3)),
        ]
    );
}

#[test]
fn parse_keeps_unknown_keys_in_dictionary_order() {
    let source = "---\nzeta: 1\ntitle: T\nalpha:\n  y: 1\n  x:\n    - b: 1\n      a: 2\nMid: 3\n_under: 4\n---\nBody\n";
    let file = MarkdownFile::parse("a.md", source).unwrap();
    assert_eq!(
        file.frontmatter.unwrap().extra,
        vec![
            entry("Mid", MatterValue::Integer(3)),
            entry("_under", MatterValue::Integer(4)),
            entry(
                "alpha",
                MatterValue::Table(vec![
                    entry(
                        "x",
                        MatterValue::List(vec![MatterValue::Table(vec![
                            entry("a", MatterValue::Integer(2)),
                            entry("b", MatterValue::Integer(1)),
                        ])]),
                    ),
                    entry("y", MatterValue::Integer(1)),
                ]),
            ),
            entry("zeta", MatterValue::Integer(1)),
        ]
    );
}

#[test]
fn ordering_sorts_the_tables_of_a_value_at_every_level() {
    let value = MatterValue::List(vec![
        MatterValue::Table(vec![
            entry("b", text("2")),
            entry("a", MatterValue::Table(vec![entry("z", MatterValue::Null), entry("y", MatterValue::Boolean(true))])),
            entry("c", MatterValue::List(vec![MatterValue::Integer(2), MatterValue::Integer(1)])),
        ]),
        text("plain"),
    ]);
    let expected = MatterValue::List(vec![
        MatterValue::Table(vec![
            entry("a", MatterValue::Table(vec![entry("y", MatterValue::Boolean(true)), entry("z", MatterValue::Null)])),
            entry("b", text("2")),
            entry("c", MatterValue::List(vec![MatterValue::Integer(2), MatterValue::Integer(1)])),
        ]),
        text("plain"),
    ]);
    assert_eq!(ordered(value), expected);
    assert_eq!(ordered(MatterValue::Real(7)), MatterValue::Real(7));
    assert_eq!(ordered(MatterValue::Table(Vec::new())), MatterValue::Table(Vec::new()));
}

#[test]
fn ordering_keeps_entries_of_the_same_key_in_their_order() {
    let value = MatterValue::Table(vec![
        entry("k", MatterValue::Integer(1)),
        entry("a", MatterValue::Integer(0)),
        entry("k", MatterValue::Integer(2)),
    ]);
    assert_eq!(
        ordered(value),
        MatterValue::Table(vec![
            entry("a", MatterValue::Integer(0)),
            entry("k", MatterValue::Integer(1)),
            entry("k", MatterValue::Integer(2)),
        ])
    );
}

#[test]
fn parse_renders_the_four_extensions() {
    let source = "~~gone~~\n\n| a | b |\n|---|---|\n| 1 | 2 |\n\n- [x] done\n- [ ] open\n\nNote[^1].\n\n[^1]: The note.\n";
    let html = MarkdownFile::parse("a.md", source).unwrap().html;
    assert!(html.contains("<del>gone</del>"));
    assert!(html.contains("<table>"));
    assert!(html.contains("<input disabled=\"\" type=\"checkbox\" checked=\"\"/>"));
    assert!(html.contains("footnote-definition"));
}

#[test]
fn parse_leaves_raw_html_in_place() {
    let html = MarkdownFile::parse("a.md", "<div class=\"x\">raw</div>\n").unwrap().html;
    assert_eq!(html, "<div class=\"x\">raw</div>");
}

#[test]
fn parse_writes_fenced_code_as_pre_code() {
    let html = MarkdownFile::parse("a.md", "```rust\nlet a = 1 < 2;\n```\n").unwrap().html;
    assert_eq!(html, "<pre><code class=\"language-rust\">let a = 1 &lt; 2;\n</code></pre>\n");
}

#[test]
fn parse_with_invalid_yaml_is_a_markdown_error() {
    let error = MarkdownFile::parse("a.md", "---\ntitle: [unclosed\n---\nBody\n").unwrap_err();
    assert_eq!(error.kind(), ErrorKind::Markdown);
    assert_eq!(
        error,
        PapyrusError::Markdown("Failed to parse frontmatter: expected a table of keys and values".to_string())
    );
    assert!(error.message().starts_with("Markdown parsing error: Failed to parse frontmatter: "));
}

#[test]
fn parse_with_a_scalar_block_is_a_markdown_error() {
    let error = MarkdownFile::parse("a.md", "---\njust a text\n---\nBody\n").unwrap_err();
    assert_eq!(error.kind(), ErrorKind::Markdown);
}

#[test]
fn parse_with_a_title_that_is_no_text_is_a_markdown_error() {
    let error = MarkdownFile::parse("a.md", "---\ntitle: 5\n---\nBody\n").unwrap_err();
    assert_eq!(error, PapyrusError::Markdown("Failed to parse frontmatter: title is not a text".to_string()));
}

#[test]
fn frontmatter_reads_title_author_and_date() {
    let value = MatterValue::Table(vec![
        entry("date", text("2024-01-01")),
        entry("x", MatterValue::Integer(1)),
        entry("title", text("T")),
        entry("author", MatterValue::Null),
        entry("y", MatterValue::Boolean(false)),
    ]);
    let matter = FrontMatter::from_value(value).unwrap();
    assert_eq!(
        matter,
        FrontMatter {
            title: Some("T".to_string()),
            author: None,
            date: Some("2024-01-01".to_string()),
            extra: vec![entry("x", MatterValue::Integer(1)), entry("y", MatterValue::Boolean(false))],
        }
    );
}

#[test]
fn frontmatter_of_an_empty_table_is_empty() {
    let matter = FrontMatter::from_value(MatterValue::Table(Vec::new())).unwrap();
    assert_eq!(matter, FrontMatter { title: None, author: None, date: None, extra: Vec::new() });
}

#[test]
fn frontmatter_takes_the_last_of_repeated_keys() {
    let value = MatterValue::Table(vec![entry("title", MatterValue::Integer(1)), entry("title", text("Last"))]);
    assert_eq!(FrontMatter::from_value(value).unwrap().title, Some("Last".to_string()));
    let value = MatterValue::Table(vec![entry("title", text("First")), entry("title", MatterValue::Integer(1))]);
    assert!(FrontMatter::from_value(value).is_err());
}

#[test]
fn frontmatter_names_the_first_field_that_is_no_text() {
    let cases = [
        (MatterValue::Null, "expected a table of keys and values"),
        (text("x"), "expected a table of keys and values"),
        (MatterValue::List(Vec::new()), "expected a table of keys and values"),
        (MatterValue::Table(vec![entry("date", MatterValue::Integer(1)), entry("author", MatterValue::Boolean(true))]), "author is not a text"),
        (MatterValue::Table(vec![entry("date", MatterValue::List(Vec::new()))]), "date is not a text"),
        (MatterValue::Table(vec![entry("title", MatterValue::Table(Vec::new())), entry("date", MatterValue::Integer(1))]), "title is not a text"),
    ];
    for (value, fault) in cases {
        let error = FrontMatter::from_value(value).unwrap_err();
        assert_eq!(error, PapyrusError::Markdown(format!("Failed to parse frontmatter: {}", fault)));
    }
}

#[test]
fn assemble_without_a_block_has_no_frontmatter() {
    let file = MarkdownFile::assemble("p.md", None, "body".to_string(), "<p>body</p>".to_string()).unwrap();
    assert_eq!(
        file,
        MarkdownFile { path: "p.md".to_string(), frontmatter: None, content: "body".to_string(), html: "<p>body</p>".to_string() }
    );
    assert_eq!(file.title(), None);
}

#[test]
fn assemble_reads_the_block() {
    let value = MatterValue::Table(vec![entry("title", text("T"))]);
    let file = MarkdownFile::assemble("p.md", Some(value), String::new(), String::new()).unwrap();
    assert_eq!(file.title(), Some("T"));
    let error = MarkdownFile::assemble("p.md", Some(MatterValue::Null), String::new(), String::new()).unwrap_err();
    assert_eq!(error.kind(), ErrorKind::Markdown);
}

#[test]
fn chapters_are_called_by_title_or_number() {
    let titled = MarkdownFile::parse("a.md", "---\ntitle: \"Q & A's\"\n---\nx").unwrap();
    assert_eq!(titled.html_label(4), "Q &amp; A&#x27;s");
    assert_eq!(titled.xml_label(4), "Q &amp; A&apos;s");
    let untitled = MarkdownFile::parse("a.md", "x").unwrap();
    assert_eq!(untitled.html_label(4), "Chapter 4");
    assert_eq!(untitled.xml_label(120), "Chapter 120");
}

#[test]
fn files_are_parsed_in_their_order() {
    let sources = vec![
        SourceText { path: "2.md".to_string(), text: "second".to_string() },
        SourceText { path: "1.md".to_string(), text: "---\ntitle: One\n---\none".to_string() },
    ];
    let files = parse_markdown_files(&sources).unwrap();
    assert_eq!(files.len(), 2);
    assert_eq!(files[0].path, "2.md");
    assert_eq!(files[0].html, "<p>second</p>\n");
    assert_eq!(files[1].path, "1.md");
    assert_eq!(files[1].title(), Some("One"));
    assert_eq!(parse_markdown_files(&Vec::new()).unwrap(), Vec::new());
}

#[test]
fn the_first_file_that_cannot_be_parsed_ends_the_work() {
    let sources = vec![
        SourceText { path: "1.md".to_string(), text: "fine".to_string() },
        SourceText { path: "2.md".to_string(), text: "---\ntitle: 1\n---\n".to_string() },
        SourceText { path: "3.md".to_string(), text: "---\nauthor: 1\n---\n".to_string() },
    ];
    let error = parse_markdown_files(&sources).unwrap_err();
    assert_eq!(error, PapyrusError::Markdown("Failed to parse frontmatter: title is not a text".to_string()));
}

#[test]
fn a_title_reaches_every_format_as_a_heading_before_the_body() {
    let source = SourceText {
        path: "content/01-introduction.md".to_string(),
        text: "---\ntitle: \"Intro\"\n---\n\nWelcome to the book.\n".to_string(),
    };
    let files = highlight_files(&Syntaxes::load(), parse_markdown_files(&vec![source]).unwrap());
    let config = Config::default();

    let html = generate_html(&config, &files, "theme-html.html", Some("<body>{{ content }}</body>")).unwrap();
    let heading = html.find("<h1>Intro</h1>").unwrap();
    let body = html.find("<p>Welcome to the book.</p>").unwrap();
    assert!(heading < body);

    let job = generate_pdf(&config, &files, "theme-light.html", Some("<body>{{ content }}</body>"), None, "export").unwrap();
    let heading = job.document.find("<h1 id=\"chapter-1\">Intro</h1>").unwrap();
    let body = job.document.find("<p>Welcome to the book.</p>").unwrap();
    assert!(heading < body);

    let xhtml = chapter_xhtml(&files[0], 1);
    let opened = xhtml.find("<body>").unwrap();
    let heading = xhtml.find("<h1>Intro</h1>").unwrap();
    let body = xhtml.find("<p>Welcome to the book.</p>").unwrap();
    assert!(opened < heading && heading < body);
}
