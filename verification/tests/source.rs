use papyrus::error::{ErrorKind, PapyrusError};
use papyrus::order::sort_texts;
use papyrus::source::{collect_markdown_files, has_markdown_extension, Candidate, Sources};

fn candidate(path: &str, present: bool) -> Candidate {
    Candidate { path: path.to_string(), present }
}

#[test]
fn listed_files_keep_the_order_of_the_list() {
    let sources = Sources::Listed(vec![
        candidate("content/zeta.md", true),
        candidate("content/alpha.md", true),
        candidate("content/missing.md", false),
        candidate("content/middle.md", true),
    ]);
    let files = collect_markdown_files("content", &sources).unwrap();
    assert_eq!(files, vec!["content/zeta.md", "content/alpha.md", "content/middle.md"]);
}

#[test]
fn listed_files_need_no_markdown_extension() {
    let sources = Sources::Listed(vec![candidate("content/notes.txt", true), candidate("content/a.md", true)]);
    let files = collect_markdown_files("content", &sources).unwrap();
    assert_eq!(files, vec!["content/notes.txt", "content/a.md"]);
}

#[test]
fn listed_files_may_repeat() {
    let sources = Sources::Listed(vec![candidate("c/a.md", true), candidate("c/a.md", true)]);
    assert_eq!(collect_markdown_files("c", &sources).unwrap(), vec!["c/a.md", "c/a.md"]);
}

#[test]
fn an_empty_list_gives_no_chapters() {
    let files = collect_markdown_files("content", &Sources::Listed(vec![])).unwrap();
    assert!(files.is_empty());
}

#[test]
fn walked_files_come_in_dictionary_order_of_their_paths() {
    let sources = Sources::Walked(vec![
        candidate("content", false),
        candidate("content/b.md", true),
        candidate("content/sub", false),
        candidate("content/sub/a.md", true),
        candidate("content/a.md", true),
        candidate("content/image.png", true),
        candidate("content/10-ten.md", true),
        candidate("content/02-two.md", true),
    ]);
    let files = collect_markdown_files("content", &sources).unwrap();
    assert_eq!(
        files,
        vec![
            "content/02-two.md",
            "content/10-ten.md",
            "content/a.md",
            "content/b.md",
            "content/sub/a.md",
        ]
    );
}

#[test]
fn walked_files_are_ordered_by_the_whole_path_text() {
    // `-` stands before `/`, so the sibling file comes before the files of the directory.
    let sources = Sources::Walked(vec![candidate("c/a/z.md", true), candidate("c/a-b.md", true)]);
    let files = collect_markdown_files("c", &sources).unwrap();
    assert_eq!(files, vec!["c/a-b.md", "c/a/z.md"]);
}

#[test]
fn the_order_of_the_walk_does_not_matter() {
    let one = Sources::Walked(vec![
        candidate("c/3.md", true),
        candidate("c/1.md", true),
        candidate("c/2.md", true),
    ]);
    let other = Sources::Walked(vec![
        candidate("c/2.md", true),
        candidate("c/3.md", true),
        candidate("c/1.md", true),
    ]);
    let expected = vec!["c/1.md", "c/2.md", "c/3.md"];
    assert_eq!(collect_markdown_files("c", &one).unwrap(), expected);
    assert_eq!(collect_markdown_files("c", &other).unwrap(), expected);
}

#[test]
fn walked_directories_named_like_markdown_files_are_left_out() {
    let sources = Sources::Walked(vec![candidate("c/dir.md", false), candidate("c/x.md", true)]);
    assert_eq!(collect_markdown_files("c", &sources).unwrap(), vec!["c/x.md"]);
}

#[test]
fn a_missing_content_directory_is_an_asset_error() {
    let error = collect_markdown_files("book/content", &Sources::Missing).unwrap_err();
    assert_eq!(error.kind(), ErrorKind::Asset);
    assert_eq!(
        error,
        PapyrusError::Asset("Content directory does not exist: book/content".to_string())
    );
    assert_eq!(error.message(), "Asset error: Content directory does not exist: book/content");
}

#[test]
fn markdown_extension_is_exactly_md() {
    assert!(has_markdown_extension("a.md"));
    assert!(has_markdown_extension("dir.d/a.b.md"));
    assert!(!has_markdown_extension("a.MD"));
    assert!(!has_markdown_extension("a.markdown"));
    assert!(!has_markdown_extension(".md"));
    assert!(!has_markdown_extension("dir/.md"));
    assert!(!has_markdown_extension("a.md/"));
    assert!(!has_markdown_extension("a.md/readme"));
    assert!(!has_markdown_extension("md"));
    assert!(!has_markdown_extension(""));
}

#[test]
fn sorting_agrees_with_the_standard_order_of_texts() {
    let items: Vec<String> = ["b", "a", "", "ab", "B", "\u{e9}", "a/b", "a-b", "aa", "a", "z", "10", "9"]
        .iter()
        .map(|s| s.to_string())
        .collect();
    let mut expected = items.clone();
    expected.sort();
    assert_eq!(sort_texts(&items), expected);
}
