use papyrus::highlight::{find_block, highlight_code_blocks, highlight_file, highlight_with, is_word, Syntaxes, Tags};
use papyrus::markdown::MarkdownFile;

/// The stage as a pattern over the text and a lookup of the language; a
/// block without a class is left as it is.
fn by_pattern(html: &str) -> String {
    let syntaxes = syntect::parsing::SyntaxSet::load_defaults_newlines();
    let pattern = regex::Regex::new("(?s)<pre><code(?: class=\"language-(\\w+)\")?>([^<]+)</code></pre>").unwrap();
    pattern
        .replace_all(html, |caps: &regex::Captures| {
            let language = match caps.get(1) {
                Some(found) => found.as_str(),
                None => return caps[0].to_string(),
            };
            let code = caps.get(2).map(|m| m.as_str()).unwrap_or("");
            if syntaxes.find_syntax_by_token(language).is_some() {
                format!("<pre><code class=\"language-{}\">{}</code></pre>", language, code)
            } else {
                let escaped = code
                    .replace('&', "&amp;")
                    .replace('<', "&lt;")
                    .replace('>', "&gt;")
                    .replace('"', "&quot;")
                    .replace('\'', "&#x27;");
                format!("<pre><code>{}</code></pre>", escaped)
            }
        })
        .to_string()
}

const SAMPLES: [&str; 24] = [
    "",
    "<p>no code here</p>",
    "<pre><code class=\"language-rust\">fn main() {}\n</code></pre>",
    "<pre><code class=\"language-nolang\">a &amp; b\n</code></pre>",
    "<pre><code>plain text\n</code></pre>",
    "<pre><code>it's &quot;quoted&quot; &gt; here\n</code></pre>",
    "<p>a</p>\n<pre><code class=\"language-py\">print(1)\n</code></pre>\n<p>b</p>\n<pre><code class=\"language-zzz\">x\n</code></pre>\n",
    "<pre><code class=\"language-rust\"></code></pre>",
    "<pre><code></code></pre>",
    "<pre><code class=\"language-\">x</code></pre>",
    "<pre><code class=\"language-c++\">x</code></pre>",
    "<pre><code class=\"language-rust\" id=\"x\">x</code></pre>",
    "<pre><code class=\"language-rust\">a<b>c</b></code></pre>",
    "<pre><code class=\"language-rust\">a</code> </pre>",
    "<pre><code class=\"language-rust\">unterminated",
    "<pre><code",
    "<pre><code>",
    "<pre><code>x",
    "<pre><code>x</code></pre",
    "<pre><code><pre><code>inner</code></pre></code></pre>",
    "<pre><code class=\"language-RUST\">x</code></pre><pre><code class=\"language-Rust_1\">y</code></pre>",
    "<pre><pre><code class=\"language-toml\">a = 1\n</code></pre>",
    "text <pre><code class=\"language-json\">{\"a\": 1}\n</code></pre> more <pre><code>x &amp; y</code></pre> end",
    "<<pre><code>x</code></pre>>",
];

#[test]
fn known_language_keeps_class_and_code() {
    let html = "<p>x</p>\n<pre><code class=\"language-rust\">let a = 1 &lt; 2;\n</code></pre>\n";
    assert_eq!(highlight_code_blocks(html), html);
}

#[test]
fn unknown_language_loses_the_class_and_has_its_code_escaped() {
    let html = "<pre><code class=\"language-nolang\">a &amp; 'b' > \"c\"\n</code></pre>";
    assert_eq!(
        highlight_code_blocks(html),
        "<pre><code>a &amp;amp; &#x27;b&#x27; &gt; &quot;c&quot;\n</code></pre>"
    );
}

#[test]
fn block_without_language_stays_as_it_is() {
    for html in [
        "<pre><code>plain words\n</code></pre>",
        "<pre><code>a &amp; 'b' > \"c\"\n</code></pre>",
        "<p>x</p><pre><code>1 &lt; 2</code></pre><p>y</p>",
    ] {
        assert_eq!(highlight_code_blocks(html), html);
    }
}

#[test]
fn text_outside_blocks_stays_as_it_is() {
    let html = "<h1>T</h1>\n<p>a &amp; b</p>\n<pre>not code</pre>\n<code>inline</code>\n";
    assert_eq!(highlight_code_blocks(html), html);
    assert_eq!(highlight_code_blocks(""), "");
}

#[test]
fn blocks_of_another_shape_stay_as_they_are() {
    for html in [
        "<pre><code class=\"language-c++\">x</code></pre>",
        "<pre><code class=\"language-rust\"></code></pre>",
        "<pre><code class=\"language-nolang\">a<b>c</b></code></pre>",
        "<pre><code class=\"language-nolang\" id=\"x\">a &amp; b</code></pre>",
        "<pre><code>x</code> </pre>",
        "<pre><code class=\"language-nolang\">unterminated &amp;",
    ] {
        assert_eq!(highlight_code_blocks(html), html);
    }
}

#[test]
fn every_block_of_a_text_is_written_anew() {
    let html = "<pre><code class=\"language-aaa\">'</code></pre><pre><code class=\"language-rust\">'</code></pre><pre><code class=\"language-bbb\">\"</code></pre>";
    assert_eq!(
        highlight_code_blocks(html),
        "<pre><code>&#x27;</code></pre><pre><code class=\"language-rust\">'</code></pre><pre><code>&quot;</code></pre>"
    );
}

#[test]
fn known_languages_are_found_by_extension_or_name_in_any_case() {
    let syntaxes = Syntaxes::load();
    for token in ["rust", "rs", "RUST", "Rust", "py", "python", "json", "html", "txt"] {
        assert!(syntaxes.knows(token), "{}", token);
    }
    for token in ["nolang", "", "rust1", "c++x"] {
        assert!(!syntaxes.knows(token), "{}", token);
    }
}

#[test]
fn stage_agrees_with_the_pattern_over_the_text() {
    let syntaxes = Syntaxes::load();
    for sample in SAMPLES {
        assert_eq!(highlight_with(&syntaxes, sample), by_pattern(sample), "{}", sample);
    }
}

#[test]
fn stage_changes_nothing_when_run_on_its_own_output() {
    let syntaxes = Syntaxes::load();
    let more = [
        "<pre><code class=\"language-rust\">let a = 1 &lt; 2 &amp;&amp; true;\n</code></pre>",
        "<pre><code class=\"language-nolang\">a &amp; 'b' > \"c\"\n</code></pre>",
        "a<pre><code class=\"language-py\">x</code></pre>b<pre><code class=\"language-zzz\">&amp;</code></pre>c",
        "<pre><code class=\"language-c++\">a &amp; b</code></pre>",
        "<pre><code><pre><code class=\"language-nolang\">'</code></pre></code></pre>",
        "<pre><code class=\"language-text\">'quoted'</code></pre><pre><code>'quoted'</code></pre>",
    ];
    for sample in SAMPLES.iter().chain(more.iter()) {
        let once = highlight_with(&syntaxes, sample);
        let twice = highlight_with(&syntaxes, &once);
        assert_eq!(twice, once, "{}", sample);
    }
}

#[test]
fn code_of_an_unknown_language_is_escaped_once() {
    let once = highlight_code_blocks("<pre><code class=\"language-nolang\">a &amp; b</code></pre>");
    assert_eq!(once, "<pre><code>a &amp;amp; b</code></pre>");
    assert_eq!(highlight_code_blocks(&once), once);
}

#[test]
fn found_block_names_the_places_of_language_and_code() {
    let hay: Vec<char> = "ab<pre><code class=\"language-rs\">xyz</code></pre>!".chars().collect();
    let tags = Tags::new();
    let block = find_block(&hay, 2, &tags).unwrap();
    assert_eq!(block.language, Some((29, 31)));
    assert_eq!(block.code, (33, 36));
    assert_eq!(block.end, 49);
    assert!(find_block(&hay, 0, &tags).is_none());
    assert!(find_block(&hay, 3, &tags).is_none());
    assert!(find_block(&hay, 49, &tags).is_none());
    assert!(find_block(&hay, 500, &tags).is_none());
    let plain: Vec<char> = "<pre><code>c</code></pre>".chars().collect();
    let block = find_block(&plain, 0, &tags).unwrap();
    assert_eq!(block.language, None);
    assert_eq!(block.code, (11, 12));
    assert_eq!(block.end, 25);
}

#[test]
fn word_characters_are_those_of_the_pattern_library() {
    for c in ['a', 'z', 'A', 'Z', '0', '9', '_', '\u{e9}', '\u{43f}', '\u{663}', '\u{203f}', '\u{301}', '\u{4e66}'] {
        assert!(is_word(c), "{:?}", c);
    }
    for c in ['-', '+', ' ', '"', '<', '.', '\u{bd}', '\u{20ac}', '\u{a0}', '\u{2014}'] {
        assert!(!is_word(c), "{:?}", c);
    }
    let word = regex::Regex::new("^\\w$").unwrap();
    for code in 0u32..0x250 {
        let c = char::from_u32(code).unwrap();
        assert_eq!(is_word(c), word.is_match(&c.to_string()), "{:?}", c);
    }
}

#[test]
fn language_of_letters_outside_ascii_is_a_language() {
    let html = "<pre><code class=\"language-\u{43f}\u{438}\u{442}\u{43e}\u{43d}\">a &amp; b</code></pre>";
    assert_eq!(highlight_code_blocks(html), "<pre><code>a &amp;amp; b</code></pre>");
    assert_eq!(highlight_code_blocks(html), by_pattern(html));
    let html = "<pre><code class=\"language-c\u{20ac}\">a &amp; b</code></pre>";
    assert_eq!(highlight_code_blocks(html), html);
    assert_eq!(highlight_code_blocks(html), by_pattern(html));
}

#[test]
fn highlighting_a_chapter_changes_only_its_html() {
    let file = MarkdownFile {
        path: "a.md".to_string(),
        frontmatter: None,
        content: "```nolang\n'\n```".to_string(),
        html: "<pre><code class=\"language-nolang\">'\n</code></pre>\n".to_string(),
    };
    let out = highlight_file(&Syntaxes::load(), file);
    assert_eq!(out.path, "a.md");
    assert_eq!(out.frontmatter, None);
    assert_eq!(out.content, "```nolang\n'\n```");
    assert_eq!(out.html, "<pre><code>&#x27;\n</code></pre>\n");
}
