//! The code-highlighting stage: fenced code blocks, as the Markdown
//! renderer writes them, are found in the HTML of a chapter and written
//! anew, with their language class where the language is known, and
//! without it and with their code escaped where it is not.

use crate::markdown::MarkdownFile;
use crate::text::{html_escape, html_escaped, matches_at, occurs_at, push_chars, to_chars};
use regex::Regex;
use syntect::parsing::SyntaxSet;
use vstd::prelude::*;

verus! {

#[verifier::external_type_specification]
#[verifier::external_body]
pub struct ExSyntaxSet(SyntaxSet);

/// The tokens for which a set of syntax definitions holds a definition: the
/// file extensions and the names of its definitions, in any mix of ASCII
/// capital and small letters.
pub uninterp spec fn syntax_tokens(set: SyntaxSet) -> Set<Seq<char>>;

/// Whether the definitions that come with the highlighting library, those
/// of `SyntaxSet::load_defaults_newlines`, hold one for the token.
pub uninterp spec fn default_syntax(token: Seq<char>) -> bool;

/// The tokens of the languages that the highlighting library knows by
/// itself.
pub open spec fn default_tokens() -> Set<Seq<char>> {
    Set::new(|token: Seq<char>| default_syntax(token))
}

/// `SyntaxSet::load_defaults_newlines`: the definitions that come with the
/// highlighting library, the same at every call.
#[verifier::external_body]
fn load_default_syntaxes() -> (set: SyntaxSet)
    ensures
        forall|token: Seq<char>|
            #[trigger] syntax_tokens(set).contains(token) == default_syntax(token),
{
    SyntaxSet::load_defaults_newlines()
}

/// `SyntaxSet::find_syntax_by_token`: whether the set holds a definition
/// for the token.
#[verifier::external_body]
fn has_syntax(set: &SyntaxSet, token: &str) -> (found: bool)
    ensures
        found == syntax_tokens(*set).contains(token@),
{
    set.find_syntax_by_token(token).is_some()
}

/// The syntax definitions that decide which languages are known.
pub struct Syntaxes {
    set: SyntaxSet,
}

impl Syntaxes {
    /// The tokens of the known languages.
    pub closed spec fn tokens(&self) -> Set<Seq<char>> {
        syntax_tokens(self.set)
    }

    /// The definitions that come with the highlighting library.
    pub fn load() -> (syntaxes: Syntaxes)
        ensures
            syntaxes.tokens() == default_tokens(),
    {
        let syntaxes = Syntaxes { set: load_default_syntaxes() };
        assert(syntaxes.tokens() =~= default_tokens());
        syntaxes
    }

    /// Whether the language of this token is known.
    pub fn knows(&self, token: &str) -> (known: bool)
        ensures
            known == self.tokens().contains(token@),
    {
        has_syntax(&self.set, token)
    }
}

// The tags of a code block, in the order of the block.

pub const BLOCK_OPEN: &'static str = "<pre><code";

pub const CLASS_OPEN: &'static str = " class=\"language-";

pub const CLASS_CLOSE: &'static str = "\">";

pub const PLAIN_CLOSE: &'static str = ">";

pub const BLOCK_CLOSE: &'static str = "</code></pre>";

/// The pattern of a text that is one word character, as the pattern
/// library writes it.
pub const WORD_PATTERN: &'static str = "^\\w$";

#[verifier::external_type_specification]
#[verifier::external_body]
pub struct ExRegex(Regex);

/// Whether `Regex::new` compiles a pattern.
pub uninterp spec fn pattern_compiles(pattern: Seq<char>) -> bool;

/// The pattern that a compiled pattern was compiled from.
pub uninterp spec fn compiled_pattern(held: Regex) -> Seq<char>;

/// Whether `Regex::is_match` finds a pattern, once compiled, in a text.
pub uninterp spec fn pattern_match(pattern: Seq<char>, text: Seq<char>) -> bool;

/// `Regex::new`: the pattern compiled, if it is a pattern at all.
#[verifier::external_body]
fn compile(pattern: &str) -> (compiled: Option<Regex>)
    ensures
        match compiled {
            Some(held) => pattern_compiles(pattern@) && compiled_pattern(held) == pattern@,
            None => !pattern_compiles(pattern@),
        },
{
    Regex::new(pattern).ok()
}

/// `Regex::is_match`: whether the pattern is found in the text.
#[verifier::external_body]
fn is_match(compiled: &Regex, text: &str) -> (found: bool)
    ensures
        found == pattern_match(compiled_pattern(*compiled), text@),
{
    compiled.is_match(text)
}

/// The ASCII word characters: letters, digits and `_`.
pub open spec fn is_ascii_word_char(c: char) -> bool {
    ||| 'a' <= c <= 'z'
    ||| 'A' <= c <= 'Z'
    ||| '0' <= c <= '9'
    ||| c == '_'
}

/// The characters of a language token: among the ASCII characters the
/// letters, the digits and `_`; among the others those that the pattern
/// library takes for word characters.
pub open spec fn is_word_char(c: char) -> bool {
    if c <= '\u{7f}' {
        is_ascii_word_char(c)
    } else {
        pattern_compiles(WORD_PATTERN@) && pattern_match(WORD_PATTERN@, seq![c])
    }
}

/// Whether a text is a language token: not empty, of word characters only.
pub open spec fn is_token(token: Seq<char>) -> bool {
    &&& token.len() > 0
    &&& forall|i: int| 0 <= i < token.len() ==> is_word_char(#[trigger] token[i])
}

/// Whether a text can be the code of a block: not empty, without `<`.
pub open spec fn is_code(code: Seq<char>) -> bool {
    &&& code.len() > 0
    &&& forall|i: int| 0 <= i < code.len() ==> #[trigger] code[i] != '<'
}

/// The opening tags of a block, with the language class where there is one.
pub open spec fn block_opening(language: Option<Seq<char>>) -> Seq<char> {
    match language {
        Some(token) => BLOCK_OPEN@ + CLASS_OPEN@ + token + CLASS_CLOSE@,
        None => BLOCK_OPEN@ + PLAIN_CLOSE@,
    }
}

/// A code block as the Markdown renderer writes it.
pub open spec fn block_text(language: Option<Seq<char>>, code: Seq<char>) -> Seq<char> {
    block_opening(language) + code + BLOCK_CLOSE@
}

/// Whether language and code are those of a block.
pub open spec fn is_block(language: Option<Seq<char>>, code: Seq<char>) -> bool {
    &&& is_code(code)
    &&& language matches Some(token) ==> is_token(token)
}

/// Whether the block of this language and code stands in `text` at `at`.
pub open spec fn block_at(text: Seq<char>, at: int, language: Option<Seq<char>>, code: Seq<char>) -> bool {
    is_block(language, code) && occurs_at(text, at, block_text(language, code))
}

/// Whether some block stands in `text` at `at`.
pub open spec fn has_block_at(text: Seq<char>, at: int) -> bool {
    exists|language: Option<Seq<char>>, code: Seq<char>| block_at(text, at, language, code)
}

/// The block in `text` at `at`, as language and code.
pub open spec fn the_block_at(text: Seq<char>, at: int) -> (Option<Seq<char>>, Seq<char>) {
    choose|language: Option<Seq<char>>, code: Seq<char>| block_at(text, at, language, code)
}

/// A block written anew. A block that names a known language keeps its
/// class and its code. A block that names an unknown language loses its
/// class and has its code escaped. A block without a class stays as it is:
/// it names no language, or it was written anew before.
pub open spec fn rendered_block(
    language: Option<Seq<char>>,
    code: Seq<char>,
    known: Set<Seq<char>>,
) -> Seq<char> {
    match language {
        Some(token) => if known.contains(token) {
            block_text(Some(token), code)
        } else {
            block_text(None, html_escaped(code))
        },
        None => block_text(None, code),
    }
}

/// The text from `at` on with its blocks written anew: the blocks are taken
/// from the left and do not overlap, and every character outside a block
/// stays as it is.
pub open spec fn highlighted_from(text: Seq<char>, at: int, known: Set<Seq<char>>) -> Seq<char>
    decreases text.len() - at,
    via highlighted_from_ends
{
    if at < 0 || at >= text.len() {
        Seq::<char>::empty()
    } else if has_block_at(text, at) {
        let (language, code) = the_block_at(text, at);
        rendered_block(language, code, known) + highlighted_from(
            text,
            at + block_text(language, code).len(),
            known,
        )
    } else {
        seq![text[at]] + highlighted_from(text, at + 1, known)
    }
}

#[via_fn]
proof fn highlighted_from_ends(text: Seq<char>, at: int, known: Set<Seq<char>>) {
    if 0 <= at < text.len() && has_block_at(text, at) {
        let (language, code) = the_block_at(text, at);
        assert(block_at(text, at, language, code));
        assert(block_text(language, code).len() >= code.len());
    }
}

/// A text with its code blocks written anew.
pub open spec fn highlighted(text: Seq<char>, known: Set<Seq<char>>) -> Seq<char> {
    highlighted_from(text, 0, known)
}

/// The tags of a block, character by character.
pub(crate) proof fn lemma_tags()
    ensures
        BLOCK_OPEN@ == seq!['<', 'p', 'r', 'e', '>', '<', 'c', 'o', 'd', 'e'],
        CLASS_OPEN@ == seq![
            ' ',
            'c',
            'l',
            'a',
            's',
            's',
            '=',
            '"',
            'l',
            'a',
            'n',
            'g',
            'u',
            'a',
            'g',
            'e',
            '-',
        ],
        CLASS_CLOSE@ == seq!['"', '>'],
        PLAIN_CLOSE@ == seq!['>'],
        BLOCK_CLOSE@ == seq!['<', '/', 'c', 'o', 'd', 'e', '>', '<', '/', 'p', 'r', 'e', '>'],
        BLOCK_OPEN@.len() == 10,
        CLASS_OPEN@.len() == 17,
        CLASS_CLOSE@.len() == 2,
        PLAIN_CLOSE@.len() == 1,
        BLOCK_CLOSE@.len() == 13,
{
    reveal_strlit("<pre><code");
    reveal_strlit(" class=\"language-");
    reveal_strlit("\">");
    reveal_strlit(">");
    reveal_strlit("</code></pre>");
    assert(BLOCK_OPEN@ =~= seq!['<', 'p', 'r', 'e', '>', '<', 'c', 'o', 'd', 'e']);
    assert(CLASS_OPEN@ =~= seq![
        ' ',
        'c',
        'l',
        'a',
        's',
        's',
        '=',
        '"',
        'l',
        'a',
        'n',
        'g',
        'u',
        'a',
        'g',
        'e',
        '-',
    ]);
    assert(CLASS_CLOSE@ =~= seq!['"', '>']);
    assert(PLAIN_CLOSE@ =~= seq!['>']);
    assert(BLOCK_CLOSE@ =~= seq![
        '<',
        '/',
        'c',
        'o',
        'd',
        'e',
        '>',
        '<',
        '/',
        'p',
        'r',
        'e',
        '>',
    ]);
}

/// Two texts stand one after the other at a place exactly if the first
/// stands there and the second stands where the first ends.
pub(crate) proof fn lemma_occurs_concat(text: Seq<char>, at: int, a: Seq<char>, b: Seq<char>)
    requires
        0 <= at,
    ensures
        occurs_at(text, at, a + b) <==> occurs_at(text, at, a) && occurs_at(
            text,
            at + a.len(),
            b,
        ),
{
    let n = a.len() as int;
    let m = b.len() as int;
    if occurs_at(text, at, a + b) {
        assert(text.subrange(at, at + n) =~= (a + b).subrange(0, n));
        assert((a + b).subrange(0, n) =~= a);
        assert(text.subrange(at + n, at + n + m) =~= text.subrange(at, at + n + m).subrange(
            n,
            n + m,
        ));
        assert((a + b).subrange(n, n + m) =~= b);
    }
    if occurs_at(text, at, a) && occurs_at(text, at + n, b) {
        assert(text.subrange(at, at + n + m) =~= text.subrange(at, at + n) + text.subrange(
            at + n,
            at + n + m,
        ));
    }
}

/// Where the code of a block begins that stands at `at`.
pub open spec fn code_start(at: int, language: Option<Seq<char>>) -> int {
    match language {
        Some(token) => at + 29 + token.len(),
        None => at + 11,
    }
}

/// What it takes for a block to stand at a place, tag by tag.
pub open spec fn block_parts_at(
    text: Seq<char>,
    at: int,
    language: Option<Seq<char>>,
    code: Seq<char>,
) -> bool {
    &&& 0 <= at
    &&& occurs_at(text, at, BLOCK_OPEN@)
    &&& match language {
        Some(token) => {
            &&& occurs_at(text, at + 10, CLASS_OPEN@)
            &&& occurs_at(text, at + 27, token)
            &&& occurs_at(text, at + 27 + token.len(), CLASS_CLOSE@)
        },
        None => occurs_at(text, at + 10, PLAIN_CLOSE@),
    }
    &&& occurs_at(text, code_start(at, language), code)
    &&& occurs_at(text, code_start(at, language) + code.len(), BLOCK_CLOSE@)
}

/// A block stands at a place exactly if its parts stand there one after the
/// other.
pub(crate) proof fn lemma_block_parts(
    text: Seq<char>,
    at: int,
    language: Option<Seq<char>>,
    code: Seq<char>,
)
    ensures
        occurs_at(text, at, block_text(language, code)) <==> block_parts_at(
            text,
            at,
            language,
            code,
        ),
        block_text(language, code).len() == code_start(at, language) - at + code.len() + 13,
{
    lemma_tags();
    if 0 <= at {
        let opening = block_opening(language);
        lemma_occurs_concat(text, at, opening + code, BLOCK_CLOSE@);
        lemma_occurs_concat(text, at, opening, code);
        match language {
            Some(token) => {
                lemma_occurs_concat(text, at, BLOCK_OPEN@ + CLASS_OPEN@ + token, CLASS_CLOSE@);
                lemma_occurs_concat(text, at, BLOCK_OPEN@ + CLASS_OPEN@, token);
                lemma_occurs_concat(text, at, BLOCK_OPEN@, CLASS_OPEN@);
            },
            None => {
                lemma_occurs_concat(text, at, BLOCK_OPEN@, PLAIN_CLOSE@);
            },
        }
    }
}

/// At most one block stands at a place.
pub proof fn lemma_block_unique(
    text: Seq<char>,
    at: int,
    language: Option<Seq<char>>,
    code: Seq<char>,
    other_language: Option<Seq<char>>,
    other_code: Seq<char>,
)
    requires
        block_at(text, at, language, code),
        block_at(text, at, other_language, other_code),
    ensures
        language == other_language,
        code == other_code,
{
    lemma_tags();
    lemma_block_parts(text, at, language, code);
    lemma_block_parts(text, at, other_language, other_code);
    match (language, other_language) {
        (Some(a), Some(b)) => {
            let from = at + 27;
            assert(text.subrange(from, from + a.len())[0] == text[from]);
            if a.len() < b.len() {
                assert(text.subrange(from + a.len(), from + a.len() + 2)[0] == '"');
                assert(text.subrange(from, from + b.len())[a.len() as int] == b[a.len() as int]);
                assert(is_word_char(b[a.len() as int]));
            } else if b.len() < a.len() {
                assert(text.subrange(from + b.len(), from + b.len() + 2)[0] == '"');
                assert(text.subrange(from, from + a.len())[b.len() as int] == a[b.len() as int]);
                assert(is_word_char(a[b.len() as int]));
            }
            assert(a =~= b);
        },
        (None, None) => {},
        (Some(a), None) => {
            assert(text.subrange(at + 10, at + 27)[0] == ' ');
            assert(text.subrange(at + 10, at + 11)[0] == '>');
        },
        (None, Some(b)) => {
            assert(text.subrange(at + 10, at + 27)[0] == ' ');
            assert(text.subrange(at + 10, at + 11)[0] == '>');
        },
    }
    let from = code_start(at, language);
    if code.len() < other_code.len() {
        assert(text.subrange(from + code.len(), from + code.len() + 13)[0] == '<');
        assert(text.subrange(from, from + other_code.len())[code.len() as int]
            == other_code[code.len() as int]);
    } else if other_code.len() < code.len() {
        assert(text.subrange(from + other_code.len(), from + other_code.len() + 13)[0] == '<');
        assert(text.subrange(from, from + code.len())[other_code.len() as int]
            == code[other_code.len() as int]);
    }
    assert(code =~= other_code);
}

/// A language token that stands at `from` and is followed by the end of
/// the class ends where the word characters from `from` on end.
proof fn lemma_token_run(text: Seq<char>, from: int, until: int, token: Seq<char>)
    requires
        0 <= from <= until <= text.len(),
        is_token(token),
        occurs_at(text, from, token),
        occurs_at(text, from + token.len(), CLASS_CLOSE@),
        forall|k: int| from <= k < until ==> is_word_char(#[trigger] text[k]),
        until == text.len() || !is_word_char(text[until]),
    ensures
        from + token.len() == until,
{
    lemma_tags();
    let end = from + token.len();
    if until < end {
        assert(text.subrange(from, end)[until - from] == text[until]);
        assert(is_word_char(token[until - from]));
    } else if end < until {
        assert(text.subrange(end, end + 2)[0] == text[end]);
        assert(is_word_char(text[end]));
    }
}

/// The code of a block that stands at `from` and is followed by the closing
/// tags ends at the first `<` from `from` on.
proof fn lemma_code_run(text: Seq<char>, from: int, until: int, code: Seq<char>)
    requires
        0 <= from <= until <= text.len(),
        is_code(code),
        occurs_at(text, from, code),
        occurs_at(text, from + code.len(), BLOCK_CLOSE@),
        forall|k: int| from <= k < until ==> #[trigger] text[k] != '<',
        until == text.len() || text[until] == '<',
    ensures
        from + code.len() == until,
{
    lemma_tags();
    let end = from + code.len();
    if until < end {
        assert(text.subrange(from, end)[until - from] == text[until]);
        assert(code[until - from] != '<');
    } else if end < until {
        assert(text.subrange(end, end + 13)[0] == text[end]);
    }
}

/// The tags of a block as characters.
pub struct Tags {
    open: Vec<char>,
    class_open: Vec<char>,
    class_close: Vec<char>,
    plain_close: Vec<char>,
    close: Vec<char>,
}

/// Tags as plain values.
pub ghost struct TagsView {
    pub open: Seq<char>,
    pub class_open: Seq<char>,
    pub class_close: Seq<char>,
    pub plain_close: Seq<char>,
    pub close: Seq<char>,
}

/// The tags of a code block: the opening tag, the opening and the end of
/// the language class, the end of an opening tag without a class, and the
/// closing tags.
pub open spec fn block_tags() -> TagsView {
    TagsView {
        open: BLOCK_OPEN@,
        class_open: CLASS_OPEN@,
        class_close: CLASS_CLOSE@,
        plain_close: PLAIN_CLOSE@,
        close: BLOCK_CLOSE@,
    }
}

impl View for Tags {
    type V = TagsView;

    closed spec fn view(&self) -> TagsView {
        TagsView {
            open: self.open@,
            class_open: self.class_open@,
            class_close: self.class_close@,
            plain_close: self.plain_close@,
            close: self.close@,
        }
    }
}

impl Tags {
    /// Every value of the type holds the tags of a code block.
    #[verifier::type_invariant]
    spec fn wf(&self) -> bool {
        self@ == block_tags()
    }

    /// The tags of a code block, each as its characters.
    pub fn new() -> (tags: Tags)
        ensures
            tags@ == block_tags(),
    {
        Tags {
            open: to_chars(BLOCK_OPEN),
            class_open: to_chars(CLASS_OPEN),
            class_close: to_chars(CLASS_CLOSE),
            plain_close: to_chars(PLAIN_CLOSE),
            close: to_chars(BLOCK_CLOSE),
        }
    }
}

/// Where a block was found: the places of its language and of its code,
/// each from its first character to the one after its last, and the place
/// after the block.
pub struct FoundBlock {
    pub language: Option<(usize, usize)>,
    pub code: (usize, usize),
    pub end: usize,
}

impl FoundBlock {
    /// The language of the block, where it names one.
    pub open spec fn language_in(&self, text: Seq<char>) -> Option<Seq<char>> {
        match self.language {
            Some((from, until)) => Some(text.subrange(from as int, until as int)),
            None => None,
        }
    }

    /// The code of the block.
    pub open spec fn code_in(&self, text: Seq<char>) -> Seq<char> {
        text.subrange(self.code.0 as int, self.code.1 as int)
    }

    /// Whether the places lie in `text`.
    pub open spec fn fits(&self, text: Seq<char>) -> bool {
        &&& self.code.0 <= self.code.1 <= self.end <= text.len()
        &&& self.language matches Some((from, until)) ==> from <= until <= text.len()
    }
}

/// Whether a character can stand in a language token.
pub fn is_word(c: char) -> (word: bool)
    ensures
        word == is_word_char(c),
{
    if c <= '\u{7f}' {
        ('a' <= c && c <= 'z') || ('A' <= c && c <= 'Z') || ('0' <= c && c <= '9') || c == '_'
    } else {
        let mut text = String::new();
        text.push(c);
        assert(text@ =~= seq![c]);
        match compile(WORD_PATTERN) {
            Some(word) => is_match(&word, text.as_str()),
            None => false,
        }
    }
}

/// Where the language of a block would stand whose opening tags begin at
/// `at` and have a class.
pub open spec fn token_start(at: int) -> int {
    at + 27
}

/// No block stands where the opening tag does not.
proof fn lemma_no_block_without_tag(text: Seq<char>, at: int)
    requires
        !occurs_at(text, at, BLOCK_OPEN@),
    ensures
        !has_block_at(text, at),
{
    assert forall|language: Option<Seq<char>>, code: Seq<char>|
        !block_at(text, at, language, code) by {
        lemma_block_parts(text, at, language, code);
    }
}

/// No block stands where the opening tag is followed neither by its end
/// nor by a language class.
proof fn lemma_no_block_without_class(text: Seq<char>, at: int)
    requires
        !occurs_at(text, at + 10, PLAIN_CLOSE@),
        !occurs_at(text, at + 10, CLASS_OPEN@),
    ensures
        !has_block_at(text, at),
{
    assert forall|language: Option<Seq<char>>, code: Seq<char>|
        !block_at(text, at, language, code) by {
        lemma_block_parts(text, at, language, code);
    }
}

/// A block with a class does not stand where the tag ends at once, and the
/// other way round.
proof fn lemma_class_or_none(text: Seq<char>, at: int, language: Option<Seq<char>>, code: Seq<char>)
    requires
        block_at(text, at, language, code),
    ensures
        language is Some <==> occurs_at(text, at + 10, CLASS_OPEN@),
        language is None <==> occurs_at(text, at + 10, PLAIN_CLOSE@),
{
    lemma_tags();
    lemma_block_parts(text, at, language, code);
    if occurs_at(text, at + 10, CLASS_OPEN@) {
        assert(text.subrange(at + 10, at + 27)[0] == ' ');
    }
    if occurs_at(text, at + 10, PLAIN_CLOSE@) {
        assert(text.subrange(at + 10, at + 11)[0] == '>');
    }
}

/// The language of a block with a class is the run of word characters
/// after the class opens.
proof fn lemma_block_token(
    text: Seq<char>,
    at: int,
    until: int,
    language: Option<Seq<char>>,
    code: Seq<char>,
)
    requires
        block_at(text, at, language, code),
        occurs_at(text, at + 10, CLASS_OPEN@),
        token_start(at) <= until <= text.len(),
        forall|k: int| token_start(at) <= k < until ==> is_word_char(#[trigger] text[k]),
        until == text.len() || !is_word_char(text[until]),
    ensures
        language == Some(text.subrange(token_start(at), until)),
        token_start(at) < until,
        occurs_at(text, until, CLASS_CLOSE@),
{
    lemma_class_or_none(text, at, language, code);
    lemma_block_parts(text, at, language, code);
    let token = language->0;
    lemma_token_run(text, token_start(at), until, token);
    assert(token =~= text.subrange(token_start(at), until));
}

/// The code of a block is the run of characters other than `<` after the
/// opening tags.
proof fn lemma_block_code(
    text: Seq<char>,
    at: int,
    until: int,
    language: Option<Seq<char>>,
    code: Seq<char>,
)
    requires
        block_at(text, at, language, code),
        code_start(at, language) <= until <= text.len(),
        forall|k: int| code_start(at, language) <= k < until ==> #[trigger] text[k] != '<',
        until == text.len() || text[until] == '<',
    ensures
        code == text.subrange(code_start(at, language), until),
        code_start(at, language) < until,
        occurs_at(text, until, BLOCK_CLOSE@),
{
    lemma_block_parts(text, at, language, code);
    lemma_code_run(text, code_start(at, language), until, code);
    assert(code =~= text.subrange(code_start(at, language), until));
}

/// Where the word characters from `from` on end.
fn word_run(hay: &Vec<char>, from: usize) -> (until: usize)
    requires
        from <= hay.len(),
    ensures
        from <= until <= hay.len(),
        forall|k: int| from <= k < until ==> is_word_char(#[trigger] hay@[k]),
        until == hay.len() || !is_word_char(hay@[until as int]),
{
    let mut until = from;
    while until < hay.len() && is_word(hay[until])
        invariant
            from <= until <= hay.len(),
            forall|k: int| from <= k < until ==> is_word_char(#[trigger] hay@[k]),
        decreases hay.len() - until,
    {
        until += 1;
    }
    until
}

/// Where the characters other than `<` from `from` on end.
fn code_run(hay: &Vec<char>, from: usize) -> (until: usize)
    requires
        from <= hay.len(),
    ensures
        from <= until <= hay.len(),
        forall|k: int| from <= k < until ==> #[trigger] hay@[k] != '<',
        until == hay.len() || hay@[until as int] == '<',
{
    let mut until = from;
    while until < hay.len() && hay[until] != '<'
        invariant
            from <= until <= hay.len(),
            forall|k: int| from <= k < until ==> #[trigger] hay@[k] != '<',
        decreases hay.len() - until,
    {
        until += 1;
    }
    until
}

/// Looks for the language of a block whose opening tag stands at `at`:
/// the place of the language, if the tag has a class, and the place where
/// the code begins.
fn find_language(hay: &Vec<char>, at: usize, tags: &Tags) -> (found: Option<
    (Option<(usize, usize)>, usize),
>)
    requires
        occurs_at(hay@, at as int, BLOCK_OPEN@),
    ensures
        match found {
            Some((place, code_from)) => {
                let language: Option<Seq<char>> = match place {
                    Some((from, until)) => Some(hay@.subrange(from as int, until as int)),
                    None => None,
                };
                &&& place matches Some((from, until)) ==> from < until <= hay.len() && is_token(
                    hay@.subrange(from as int, until as int),
                )
                &&& code_from <= hay.len()
                &&& code_from == code_start(at as int, language)
                &&& occurs_at(hay@, at as int, block_opening(language))
                &&& forall|other: Option<Seq<char>>, code: Seq<char>|
                    block_at(hay@, at as int, other, code) ==> other == language
            },
            None => !has_block_at(hay@, at as int),
        },
{
    let ghost text = hay@;
    let n = hay.len();
    proof {
        use_type_invariant(tags);
        lemma_tags();
    }
    let after_tag = at + 10;
    if matches_at(hay, after_tag, &tags.plain_close) {
        proof {
            lemma_occurs_concat(text, at as int, BLOCK_OPEN@, PLAIN_CLOSE@);
            assert forall|other: Option<Seq<char>>, code: Seq<char>|
                block_at(text, at as int, other, code) implies other == None::<Seq<char>> by {
                lemma_class_or_none(text, at as int, other, code);
            }
        }
        return Some((None, after_tag + 1));
    }
    if !matches_at(hay, after_tag, &tags.class_open) {
        proof {
            lemma_no_block_without_class(text, at as int);
        }
        return None;
    }
    let from = after_tag + 17;
    let until = word_run(hay, from);
    if until == from || !matches_at(hay, until, &tags.class_close) {
        assert forall|other: Option<Seq<char>>, code: Seq<char>|
            !block_at(text, at as int, other, code) by {
            if block_at(text, at as int, other, code) {
                lemma_block_token(text, at as int, until as int, other, code);
            }
        }
        return None;
    }
    proof {
        let token = text.subrange(from as int, until as int);
        assert(is_token(token));
        lemma_occurs_concat(text, at as int, BLOCK_OPEN@ + CLASS_OPEN@ + token, CLASS_CLOSE@);
        lemma_occurs_concat(text, at as int, BLOCK_OPEN@ + CLASS_OPEN@, token);
        lemma_occurs_concat(text, at as int, BLOCK_OPEN@, CLASS_OPEN@);
        assert forall|other: Option<Seq<char>>, code: Seq<char>|
            block_at(text, at as int, other, code) implies other == Some(token) by {
            lemma_block_token(text, at as int, until as int, other, code);
        }
    }
    Some((Some((from, until)), until + 2))
}

/// Looks for a block that stands in `hay` at `at`.
pub fn find_block(hay: &Vec<char>, at: usize, tags: &Tags) -> (found: Option<FoundBlock>)
    ensures
        match found {
            Some(block) => {
                &&& block.fits(hay@)
                &&& block_at(hay@, at as int, block.language_in(hay@), block.code_in(hay@))
                &&& block.end == at + block_text(
                    block.language_in(hay@),
                    block.code_in(hay@),
                ).len()
            },
            None => !has_block_at(hay@, at as int),
        },
{
    let ghost text = hay@;
    proof {
        use_type_invariant(tags);
    }
    if !matches_at(hay, at, &tags.open) {
        proof {
            lemma_no_block_without_tag(text, at as int);
        }
        return None;
    }
    let (place, code_from) = match find_language(hay, at, tags) {
        Some(found) => found,
        None => {
            return None;
        },
    };
    let ghost language: Option<Seq<char>> = match place {
        Some((from, until)) => Some(text.subrange(from as int, until as int)),
        None => None,
    };
    let code_until = code_run(hay, code_from);
    if code_until == code_from || !matches_at(hay, code_until, &tags.close) {
        assert forall|other: Option<Seq<char>>, code: Seq<char>|
            !block_at(text, at as int, other, code) by {
            if block_at(text, at as int, other, code) {
                assert(other == language);
                lemma_block_code(text, at as int, code_until as int, other, code);
            }
        }
        return None;
    }
    proof {
        let code = text.subrange(code_from as int, code_until as int);
        assert(is_code(code));
        lemma_tags();
        lemma_occurs_concat(text, at as int, block_opening(language) + code, BLOCK_CLOSE@);
        lemma_occurs_concat(text, at as int, block_opening(language), code);
        lemma_block_parts(text, at as int, language, code);
    }
    Some(FoundBlock { language: place, code: (code_from, code_until), end: code_until + 13 })
}

/// Writes the code blocks of an HTML text anew, the languages of
/// `syntaxes` being the known ones.
pub fn highlight_with(syntaxes: &Syntaxes, html: &str) -> (out: String)
    ensures
        out@ == highlighted(html@, syntaxes.tokens()),
{
    let hay = to_chars(html);
    let tags = Tags::new();
    let n = hay.len();
    let ghost known = syntaxes.tokens();
    let mut out = String::new();
    let mut at: usize = 0;
    while at < n
        invariant
            at <= n,
            n == hay.len(),
            hay@ == html@,
            known == syntaxes.tokens(),
            out@ + highlighted_from(html@, at as int, known) == highlighted(html@, known),
        decreases n - at,
    {
        let ghost before = out@;
        match find_block(&hay, at, &tags) {
            Some(block) => {
                let ghost language = block.language_in(hay@);
                let ghost code = block.code_in(hay@);
                proof {
                    let (l, c) = the_block_at(html@, at as int);
                    lemma_block_unique(html@, at as int, language, code, l, c);
                }
                let mut code_text = String::new();
                push_chars(&mut code_text, &hay, block.code.0, block.code.1);
                let mut written = String::from_str(BLOCK_OPEN);
                match block.language {
                    Some((from, until)) => {
                        let mut token = String::new();
                        push_chars(&mut token, &hay, from, until);
                        if syntaxes.knows(token.as_str()) {
                            written.append(CLASS_OPEN);
                            written.append(token.as_str());
                            written.append(CLASS_CLOSE);
                            written.append(code_text.as_str());
                        } else {
                            written.append(PLAIN_CLOSE);
                            written.append(html_escape(code_text.as_str()).as_str());
                        }
                    },
                    None => {
                        written.append(PLAIN_CLOSE);
                        written.append(code_text.as_str());
                    },
                }
                written.append(BLOCK_CLOSE);
                assert(written@ == rendered_block(language, code, known));
                out.append(written.as_str());
                assert(out@ + highlighted_from(html@, block.end as int, known) =~= before
                    + highlighted_from(html@, at as int, known));
                at = block.end;
            },
            None => {
                out.push(hay[at]);
                assert(out@ + highlighted_from(html@, at + 1, known) =~= before
                    + highlighted_from(html@, at as int, known));
                at += 1;
            },
        }
    }
    assert(out@ + highlighted_from(html@, at as int, known) =~= out@);
    out
}

/// Writes the code blocks of an HTML text anew, the known languages being
/// those of the definitions that come with the highlighting library.
pub fn highlight_code_blocks(html: &str) -> (out: String)
    ensures
        out@ == highlighted(html@, default_tokens()),
{
    let syntaxes = Syntaxes::load();
    highlight_with(&syntaxes, html)
}

/// The chapter with the code blocks of its HTML written anew.
pub fn highlight_file(syntaxes: &Syntaxes, file: MarkdownFile) -> (out: MarkdownFile)
    ensures
        out.path == file.path,
        out.frontmatter == file.frontmatter,
        out.content == file.content,
        out.html@ == highlighted(file.html@, syntaxes.tokens()),
{
    let html = highlight_with(syntaxes, file.html.as_str());
    MarkdownFile { path: file.path, frontmatter: file.frontmatter, content: file.content, html }
}

/// The chapters, in their order, each with the code blocks of its HTML
/// written anew.
pub fn highlight_files(syntaxes: &Syntaxes, files: Vec<MarkdownFile>) -> (out: Vec<MarkdownFile>)
    ensures
        out.len() == files.len(),
        forall|i: int|
            0 <= i < out.len() ==> {
                &&& (#[trigger] out[i]).path == files[i].path
                &&& out[i].frontmatter == files[i].frontmatter
                &&& out[i].content == files[i].content
                &&& out[i].html@ == highlighted(files[i].html@, syntaxes.tokens())
            },
{
    let ghost all = files@;
    let mut out: Vec<MarkdownFile> = Vec::new();
    for file in it: files
        invariant
            it.seq() == all,
            out.len() == it.index(),
            forall|i: int|
                0 <= i < out.len() ==> {
                    &&& (#[trigger] out[i]).path == all[i].path
                    &&& out[i].frontmatter == all[i].frontmatter
                    &&& out[i].content == all[i].content
                    &&& out[i].html@ == highlighted(all[i].html@, syntaxes.tokens())
                },
    {
        out.push(highlight_file(syntaxes, file));
    }
    out
}

} // verus!
