//! Theme templates: the title and the content of a book substituted into
//! the theme's `{{ title }}` and `{{ content }}` placeholders.
//!
//! A theme is a text with placeholders of the form `{{ name }}` and with no
//! other tag of the template engine. The library tests this itself, so that
//! the engine is only handed themes that it renders from the values alone.

use crate::error::{ErrorKind, PapyrusError};
use crate::text::{matches_at, occurs_at, to_chars};
use tera::Context;
use tera::Tera;
use vstd::prelude::*;

verus! {

#[verifier::external_type_specification]
#[verifier::external_body]
pub struct ExTera(Tera);

#[verifier::external_type_specification]
#[verifier::external_body]
pub struct ExContext(Context);

#[verifier::external_type_specification]
#[verifier::external_body]
pub struct ExTeraError(tera::Error);

/// The name under which the theme is registered with the engine.
pub const THEME_NAME: &'static str = "theme";

/// The placeholder that receives the book's title.
pub const TITLE_KEY: &'static str = "title";

/// The placeholder that receives the assembled chapters.
pub const CONTENT_KEY: &'static str = "content";

/// What closes a placeholder.
pub const TAG_CLOSE: &'static str = "}}";

/// The words for a text that is no theme.
pub const NOT_A_THEME: &'static str =
    "the theme may hold placeholders of the form {{ name }} and no other tag";

/// The characters that may stand around the name of a placeholder.
pub open spec fn is_blank(c: char) -> bool {
    c == ' ' || c == '\t' || c == '\r' || c == '\n'
}

/// The characters that a name may begin with: ASCII letters and `_`.
pub open spec fn is_name_start(c: char) -> bool {
    'a' <= c <= 'z' || 'A' <= c <= 'Z' || c == '_'
}

/// The characters of a name: ASCII letters, digits and `_`.
pub open spec fn is_name_char(c: char) -> bool {
    is_name_start(c) || '0' <= c <= '9'
}

/// Where the blanks from `from` on end.
pub open spec fn blanks_end(text: Seq<char>, from: int) -> int
    decreases text.len() - from,
{
    if 0 <= from < text.len() && is_blank(text[from]) {
        blanks_end(text, from + 1)
    } else {
        from
    }
}

/// Where the characters of a name from `from` on end.
pub open spec fn name_end(text: Seq<char>, from: int) -> int
    decreases text.len() - from,
{
    if 0 <= from < text.len() && is_name_char(text[from]) {
        name_end(text, from + 1)
    } else {
        from
    }
}

/// Whether a tag of the template engine opens at `at`: `{{`, `{%` or `{#`.
pub open spec fn opens_tag(text: Seq<char>, at: int) -> bool {
    &&& 0 <= at
    &&& at + 1 < text.len()
    &&& text[at] == '{'
    &&& text[at + 1] == '{' || text[at + 1] == '%' || text[at + 1] == '#'
}

/// Where the placeholder ends that opens at `at` with `{{`: after blanks,
/// a name, blanks and `}}`. Nothing where what follows `{{` is otherwise.
pub open spec fn placeholder_end(text: Seq<char>, at: int) -> Option<int> {
    let name = blanks_end(text, at + 2);
    if name < text.len() && is_name_start(text[name]) {
        let close = blanks_end(text, name_end(text, name));
        if occurs_at(text, close, TAG_CLOSE@) {
            Some(close + 2)
        } else {
            None
        }
    } else {
        None
    }
}

/// Whether the text from `at` on is that of a theme: every tag of the
/// template engine that opens in it is a placeholder.
pub open spec fn is_theme_from(text: Seq<char>, at: int) -> bool
    decreases text.len() - at,
    via is_theme_from_ends
{
    if at < 0 || at >= text.len() {
        true
    } else if opens_tag(text, at) {
        if text[at + 1] == '{' {
            match placeholder_end(text, at) {
                Some(end) => is_theme_from(text, end),
                None => false,
            }
        } else {
            false
        }
    } else {
        is_theme_from(text, at + 1)
    }
}

#[via_fn]
proof fn is_theme_from_ends(text: Seq<char>, at: int) {
    if 0 <= at < text.len() && opens_tag(text, at) {
        lemma_placeholder_end(text, at);
    }
}

/// Whether a text is a theme: it holds placeholders of the form `{{ name }}`
/// and no other tag of the template engine.
pub open spec fn is_theme(text: Seq<char>) -> bool {
    is_theme_from(text, 0)
}

/// Blanks end at or after the place where they are looked for.
proof fn lemma_blanks_end(text: Seq<char>, from: int)
    ensures
        from <= blanks_end(text, from),
        from <= text.len() ==> blanks_end(text, from) <= text.len(),
    decreases text.len() - from,
{
    if 0 <= from < text.len() && is_blank(text[from]) {
        lemma_blanks_end(text, from + 1);
    }
}

/// A name ends at or after the place where it is looked for.
proof fn lemma_name_end(text: Seq<char>, from: int)
    ensures
        from <= name_end(text, from),
        from <= text.len() ==> name_end(text, from) <= text.len(),
    decreases text.len() - from,
{
    if 0 <= from < text.len() && is_name_char(text[from]) {
        lemma_name_end(text, from + 1);
    }
}

/// A placeholder ends after the place where it opens, and within the text.
proof fn lemma_placeholder_end(text: Seq<char>, at: int)
    requires
        0 <= at,
    ensures
        placeholder_end(text, at) matches Some(end) ==> at + 4 < end <= text.len(),
{
    reveal_strlit("}}");
    lemma_blanks_end(text, at + 2);
    let name = blanks_end(text, at + 2);
    if name < text.len() && is_name_start(text[name]) {
        // The name has a character at least.
        lemma_name_end(text, name + 1);
        lemma_blanks_end(text, name_end(text, name));
    }
}

/// The texts that a context binds to its keys.
pub uninterp spec fn context_values(held: Context) -> Map<Seq<char>, Seq<char>>;

/// The templates that an engine holds, each as its text under its name.
pub uninterp spec fn engine_templates(held: Tera) -> Map<Seq<char>, Seq<char>>;

/// Whether `Tera::add_raw_template` registers a theme of this text under
/// this name with an engine that holds no template.
pub uninterp spec fn theme_registers(name: Seq<char>, text: Seq<char>) -> bool;

/// What `Tera::render` gives for a theme of this text, registered under
/// this name, with these values: the theme with each placeholder replaced
/// by the value of its name, or nothing where the engine refuses, as it
/// does for a placeholder without a value.
pub uninterp spec fn rendered_theme(
    name: Seq<char>,
    text: Seq<char>,
    values: Map<Seq<char>, Seq<char>>,
) -> Option<Seq<char>>;

/// `Tera::default`: an engine without templates.
#[verifier::external_body]
fn new_engine() -> (engine: Tera)
    ensures
        engine_templates(engine).dom().finite(),
        engine_templates(engine).dom().len() == 0,
{
    Tera::default()
}

/// `Tera::add_raw_template` on an engine without templates, for a theme:
/// parses the text and registers it under the name, or reports why it
/// cannot.
#[verifier::external_body]
fn add_template(engine: &mut Tera, name: &str, text: &str) -> (added: Result<(), tera::Error>)
    requires
        is_theme(text@),
        engine_templates(*old(engine)).dom().finite(),
        engine_templates(*old(engine)).dom().len() == 0,
    ensures
        added is Ok <==> theme_registers(name@, text@),
        added is Ok ==> engine_templates(*final(engine)) == engine_templates(*old(engine)).insert(
            name@,
            text@,
        ),
{
    engine.add_raw_template(name, text)
}

/// `Context::new`: a context without values.
#[verifier::external_body]
fn new_context() -> (context: Context)
    ensures
        context_values(context).dom().finite(),
        context_values(context).dom().len() == 0,
{
    Context::new()
}

/// `Context::insert` for a text: binds the key to the text.
#[verifier::external_body]
fn bind(context: &mut Context, key: &str, value: &str)
    ensures
        context_values(*final(context)) == context_values(*old(context)).insert(key@, value@),
{
    context.insert(key, value)
}

/// `Tera::render` for a theme that the engine holds under the name: the
/// theme with the context's values in the place of its placeholders, or
/// the reason why it cannot be rendered. A theme has no tag through which
/// the engine would read anything but the values, or descend into itself.
#[verifier::external_body]
fn render(engine: &Tera, name: &str, context: &Context) -> (rendered: Result<String, tera::Error>)
    requires
        engine_templates(*engine).contains_key(name@),
        is_theme(engine_templates(*engine)[name@]),
    ensures
        match rendered {
            Ok(text) => rendered_theme(
                name@,
                engine_templates(*engine)[name@],
                context_values(*context),
            ) == Some(text@),
            Err(_) => rendered_theme(
                name@,
                engine_templates(*engine)[name@],
                context_values(*context),
            ) is None,
        },
{
    engine.render(name, context)
}

/// The engine's own words for an error.
#[verifier::external_body]
fn error_text(error: &tera::Error) -> String {
    error.to_string()
}

/// What a theme is rendered with.
#[derive(Debug, Clone, PartialEq, Eq)]
pub struct RenderContext {
    /// The value of the placeholder `title`.
    pub title: String,
    /// The value of the placeholder `content`.
    pub content: String,
}

/// A map without keys.
pub open spec fn no_texts() -> Map<Seq<char>, Seq<char>> {
    Map::empty()
}

/// The values that a theme is rendered with: the title under `title`, the
/// content under `content`, and nothing else.
pub open spec fn theme_map(title: Seq<char>, content: Seq<char>) -> Map<Seq<char>, Seq<char>> {
    no_texts().insert(TITLE_KEY@, title).insert(CONTENT_KEY@, content)
}

/// What the engine makes of a theme with a title and a content: nothing
/// for a text that is no theme or that the engine does not register, else
/// what it renders.
pub open spec fn themed(template: Seq<char>, title: Seq<char>, content: Seq<char>) -> Option<
    Seq<char>,
> {
    if is_theme(template) && theme_registers(THEME_NAME@, template) {
        rendered_theme(THEME_NAME@, template, theme_map(title, content))
    } else {
        None
    }
}

/// Where the blanks from `from` on end.
fn skip_blanks(chars: &Vec<char>, from: usize) -> (end: usize)
    requires
        from <= chars.len(),
    ensures
        end == blanks_end(chars@, from as int),
        from <= end <= chars.len(),
{
    let mut end = from;
    while end < chars.len() && (chars[end] == ' ' || chars[end] == '\t' || chars[end] == '\r'
        || chars[end] == '\n')
        invariant
            from <= end <= chars.len(),
            blanks_end(chars@, end as int) == blanks_end(chars@, from as int),
        decreases chars.len() - end,
    {
        end += 1;
    }
    end
}

/// Whether a character may stand in a name.
fn is_name(c: char) -> (name: bool)
    ensures
        name == is_name_char(c),
{
    ('a' <= c && c <= 'z') || ('A' <= c && c <= 'Z') || c == '_' || ('0' <= c && c <= '9')
}

/// Where the characters of a name from `from` on end.
fn skip_name(chars: &Vec<char>, from: usize) -> (end: usize)
    requires
        from <= chars.len(),
    ensures
        end == name_end(chars@, from as int),
        from <= end <= chars.len(),
{
    let mut end = from;
    while end < chars.len() && is_name(chars[end])
        invariant
            from <= end <= chars.len(),
            name_end(chars@, end as int) == name_end(chars@, from as int),
        decreases chars.len() - end,
    {
        end += 1;
    }
    end
}

/// Where the placeholder ends that opens at `at`.
fn find_placeholder_end(chars: &Vec<char>, at: usize, close: &Vec<char>) -> (end: Option<usize>)
    requires
        at + 2 <= chars.len(),
        close@ == TAG_CLOSE@,
    ensures
        match end {
            Some(e) => placeholder_end(chars@, at as int) == Some(e as int) && at < e
                <= chars.len(),
            None => placeholder_end(chars@, at as int) is None,
        },
{
    proof {
        lemma_placeholder_end(chars@, at as int);
    }
    let name = skip_blanks(chars, at + 2);
    if name < chars.len() && !('0' <= chars[name] && chars[name] <= '9') && is_name(chars[name]) {
        let after = skip_name(chars, name);
        let closing = skip_blanks(chars, after);
        if matches_at(chars, closing, close) {
            return Some(closing + 2);
        }
    }
    None
}

/// Whether a text is a theme.
pub fn is_plain_theme(template: &str) -> (plain: bool)
    ensures
        plain == is_theme(template@),
{
    let chars = to_chars(template);
    let close = to_chars(TAG_CLOSE);
    let n = chars.len();
    let mut at: usize = 0;
    while at < n
        invariant
            at <= n,
            n == chars.len(),
            chars@ == template@,
            close@ == TAG_CLOSE@,
            is_theme_from(template@, at as int) == is_theme(template@),
        decreases n - at,
    {
        if chars[at] == '{' && at + 1 < n && (chars[at + 1] == '{' || chars[at + 1] == '%'
            || chars[at + 1] == '#') {
            if chars[at + 1] != '{' {
                return false;
            }
            match find_placeholder_end(&chars, at, &close) {
                Some(end) => {
                    at = end;
                },
                None => {
                    return false;
                },
            }
        } else {
            at += 1;
        }
    }
    true
}

/// The values that a theme is rendered with, as the engine takes them.
pub fn theme_values(context: &RenderContext) -> (values: Context)
    ensures
        context_values(values) == theme_map(context.title@, context.content@),
{
    let mut values = new_context();
    proof {
        context_values(values).dom().lemma_len0_is_empty();
        assert(context_values(values) =~= no_texts());
    }
    bind(&mut values, TITLE_KEY, context.title.as_str());
    bind(&mut values, CONTENT_KEY, context.content.as_str());
    values
}

/// An engine that holds the theme, and nothing else, under `THEME_NAME`.
///
/// A text that is no theme is refused with the library's own words, before
/// the engine sees it; a theme that the engine does not register is refused
/// with the engine's words.
pub fn theme_engine(template: &str) -> (engine: Result<Tera, PapyrusError>)
    ensures
        match engine {
            Ok(held) => is_theme(template@) && theme_registers(THEME_NAME@, template@)
                && engine_templates(held) == no_texts().insert(THEME_NAME@, template@),
            Err(error) => error@.kind == ErrorKind::Template && if is_theme(template@) {
                !theme_registers(THEME_NAME@, template@)
            } else {
                error@.detail == NOT_A_THEME@
            },
        },
{
    if !is_plain_theme(template) {
        return Err(PapyrusError::Template(String::from_str(NOT_A_THEME)));
    }
    let mut engine = new_engine();
    proof {
        engine_templates(engine).dom().lemma_len0_is_empty();
        assert(engine_templates(engine) =~= no_texts());
    }
    match add_template(&mut engine, THEME_NAME, template) {
        Ok(()) => Ok(engine),
        Err(error) => Err(PapyrusError::Template(error_text(&error))),
    }
}

/// What the template engine answered: the rendered text, or its words for
/// what went wrong.
pub fn template_outcome(answer: Result<String, String>) -> (rendered: Result<String, PapyrusError>)
    ensures
        match answer {
            Ok(text) => rendered == Ok::<String, PapyrusError>(text),
            Err(words) => rendered == Err::<String, PapyrusError>(PapyrusError::Template(words)),
        },
{
    match answer {
        Ok(text) => Ok(text),
        Err(words) => Err(PapyrusError::Template(words)),
    }
}

/// Substitutes the title and the content of `context` into the theme
/// `template`, for its placeholders `{{ title }}` and `{{ content }}`.
///
/// The substitution is the template engine's. It is handed the theme under
/// `THEME_NAME`, the title under `TITLE_KEY` and the content under
/// `CONTENT_KEY`, and nothing else; the text is what it renders from them.
/// A text that is no theme is a template error in the library's words. A
/// theme that the engine refuses, such as one with a placeholder of another
/// name, is a template error that carries the engine's words.
pub fn render_template(template: &str, context: &RenderContext) -> (rendered: Result<
    String,
    PapyrusError,
>)
    ensures
        match rendered {
            Ok(text) => themed(template@, context.title@, context.content@) == Some(text@),
            Err(error) => themed(template@, context.title@, context.content@) is None
                && error@.kind == ErrorKind::Template && (!is_theme(template@) ==> error@.detail
                == NOT_A_THEME@),
        },
{
    let engine = match theme_engine(template) {
        Ok(engine) => engine,
        Err(error) => {
            return Err(error);
        },
    };
    let values = theme_values(context);
    match render(&engine, THEME_NAME, &values) {
        Ok(text) => template_outcome(Ok(text)),
        Err(error) => template_outcome(Err(error_text(&error))),
    }
}

/// The words for a theme file that does not exist, before its path.
pub const THEME_MISSING: &'static str = "Theme file not found: ";

/// The error of an export whose theme file does not exist.
pub fn theme_missing(theme_path: &str) -> (error: PapyrusError)
    ensures
        error@.kind == ErrorKind::Asset,
        error@.detail == THEME_MISSING@ + theme_path@,
{
    PapyrusError::Asset(String::from_str(THEME_MISSING).concat(theme_path))
}

} // verus!
