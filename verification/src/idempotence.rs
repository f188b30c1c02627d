//! Running the code-highlighting stage on its own output.

use crate::highlight::{
    block_at, block_opening, block_text, has_block_at, highlighted, highlighted_from, is_block,
    lemma_block_unique, lemma_tags, rendered_block, the_block_at, BLOCK_CLOSE, BLOCK_OPEN,
    CLASS_CLOSE, CLASS_OPEN, PLAIN_CLOSE,
};
use crate::text::{html_char, html_escaped};
use vstd::prelude::*;

verus! {

/// A block stands at a place of a text exactly if it stands at the head of
/// the rest of the text from that place on.
proof fn lemma_block_in_rest(
    text: Seq<char>,
    at: int,
    language: Option<Seq<char>>,
    code: Seq<char>,
)
    requires
        0 <= at <= text.len(),
    ensures
        block_at(text, at, language, code) <==> block_at(text.skip(at), 0, language, code),
{
    let m = block_text(language, code).len() as int;
    if at + m <= text.len() {
        assert(text.skip(at).subrange(0, m) =~= text.subrange(at, at + m));
    }
}

/// The same block, if any, stands at a place of a text and at the head of
/// the rest of the text from that place on.
proof fn lemma_has_block_in_rest(text: Seq<char>, at: int)
    requires
        0 <= at <= text.len(),
    ensures
        has_block_at(text, at) <==> has_block_at(text.skip(at), 0),
        has_block_at(text, at) ==> the_block_at(text, at) == the_block_at(text.skip(at), 0),
{
    if has_block_at(text, at) {
        let (language, code) = the_block_at(text, at);
        lemma_block_in_rest(text, at, language, code);
        let (l, c) = the_block_at(text.skip(at), 0);
        lemma_block_unique(text.skip(at), 0, language, code, l, c);
    }
    if has_block_at(text.skip(at), 0) {
        let (language, code) = the_block_at(text.skip(at), 0);
        lemma_block_in_rest(text, at, language, code);
    }
}

/// The stage works on the rest of a text as it works on a text of its own.
proof fn lemma_highlighted_rest(text: Seq<char>, at: int, known: Set<Seq<char>>)
    requires
        0 <= at <= text.len(),
    ensures
        highlighted_from(text, at, known) == highlighted(text.skip(at), known),
    decreases text.len() - at,
{
    let rest = text.skip(at);
    if at < text.len() {
        lemma_has_block_in_rest(text, at);
        if has_block_at(text, at) {
            let (language, code) = the_block_at(text, at);
            assert(block_at(text, at, language, code));
            let m = block_text(language, code).len() as int;
            lemma_highlighted_rest(text, at + m, known);
            lemma_highlighted_rest(rest, m, known);
            assert(rest.skip(m) =~= text.skip(at + m));
        } else {
            lemma_highlighted_rest(text, at + 1, known);
            lemma_highlighted_rest(rest, 1, known);
            assert(rest.skip(1) =~= text.skip(at + 1));
        }
    }
}

/// Up to the first block the stage leaves a text as it is.
proof fn lemma_unchanged_before_blocks(text: Seq<char>, until: int, known: Set<Seq<char>>)
    requires
        0 <= until <= text.len(),
        forall|p: int| 0 <= p < until ==> !has_block_at(text, p),
    ensures
        highlighted(text, known) == text.take(until) + highlighted_from(text, until, known),
    decreases until,
{
    if until == 0 {
        assert(text.take(0) + highlighted_from(text, 0, known) =~= highlighted(text, known));
    } else {
        lemma_unchanged_before_blocks(text, until - 1, known);
        assert(!has_block_at(text, until - 1));
        assert(text.take(until - 1) + (seq![text[until - 1]] + highlighted_from(
            text,
            until,
            known,
        )) =~= text.take(until) + highlighted_from(text, until, known));
    }
}

/// Where `<` stands in a block: at its head, before `code`, and twice in
/// the closing tags; and what follows it there.
proof fn lemma_block_angles(language: Option<Seq<char>>, code: Seq<char>, k: int)
    requires
        is_block(language, code),
        0 < k < block_text(language, code).len(),
        block_text(language, code)[k] == '<',
    ensures
        k + 1 < block_text(language, code).len(),
        block_text(language, code)[k + 1] != 'p',
{
    lemma_tags();
    let text = block_text(language, code);
    let opening = block_opening(language);
    let o = opening.len() as int;
    let c = code.len() as int;
    assert(text.len() == o + c + 13);
    if k < o {
        assert(text[k] == opening[k]);
        match language {
            Some(token) => {
                if k < 10 {
                    assert(opening[k] == BLOCK_OPEN@[k]);
                    assert(k == 5);
                    assert(text[k + 1] == opening[k + 1]);
                    assert(opening[k + 1] == BLOCK_OPEN@[k + 1]);
                } else if k < 27 {
                    assert(opening[k] == CLASS_OPEN@[k - 10]);
                } else if k < 27 + token.len() {
                    assert(opening[k] == token[k - 27]);
                } else {
                    assert(opening[k] == CLASS_CLOSE@[k - 27 - token.len()]);
                }
            },
            None => {
                if k < 10 {
                    assert(opening[k] == BLOCK_OPEN@[k]);
                    assert(k == 5);
                    assert(text[k + 1] == opening[k + 1]);
                    assert(opening[k + 1] == BLOCK_OPEN@[k + 1]);
                } else {
                    assert(opening[k] == PLAIN_CLOSE@[k - 10]);
                }
            },
        }
    } else if k < o + c {
        assert(text[k] == code[k - o]);
    } else {
        assert(text[k] == BLOCK_CLOSE@[k - o - c]);
        assert(k - o - c == 0 || k - o - c == 7);
        assert(text[k + 1] == BLOCK_CLOSE@[k + 1 - o - c]);
    }
}

/// A block written anew is a block: which one, by language and code.
pub open spec fn rewritten(language: Option<Seq<char>>, code: Seq<char>, known: Set<Seq<char>>) -> (
    Option<Seq<char>>,
    Seq<char>,
) {
    match language {
        Some(token) => if known.contains(token) {
            (Some(token), code)
        } else {
            (None, html_escaped(code))
        },
        None => (None, code),
    }
}

/// A block written anew begins with `<p`.
proof fn lemma_rendered_head(language: Option<Seq<char>>, code: Seq<char>, known: Set<Seq<char>>)
    ensures
        rendered_block(language, code, known).len() >= 2,
        rendered_block(language, code, known)[0] == '<',
        rendered_block(language, code, known)[1] == 'p',
{
    lemma_tags();
    let (l, c) = rewritten(language, code, known);
    let text = block_text(l, c);
    assert(text == rendered_block(language, code, known));
    let opening = block_opening(l);
    assert(opening.len() >= 11);
    assert(text[0] == opening[0]);
    assert(text[1] == opening[1]);
    match l {
        Some(token) => {
            assert(opening[0] == BLOCK_OPEN@[0]);
            assert(opening[1] == BLOCK_OPEN@[1]);
        },
        None => {
            assert(opening[0] == BLOCK_OPEN@[0]);
            assert(opening[1] == BLOCK_OPEN@[1]);
        },
    }
}

/// The stage makes no block where there was none: if its output begins
/// with a block, so does its input.
proof fn lemma_no_new_block(text: Seq<char>, known: Set<Seq<char>>)
    requires
        has_block_at(highlighted(text, known), 0),
    ensures
        has_block_at(text, 0),
{
    let out = highlighted(text, known);
    let (language, code) = the_block_at(out, 0);
    assert(block_at(out, 0, language, code));
    let block = block_text(language, code);
    let m = block.len() as int;
    assert(out.subrange(0, m) == block);
    if !has_block_at(text, 0) {
        lemma_blocks_absent(text, known, language, code, if m <= text.len() {
            m
        } else {
            text.len() as int
        });
        if text.len() < m {
            lemma_unchanged_before_blocks(text, text.len() as int, known);
            assert(out =~= text.take(text.len() as int));
        } else {
            lemma_unchanged_before_blocks(text, m, known);
            assert(out.subrange(0, m) =~= text.take(m));
            assert(text.subrange(0, m) =~= text.take(m));
            assert(block_at(text, 0, language, code));
        }
    }
}

/// Where the output of the stage begins with a block and its input does
/// not, no block stands in the input under the block of the output.
proof fn lemma_blocks_absent(
    text: Seq<char>,
    known: Set<Seq<char>>,
    language: Option<Seq<char>>,
    code: Seq<char>,
    until: int,
)
    requires
        block_at(highlighted(text, known), 0, language, code),
        !has_block_at(text, 0),
        0 <= until <= text.len(),
        until <= block_text(language, code).len(),
    ensures
        forall|p: int| 0 <= p < until ==> !has_block_at(text, p),
    decreases until,
{
    if until > 0 {
        lemma_blocks_absent(text, known, language, code, until - 1);
        let k = until - 1;
        if k > 0 && has_block_at(text, k) {
            let out = highlighted(text, known);
            let block = block_text(language, code);
            lemma_unchanged_before_blocks(text, k, known);
            let (l, c) = the_block_at(text, k);
            assert(block_at(text, k, l, c));
            lemma_rendered_head(l, c, known);
            let written = rendered_block(l, c, known);
            let rest = highlighted_from(text, k + block_text(l, c).len(), known);
            assert(highlighted_from(text, k, known) == written + rest);
            assert(out == text.take(k) + (written + rest));
            assert(out[k] == written[0]);
            assert(out[k + 1] == written[1]);
            assert(out.subrange(0, block.len() as int)[k] == out[k]);
            assert(block[k] == '<');
            lemma_block_angles(language, code, k);
            assert(out.subrange(0, block.len() as int)[k + 1] == out[k + 1]);
        }
    }
}

/// What the escaping writes for one character: a character or more, none
/// of them a `<`.
proof fn lemma_html_char(c: char)
    ensures
        html_char(c).len() >= 1,
        forall|i: int| 0 <= i < html_char(c).len() ==> #[trigger] html_char(c)[i] != '<',
{
    reveal_strlit("&amp;");
    reveal_strlit("&lt;");
    reveal_strlit("&gt;");
    reveal_strlit("&quot;");
    reveal_strlit("&#x27;");
}

/// The escaped form of a text with one more character.
proof fn lemma_escaped_push(text: Seq<char>, c: char)
    ensures
        html_escaped(text.push(c)) == html_escaped(text) + html_char(c),
{
    let pieces = text.map_values(|c: char| html_char(c));
    assert(text.push(c).map_values(|c: char| html_char(c)) =~= pieces.push(html_char(c)));
    pieces.lemma_flatten_push(html_char(c));
}

/// The escaping writes no `<` and makes no text shorter.
proof fn lemma_escaped(text: Seq<char>)
    ensures
        forall|i: int| 0 <= i < html_escaped(text).len() ==> #[trigger] html_escaped(text)[i] != '<',
        html_escaped(text).len() >= text.len(),
    decreases text.len(),
{
    if text.len() == 0 {
        assert(text.map_values(|c: char| html_char(c)) =~= Seq::<Seq<char>>::empty());
    } else {
        let rest = text.drop_last();
        let c = text.last();
        assert(text =~= rest.push(c));
        lemma_escaped(rest);
        lemma_escaped_push(rest, c);
        lemma_html_char(c);
        let head = html_escaped(rest);
        let all = html_escaped(text);
        assert(all == head + html_char(c));
        assert forall|i: int| 0 <= i < all.len() implies #[trigger] all[i] != '<' by {
            if i >= head.len() {
                assert(all[i] == html_char(c)[i - head.len()]);
            }
        }
    }
}

/// A block written anew is a block that is written the same way again.
proof fn lemma_rewritten_block(language: Option<Seq<char>>, code: Seq<char>, known: Set<Seq<char>>)
    requires
        is_block(language, code),
    ensures
        ({
            let (l, c) = rewritten(language, code, known);
            &&& is_block(l, c)
            &&& block_text(l, c) == rendered_block(language, code, known)
            &&& rendered_block(l, c, known) == rendered_block(language, code, known)
        }),
{
    lemma_escaped(code);
}

/// Running the stage on its own output changes nothing: a block that was
/// written anew is found again and written the same way, and nothing that
/// was no block has become one.
pub proof fn lemma_highlighting_idempotent(text: Seq<char>, known: Set<Seq<char>>)
    ensures
        highlighted(highlighted(text, known), known) == highlighted(text, known),
    decreases text.len(),
{
    let out = highlighted(text, known);
    if text.len() == 0 {
    } else if has_block_at(text, 0) {
        let (language, code) = the_block_at(text, 0);
        assert(block_at(text, 0, language, code));
        let m = block_text(language, code).len() as int;
        let rest = text.skip(m);
        lemma_highlighted_rest(text, m, known);
        lemma_highlighting_idempotent(rest, known);
        let written = rendered_block(language, code, known);
        let tail = highlighted(rest, known);
        assert(out == written + tail);
        // The output begins with the block written anew, which is a block.
        lemma_rewritten_block(language, code, known);
        let (l, c) = rewritten(language, code, known);
        let w = written.len() as int;
        assert(out.subrange(0, w) =~= written);
        assert(block_at(out, 0, l, c));
        let (l2, c2) = the_block_at(out, 0);
        lemma_block_unique(out, 0, l, c, l2, c2);
        lemma_highlighted_rest(out, w, known);
        assert(out.skip(w) =~= tail);
    } else {
        let rest = text.skip(1);
        lemma_highlighted_rest(text, 1, known);
        lemma_highlighting_idempotent(rest, known);
        let tail = highlighted(rest, known);
        assert(out == seq![text[0]] + tail);
        if has_block_at(out, 0) {
            lemma_no_new_block(text, known);
        }
        lemma_highlighted_rest(out, 1, known);
        assert(out.skip(1) =~= tail);
    }
}

} // verus!
