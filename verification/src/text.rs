//! Character-level building blocks shared by every publisher: escaping of
//! markup-special characters, file-name sanitising and decimal numbering.

use vstd::prelude::*;

verus! {

/// `String::push` appends exactly one character to the end of the string.
pub assume_specification[ String::push ](s: &mut String, c: char)
    ensures
        final(s)@ == old(s)@.push(c),
;

/// What a single character becomes inside XML text or an XML attribute.
pub open spec fn xml_char(c: char) -> Seq<char> {
    if c == '&' {
        "&amp;"@
    } else if c == '<' {
        "&lt;"@
    } else if c == '>' {
        "&gt;"@
    } else if c == '"' {
        "&quot;"@
    } else if c == '\'' {
        "&apos;"@
    } else {
        seq![c]
    }
}

/// What a single character becomes inside HTML text or an HTML attribute.
pub open spec fn html_char(c: char) -> Seq<char> {
    if c == '&' {
        "&amp;"@
    } else if c == '<' {
        "&lt;"@
    } else if c == '>' {
        "&gt;"@
    } else if c == '"' {
        "&quot;"@
    } else if c == '\'' {
        "&#x27;"@
    } else {
        seq![c]
    }
}

/// The XML-escaped form of a text: every character replaced by `xml_char`.
pub open spec fn xml_escaped(s: Seq<char>) -> Seq<char> {
    s.map_values(|c: char| xml_char(c)).flatten()
}

/// The HTML-escaped form of a text: every character replaced by `html_char`.
pub open spec fn html_escaped(s: Seq<char>) -> Seq<char> {
    s.map_values(|c: char| html_char(c)).flatten()
}

/// Characters that may stand in an output file name.
pub open spec fn is_filename_char(c: char) -> bool {
    ||| 'a' <= c <= 'z'
    ||| 'A' <= c <= 'Z'
    ||| '0' <= c <= '9'
    ||| c == '-'
    ||| c == '_'
}

/// The character itself where it may stand in a file name, else `-`.
pub open spec fn sanitized_char(c: char) -> char {
    if is_filename_char(c) {
        c
    } else {
        '-'
    }
}

/// A title turned into a file stem: same length, every character outside
/// `[A-Za-z0-9_-]` replaced by `-`, one for one.
pub open spec fn sanitized(s: Seq<char>) -> Seq<char> {
    s.map_values(|c: char| sanitized_char(c))
}

/// Extending the mapped-and-flattened prefix by one element.
pub(crate) proof fn lemma_flat_map_step<A>(s: Seq<A>, f: spec_fn(A) -> Seq<char>, i: int)
    requires
        0 <= i < s.len(),
    ensures
        s.take(i + 1).map_values(f).flatten() == s.take(i).map_values(f).flatten() + f(s[i]),
{
    let head = s.take(i).map_values(f);
    assert(s.take(i + 1).map_values(f) =~= head.push(f(s[i])));
    head.lemma_flatten_push(f(s[i]));
}

/// The text with `&`, `<`, `>`, `"` and `'` written as XML writes them.
pub fn xml_escape(s: &str) -> (out: String)
    ensures
        out@ == xml_escaped(s@),
{
    broadcast use vstd::string::group_string_axioms;

    let mut out = String::new();
    let chars = s.chars();
    for c in it: chars
        invariant
            it.seq() == s@,
            out@ == xml_escaped(s@.take(it.index())),
    {
        proof {
            lemma_flat_map_step(s@, |c: char| xml_char(c), it.index());
        }
        if c == '&' {
            out.append("&amp;");
        } else if c == '<' {
            out.append("&lt;");
        } else if c == '>' {
            out.append("&gt;");
        } else if c == '"' {
            out.append("&quot;");
        } else if c == '\'' {
            out.append("&apos;");
        } else {
            out.push(c);
        }
    }
    assert(s@.take(s@.len() as int) == s@);
    out
}

/// The text with `&`, `<`, `>`, `"` and `'` written as HTML writes them.
pub fn html_escape(s: &str) -> (out: String)
    ensures
        out@ == html_escaped(s@),
{
    broadcast use vstd::string::group_string_axioms;

    let mut out = String::new();
    let chars = s.chars();
    for c in it: chars
        invariant
            it.seq() == s@,
            out@ == html_escaped(s@.take(it.index())),
    {
        proof {
            lemma_flat_map_step(s@, |c: char| html_char(c), it.index());
        }
        if c == '&' {
            out.append("&amp;");
        } else if c == '<' {
            out.append("&lt;");
        } else if c == '>' {
            out.append("&gt;");
        } else if c == '"' {
            out.append("&quot;");
        } else if c == '\'' {
            out.append("&#x27;");
        } else {
            out.push(c);
        }
    }
    assert(s@.take(s@.len() as int) == s@);
    out
}

/// The name with every character outside `[A-Za-z0-9_-]` replaced by `-`.
pub fn sanitize_filename(name: &str) -> (out: String)
    ensures
        out@ == sanitized(name@),
{
    broadcast use vstd::string::group_string_axioms;

    let mut out = String::new();
    let chars = name.chars();
    for c in it: chars
        invariant
            it.seq() == name@,
            out@ == sanitized(name@.take(it.index())),
    {
        let keep = ('a' <= c && c <= 'z') || ('A' <= c && c <= 'Z') || ('0' <= c && c <= '9')
            || c == '-' || c == '_';
        if keep {
            out.push(c);
        } else {
            out.push('-');
        }
        assert(sanitized(name@.take(it.index() + 1)) =~= sanitized(name@.take(it.index())).push(
            sanitized_char(c),
        ));
    }
    assert(name@.take(name@.len() as int) == name@);
    out
}

/// The end of a line.
pub const LINE_BREAK: &'static str = "\n";

/// The concatenation of `count` pieces, of which `piece` gives the `i`-th.
pub open spec fn concat_pieces(count: nat, piece: spec_fn(int) -> Seq<char>) -> Seq<char> {
    Seq::new(count, piece).flatten()
}

/// One more piece extends the concatenation at its end.
pub(crate) proof fn lemma_concat_pieces_step(count: nat, piece: spec_fn(int) -> Seq<char>)
    ensures
        concat_pieces(count + 1, piece) == concat_pieces(count, piece) + piece(count as int),
{
    let head = Seq::new(count, piece);
    assert(Seq::new(count + 1, piece) =~= head.push(piece(count as int)));
    head.lemma_flatten_push(piece(count as int));
}

/// No piece at all gives the empty text.
pub(crate) proof fn lemma_concat_pieces_none(piece: spec_fn(int) -> Seq<char>)
    ensures
        concat_pieces(0, piece) == Seq::<char>::empty(),
{
    assert(Seq::new(0, piece) =~= Seq::<Seq<char>>::empty());
}

/// The `i`-th piece of a list of items joined by a separator: the item,
/// after the first one preceded by the separator.
pub open spec fn joined_piece(items: spec_fn(int) -> Seq<char>, sep: Seq<char>, i: int) -> Seq<
    char,
> {
    if i == 0 {
        items(i)
    } else {
        sep + items(i)
    }
}

/// `count` items joined by a separator that stands between neighbours.
pub open spec fn joined(count: nat, items: spec_fn(int) -> Seq<char>, sep: Seq<char>) -> Seq<
    char,
> {
    concat_pieces(count, |i: int| joined_piece(items, sep, i))
}

/// One more item extends the joined text by the separator, unless it is the
/// first, and the item.
pub(crate) proof fn lemma_joined_step(count: nat, items: spec_fn(int) -> Seq<char>, sep: Seq<char>)
    ensures
        joined(0, items, sep) == Seq::<char>::empty(),
        joined(count + 1, items, sep) == joined(count, items, sep) + joined_piece(
            items,
            sep,
            count as int,
        ),
{
    lemma_concat_pieces_none(|i: int| joined_piece(items, sep, i));
    lemma_concat_pieces_step(count, |i: int| joined_piece(items, sep, i));
}

/// The characters of each text of a list.
pub open spec fn texts(list: Seq<String>) -> Seq<Seq<char>> {
    list.map_values(|s: String| s@)
}

/// The text of the characters.
pub fn from_chars(chars: &Vec<char>) -> (s: String)
    ensures
        s@ == chars@,
{
    let mut s = String::new();
    push_chars(&mut s, chars, 0, chars.len());
    assert(chars@.subrange(0, chars.len() as int) =~= chars@);
    s
}

/// Whether two texts hold the same characters.
pub fn text_eq(a: &str, b: &str) -> (same: bool)
    ensures
        same == (a@ == b@),
{
    let left = to_chars(a);
    let right = to_chars(b);
    if left.len() != right.len() {
        return false;
    }
    let mut i: usize = 0;
    while i < left.len()
        invariant
            left@ == a@,
            right@ == b@,
            left.len() == right.len(),
            i <= left.len(),
            left@.take(i as int) == right@.take(i as int),
        decreases left.len() - i,
    {
        if left[i] != right[i] {
            assert(a@[i as int] != b@[i as int]);
            return false;
        }
        assert(left@.take(i + 1) =~= left@.take(i as int).push(left@[i as int]));
        assert(right@.take(i + 1) =~= right@.take(i as int).push(right@[i as int]));
        i += 1;
    }
    assert(left@ =~= left@.take(left.len() as int));
    assert(right@ =~= right@.take(right.len() as int));
    true
}

/// The characters of a text as a vector, in order.
pub fn to_chars(s: &str) -> (v: Vec<char>)
    ensures
        v@ == s@,
{
    broadcast use vstd::string::group_string_axioms;

    let mut v: Vec<char> = Vec::new();
    let chars = s.chars();
    for c in it: chars
        invariant
            it.seq() == s@,
            v@ == s@.take(it.index()),
    {
        v.push(c);
    }
    assert(s@.take(s@.len() as int) == s@);
    v
}

/// Appends the characters `v[from..to]`.
pub(crate) fn push_chars(out: &mut String, v: &Vec<char>, from: usize, to: usize)
    requires
        from <= to <= v.len(),
    ensures
        final(out)@ == old(out)@ + v@.subrange(from as int, to as int),
{
    let mut i: usize = from;
    while i < to
        invariant
            from <= i <= to <= v.len(),
            out@ == old(out)@ + v@.subrange(from as int, i as int),
        decreases to - i,
    {
        out.push(v[i]);
        assert(v@.subrange(from as int, i + 1) =~= v@.subrange(from as int, i as int).push(
            v@[i as int],
        ));
        i += 1;
    }
}

/// Whether `needle` stands in `hay` at position `at`.
pub open spec fn occurs_at(hay: Seq<char>, at: int, needle: Seq<char>) -> bool {
    &&& 0 <= at
    &&& at + needle.len() <= hay.len()
    &&& hay.subrange(at, at + needle.len()) == needle
}

/// Whether `needle` stands in `hay` at position `at`.
pub fn matches_at(hay: &Vec<char>, at: usize, needle: &Vec<char>) -> (found: bool)
    ensures
        found == occurs_at(hay@, at as int, needle@),
{
    let m = needle.len();
    if at > hay.len() || hay.len() - at < m {
        return false;
    }
    let mut k: usize = 0;
    while k < m
        invariant
            k <= m,
            m == needle.len(),
            at + m <= hay.len(),
            hay@.subrange(at as int, at + k) == needle@.take(k as int),
        decreases m - k,
    {
        if hay[at + k] != needle[k] {
            assert(hay@.subrange(at as int, at + m)[k as int] != needle@[k as int]);
            return false;
        }
        assert(hay@.subrange(at as int, at + k + 1) =~= hay@.subrange(at as int, at + k).push(
            hay@[at + k],
        ));
        assert(needle@.take(k + 1) =~= needle@.take(k as int).push(needle@[k as int]));
        k += 1;
    }
    assert(needle@.take(m as int) =~= needle@);
    true
}

/// `s` with every occurrence of the non-empty text `from` replaced by `to`,
/// the occurrences taken from the left and not overlapping.
pub open spec fn replaced(s: Seq<char>, from: Seq<char>, to: Seq<char>) -> Seq<char>
    decreases s.len(),
{
    if from.len() == 0 || s.len() < from.len() {
        s
    } else if occurs_at(s, 0, from) {
        to + replaced(s.skip(from.len() as int), from, to)
    } else {
        seq![s[0]] + replaced(s.skip(1), from, to)
    }
}

/// Replaces every occurrence of `from` in `s` by `to`. An empty `from`
/// occurs nowhere.
pub fn replace_all(s: &str, from: &str, to: &str) -> (out: String)
    ensures
        out@ == replaced(s@, from@, to@),
{
    let hay = to_chars(s);
    let needle = to_chars(from);
    let n = hay.len();
    let m = needle.len();
    let mut out = String::new();
    if m == 0 {
        push_chars(&mut out, &hay, 0, n);
        assert(out@ =~= s@);
        return out;
    }
    let mut i: usize = 0;
    assert(s@.skip(0) =~= s@);
    while i < n && n - i >= m
        invariant
            i <= n,
            n == hay.len(),
            m == needle.len(),
            m > 0,
            hay@ == s@,
            needle@ == from@,
            out@ + replaced(s@.skip(i as int), from@, to@) == replaced(s@, from@, to@),
        decreases n - i,
    {
        let ghost rest = s@.skip(i as int);
        let ghost before = out@;
        assert(rest.subrange(0, m as int) =~= s@.subrange(i as int, i + m));
        if matches_at(&hay, i, &needle) {
            out.append(to);
            assert(rest.skip(m as int) =~= s@.skip(i + m));
            assert(out@ + replaced(s@.skip(i + m), from@, to@) =~= before + replaced(
                rest,
                from@,
                to@,
            ));
            i += m;
        } else {
            out.push(hay[i]);
            assert(rest.skip(1) =~= s@.skip(i + 1));
            assert(out@ + replaced(s@.skip(i + 1), from@, to@) =~= before + replaced(
                rest,
                from@,
                to@,
            ));
            i += 1;
        }
    }
    push_chars(&mut out, &hay, i, n);
    assert(s@.subrange(i as int, n as int) =~= s@.skip(i as int));
    out
}

/// The file name of an artifact: the sanitized title, then the extension
/// of the format.
pub open spec fn artifact_name(title: Seq<char>, extension: Seq<char>) -> Seq<char> {
    sanitized(title) + extension
}

/// The file name of an artifact of this title and extension.
pub fn export_name(title: &str, extension: &str) -> (name: String)
    ensures
        name@ == artifact_name(title@, extension@),
{
    sanitize_filename(title).concat(extension)
}

/// The lower-case form of an ASCII capital letter; any other character
/// stays as it is.
pub open spec fn ascii_lower_char(c: char) -> char {
    if 'A' <= c <= 'Z' {
        ((c as u8) + 32) as char
    } else {
        c
    }
}

/// A text with its ASCII capital letters turned into small ones.
pub open spec fn ascii_lower(s: Seq<char>) -> Seq<char> {
    s.map_values(|c: char| ascii_lower_char(c))
}

/// The text with its ASCII capital letters turned into small ones.
pub fn to_ascii_lower(s: &str) -> (out: String)
    ensures
        out@ == ascii_lower(s@),
{
    broadcast use vstd::string::group_string_axioms;

    let mut out = String::new();
    let chars = s.chars();
    for c in it: chars
        invariant
            it.seq() == s@,
            out@ == ascii_lower(s@.take(it.index())),
    {
        if 'A' <= c && c <= 'Z' {
            out.push(((c as u8) + 32) as char);
        } else {
            out.push(c);
        }
        assert(ascii_lower(s@.take(it.index() + 1)) =~= ascii_lower(s@.take(it.index())).push(
            ascii_lower_char(c),
        ));
    }
    assert(s@.take(s@.len() as int) == s@);
    out
}

} // verus!
