//! The order of paths: by their characters, the first difference deciding.

use crate::text::{from_chars, texts, to_chars};
use vstd::prelude::*;
use vstd::relations::{sorted_by, total_ordering};
use vstd::seq_lib::{lemma_sorted_unique, to_multiset_insert};

verus! {

/// Whether `a` stands before `b`, or is `b`, in dictionary order: a text
/// stands before each of its extensions, and otherwise the first character
/// in which two texts differ decides.
pub open spec fn lex_le(a: Seq<char>, b: Seq<char>) -> bool
    decreases a.len(),
{
    if a.len() == 0 {
        true
    } else if b.len() == 0 {
        false
    } else if a[0] != b[0] {
        a[0] < b[0]
    } else {
        lex_le(a.skip(1), b.skip(1))
    }
}

/// Of two texts one stands before the other, or they are the same.
pub(crate) proof fn lemma_lex_total(a: Seq<char>, b: Seq<char>)
    ensures
        lex_le(a, b) || lex_le(b, a),
    decreases a.len(),
{
    if a.len() > 0 && b.len() > 0 && a[0] == b[0] {
        lemma_lex_total(a.skip(1), b.skip(1));
    }
}

/// What stands before a text stands before all that the text stands before.
pub(crate) proof fn lemma_lex_transitive(a: Seq<char>, b: Seq<char>, c: Seq<char>)
    requires
        lex_le(a, b),
        lex_le(b, c),
    ensures
        lex_le(a, c),
    decreases a.len(),
{
    if a.len() > 0 && b.len() > 0 && c.len() > 0 && a[0] == b[0] && b[0] == c[0] {
        lemma_lex_transitive(a.skip(1), b.skip(1), c.skip(1));
    }
}

/// Two texts that stand before each other are the same text.
pub(crate) proof fn lemma_lex_antisymmetric(a: Seq<char>, b: Seq<char>)
    requires
        lex_le(a, b),
        lex_le(b, a),
    ensures
        a == b,
    decreases a.len(),
{
    if a.len() > 0 && b.len() > 0 {
        lemma_lex_antisymmetric(a.skip(1), b.skip(1));
        assert(a =~= seq![a[0]] + a.skip(1));
        assert(b =~= seq![b[0]] + b.skip(1));
    } else {
        assert(a =~= b);
    }
}

/// Whether each text of the list stands before, or is, every later one.
pub open spec fn is_sorted(items: Seq<Seq<char>>) -> bool {
    forall|i: int, j: int| 0 <= i <= j < items.len() ==> lex_le(items[i], items[j])
}

/// Dictionary order is a total order of the texts.
pub proof fn lemma_lex_total_order()
    ensures
        total_ordering(|a: Seq<char>, b: Seq<char>| lex_le(a, b)),
{
    let leq = |a: Seq<char>, b: Seq<char>| lex_le(a, b);
    assert forall|x: Seq<char>| #[trigger] leq(x, x) by {
        lemma_lex_total(x, x);
    }
    assert forall|x: Seq<char>, y: Seq<char>| #[trigger] leq(x, y) && #[trigger] leq(y, x) implies x
        == y by {
        lemma_lex_antisymmetric(x, y);
    }
    assert forall|x: Seq<char>, y: Seq<char>, z: Seq<char>| #[trigger]
        leq(x, y) && #[trigger] leq(y, z) implies leq(x, z) by {
        lemma_lex_transitive(x, y, z);
    }
    assert forall|x: Seq<char>, y: Seq<char>| #[trigger] leq(x, y) || #[trigger] leq(y, x) by {
        lemma_lex_total(x, y);
    }
}

/// There is one way only to put texts in dictionary order: two sorted
/// lists of the same texts are the same list.
pub proof fn lemma_sorted_is_unique(x: Seq<Seq<char>>, y: Seq<Seq<char>>)
    requires
        is_sorted(x),
        is_sorted(y),
        x.to_multiset() == y.to_multiset(),
    ensures
        x == y,
{
    let leq = |a: Seq<char>, b: Seq<char>| lex_le(a, b);
    lemma_lex_total_order();
    assert(sorted_by(x, leq));
    assert(sorted_by(y, leq));
    lemma_sorted_unique(x, y, leq);
}

/// The characters of each key of a list.
pub open spec fn key_views(keys: Seq<Vec<char>>) -> Seq<Seq<char>> {
    keys.map_values(|k: Vec<char>| k@)
}

/// Whether `a` stands before `b`, or is `b`, in dictionary order.
pub fn precedes(a: &Vec<char>, b: &Vec<char>) -> (before: bool)
    ensures
        before == lex_le(a@, b@),
{
    let mut k: usize = 0;
    assert(a@.skip(0) =~= a@);
    assert(b@.skip(0) =~= b@);
    while k < a.len() && k < b.len() && a[k] == b[k]
        invariant
            k <= a.len(),
            k <= b.len(),
            lex_le(a@, b@) == lex_le(a@.skip(k as int), b@.skip(k as int)),
        decreases a.len() - k,
    {
        assert(a@.skip(k as int).skip(1) =~= a@.skip(k + 1));
        assert(b@.skip(k as int).skip(1) =~= b@.skip(k + 1));
        k += 1;
    }
    if k == a.len() {
        true
    } else if k == b.len() {
        false
    } else {
        a[k] < b[k]
    }
}

/// The texts in dictionary order.
pub fn sort_texts(items: &Vec<String>) -> (sorted: Vec<String>)
    ensures
        is_sorted(texts(sorted@)),
        texts(sorted@).to_multiset() == texts(items@).to_multiset(),
{
    let mut keys: Vec<Vec<char>> = Vec::new();
    let mut i: usize = 0;
    assert(texts(items@).take(0) =~= Seq::<Seq<char>>::empty());
    assert(key_views(keys@) =~= Seq::<Seq<char>>::empty());
    while i < items.len()
        invariant
            i <= items.len(),
            is_sorted(key_views(keys@)),
            key_views(keys@).to_multiset() == texts(items@).take(i as int).to_multiset(),
        decreases items.len() - i,
    {
        let key = to_chars(items[i].as_str());
        let ghost old_keys = key_views(keys@);
        // The place of the key: before the first one that it stands strictly before.
        let mut p: usize = 0;
        while p < keys.len() && precedes(&keys[p], &key)
            invariant
                p <= keys.len(),
                old_keys == key_views(keys@),
                forall|k: int| 0 <= k < p ==> lex_le(#[trigger] old_keys[k], key@),
            decreases keys.len() - p,
        {
            p += 1;
        }
        keys.insert(p, key);
        proof {
            let new_keys = key_views(keys@);
            assert(new_keys =~= old_keys.insert(p as int, key@));
            to_multiset_insert(old_keys, p as int, key@);
            let done = texts(items@).take(i as int);
            assert(texts(items@).take(i + 1) =~= done.insert(i as int, key@));
            to_multiset_insert(done, i as int, key@);
            assert forall|x: int, y: int| 0 <= x <= y < new_keys.len() implies lex_le(
                new_keys[x],
                new_keys[y],
            ) by {
                if x == y {
                    lemma_lex_total(new_keys[x], new_keys[x]);
                } else if y == p {
                    assert(new_keys[x] == old_keys[x]);
                } else if x == p {
                    // The key stands before old_keys[p], which stands before the later ones.
                    assert(new_keys[y] == old_keys[y - 1]);
                    lemma_lex_total(old_keys[p as int], key@);
                    lemma_lex_transitive(key@, old_keys[p as int], old_keys[y - 1]);
                } else {
                    let ox = if x < p { x } else { x - 1 };
                    let oy = if y < p { y } else { y - 1 };
                    assert(new_keys[x] == old_keys[ox]);
                    assert(new_keys[y] == old_keys[oy]);
                }
            }
        }
        i += 1;
    }
    assert(texts(items@).take(items.len() as int) =~= texts(items@));
    let mut sorted: Vec<String> = Vec::new();
    let mut j: usize = 0;
    while j < keys.len()
        invariant
            j <= keys.len(),
            texts(sorted@) == key_views(keys@).take(j as int),
        decreases keys.len() - j,
    {
        let ghost before = texts(sorted@);
        sorted.push(from_chars(&keys[j]));
        assert(texts(sorted@) =~= before.push(keys@[j as int]@));
        assert(key_views(keys@).take(j + 1) =~= before.push(keys@[j as int]@));
        j += 1;
    }
    assert(key_views(keys@).take(keys.len() as int) =~= key_views(keys@));
    sorted
}

} // verus!
