//! Frontmatter: the metadata block at the top of a chapter file.

use crate::error::{ErrorKind, PapyrusError};
use crate::order::{lemma_lex_total, lemma_lex_transitive, lex_le, precedes};
use crate::text::{text_eq, to_chars};
use gray_matter::Pod;
use vstd::prelude::*;

verus! {

/// A value of a frontmatter block.
#[derive(Debug, PartialEq, Eq)]
pub enum MatterValue {
    Null,
    Text(String),
    Integer(i64),
    /// A real number, held as the bits of its double-precision form.
    Real(u64),
    Boolean(bool),
    List(Vec<MatterValue>),
    Table(Vec<MatterEntry>),
}

/// One key of a frontmatter block with its value.
#[derive(Debug, PartialEq, Eq)]
pub struct MatterEntry {
    pub key: String,
    pub value: MatterValue,
}

/// The metadata block at the top of a chapter.
#[derive(Debug, PartialEq, Eq)]
pub struct FrontMatter {
    pub title: Option<String>,
    pub author: Option<String>,
    pub date: Option<String>,
    /// Every other key of the block with its value, kept but not interpreted.
    pub extra: Vec<MatterEntry>,
}

#[verifier::external_type_specification]
#[verifier::external_body]
pub struct ExPod(Pod);

/// A value of a frontmatter block as plain values; a table is the map from
/// its keys to their values, whatever the order of its entries.
pub ghost enum MatterView {
    Null,
    Text(Seq<char>),
    Integer(i64),
    Real(u64),
    Boolean(bool),
    List(Seq<MatterView>),
    Table(Map<Seq<char>, MatterView>),
}

impl View for MatterValue {
    type V = MatterView;

    open spec fn view(&self) -> MatterView {
        value_view(*self)
    }
}

/// A value as plain values.
pub open spec fn value_view(value: MatterValue) -> MatterView
    decreases value, 0nat,
{
    match value {
        MatterValue::Null => MatterView::Null,
        MatterValue::Text(text) => MatterView::Text(text@),
        MatterValue::Integer(number) => MatterView::Integer(number),
        MatterValue::Real(bits) => MatterView::Real(bits),
        MatterValue::Boolean(flag) => MatterView::Boolean(flag),
        MatterValue::List(items) => MatterView::List(list_view(items@)),
        MatterValue::Table(entries) => MatterView::Table(table_view(entries@)),
    }
}

/// The items of a list as plain values.
pub open spec fn list_view(items: Seq<MatterValue>) -> Seq<MatterView>
    decreases items, 1nat,
{
    if items.len() == 0 {
        Seq::empty()
    } else {
        list_view(items.drop_last()).push(value_view(items.last()))
    }
}

/// The map of a table: each key with the value of the last entry under it.
pub open spec fn table_view(entries: Seq<MatterEntry>) -> Map<Seq<char>, MatterView>
    decreases entries, 1nat,
{
    if entries.len() == 0 {
        Map::empty()
    } else {
        table_view(entries.drop_last()).insert(
            entries.last().key@,
            value_view(entries.last().value),
        )
    }
}

/// The value of an optional frontmatter block as plain values.
pub open spec fn data_view(data: Option<MatterValue>) -> Option<MatterView> {
    match data {
        Some(value) => Some(value@),
        None => None,
    }
}

/// What `Matter::parse` finds in a text: the data of the frontmatter block,
/// if the text opens with a block that is not empty, and the body. The
/// parser puts the body together anew from the lines after the block, so
/// every line ends in a plain line break and the last line in none.
pub uninterp spec fn parsed_matter(text: Seq<char>) -> (Option<MatterView>, Seq<char>);

/// The data of the frontmatter block of a text, where it has one.
pub open spec fn matter_data(text: Seq<char>) -> Option<MatterView> {
    parsed_matter(text).0
}

/// The body of a text, as the frontmatter parser puts it together from the
/// lines after the frontmatter block.
pub open spec fn matter_body(text: Seq<char>) -> Seq<char> {
    parsed_matter(text).1
}

/// `Matter::parse` with the YAML engine and `---` as the delimiter: the
/// data of the frontmatter block, where the text opens with one that is not
/// empty, and the body. The data is handed out as a value of the library,
/// variant by variant; the entries of a table come in no particular order.
#[verifier::external_body]
pub(crate) fn split_matter(text: &str) -> (parts: (Option<MatterValue>, String))
    ensures
        (data_view(parts.0), parts.1@) == parsed_matter(text@),
{
    let parsed = gray_matter::Matter::<gray_matter::engine::YAML>::new().parse(text);
    (parsed.data.map(pod_value), parsed.content)
}

/// A value of the frontmatter parser as a value of the library, variant by
/// variant.
#[verifier::external_body]
fn pod_value(pod: gray_matter::Pod) -> MatterValue {
        match pod {
        Pod::Null => MatterValue::Null,
        Pod::String(text) => MatterValue::Text(text),
        Pod::Integer(number) => MatterValue::Integer(number),
        Pod::Float(number) => MatterValue::Real(number.to_bits()),
        Pod::Boolean(flag) => MatterValue::Boolean(flag),
        Pod::Array(items) => MatterValue::List(items.into_iter().map(pod_value).collect()),
        Pod::Hash(table) => MatterValue::Table(
            table.into_iter().map(|(key, value)| MatterEntry { key, value: pod_value(value) })
                .collect(),
        ),
    }
}

// The keys that the library reads, and its words for a block that it cannot read.

pub const KEY_TITLE: &'static str = "title";

pub const KEY_AUTHOR: &'static str = "author";

pub const KEY_DATE: &'static str = "date";

pub const MATTER_FAILED: &'static str = "Failed to parse frontmatter: ";

pub const NOT_A_TABLE: &'static str = "expected a table of keys and values";

pub const NOT_A_TEXT: &'static str = " is not a text";

/// The keys of the frontmatter that the library reads.
pub open spec fn known_keys() -> Set<Seq<char>> {
    set![KEY_TITLE@, KEY_AUTHOR@, KEY_DATE@]
}

/// The value that a table gives to a key, if it holds the key.
pub open spec fn field(table: Map<Seq<char>, MatterView>, key: Seq<char>) -> Option<MatterView> {
    if table.contains_key(key) {
        Some(table[key])
    } else {
        None
    }
}

/// Whether a field can be read as an optional text: it is absent, null or
/// a text.
pub open spec fn is_optional_text(value: Option<MatterView>) -> bool {
    match value {
        None => true,
        Some(MatterView::Null) => true,
        Some(MatterView::Text(_)) => true,
        Some(_) => false,
    }
}

/// The text of a field, where it has one.
pub open spec fn optional_text(value: Option<MatterView>) -> Option<Seq<char>> {
    match value {
        Some(MatterView::Text(text)) => Some(text),
        _ => None,
    }
}

/// The entries of a table under keys that the library does not read, in
/// the order of the table.
pub open spec fn unknown_entries(entries: Seq<MatterEntry>) -> Seq<MatterEntry> {
    entries.filter(|entry: MatterEntry| !known_keys().contains(entry.key@))
}

/// Why a value is no frontmatter, if it is none: it is no table, or the
/// first of title, author and date that is neither null nor a text.
pub open spec fn matter_fault(value: MatterView) -> Option<Seq<char>> {
    match value {
        MatterView::Table(table) => if !is_optional_text(field(table, KEY_TITLE@)) {
            Some(KEY_TITLE@ + NOT_A_TEXT@)
        } else if !is_optional_text(field(table, KEY_AUTHOR@)) {
            Some(KEY_AUTHOR@ + NOT_A_TEXT@)
        } else if !is_optional_text(field(table, KEY_DATE@)) {
            Some(KEY_DATE@ + NOT_A_TEXT@)
        } else {
            None
        },
        _ => Some(NOT_A_TABLE@),
    }
}

/// The characters of an optional text.
pub open spec fn option_view(text: Option<String>) -> Option<Seq<char>> {
    match text {
        Some(t) => Some(t@),
        None => None,
    }
}

impl FrontMatter {
    /// Whether this is the frontmatter that a table holds: title, author
    /// and date are the texts that the table gives them, and the other
    /// entries are the rest of the table.
    pub open spec fn reads(&self, table: Map<Seq<char>, MatterView>) -> bool {
        &&& option_view(self.title) == optional_text(field(table, KEY_TITLE@))
        &&& option_view(self.author) == optional_text(field(table, KEY_AUTHOR@))
        &&& option_view(self.date) == optional_text(field(table, KEY_DATE@))
        &&& table_view(self.extra@) == table.remove_keys(known_keys())
    }

    /// Whether this is the frontmatter of a block with this data.
    pub open spec fn is_matter_of(&self, data: MatterView) -> bool {
        data matches MatterView::Table(table) && self.reads(table)
    }

    /// Reads a frontmatter block from its value.
    ///
    /// The value must be a table in which title, author and date are each
    /// absent, null or a text; every other entry is kept as it is, in the
    /// order of the table, so that the entries of an ordered table stay
    /// ordered. Any other value is a Markdown error that says what is
    /// wrong.
    pub fn from_value(value: MatterValue) -> (matter: Result<FrontMatter, PapyrusError>)
        ensures
            match matter {
                Ok(m) => {
                    &&& matter_fault(value@) is None
                    &&& m.is_matter_of(value@)
                    &&& value matches MatterValue::Table(entries) ==> m.extra@ == unknown_entries(
                        entries@,
                    )
                    &&& is_ordered(value) ==> entries_ordered(m.extra@)
                },
                Err(error) => matter_fault(value@) matches Some(fault) && error@.kind
                    == ErrorKind::Markdown && error@.detail == MATTER_FAILED@ + fault,
            },
    {
        let entries = match value {
            MatterValue::Table(entries) => entries,
            _ => {
                return Err(matter_error(NOT_A_TABLE));
            },
        };
        let ghost all = entries@;
        let ghost unknown = |entry: MatterEntry| !known_keys().contains(entry.key@);
        let mut title: Option<MatterValue> = None;
        let mut author: Option<MatterValue> = None;
        let mut date: Option<MatterValue> = None;
        let mut extra: Vec<MatterEntry> = Vec::new();
        proof {
            reveal(Seq::filter);
            assert(all.take(0) =~= Seq::<MatterEntry>::empty());
            assert(table_view(extra@) =~= table_view(all.take(0)).remove_keys(known_keys()));
            lemma_keys_differ();
        }
        for entry in it: entries
            invariant
                it.seq() == all,
                unknown == |entry: MatterEntry| !known_keys().contains(entry.key@),
                data_view(title) == field(table_view(all.take(it.index())), KEY_TITLE@),
                data_view(author) == field(table_view(all.take(it.index())), KEY_AUTHOR@),
                data_view(date) == field(table_view(all.take(it.index())), KEY_DATE@),
                extra@ == all.take(it.index()).filter(unknown),
                table_view(extra@) == table_view(all.take(it.index())).remove_keys(known_keys()),
                KEY_TITLE@ != KEY_AUTHOR@,
                KEY_TITLE@ != KEY_DATE@,
                KEY_AUTHOR@ != KEY_DATE@,
        {
            let ghost done = all.take(it.index());
            let ghost next = all.take(it.index() + 1);
            let ghost kept = extra@;
            proof {
                assert(next.drop_last() =~= done);
                assert(next.last() == entry);
                assert(next =~= done.push(entry));
                done.lemma_filter_push(entry, unknown);
                assert(table_view(next) == table_view(done).insert(entry.key@, entry.value@));
            }
            if text_eq(entry.key.as_str(), KEY_TITLE) {
                title = Some(entry.value);
            } else if text_eq(entry.key.as_str(), KEY_AUTHOR) {
                author = Some(entry.value);
            } else if text_eq(entry.key.as_str(), KEY_DATE) {
                date = Some(entry.value);
            } else {
                extra.push(entry);
                proof {
                    assert(extra@.drop_last() =~= kept);
                    assert(table_view(extra@) == table_view(kept).insert(
                        entry.key@,
                        entry.value@,
                    ));
                }
            }
            assert(table_view(extra@) =~= table_view(next).remove_keys(known_keys()));
        }
        assert(all.take(all.len() as int) =~= all);
        proof {
            if entries_ordered(all) {
                lemma_filter_ordered(all, unknown);
            }
        }
        let title = match text_field(title) {
            Ok(text) => text,
            Err(()) => {
                return Err(matter_error(String::from_str(KEY_TITLE).concat(NOT_A_TEXT).as_str()));
            },
        };
        let author = match text_field(author) {
            Ok(text) => text,
            Err(()) => {
                return Err(
                    matter_error(String::from_str(KEY_AUTHOR).concat(NOT_A_TEXT).as_str()),
                );
            },
        };
        let date = match text_field(date) {
            Ok(text) => text,
            Err(()) => {
                return Err(matter_error(String::from_str(KEY_DATE).concat(NOT_A_TEXT).as_str()));
            },
        };
        Ok(FrontMatter { title, author, date, extra })
    }
}

/// The three keys that the library reads are three different texts.
proof fn lemma_keys_differ()
    ensures
        KEY_TITLE@ != KEY_AUTHOR@,
        KEY_TITLE@ != KEY_DATE@,
        KEY_AUTHOR@ != KEY_DATE@,
{
    reveal_strlit("title");
    reveal_strlit("author");
    reveal_strlit("date");
    assert(KEY_TITLE@.len() == 5);
    assert(KEY_AUTHOR@.len() == 6);
    assert(KEY_DATE@.len() == 4);
}

/// The text of a field that is absent, null or a text.
fn text_field(value: Option<MatterValue>) -> (text: Result<Option<String>, ()>)
    ensures
        match text {
            Ok(t) => is_optional_text(data_view(value)) && option_view(t) == optional_text(
                data_view(value),
            ),
            Err(()) => !is_optional_text(data_view(value)),
        },
{
    match value {
        None => Ok(None),
        Some(MatterValue::Null) => Ok(None),
        Some(MatterValue::Text(text)) => Ok(Some(text)),
        Some(_) => Err(()),
    }
}

/// The error of a frontmatter block that cannot be read.
fn matter_error(fault: &str) -> (error: PapyrusError)
    ensures
        error@.kind == ErrorKind::Markdown,
        error@.detail == MATTER_FAILED@ + fault@,
{
    PapyrusError::Markdown(String::from_str(MATTER_FAILED).concat(fault))
}

/// Whether the keys of a table come in dictionary order.
pub open spec fn keys_sorted(entries: Seq<MatterEntry>) -> bool {
    forall|i: int, j: int|
        0 <= i <= j < entries.len() ==> lex_le(
            (#[trigger] entries[i]).key@,
            (#[trigger] entries[j]).key@,
        )
}

/// Whether every table of a value, the value itself and all that it holds,
/// has its keys in dictionary order.
pub open spec fn is_ordered(value: MatterValue) -> bool
    decreases value, 0nat,
{
    match value {
        MatterValue::List(items) => items_ordered(items@),
        MatterValue::Table(entries) => entries_ordered(entries@),
        _ => true,
    }
}

/// Whether every item of a list is ordered.
pub open spec fn items_ordered(items: Seq<MatterValue>) -> bool
    decreases items, 1nat,
{
    if items.len() == 0 {
        true
    } else {
        items_ordered(items.drop_last()) && is_ordered(items.last())
    }
}

/// Whether the values of a table are ordered.
pub open spec fn values_ordered(entries: Seq<MatterEntry>) -> bool
    decreases entries, 1nat,
{
    if entries.len() == 0 {
        true
    } else {
        values_ordered(entries.drop_last()) && is_ordered(entries.last().value)
    }
}

/// Whether a table is ordered: its keys come in dictionary order and its
/// values are ordered.
pub open spec fn entries_ordered(entries: Seq<MatterEntry>) -> bool
    decreases entries, 2nat,
{
    keys_sorted(entries) && values_ordered(entries)
}

/// The values of a table are ordered exactly if each of them is.
proof fn lemma_values_ordered(entries: Seq<MatterEntry>)
    ensures
        values_ordered(entries) <==> forall|i: int|
            0 <= i < entries.len() ==> is_ordered((#[trigger] entries[i]).value),
    decreases entries.len(),
{
    if entries.len() > 0 {
        let rest = entries.drop_last();
        lemma_values_ordered(rest);
        if values_ordered(entries) {
            assert forall|i: int| 0 <= i < entries.len() implies is_ordered(
                (#[trigger] entries[i]).value,
            ) by {
                if i < rest.len() {
                    assert(entries[i] == rest[i]);
                }
            }
        } else if values_ordered(rest) {
            assert(!is_ordered(entries[entries.len() - 1].value));
        } else {
            let i = choose|i: int| 0 <= i < rest.len() && !is_ordered((#[trigger] rest[i]).value);
            assert(entries[i] == rest[i]);
        }
    }
}

/// An entry put into a table before entries of other keys only is the
/// last of its key: the table gives its key its value and every other key
/// the value that it had.
proof fn lemma_table_insert(entries: Seq<MatterEntry>, at: int, entry: MatterEntry)
    requires
        0 <= at <= entries.len(),
        forall|k: int| at <= k < entries.len() ==> (#[trigger] entries[k]).key@ != entry.key@,
    ensures
        table_view(entries.insert(at, entry)) == table_view(entries).insert(
            entry.key@,
            entry.value@,
        ),
    decreases entries.len() - at,
{
    let with = entries.insert(at, entry);
    if at == entries.len() {
        assert(with.drop_last() =~= entries);
    } else {
        let last = entries.last();
        let rest = entries.drop_last();
        assert(with.last() == last);
        assert(with.drop_last() =~= rest.insert(at, entry));
        assert forall|k: int| at <= k < rest.len() implies (#[trigger] rest[k]).key@
            != entry.key@ by {
            assert(rest[k] == entries[k]);
        }
        lemma_table_insert(rest, at, entry);
        assert(last.key@ != entry.key@);
        assert(table_view(with) =~= table_view(entries).insert(entry.key@, entry.value@));
    }
}

/// What is left of an ordered table when entries are taken out is ordered.
proof fn lemma_filter_ordered(entries: Seq<MatterEntry>, keep: spec_fn(MatterEntry) -> bool)
    requires
        entries_ordered(entries),
    ensures
        entries_ordered(entries.filter(keep)),
    decreases entries.len(),
{
    reveal(Seq::filter);
    if entries.len() > 0 {
        let rest = entries.drop_last();
        let last = entries.last();
        assert forall|i: int, j: int| 0 <= i <= j < rest.len() implies lex_le(
            (#[trigger] rest[i]).key@,
            (#[trigger] rest[j]).key@,
        ) by {
            assert(rest[i] == entries[i]);
            assert(rest[j] == entries[j]);
        }
        lemma_filter_ordered(rest, keep);
        let kept = rest.filter(keep);
        if keep(last) {
            let all = kept.push(last);
            assert forall|i: int, j: int| 0 <= i <= j < all.len() implies lex_le(
                (#[trigger] all[i]).key@,
                (#[trigger] all[j]).key@,
            ) by {
                if j < kept.len() {
                    assert(all[i] == kept[i]);
                    assert(all[j] == kept[j]);
                } else if i < kept.len() {
                    assert(kept.contains(kept[i]));
                    rest.lemma_filter_contains_rev(keep, kept[i]);
                    let k = choose|k: int| 0 <= k < rest.len() && rest[k] == kept[i];
                    assert(entries[k] == rest[k]);
                    assert(entries[entries.len() - 1] == last);
                } else {
                    lemma_lex_total(last.key@, last.key@);
                }
            }
            assert(all.drop_last() =~= kept);
        }
    }
}

/// The characters of the key of an entry.
fn key_chars(entry: &MatterEntry) -> (chars: Vec<char>)
    ensures
        chars@ == entry.key@,
{
    to_chars(entry.key.as_str())
}

/// Puts an entry into an ordered table, after the entries whose keys do
/// not come after its own.
fn insert_ordered(table: &mut Vec<MatterEntry>, entry: MatterEntry)
    requires
        entries_ordered(old(table)@),
        is_ordered(entry.value),
    ensures
        entries_ordered(final(table)@),
        table_view(final(table)@) == table_view(old(table)@).insert(entry.key@, entry.value@),
{
    let key = key_chars(&entry);
    let ghost before = table@;
    let mut at: usize = 0;
    while at < table.len() && precedes(&key_chars(&table[at]), &key)
        invariant
            at <= table.len(),
            table@ == before,
            key@ == entry.key@,
            forall|k: int| 0 <= k < at ==> lex_le((#[trigger] before[k]).key@, entry.key@),
        decreases table.len() - at,
    {
        at += 1;
    }
    table.insert(at, entry);
    proof {
        let after = table@;
        assert(after =~= before.insert(at as int, entry));
        // From its place on the keys come strictly after the key of the entry.
        assert forall|k: int| at <= k < before.len() implies (#[trigger] before[k]).key@
            != entry.key@ && lex_le(entry.key@, before[k].key@) by {
            lemma_lex_total(before[at as int].key@, entry.key@);
            lemma_lex_transitive(entry.key@, before[at as int].key@, before[k].key@);
            if before[k].key@ == entry.key@ {
                assert(lex_le(before[at as int].key@, before[k].key@));
            }
        }
        lemma_table_insert(before, at as int, entry);
        assert forall|i: int, j: int| 0 <= i <= j < after.len() implies lex_le(
            (#[trigger] after[i]).key@,
            (#[trigger] after[j]).key@,
        ) by {
            if i == j {
                lemma_lex_total(after[i].key@, after[i].key@);
            } else if j == at {
                assert(after[i] == before[i]);
            } else if i == at {
                assert(after[j] == before[j - 1]);
            } else {
                let x = if i < at { i } else { i - 1 };
                let y = if j < at { j } else { j - 1 };
                assert(after[i] == before[x]);
                assert(after[j] == before[y]);
            }
        }
        lemma_values_ordered(before);
        lemma_values_ordered(after);
        assert forall|i: int| 0 <= i < after.len() implies is_ordered(
            (#[trigger] after[i]).value,
        ) by {
            if i < at {
                assert(after[i] == before[i]);
            } else if i > at {
                assert(after[i] == before[i - 1]);
            }
        }
    }
}

/// The items of a list, each with its tables in dictionary order.
fn ordered_items(items: Vec<MatterValue>) -> (out: Vec<MatterValue>)
    ensures
        list_view(out@) == list_view(items@),
        items_ordered(out@),
    decreases items@, 1nat,
{
    let mut items = items;
    let ghost all = items@;
    match items.pop() {
        None => items,
        Some(last) => {
            assert(items@ =~= all.drop_last());
            assert(last == all.last());
            let mut out = ordered_items(items);
            let ghost head = out@;
            out.push(ordered(last));
            assert(out@.drop_last() =~= head);
            out
        },
    }
}

/// The entries of a table in dictionary order of their keys, each value
/// with its tables in that order too.
fn ordered_entries(entries: Vec<MatterEntry>) -> (out: Vec<MatterEntry>)
    ensures
        table_view(out@) == table_view(entries@),
        entries_ordered(out@),
    decreases entries@, 1nat,
{
    let mut entries = entries;
    let ghost all = entries@;
    match entries.pop() {
        None => entries,
        Some(last) => {
            assert(entries@ =~= all.drop_last());
            assert(last == all.last());
            let mut out = ordered_entries(entries);
            let entry = MatterEntry { key: last.key, value: ordered(last.value) };
            insert_ordered(&mut out, entry);
            out
        },
    }
}

/// The value with the entries of every table in dictionary order of their
/// keys. As plain values it is the value given.
pub fn ordered(value: MatterValue) -> (out: MatterValue)
    ensures
        out@ == value@,
        is_ordered(out),
    decreases value, 0nat,
{
    match value {
        MatterValue::List(items) => MatterValue::List(ordered_items(items)),
        MatterValue::Table(entries) => MatterValue::Table(ordered_entries(entries)),
        other => other,
    }
}

} // verus!
