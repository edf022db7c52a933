//! TOML documents: what `toml_edit` reads, changes and prints.
//!
//! The contracts here say what a document holds as a tree of plain values. The
//! text around the values (comments, spacing, quoting) has no part in it.

use vstd::prelude::*;

use crate::text;

verus! {

/// What stands behind a key.
#[verifier::ext_equal]
pub enum TomlV {
    Text(Seq<char>),
    Flag(bool),
    Array(Seq<TomlV>),
    /// A table that stands on one line between braces.
    Inline(Seq<(Seq<char>, TomlV)>),
    /// A table with a header of its own or made of dotted keys.
    Table(Seq<(Seq<char>, TomlV)>),
    /// A number or a date, as it is written, or an array of tables.
    Other(Seq<char>),
}

/// What `key` stands for among `entries`.
pub open spec fn entry_of(entries: Seq<(Seq<char>, TomlV)>, key: Seq<char>) -> Option<TomlV>
    decreases entries.len(),
{
    if entries.len() == 0 {
        None
    } else if entries[0].0 == key {
        Some(entries[0].1)
    } else {
        entry_of(entries.drop_first(), key)
    }
}

/// `entries` with `value` for `key`: in the place of what `key` stood for, or
/// behind everything else.
pub open spec fn with_entry(
    entries: Seq<(Seq<char>, TomlV)>,
    key: Seq<char>,
    value: TomlV,
) -> Seq<(Seq<char>, TomlV)>
    decreases entries.len(),
{
    if entries.len() == 0 {
        seq![(key, value)]
    } else if entries[0].0 == key {
        seq![(key, value)] + entries.drop_first()
    } else {
        seq![entries[0]] + with_entry(entries.drop_first(), key, value)
    }
}

/// `entries` without `key`.
pub open spec fn without_entry(entries: Seq<(Seq<char>, TomlV)>, key: Seq<char>) -> Seq<
    (Seq<char>, TomlV),
>
    decreases entries.len(),
{
    if entries.len() == 0 {
        entries
    } else if entries[0].0 == key {
        without_entry(entries.drop_first(), key)
    } else {
        seq![entries[0]] + without_entry(entries.drop_first(), key)
    }
}

/// The keys of `entries`, in order.
pub open spec fn keys_of(entries: Seq<(Seq<char>, TomlV)>) -> Seq<Seq<char>> {
    entries.map_values(|e: (Seq<char>, TomlV)| e.0)
}

/// Setting a key changes what that key stands for and nothing else.
pub proof fn lemma_with_entry(
    entries: Seq<(Seq<char>, TomlV)>,
    key: Seq<char>,
    value: TomlV,
    other: Seq<char>,
)
    ensures
        entry_of(with_entry(entries, key, value), other) == if other == key {
            Some(value)
        } else {
            entry_of(entries, other)
        },
    decreases entries.len(),
{
    if entries.len() == 0 {
        assert(with_entry(entries, key, value).drop_first() =~= entries);
    } else if entries[0].0 == key {
        assert(with_entry(entries, key, value).drop_first() =~= entries.drop_first());
    } else {
        lemma_with_entry(entries.drop_first(), key, value, other);
        assert(with_entry(entries, key, value).drop_first() =~= with_entry(
            entries.drop_first(),
            key,
            value,
        ));
    }
}

/// Setting a key twice is setting it once.
pub proof fn lemma_with_entry_twice(
    entries: Seq<(Seq<char>, TomlV)>,
    key: Seq<char>,
    first: TomlV,
    second: TomlV,
)
    ensures
        with_entry(with_entry(entries, key, first), key, second) == with_entry(
            entries,
            key,
            second,
        ),
    decreases entries.len(),
{
    let once = with_entry(entries, key, first);
    if entries.len() == 0 {
        assert(with_entry(once, key, second) =~= seq![(key, second)]);
    } else if entries[0].0 == key {
        assert(once.drop_first() =~= entries.drop_first());
    } else {
        lemma_with_entry_twice(entries.drop_first(), key, first, second);
        assert(once.drop_first() =~= with_entry(entries.drop_first(), key, first));
    }
}

/// Setting a key that does not stand for anything puts it behind everything else.
pub proof fn lemma_with_new_entry(
    entries: Seq<(Seq<char>, TomlV)>,
    key: Seq<char>,
    value: TomlV,
)
    requires
        !keys_of(entries).contains(key),
    ensures
        with_entry(entries, key, value) == entries.push((key, value)),
    decreases entries.len(),
{
    if entries.len() == 0 {
        assert(with_entry(entries, key, value) =~= entries.push((key, value)));
    } else {
        let rest = entries.drop_first();
        assert(keys_of(entries)[0] == entries[0].0);
        assert forall|i: int| 0 <= i < rest.len() implies keys_of(rest)[i] != key by {
            assert(keys_of(entries)[i + 1] == keys_of(rest)[i]);
        }
        lemma_with_new_entry(rest, key, value);
        assert(with_entry(entries, key, value) =~= entries.push((key, value)));
    }
}

/// Where no two keys are the same, the key of an entry stands for what the entry
/// holds.
pub proof fn lemma_entry_at(entries: Seq<(Seq<char>, TomlV)>, i: int)
    requires
        0 <= i < entries.len(),
        keys_of(entries).no_duplicates(),
    ensures
        entry_of(entries, entries[i].0) == Some(entries[i].1),
    decreases entries.len(),
{
    if i > 0 {
        let rest = entries.drop_first();
        assert(keys_of(entries)[0] != keys_of(entries)[i]);
        assert forall|j: int, k: int| 0 <= j < k < rest.len() implies keys_of(rest)[j] != keys_of(
            rest,
        )[k] by {
            assert(keys_of(entries)[j + 1] != keys_of(entries)[k + 1]);
        }
        lemma_entry_at(rest, i - 1);
    }
}

/// Removing a key removes that key and nothing else.
pub proof fn lemma_without_entry(
    entries: Seq<(Seq<char>, TomlV)>,
    key: Seq<char>,
    other: Seq<char>,
)
    ensures
        entry_of(without_entry(entries, key), other) == if other == key {
            None
        } else {
            entry_of(entries, other)
        },
    decreases entries.len(),
{
    if entries.len() > 0 {
        let rest = entries.drop_first();
        lemma_without_entry(rest, key, other);
        if entries[0].0 != key {
            assert(without_entry(entries, key).drop_first() =~= without_entry(rest, key));
        }
    }
}

/// What stands at `path` below `entries`: behind its first key, in the table there
/// behind its second, and so on.
pub open spec fn at_path(entries: Seq<(Seq<char>, TomlV)>, path: Seq<Seq<char>>) -> Option<TomlV>
    decreases path.len(),
{
    if path.len() == 0 {
        None
    } else if path.len() == 1 {
        entry_of(entries, path[0])
    } else {
        match entry_of(entries, path[0]) {
            Some(TomlV::Table(inner)) => at_path(inner, path.drop_first()),
            Some(TomlV::Inline(inner)) => at_path(inner, path.drop_first()),
            _ => None,
        }
    }
}

/// Whether what stands at some place is kept: nothing is added, and a table stays
/// a table of its sort; one with a header may go where nothing is left in it.
/// Everything else stays what it is.
pub open spec fn is_kept(before: Option<TomlV>, after: Option<TomlV>) -> bool {
    match before {
        Some(TomlV::Table(inner)) => after matches Some(TomlV::Table(_)) || inner.len() == 0
            && after is None,
        Some(TomlV::Inline(_)) => after matches Some(TomlV::Inline(_)),
        _ => after == before,
    }
}

/// Whether `b` holds what `a` holds, at every place, and nothing else. The order of
/// keys has no part in it.
pub open spec fn reads_alike(a: Seq<(Seq<char>, TomlV)>, b: Seq<(Seq<char>, TomlV)>) -> bool {
    forall|path: Seq<Seq<char>>|
        is_kept(at_path(a, path), #[trigger] at_path(b, path))
}

/// Where entries read alike, a key at the top stands for the same in both.
pub proof fn lemma_top_alike(
    a: Seq<(Seq<char>, TomlV)>,
    b: Seq<(Seq<char>, TomlV)>,
    key: Seq<char>,
)
    requires
        reads_alike(a, b),
    ensures
        is_kept(entry_of(a, key), entry_of(b, key)),
{
    let path = seq![key];
    assert(is_kept(at_path(a, path), at_path(b, path)));
}

/// Where entries read alike, a key in a table stands for the same in both.
pub proof fn lemma_nested_alike(
    a: Seq<(Seq<char>, TomlV)>,
    b: Seq<(Seq<char>, TomlV)>,
    table: Seq<char>,
    key: Seq<char>,
)
    requires
        reads_alike(a, b),
    ensures
        is_kept(nested_entry(a, table, key), nested_entry(b, table, key)),
{
    lemma_top_alike(a, b, table);
    let path = seq![table, key];
    assert(path.drop_first() =~= seq![key]);
    reveal_with_fuel(at_path, 2);
    assert(is_kept(at_path(a, path), at_path(b, path)));
}

/// What `key` stands for in the table `table` of `entries`.
pub open spec fn nested_entry(
    entries: Seq<(Seq<char>, TomlV)>,
    table: Seq<char>,
    key: Seq<char>,
) -> Option<TomlV> {
    match entry_of(entries, table) {
        Some(TomlV::Table(inner)) => entry_of(inner, key),
        _ => None,
    }
}

#[verifier::external_type_specification]
#[verifier::external_body]
pub struct ExDocumentMut(toml_edit::DocumentMut);

#[verifier::external_type_specification]
#[verifier::external_body]
pub struct ExTable(toml_edit::Table);

#[verifier::external_type_specification]
#[verifier::external_body]
pub struct ExItem(toml_edit::Item);

#[verifier::external_type_specification]
#[verifier::external_body]
pub struct ExValue(toml_edit::Value);

#[verifier::external_type_specification]
#[verifier::external_body]
pub struct ExArray(toml_edit::Array);

/// What `toml_edit` makes of a text: the entries of its root table, or what it
/// says about the first error.
pub uninterp spec fn toml_parse(text: Seq<char>) -> Result<Seq<(Seq<char>, TomlV)>, Seq<char>>;

/// The entries of the root table of a document, in order.
pub uninterp spec fn doc_entries(doc: toml_edit::DocumentMut) -> Seq<(Seq<char>, TomlV)>;

/// Whether a document was read from a text or made empty, and since then only
/// changed by the functions of this module.
pub uninterp spec fn is_plain(doc: toml_edit::DocumentMut) -> bool;

/// The entries of a table, in order.
pub uninterp spec fn table_entries(table: toml_edit::Table) -> Seq<(Seq<char>, TomlV)>;

/// What an item of a table is.
pub uninterp spec fn item_value(item: toml_edit::Item) -> TomlV;

/// What a value is.
pub uninterp spec fn value_of(value: toml_edit::Value) -> TomlV;

/// The elements of an array, in order.
pub uninterp spec fn array_values(array: toml_edit::Array) -> Seq<TomlV>;

/// `DocumentMut::from_str` reads a document. The result depends on the text
/// alone; an error is given by what it displays.
#[verifier::external_body]
pub(crate) fn parse_toml(source: &str) -> (r: Result<toml_edit::DocumentMut, String>)
    ensures
        match r {
            Ok(doc) => toml_parse(source@) == Ok::<Seq<(Seq<char>, TomlV)>, Seq<char>>(
                doc_entries(doc),
            ) && is_plain(doc),
            Err(e) => toml_parse(source@) == Err::<Seq<(Seq<char>, TomlV)>, Seq<char>>(e@),
        },
{
    match source.parse::<toml_edit::DocumentMut>() {
        Ok(doc) => Ok(doc),
        Err(e) => Err(e.to_string()),
    }
}

/// `DocumentMut::new` makes a document without entries.
#[verifier::external_body]
pub(crate) fn empty_document() -> (r: toml_edit::DocumentMut)
    ensures
        doc_entries(r) == Seq::<(Seq<char>, TomlV)>::empty(),
        is_plain(r),
{
    toml_edit::DocumentMut::new()
}

/// Cloning a document gives one with the same entries.
#[verifier::external_body]
pub(crate) fn duplicate_document(doc: &toml_edit::DocumentMut) -> (r: toml_edit::DocumentMut)
    ensures
        doc_entries(r) == doc_entries(*doc),
        is_plain(r) == is_plain(*doc),
{
    doc.clone()
}

/// The `Display` of a document prints it as TOML. Reading that text again finds
/// what the document holds and nothing else: every value is written as it was read,
/// and no key is added. An empty table without a header of its own is not written.
/// How the text is laid out is left unsaid.
#[verifier::external_body]
pub(crate) fn document_text(doc: &toml_edit::DocumentMut) -> (r: String)
    requires
        is_plain(*doc),
    ensures
        match toml_parse(r@) {
            Ok(entries) => reads_alike(doc_entries(*doc), entries),
            Err(_) => false,
        },
{
    doc.to_string()
}

/// `DocumentMut::as_table` is the root table.
pub assume_specification[ toml_edit::DocumentMut::as_table ](doc: &toml_edit::DocumentMut) -> (r:
    &toml_edit::Table)
    ensures
        table_entries(*r) == doc_entries(*doc),
;

/// `Table::get` is the item of a key, where the table has one.
pub assume_specification<'a>[ toml_edit::Table::get ](table: &'a toml_edit::Table, key: &str) -> (r:
    Option<&'a toml_edit::Item>)
    ensures
        match r {
            Some(item) => entry_of(table_entries(*table), key@) == Some(item_value(*item)),
            None => entry_of(table_entries(*table), key@) is None,
        },
;

/// `Table::is_empty` holds of a table without entries.
pub assume_specification[ toml_edit::Table::is_empty ](table: &toml_edit::Table) -> (r: bool)
    ensures
        r == (table_entries(*table).len() == 0),
;

/// `Table::iter` goes through the entries in order; this is their keys, of which
/// no two are the same.
#[verifier::external_body]
pub(crate) fn table_keys(table: &toml_edit::Table) -> (r: Vec<String>)
    ensures
        text::texts(r@) == keys_of(table_entries(*table)),
        text::texts(r@).no_duplicates(),
{
    table.iter().map(|entry| entry.0.to_string()).collect()
}

/// `Item::as_table` is the table of an item that is one.
pub assume_specification[ toml_edit::Item::as_table ](item: &toml_edit::Item) -> (r: Option<
    &toml_edit::Table,
>)
    ensures
        match r {
            Some(table) => item_value(*item) == TomlV::Table(table_entries(*table)),
            None => !(item_value(*item) is Table),
        },
;

/// `Item::as_value` is the value of an item that is one.
pub assume_specification[ toml_edit::Item::as_value ](item: &toml_edit::Item) -> (r: Option<
    &toml_edit::Value,
>)
    ensures
        match r {
            Some(value) => item_value(*item) == value_of(*value),
            None => item_value(*item) is Table || item_value(*item) is Other,
        },
;

/// `Item::as_array` is the array of an item that is one.
pub assume_specification[ toml_edit::Item::as_array ](item: &toml_edit::Item) -> (r: Option<
    &toml_edit::Array,
>)
    ensures
        match r {
            Some(array) => item_value(*item) == TomlV::Array(array_values(*array)),
            None => !(item_value(*item) is Array),
        },
;

/// `Value::as_str` is the text of a value that is one.
pub assume_specification[ toml_edit::Value::as_str ](value: &toml_edit::Value) -> (r: Option<&str>)
    ensures
        match r {
            Some(s) => value_of(*value) == TomlV::Text(s@),
            None => !(value_of(*value) is Text),
        },
;

/// `Value::as_bool` is the flag of a value that is one.
pub assume_specification[ toml_edit::Value::as_bool ](value: &toml_edit::Value) -> (r: Option<bool>)
    ensures
        match r {
            Some(b) => value_of(*value) == TomlV::Flag(b),
            None => !(value_of(*value) is Flag),
        },
;

/// `Array::len` is the number of elements.
pub assume_specification[ toml_edit::Array::len ](array: &toml_edit::Array) -> (r: usize)
    ensures
        r == array_values(*array).len(),
;

/// `Array::get` is the element at an index, where there is one.
pub assume_specification[ toml_edit::Array::get ](array: &toml_edit::Array, index: usize) -> (r:
    Option<&toml_edit::Value>)
    ensures
        match r {
            Some(value) => index < array_values(*array).len() && array_values(*array)[index as int]
                == value_of(*value),
            None => index >= array_values(*array).len(),
        },
;

/// Assigning to `doc[key]` puts a flag there.
#[verifier::external_body]
pub(crate) fn set_flag(doc: &mut toml_edit::DocumentMut, key: &str, value: bool)
    requires
        is_plain(*old(doc)),
    ensures
        doc_entries(*final(doc)) == with_entry(doc_entries(*old(doc)), key@, TomlV::Flag(value)),
        is_plain(*final(doc)),
{
    doc[key] = toml_edit::value(value);
}

/// Assigning to `doc[key]` for a key that the document does not have puts an empty
/// table there, which has a header of its own.
#[verifier::external_body]
pub(crate) fn set_empty_table(doc: &mut toml_edit::DocumentMut, key: &str)
    requires
        is_plain(*old(doc)),
        entry_of(doc_entries(*old(doc)), key@) is None,
    ensures
        doc_entries(*final(doc)) == with_entry(
            doc_entries(*old(doc)),
            key@,
            TomlV::Table(Seq::empty()),
        ),
        is_plain(*final(doc)),
{
    doc[key] = toml_edit::table();
}

/// Assigning to `doc[table][key]` puts a text into a table.
#[verifier::external_body]
pub(crate) fn set_table_text(
    doc: &mut toml_edit::DocumentMut,
    table: &str,
    key: &str,
    value: &str,
)
    requires
        is_plain(*old(doc)),
        entry_of(doc_entries(*old(doc)), table@) matches Some(TomlV::Table(_)),
    ensures
        doc_entries(*final(doc)) == with_entry(
            doc_entries(*old(doc)),
            table@,
            TomlV::Table(
                with_entry(
                    entry_of(doc_entries(*old(doc)), table@)->0->Table_0,
                    key@,
                    TomlV::Text(value@),
                ),
            ),
        ),
        is_plain(*final(doc)),
{
    doc[table][key] = toml_edit::value(value);
}

/// `InlineTable::iter` goes through the entries in order; this is their keys, of
/// which no two are the same.
#[verifier::external_body]
pub(crate) fn inline_keys(doc: &toml_edit::DocumentMut, table: &str) -> (r: Option<Vec<String>>)
    ensures
        match r {
            Some(keys) => entry_of(doc_entries(*doc), table@) matches Some(
                TomlV::Inline(entries),
            ) && text::texts(keys@) == keys_of(entries) && text::texts(keys@).no_duplicates(),
            None => !(entry_of(doc_entries(*doc), table@) matches Some(TomlV::Inline(_))),
        },
{
    match doc.get(table) {
        Some(toml_edit::Item::Value(toml_edit::Value::InlineTable(inline))) => Some(
            inline.iter().map(|entry| entry.0.to_string()).collect(),
        ),
        _ => None,
    }
}

/// Assigning to `doc[table][key]` puts a clone of `from[table][key]` there. Between
/// braces a line may end anywhere, below a header not: `Decor::clear` takes away
/// what stood around the value, and `InlineTable::set_dotted` has a table that came
/// out of dotted keys written between braces of its own.
#[verifier::external_body]
pub(crate) fn copy_inline_value(
    doc: &mut toml_edit::DocumentMut,
    from: &toml_edit::DocumentMut,
    table: &str,
    key: &str,
)
    requires
        is_plain(*old(doc)),
        is_plain(*from),
        entry_of(doc_entries(*old(doc)), table@) matches Some(TomlV::Table(_)),
        entry_of(doc_entries(*from), table@) matches Some(TomlV::Inline(entries)) && entry_of(
            entries,
            key@,
        ) is Some,
    ensures
        doc_entries(*final(doc)) == with_entry(
            doc_entries(*old(doc)),
            table@,
            TomlV::Table(
                with_entry(
                    entry_of(doc_entries(*old(doc)), table@)->0->Table_0,
                    key@,
                    entry_of(entry_of(doc_entries(*from), table@)->0->Inline_0, key@)->0,
                ),
            ),
        ),
        is_plain(*final(doc)),
{
    let mut item = from[table][key].clone();
    if let Some(value) = item.as_value_mut() {
        value.decor_mut().clear();
    }
    if let Some(inner) = item.as_inline_table_mut() {
        inner.set_dotted(false);
    }
    doc[table][key] = item;
}

/// `Table::remove` takes a key out of a table of the document.
#[verifier::external_body]
pub(crate) fn remove_from_table(doc: &mut toml_edit::DocumentMut, table: &str, key: &str)
    requires
        is_plain(*old(doc)),
        entry_of(doc_entries(*old(doc)), table@) matches Some(TomlV::Table(_)),
    ensures
        doc_entries(*final(doc)) == with_entry(
            doc_entries(*old(doc)),
            table@,
            TomlV::Table(
                without_entry(entry_of(doc_entries(*old(doc)), table@)->0->Table_0, key@),
            ),
        ),
        is_plain(*final(doc)),
{
    if let Some(inner) = doc[table].as_table_mut() {
        inner.remove(key);
    }
}

/// `Table::remove` takes a key out of the root table.
#[verifier::external_body]
pub(crate) fn remove_key(doc: &mut toml_edit::DocumentMut, key: &str)
    requires
        is_plain(*old(doc)),
    ensures
        doc_entries(*final(doc)) == without_entry(doc_entries(*old(doc)), key@),
        is_plain(*final(doc)),
{
    doc.remove(key);
}

/// The texts of an array, where it holds nothing else.
pub open spec fn strings_of(values: Seq<TomlV>) -> Option<Seq<Seq<char>>> {
    if values.all(|v: TomlV| v is Text) {
        Some(values.map_values(|v: TomlV| v->Text_0))
    } else {
        None
    }
}

/// The texts of `array`, where it holds nothing else.
pub(crate) fn array_strings(array: &toml_edit::Array) -> (r: Option<Vec<String>>)
    ensures
        match r {
            Some(v) => strings_of(array_values(*array)) == Some(text::texts(v@)),
            None => strings_of(array_values(*array)) is None,
        },
{
    let ghost values = array_values(*array);
    let ghost is_text = |v: TomlV| v is Text;
    let mut out: Vec<String> = Vec::new();
    let mut i: usize = 0;
    while i < array.len()
        invariant
            i <= values.len(),
            values == array_values(*array),
            out@.len() == i,
            is_text == (|v: TomlV| v is Text),
            forall|k: int|
                0 <= k < i ==> #[trigger] values[k] == TomlV::Text(text::texts(out@)[k]),
        decreases values.len() - i,
    {
        if let Some(value) = array.get(i) {
            match value.as_str() {
                Some(s) => {
                    let ghost before = text::texts(out@);
                    out.push(s.to_string());
                    assert(text::texts(out@) =~= before.push(s@));
                },
                None => {
                    assert(!is_text(values[i as int]));
                    return None;
                },
            }
        }
        i += 1;
    }
    assert(values.map_values(|v: TomlV| v->Text_0) =~= text::texts(out@));
    Some(out)
}

} // verus!
