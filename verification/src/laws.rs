//! What holds of decoding, of error dictionaries and of compiling, whatever
//! the input.

use crate::descriptor::{keyword_position, DescriptorView};
use crate::four_char_code::{
    code_byte, code_text, FourCharCode, AS_ID, AS_NAME, AS_USER_RECORD_FIELDS,
    DESC_TYPE_DOUBLE, DESC_TYPE_ENUM, DESC_TYPE_FALSE, DESC_TYPE_LDATE, DESC_TYPE_LIST,
    DESC_TYPE_LONG, DESC_TYPE_NULL, DESC_TYPE_RECORD, DESC_TYPE_STRING, DESC_TYPE_TRUE,
    DESC_TYPE_TYPE, DESC_TYPE_URL,
};
use crate::output::{
    decode, decode_list, decode_pairs, decode_special, id_key, name_key, pair_count,
    OutputErrorView,
};
use crate::script::{
    compile_step, error_data, execution_result, CompilationErrorView, ErrorDictView,
    ExecutionErrorView, RangeEntry,
};
use crate::value::{
    entries_wf, has_key, inserted, key_index, lemma_inserted_wf, value_wf, values_equal,
    ValueView,
};
use vstd::prelude::*;

verus! {

/// Whether a tag is one of the twelve that the decoder reads.
pub open spec fn is_known_tag(tag: FourCharCode) -> bool {
    ||| tag == DESC_TYPE_STRING
    ||| tag == DESC_TYPE_LONG
    ||| tag == DESC_TYPE_LDATE
    ||| tag == DESC_TYPE_DOUBLE
    ||| tag == DESC_TYPE_TRUE
    ||| tag == DESC_TYPE_FALSE
    ||| tag == DESC_TYPE_ENUM
    ||| tag == DESC_TYPE_TYPE
    ||| tag == DESC_TYPE_URL
    ||| tag == DESC_TYPE_NULL
    ||| tag == DESC_TYPE_RECORD
    ||| tag == DESC_TYPE_LIST
}

/// A descriptor with a tag that the decoder does not read fails to decode,
/// whatever else it holds, and the error carries the tag as four
/// characters: each byte of the tag as its ASCII character, or as `?` where
/// it is none.
pub proof fn lemma_unknown_tag_is_reported(d: DescriptorView)
    requires
        !is_known_tag(d.descriptor_type),
    ensures
        decode(d) == Err::<ValueView, OutputErrorView>(
            OutputErrorView::UnknownDescriptorType(code_text(d.descriptor_type)),
        ),
        code_text(d.descriptor_type).len() == 4,
        forall|i: int|
            0 <= i < 4 ==> {
                let byte = code_byte(d.descriptor_type, i);
                #[trigger] code_text(d.descriptor_type)[i] == (if byte < 0x80 {
                    byte as char
                } else {
                    '?'
                })
            },
{
    let tag = d.descriptor_type;
    assert(0 <= code_byte(tag, 0) && 0 <= code_byte(tag, 1) && 0 <= code_byte(tag, 2) && 0
        <= code_byte(tag, 3));
}

/// Storing a value under a key leaves every entry that was there at its
/// place and under its key.
pub proof fn lemma_inserted_keeps_places(
    entries: Seq<(Seq<char>, ValueView)>,
    key: Seq<char>,
    value: ValueView,
)
    ensures
        inserted(entries, key, value).len() >= entries.len(),
        forall|i: int|
            0 <= i < entries.len() ==> (#[trigger] inserted(entries, key, value)[i]).0
                == entries[i].0,
{
    if has_key(entries, key) {
        let k = key_index(entries, key);
        assert(entries[k].0 == key);
    }
}

/// Decoding the named fields of a record leaves every entry that was there
/// before at its place and under its key.
pub proof fn lemma_pairs_keep_places(
    items: Seq<DescriptorView>,
    entries: Seq<(Seq<char>, ValueView)>,
    pairs: nat,
)
    ensures
        decode_pairs(items, entries, pairs) matches Ok(after) ==> after.len() >= entries.len()
            && forall|i: int| 0 <= i < entries.len() ==> (#[trigger] after[i]).0 == entries[i].0,
    decreases pairs,
{
    if pairs == 0 || 2 * pairs - 2 >= items.len() {
    } else {
        lemma_pairs_keep_places(items, entries, (pairs - 1) as nat);
        match decode_pairs(items, entries, (pairs - 1) as nat) {
            Ok(before) => {
                match decode(items[2 * pairs - 2]) {
                    Ok(ValueView::String(key)) => {
                        if 2 * pairs - 1 < items.len() {
                            match decode(items[2 * pairs - 1]) {
                                Ok(value) => {
                                    lemma_inserted_keeps_places(before, key, value);
                                },
                                Err(_) => {},
                            }
                        }
                    },
                    _ => {},
                }
            },
            Err(_) => {},
        }
    }
}

/// In the object that a record decodes to, the special fields come first
/// whatever the order in which the record keeps its children: `id` is the
/// first key where the record has an `id` field, and `name` is the key
/// right after it, or the first key where the record has no `id` field.
pub proof fn lemma_special_fields_come_first(d: DescriptorView)
    requires
        d.descriptor_type == DESC_TYPE_RECORD,
        decode(d) is Ok,
    ensures
        decode(d)->Ok_0 is Object,
        ({
            let entries = decode(d)->Ok_0->Object_0;
            let has_id = keyword_position(d.keyword_items, AS_ID, 0) is Some;
            let has_name = keyword_position(d.keyword_items, AS_NAME, 0) is Some;
            &&& has_id ==> entries.len() >= 1 && entries[0].0 == id_key()
            &&& has_id && has_name ==> entries.len() >= 2 && entries[1].0 == name_key()
            &&& !has_id && has_name ==> entries.len() >= 1 && entries[0].0 == name_key()
        }),
{
    let empty = Seq::<(Seq<char>, ValueView)>::empty();
    crate::descriptor::lemma_keyword_position(d.keyword_items, AS_ID, 0);
    crate::descriptor::lemma_keyword_position(d.keyword_items, AS_NAME, 0);
    crate::descriptor::lemma_keyword_position(d.keyword_items, AS_USER_RECORD_FIELDS, 0);
    let with_id = decode_special(d.keyword_items, AS_ID, id_key(), empty)->Ok_0;
    let with_name = decode_special(d.keyword_items, AS_NAME, name_key(), with_id)->Ok_0;
    let has_id = keyword_position(d.keyword_items, AS_ID, 0) is Some;
    let has_name = keyword_position(d.keyword_items, AS_NAME, 0) is Some;
    assert(!has_key(empty, id_key()));
    assert(id_key() != name_key()) by {
        assert(id_key().len() != name_key().len());
    }
    if has_id {
        assert(with_id.len() == 1 && with_id[0].0 == id_key());
        if has_name {
            assert(!has_key(with_id, name_key()));
            assert(with_name.len() == 2 && with_name[0].0 == id_key() && with_name[1].0
                == name_key());
        } else {
            assert(with_name == with_id);
        }
    } else {
        assert(with_id == empty);
        if has_name {
            assert(with_name.len() == 1 && with_name[0].0 == name_key());
        }
    }
    match keyword_position(d.keyword_items, AS_USER_RECORD_FIELDS, 0) {
        Some(i) => {
            let fields = d.keyword_items[i].1.items;
            lemma_pairs_keep_places(fields, with_name, pair_count(fields.len()));
        },
        None => {},
    }
}

/// An error dictionary with a message and without a range that can be read
/// gives the message and the empty span at the start of the source.
pub proof fn lemma_error_without_range(message: Seq<char>, range: RangeEntry)
    requires
        !(range is Range),
    ensures
        error_data(Some(ErrorDictView { message: Some(message), range })) == Some(
            (message, (0usize, 0usize)),
        ),
{
}

/// Compiling is idempotent: after a call to compile that succeeded, every
/// further call succeeds and leaves the script compiled, whatever the
/// engine would answer, so that the engine need not be asked again.
pub proof fn lemma_compile_is_idempotent(
    compiled: bool,
    first: Result<(), Option<ErrorDictView>>,
    second: Result<(), Option<ErrorDictView>>,
)
    requires
        compile_step(compiled, first).1 is Ok,
    ensures
        compile_step(compiled, first).0,
        compile_step(compile_step(compiled, first).0, second) == (
            true,
            Ok::<(), CompilationErrorView>(()),
        ),
{
}

/// A call to compile that fails leaves the script as it was.
pub proof fn lemma_failed_compile_changes_nothing(
    compiled: bool,
    outcome: Result<(), Option<ErrorDictView>>,
)
    requires
        compile_step(compiled, outcome).1 is Err,
    ensures
        compile_step(compiled, outcome).0 == compiled,
{
}

/// A run that gave neither a result nor an error comes to null, as does a
/// run whose result is the null descriptor.
pub proof fn lemma_no_result_is_null()
    ensures
        execution_result(None, None) == Ok::<ValueView, ExecutionErrorView>(ValueView::Null),
{
}

proof fn lemma_list_is_wf(items: Seq<DescriptorView>, count: nat)
    ensures
        decode_list(items, count) matches Ok(values) ==> forall|i: int|
            0 <= i < values.len() ==> value_wf(#[trigger] values[i]),
    decreases items, 0nat, count,
{
    if count == 0 || count > items.len() {
    } else {
        lemma_list_is_wf(items, (count - 1) as nat);
        lemma_decoded_is_wf(items[count - 1]);
    }
}

proof fn lemma_special_is_wf(
    items: Seq<(FourCharCode, DescriptorView)>,
    keyword: FourCharCode,
    key: Seq<char>,
    entries: Seq<(Seq<char>, ValueView)>,
)
    requires
        entries_wf(entries),
    ensures
        decode_special(items, keyword, key, entries) matches Ok(after) ==> entries_wf(after),
    decreases items, 0nat, 0nat,
{
    match keyword_position(items, keyword, 0) {
        Some(i) => {
            if 0 <= i < items.len() {
                lemma_decoded_is_wf(items[i].1);
                match decode(items[i].1) {
                    Ok(value) => {
                        lemma_inserted_wf(entries, key, value);
                    },
                    Err(_) => {},
                }
            }
        },
        None => {},
    }
}

proof fn lemma_pairs_are_wf(
    items: Seq<DescriptorView>,
    entries: Seq<(Seq<char>, ValueView)>,
    pairs: nat,
)
    requires
        entries_wf(entries),
    ensures
        decode_pairs(items, entries, pairs) matches Ok(after) ==> entries_wf(after),
    decreases items, 0nat, pairs,
{
    if pairs == 0 || 2 * pairs - 2 >= items.len() {
    } else {
        lemma_pairs_are_wf(items, entries, (pairs - 1) as nat);
        match decode_pairs(items, entries, (pairs - 1) as nat) {
            Ok(before) => {
                match decode(items[2 * pairs - 2]) {
                    Ok(ValueView::String(key)) => {
                        if 2 * pairs - 1 < items.len() {
                            lemma_decoded_is_wf(items[2 * pairs - 1]);
                            match decode(items[2 * pairs - 1]) {
                                Ok(value) => {
                                    lemma_inserted_wf(before, key, value);
                                },
                                Err(_) => {},
                            }
                        }
                    },
                    _ => {},
                }
            },
            Err(_) => {},
        }
    }
}

/// Every value that a descriptor decodes to is well formed: a negative
/// integer is stored as one, a double is finite, and no object has a key
/// twice.
pub proof fn lemma_decoded_is_wf(d: DescriptorView)
    ensures
        decode(d) matches Ok(value) ==> value_wf(value),
    decreases d, 1nat, 0nat,
{
    let tag = d.descriptor_type;
    if tag == DESC_TYPE_RECORD {
        let empty = Seq::<(Seq<char>, ValueView)>::empty();
        lemma_special_is_wf(d.keyword_items, AS_ID, id_key(), empty);
        match decode_special(d.keyword_items, AS_ID, id_key(), empty) {
            Ok(with_id) => {
                lemma_special_is_wf(d.keyword_items, AS_NAME, name_key(), with_id);
                match decode_special(d.keyword_items, AS_NAME, name_key(), with_id) {
                    Ok(with_name) => {
                        match keyword_position(d.keyword_items, AS_USER_RECORD_FIELDS, 0) {
                            Some(i) => {
                                if 0 <= i < d.keyword_items.len() {
                                    let fields = d.keyword_items[i].1.items;
                                    lemma_pairs_are_wf(
                                        fields,
                                        with_name,
                                        pair_count(fields.len()),
                                    );
                                }
                            },
                            None => {},
                        }
                    },
                    Err(_) => {},
                }
            },
            Err(_) => {},
        }
    } else if tag == DESC_TYPE_LIST {
        lemma_list_is_wf(d.items, d.items.len());
    }
}

/// Every well-formed value is equal to itself.
pub proof fn lemma_value_equals_itself(value: ValueView)
    requires
        value_wf(value),
    ensures
        values_equal(value, value),
    decreases value,
{
    match value {
        ValueView::Array(items) => {
            assert forall|i: int| 0 <= i < items.len() implies values_equal(
                #[trigger] items[i],
                items[i],
            ) by {
                lemma_value_equals_itself(items[i]);
            }
        },
        ValueView::Object(entries) => {
            assert forall|i: int| 0 <= i < entries.len() implies {
                &&& has_key(entries, (#[trigger] entries[i]).0)
                &&& values_equal(entries[i].1, entries[key_index(entries, entries[i].0)].1)
            } by {
                let found = key_index(entries, entries[i].0);
                if found != i {
                    assert(entries[found].0 != entries[i].0);
                }
                lemma_value_equals_itself(entries[i].1);
            }
        },
        _ => {},
    }
}

/// The text that a descriptor gives as a key, where it is a text
/// descriptor with text.
pub open spec fn key_text(d: DescriptorView) -> Option<Seq<char>> {
    if d.descriptor_type == DESC_TYPE_STRING {
        d.string_value
    } else {
        None
    }
}

/// The named fields of a record keep their order: where the keys of the
/// first `pairs` pairs are texts that differ from each other and from the
/// keys of the entries that are there already, and the pairs decode, each
/// pair adds one entry at the end, under its key, in the order of the pairs.
pub proof fn lemma_named_fields_keep_their_order(
    items: Seq<DescriptorView>,
    entries: Seq<(Seq<char>, ValueView)>,
    pairs: nat,
)
    requires
        2 * pairs <= items.len(),
        forall|t: int| 0 <= t < pairs ==> key_text(#[trigger] items[2 * t]) is Some,
        forall|t: int, u: int|
            0 <= t < pairs && 0 <= u < pairs && t != u ==> key_text(#[trigger] items[2 * t])
                != key_text(#[trigger] items[2 * u]),
        forall|t: int|
            0 <= t < pairs ==> !has_key(entries, key_text(#[trigger] items[2 * t])->0),
        decode_pairs(items, entries, pairs) is Ok,
    ensures
        decode_pairs(items, entries, pairs)->Ok_0.len() == entries.len() + pairs,
        forall|i: int|
            0 <= i < entries.len() ==> (#[trigger] decode_pairs(items, entries, pairs)->Ok_0[i])
                == entries[i],
        forall|t: int|
            0 <= t < pairs ==> {
                &&& (#[trigger] decode_pairs(items, entries, pairs)->Ok_0[entries.len() + t]).0
                    == key_text(items[2 * t])->0
                &&& decode(items[2 * t + 1]) == Ok::<ValueView, OutputErrorView>(
                    decode_pairs(items, entries, pairs)->Ok_0[entries.len() + t].1,
                )
            },
    decreases pairs,
{
    if pairs > 0 {
        let last = pairs - 1;
        assert(decode_pairs(items, entries, last as nat) is Ok);
        lemma_named_fields_keep_their_order(items, entries, last as nat);
        let before = decode_pairs(items, entries, last as nat)->Ok_0;
        assert(2 * pairs - 2 == 2 * last && 2 * pairs - 1 == 2 * last + 1);
        assert(key_text(items[2 * last]) is Some);
        let key = key_text(items[2 * last])->0;
        assert(decode(items[2 * last]) == Ok::<ValueView, OutputErrorView>(
            ValueView::String(key),
        ));
        assert(!has_key(before, key)) by {
            if has_key(before, key) {
                let at = key_index(before, key);
                if at < entries.len() {
                    assert(before[at] == entries[at]);
                    assert(has_key(entries, key));
                } else {
                    let u = at - entries.len();
                    assert(before[entries.len() + u].0 == key_text(items[2 * u])->0);
                    assert(key_text(items[2 * u]) != key_text(items[2 * last]));
                }
            }
        }
        let value = decode(items[2 * last + 1])->Ok_0;
        let after = decode_pairs(items, entries, pairs)->Ok_0;
        assert(after == before.push((key, value)));
        assert forall|t: int| 0 <= t < pairs implies {
            &&& (#[trigger] after[entries.len() + t]).0 == key_text(items[2 * t])->0
            &&& decode(items[2 * t + 1]) == Ok::<ValueView, OutputErrorView>(
                after[entries.len() + t].1,
            )
        } by {
            if t < last {
                assert(after[entries.len() + t] == before[entries.len() + t]);
            }
        }
    }
}

} // verus!
