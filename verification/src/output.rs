//! From the descriptors that the scripting engine hands back to values.

use crate::descriptor::{
    descriptor_at_index, get_descriptor_for_keyword, get_descriptor_type, keyword_position,
    lemma_keyword_position, number_of_items, Descriptor, DescriptorView,
};
use crate::float_bits::{
    is_finite, non_finite_text, non_finite_to_string, truncate_to_i64, truncated,
};
use crate::four_char_code::{
    code_text, four_char_code_to_string, FourCharCode, AS_ID, AS_NAME, AS_USER_RECORD_FIELDS,
    DESC_TYPE_DOUBLE, DESC_TYPE_ENUM, DESC_TYPE_FALSE, DESC_TYPE_LDATE, DESC_TYPE_LIST,
    DESC_TYPE_LONG, DESC_TYPE_NULL, DESC_TYPE_RECORD, DESC_TYPE_STRING, DESC_TYPE_TRUE,
    DESC_TYPE_TYPE, DESC_TYPE_URL, OSTYPE_MISSING, OSTYPE_NO, OSTYPE_NULL, OSTYPE_YES,
};
use crate::number::Number;
use crate::laws::lemma_decoded_is_wf;
use crate::value::{
    inserted, lemma_array_view_is, lemma_object_view, value_wf, Object, Value, ValueView,
};
use vstd::prelude::*;

verus! {

/// Why a descriptor could not be turned into a value.
#[derive(Debug, PartialEq, Eq)]
pub enum ScriptOutputConversionError {
    /// A text descriptor gave no text.
    StringExpectedButNoneFound,
    /// A date descriptor gave no date.
    DateExpectedButNoneFound,
    /// The key of a record field is the given value, which is no text.
    StringExpectedButValueFound(Value),
    /// An enumerator or a type that stands for no value; its code as text.
    UnexpectedTypedValue(String),
    /// A descriptor with a tag that is not known; the tag as text.
    UnknownDescriptorType(String),
    /// A descriptor has no item at the given index, counted from one.
    DescriptorNotFoundAtIndex(isize),
    /// A double that is infinite or not a number, named as text.
    InfiniteFloat(String),
    /// A URL descriptor gave no text.
    UrlExpectedButNoneFound,
}

/// The mathematical model of a [`ScriptOutputConversionError`].
pub enum OutputErrorView {
    StringExpectedButNoneFound,
    DateExpectedButNoneFound,
    StringExpectedButValueFound(ValueView),
    UnexpectedTypedValue(Seq<char>),
    UnknownDescriptorType(Seq<char>),
    DescriptorNotFoundAtIndex(isize),
    InfiniteFloat(Seq<char>),
    UrlExpectedButNoneFound,
}

impl View for ScriptOutputConversionError {
    type V = OutputErrorView;

    open spec fn view(&self) -> OutputErrorView {
        match self {
            ScriptOutputConversionError::StringExpectedButNoneFound =>
                OutputErrorView::StringExpectedButNoneFound,
            ScriptOutputConversionError::DateExpectedButNoneFound =>
                OutputErrorView::DateExpectedButNoneFound,
            ScriptOutputConversionError::StringExpectedButValueFound(value) =>
                OutputErrorView::StringExpectedButValueFound(value@),
            ScriptOutputConversionError::UnexpectedTypedValue(code) =>
                OutputErrorView::UnexpectedTypedValue(code@),
            ScriptOutputConversionError::UnknownDescriptorType(code) =>
                OutputErrorView::UnknownDescriptorType(code@),
            ScriptOutputConversionError::DescriptorNotFoundAtIndex(index) =>
                OutputErrorView::DescriptorNotFoundAtIndex(*index),
            ScriptOutputConversionError::InfiniteFloat(text) => OutputErrorView::InfiniteFloat(
                text@,
            ),
            ScriptOutputConversionError::UrlExpectedButNoneFound =>
                OutputErrorView::UrlExpectedButNoneFound,
        }
    }
}

/// The model of what decoding gives: of the value, or of the error.
pub open spec fn decoded_view(result: Result<Value, ScriptOutputConversionError>) -> Result<
    ValueView,
    OutputErrorView,
> {
    match result {
        Ok(value) => Ok(value@),
        Err(error) => Err(error@),
    }
}

/// The key under which a record's `id` field is decoded.
pub open spec fn id_key() -> Seq<char> {
    seq!['i', 'd']
}

/// The key under which a record's `name` field is decoded.
pub open spec fn name_key() -> Seq<char> {
    seq!['n', 'a', 'm', 'e']
}

/// How an index is reported that has no item: as it is, or as the largest
/// index that the report can hold.
pub open spec fn reported_index(index: int) -> isize {
    if index <= isize::MAX {
        index as isize
    } else {
        isize::MAX
    }
}

/// The number of key and value pairs in a flat list of `count` items: an
/// odd item at the end is a key without its value.
pub open spec fn pair_count(count: nat) -> nat {
    ((count + 1) / 2) as nat
}

/// The value that a descriptor stands for, or the reason why it stands for
/// none. The tag alone decides how the descriptor is read.
pub open spec fn decode(d: DescriptorView) -> Result<ValueView, OutputErrorView>
    decreases d, 0nat,
{
    let tag = d.descriptor_type;
    if tag == DESC_TYPE_STRING {
        match d.string_value {
            Some(text) => Ok(ValueView::String(text)),
            None => Err(OutputErrorView::StringExpectedButNoneFound),
        }
    } else if tag == DESC_TYPE_LONG {
        Ok(ValueView::Number(Number::of_i64(d.int32_value as i64)))
    } else if tag == DESC_TYPE_LDATE {
        match d.date_bits {
            Some(bits) => Ok(ValueView::Number(Number::of_i64(truncated(bits) as i64))),
            None => Err(OutputErrorView::DateExpectedButNoneFound),
        }
    } else if tag == DESC_TYPE_DOUBLE {
        if is_finite(d.double_bits) {
            Ok(ValueView::Number(Number::Float(d.double_bits)))
        } else {
            Err(OutputErrorView::InfiniteFloat(non_finite_text(d.double_bits)))
        }
    } else if tag == DESC_TYPE_TRUE {
        Ok(ValueView::Bool(true))
    } else if tag == DESC_TYPE_FALSE {
        Ok(ValueView::Bool(false))
    } else if tag == DESC_TYPE_ENUM {
        if d.type_code_value == OSTYPE_YES {
            Ok(ValueView::Bool(true))
        } else if d.type_code_value == OSTYPE_NO {
            Ok(ValueView::Bool(false))
        } else {
            Err(OutputErrorView::UnexpectedTypedValue(code_text(d.type_code_value)))
        }
    } else if tag == DESC_TYPE_TYPE {
        if d.type_code_value == OSTYPE_MISSING || d.type_code_value == OSTYPE_NULL {
            Ok(ValueView::Null)
        } else {
            Err(OutputErrorView::UnexpectedTypedValue(code_text(d.type_code_value)))
        }
    } else if tag == DESC_TYPE_URL {
        match d.string_value {
            Some(text) => Ok(ValueView::String(text)),
            None => Err(OutputErrorView::UrlExpectedButNoneFound),
        }
    } else if tag == DESC_TYPE_NULL {
        Ok(ValueView::Null)
    } else if tag == DESC_TYPE_RECORD {
        match decode_special(d.keyword_items, AS_ID, id_key(), Seq::empty()) {
            Err(error) => Err(error),
            Ok(with_id) => match decode_special(d.keyword_items, AS_NAME, name_key(), with_id) {
                Err(error) => Err(error),
                Ok(with_name) => match keyword_position(
                    d.keyword_items,
                    AS_USER_RECORD_FIELDS,
                    0,
                ) {
                    Some(i) => if 0 <= i < d.keyword_items.len() {
                        match decode_pairs(
                            d.keyword_items[i].1.items,
                            with_name,
                            pair_count(d.keyword_items[i].1.items.len()),
                        ) {
                            Ok(entries) => Ok(ValueView::Object(entries)),
                            Err(error) => Err(error),
                        }
                    } else {
                        Ok(ValueView::Object(with_name))
                    },
                    None => Ok(ValueView::Object(with_name)),
                },
            },
        }
    } else if tag == DESC_TYPE_LIST {
        match decode_list(d.items, d.items.len()) {
            Ok(values) => Ok(ValueView::Array(values)),
            Err(error) => Err(error),
        }
    } else {
        Err(OutputErrorView::UnknownDescriptorType(code_text(tag)))
    }
}

/// The values of the first `count` items, in order, or the first error
/// among them.
pub open spec fn decode_list(items: Seq<DescriptorView>, count: nat) -> Result<
    Seq<ValueView>,
    OutputErrorView,
>
    decreases items, count,
{
    if count == 0 || count > items.len() {
        Ok(Seq::empty())
    } else {
        match decode_list(items, (count - 1) as nat) {
            Err(error) => Err(error),
            Ok(values) => match decode(items[count - 1]) {
                Err(error) => Err(error),
                Ok(value) => Ok(values.push(value)),
            },
        }
    }
}

/// The entries after the child under `keyword`, where there is one, has
/// been decoded and stored under `key`.
pub open spec fn decode_special(
    items: Seq<(FourCharCode, DescriptorView)>,
    keyword: FourCharCode,
    key: Seq<char>,
    entries: Seq<(Seq<char>, ValueView)>,
) -> Result<Seq<(Seq<char>, ValueView)>, OutputErrorView>
    decreases items, 0nat,
{
    match keyword_position(items, keyword, 0) {
        Some(i) => if 0 <= i < items.len() {
            match decode(items[i].1) {
                Err(error) => Err(error),
                Ok(value) => Ok(inserted(entries, key, value)),
            }
        } else {
            Ok(entries)
        },
        None => Ok(entries),
    }
}

/// The entries after the first `pairs` pairs of a flat list of keys and
/// values have been decoded and stored, one after the other. A key must
/// decode to text, and must have a value after it.
pub open spec fn decode_pairs(
    items: Seq<DescriptorView>,
    entries: Seq<(Seq<char>, ValueView)>,
    pairs: nat,
) -> Result<Seq<(Seq<char>, ValueView)>, OutputErrorView>
    decreases items, pairs,
{
    if pairs == 0 || 2 * pairs - 2 >= items.len() {
        Ok(entries)
    } else {
        match decode_pairs(items, entries, (pairs - 1) as nat) {
            Err(error) => Err(error),
            Ok(before) => match decode(items[2 * pairs - 2]) {
                Err(error) => Err(error),
                Ok(ValueView::String(key)) => if 2 * pairs - 1 < items.len() {
                    match decode(items[2 * pairs - 1]) {
                        Err(error) => Err(error),
                        Ok(value) => Ok(inserted(before, key, value)),
                    }
                } else {
                    Err(
                        OutputErrorView::DescriptorNotFoundAtIndex(
                            reported_index(2 * pairs as int),
                        ),
                    )
                },
                Ok(other) => Err(OutputErrorView::StringExpectedButValueFound(other)),
            },
        }
    }
}

/// What decoding the item at `index`, counted from one, gives: its value,
/// or the report that there is no such item.
pub open spec fn decode_nested(d: DescriptorView, index: int) -> Result<
    ValueView,
    OutputErrorView,
> {
    if 1 <= index <= d.items.len() {
        decode(d.items[index - 1])
    } else {
        Err(OutputErrorView::DescriptorNotFoundAtIndex(reported_index(index)))
    }
}

/// Once an item fails to decode, the list fails with that error however
/// many more items are taken.
pub proof fn lemma_list_error_stays(items: Seq<DescriptorView>, failed: nat, count: nat)
    requires
        failed <= count <= items.len(),
        decode_list(items, failed) is Err,
    ensures
        decode_list(items, count) == decode_list(items, failed),
    decreases count - failed,
{
    if failed < count {
        lemma_list_error_stays(items, failed, (count - 1) as nat);
    }
}

/// Once a pair fails to decode, the record fails with that error however
/// many more pairs are taken.
pub proof fn lemma_pairs_error_stays(
    items: Seq<DescriptorView>,
    entries: Seq<(Seq<char>, ValueView)>,
    failed: nat,
    pairs: nat,
)
    requires
        failed <= pairs,
        2 * pairs <= items.len() + 1,
        decode_pairs(items, entries, failed) is Err,
    ensures
        decode_pairs(items, entries, pairs) == decode_pairs(items, entries, failed),
    decreases pairs - failed,
{
    if failed < pairs {
        lemma_pairs_error_stays(items, entries, failed, (pairs - 1) as nat);
    }
}

fn report_index(index: usize) -> (reported: isize)
    ensures
        reported == reported_index(index as int),
{
    if index <= isize::MAX as usize {
        index as isize
    } else {
        isize::MAX
    }
}

fn report_index_after(count: usize) -> (reported: isize)
    ensures
        reported == reported_index(count + 1),
{
    if count < isize::MAX as usize {
        (count + 1) as isize
    } else {
        isize::MAX
    }
}

/// Decodes the item of a descriptor at `index`, counted from one. Where the
/// descriptor has no such item, the error names the index.
pub fn get_nested_ns_apple_event_descriptor_value(descriptor: &Descriptor, index: usize) -> (result:
    Result<Value, ScriptOutputConversionError>)
    ensures
        decoded_view(result) == decode_nested(descriptor@, index as int),
    decreases descriptor, 0nat,
{
    match descriptor_at_index(descriptor, index) {
        Some(item) => get_value_from_ns_apple_event_descriptor(item),
        None => Err(ScriptOutputConversionError::DescriptorNotFoundAtIndex(report_index(index))),
    }
}

/// Where the descriptor keeps a child under `keyword`, decodes it and stores
/// its value under `key`. The object is left as it was where there is no
/// such child, and where the child fails to decode.
pub fn add_special_key_to_map_if_defined(
    map: &mut Object,
    descriptor: &Descriptor,
    keyword: FourCharCode,
    key: &str,
) -> (result: Result<(), ScriptOutputConversionError>)
    ensures
        match decode_special(descriptor@.keyword_items, keyword, key@, old(map)@) {
            Ok(entries) => result is Ok && final(map)@ == entries,
            Err(error) => result is Err && result->Err_0@ == error && final(map)@ == old(map)@,
        },
    decreases descriptor, 0nat,
{
    match get_descriptor_for_keyword(descriptor, keyword) {
        Some(child) => {
            match get_value_from_ns_apple_event_descriptor(child) {
                Ok(value) => {
                    map.insert(key.to_owned(), value);
                    Ok(())
                },
                Err(error) => Err(error),
            }
        },
        None => Ok(()),
    }
}

/// Turns a descriptor into the value it stands for. The four-byte tag of
/// the descriptor decides how it is read; a tag that is not known is an
/// error that names the tag. A record gives an object that holds the `id`
/// field first and the `name` field second, where the record has them, and
/// then the fields that the script named, in their order. A list gives an
/// array of its items in order. The value is well formed.
pub fn get_value_from_ns_apple_event_descriptor(descriptor: &Descriptor) -> (result: Result<
    Value,
    ScriptOutputConversionError,
>)
    ensures
        decoded_view(result) == decode(descriptor@),
        result matches Ok(value) ==> value_wf(value@),
    decreases descriptor, 3nat,
{
    let result = decode_by_tag(descriptor);
    proof {
        lemma_decoded_is_wf(descriptor@);
    }
    result
}

fn decode_by_tag(descriptor: &Descriptor) -> (result: Result<Value, ScriptOutputConversionError>)
    ensures
        decoded_view(result) == decode(descriptor@),
    decreases descriptor, 2nat,
{
    let tag = get_descriptor_type(descriptor);
    if tag == DESC_TYPE_STRING {
        match &descriptor.string_value {
            Some(text) => Ok(Value::String(text.clone())),
            None => Err(ScriptOutputConversionError::StringExpectedButNoneFound),
        }
    } else if tag == DESC_TYPE_LONG {
        Ok(Value::Number(Number::from_i64(descriptor.int32_value as i64)))
    } else if tag == DESC_TYPE_LDATE {
        match descriptor.date_bits {
            Some(bits) => Ok(Value::Number(Number::from_i64(truncate_to_i64(bits)))),
            None => Err(ScriptOutputConversionError::DateExpectedButNoneFound),
        }
    } else if tag == DESC_TYPE_DOUBLE {
        let bits = descriptor.double_bits;
        match non_finite_to_string(bits) {
            None => Ok(Value::Number(Number::Float(bits))),
            Some(text) => Err(ScriptOutputConversionError::InfiniteFloat(text)),
        }
    } else if tag == DESC_TYPE_TRUE {
        Ok(Value::Bool(true))
    } else if tag == DESC_TYPE_FALSE {
        Ok(Value::Bool(false))
    } else if tag == DESC_TYPE_ENUM {
        let type_code_value = descriptor.type_code_value;
        if type_code_value == OSTYPE_YES {
            Ok(Value::Bool(true))
        } else if type_code_value == OSTYPE_NO {
            Ok(Value::Bool(false))
        } else {
            Err(
                ScriptOutputConversionError::UnexpectedTypedValue(
                    four_char_code_to_string(type_code_value),
                ),
            )
        }
    } else if tag == DESC_TYPE_TYPE {
        let type_code_value = descriptor.type_code_value;
        if type_code_value == OSTYPE_MISSING || type_code_value == OSTYPE_NULL {
            Ok(Value::Null)
        } else {
            Err(
                ScriptOutputConversionError::UnexpectedTypedValue(
                    four_char_code_to_string(type_code_value),
                ),
            )
        }
    } else if tag == DESC_TYPE_URL {
        match &descriptor.string_value {
            Some(url) => Ok(Value::String(url.clone())),
            None => Err(ScriptOutputConversionError::UrlExpectedButNoneFound),
        }
    } else if tag == DESC_TYPE_NULL {
        Ok(Value::Null)
    } else if tag == DESC_TYPE_RECORD {
        decode_record(descriptor)
    } else if tag == DESC_TYPE_LIST {
        let count = number_of_items(descriptor);
        let mut result: Vec<Value> = Vec::new();
        let ghost mut models: Seq<ValueView> = Seq::empty();
        let mut done: usize = 0;
        while done < count
            invariant
                done <= count,
                count == descriptor@.items.len(),
                descriptor@.descriptor_type == DESC_TYPE_LIST,
                decode_list(descriptor@.items, done as nat) == Ok::<
                    Seq<ValueView>,
                    OutputErrorView,
                >(models),
                models.len() == done,
                result.len() == done,
                forall|j: int| 0 <= j < done ==> (#[trigger] models[j]) == result[j]@,
            decreases count - done,
        {
            match get_nested_ns_apple_event_descriptor_value(descriptor, done + 1) {
                Ok(value) => {
                    proof {
                        models = models.push(value@);
                    }
                    result.push(value);
                },
                Err(error) => {
                    proof {
                        lemma_list_error_stays(
                            descriptor@.items,
                            (done + 1) as nat,
                            count as nat,
                        );
                    }
                    return Err(error);
                },
            }
            done = done + 1;
        }
        proof {
            lemma_array_view_is(result, models);
        }
        Ok(Value::Array(result))
    } else {
        Err(ScriptOutputConversionError::UnknownDescriptorType(four_char_code_to_string(tag)))
    }
}

/// Decodes a record: the `id` field, the `name` field, then the flat list
/// of the keys and values that the script named.
fn decode_record(descriptor: &Descriptor) -> (result: Result<Value, ScriptOutputConversionError>)
    requires
        descriptor@.descriptor_type == DESC_TYPE_RECORD,
    ensures
        decoded_view(result) == decode(descriptor@),
    decreases descriptor, 1nat,
{
    let mut result = Object::new();
    proof {
        reveal_strlit("id");
        reveal_strlit("name");
        assert("id"@ =~= id_key());
        assert("name"@ =~= name_key());
    }
    match add_special_key_to_map_if_defined(&mut result, descriptor, AS_ID, "id") {
        Err(error) => {
            return Err(error);
        },
        Ok(()) => {},
    }
    match add_special_key_to_map_if_defined(&mut result, descriptor, AS_NAME, "name") {
        Err(error) => {
            return Err(error);
        },
        Ok(()) => {},
    }
    match get_descriptor_for_keyword(descriptor, AS_USER_RECORD_FIELDS) {
        Some(fields) => {
            proof {
                lemma_keyword_position(descriptor@.keyword_items, AS_USER_RECORD_FIELDS, 0);
            }
            let count = number_of_items(fields);
            let ghost start = result@;
            let ghost mut pairs: nat = 0;
            let mut at: usize = 0;
            while at < count
                invariant
                    at <= count,
                    at == 2 * pairs,
                    count == fields@.items.len(),
                    decode(descriptor@) == (match decode_pairs(
                        fields@.items,
                        start,
                        pair_count(count as nat),
                    ) {
                        Ok(entries) => Ok::<ValueView, OutputErrorView>(
                            ValueView::Object(entries),
                        ),
                        Err(error) => Err(error),
                    }),
                    decreases_to!(descriptor => fields),
                    decode_pairs(fields@.items, start, pairs) == Ok::<
                        Seq<(Seq<char>, ValueView)>,
                        OutputErrorView,
                    >(result@),
                decreases count - at,
            {
                let key = match get_nested_ns_apple_event_descriptor_value(fields, at + 1) {
                    Ok(Value::String(key)) => key,
                    Ok(unexpected_value) => {
                        proof {
                            lemma_pairs_error_stays(
                                fields@.items,
                                start,
                                pairs + 1,
                                pair_count(count as nat),
                            );
                        }
                        return Err(
                            ScriptOutputConversionError::StringExpectedButValueFound(
                                unexpected_value,
                            ),
                        );
                    },
                    Err(error) => {
                        proof {
                            lemma_pairs_error_stays(
                                fields@.items,
                                start,
                                pairs + 1,
                                pair_count(count as nat),
                            );
                        }
                        return Err(error);
                    },
                };
                let value = if at + 1 < count {
                    get_nested_ns_apple_event_descriptor_value(fields, at + 2)
                } else {
                    Err(
                        ScriptOutputConversionError::DescriptorNotFoundAtIndex(
                            report_index_after(count),
                        ),
                    )
                };
                match value {
                    Ok(value) => {
                        result.insert(key, value);
                    },
                    Err(error) => {
                        proof {
                            lemma_pairs_error_stays(
                                fields@.items,
                                start,
                                pairs + 1,
                                pair_count(count as nat),
                            );
                        }
                        return Err(error);
                    },
                }
                at = at + 2;
                proof {
                    pairs = pairs + 1;
                }
            }
            proof {
                lemma_object_view(result);
            }
            Ok(Value::Object(result))
        },
        None => {
            proof {
                lemma_object_view(result);
            }
            Ok(Value::Object(result))
        },
    }
}

} // verus!
