//! What goes to the scripting engine as an argument comes back as a result.

use crate::descriptor::{keyword_position, lemma_keyword_position, DescriptorView};
use crate::float_bits::is_finite;
use crate::four_char_code::{
    AS_ID, AS_NAME, AS_USER_RECORD_FIELDS, DESC_TYPE_DOUBLE, DESC_TYPE_ENUM, DESC_TYPE_FALSE,
    DESC_TYPE_LIST, DESC_TYPE_LONG, DESC_TYPE_NULL, DESC_TYPE_RECORD, DESC_TYPE_STRING,
    DESC_TYPE_TRUE, DESC_TYPE_TYPE, OSTYPE_MISSING, OSTYPE_NO, OSTYPE_NULL, OSTYPE_YES,
};
use crate::input::encode;
use crate::native::NativeObjectView;
use crate::number::Number;
use crate::output::{
    decode, decode_list, decode_pairs, decode_special, id_key, name_key, pair_count,
    OutputErrorView,
};
use crate::value::{has_key, key_index, keys_unique, value_wf, values_equal, ValueView};
use vstd::prelude::*;

verus! {

/// `order` rearranges the places below `count`, and `inverse` puts them
/// back.
pub open spec fn is_rearrangement(order: Seq<int>, inverse: Seq<int>, count: nat) -> bool {
    &&& order.len() == count
    &&& inverse.len() == count
    &&& forall|t: int| 0 <= t < count ==> 0 <= #[trigger] order[t] < count && inverse[order[t]] == t
    &&& forall|i: int|
        0 <= i < count ==> 0 <= #[trigger] inverse[i] < count && order[inverse[i]] == i
}

/// Whether a descriptor hands back a native object as the scripting engine
/// does when a script returns what it was given. Text and doubles come back
/// under their own tags; a boolean as itself or as the enumerator `yes` or
/// `no`; null as the null descriptor or as the type of the missing value or
/// of null. An integer comes back as a
/// `long` where it fits 32 bits, and as some finite double where it does
/// not. A list comes back as a list of what its items come back as. A
/// dictionary comes back as a record without special fields that keeps,
/// in an order that the engine chooses, each key as text with what its
/// value comes back as right after it.
pub open spec fn carries(d: DescriptorView, object: NativeObjectView) -> bool
    decreases object,
{
    match object {
        NativeObjectView::String(text) => d.descriptor_type == DESC_TYPE_STRING && d.string_value
            == Some(text),
        NativeObjectView::Bool(value) => {
            ||| d.descriptor_type == (if value {
                DESC_TYPE_TRUE
            } else {
                DESC_TYPE_FALSE
            })
            ||| d.descriptor_type == DESC_TYPE_ENUM && d.type_code_value == (if value {
                OSTYPE_YES
            } else {
                OSTYPE_NO
            })
        },
        NativeObjectView::Double(bits) => d.descriptor_type == DESC_TYPE_DOUBLE && d.double_bits
            == bits,
        NativeObjectView::LongLong(value) => if i32::MIN <= value <= i32::MAX {
            d.descriptor_type == DESC_TYPE_LONG && d.int32_value == value
        } else {
            d.descriptor_type == DESC_TYPE_DOUBLE && is_finite(d.double_bits)
        },
        NativeObjectView::UnsignedLongLong(_) => d.descriptor_type == DESC_TYPE_DOUBLE
            && is_finite(d.double_bits),
        NativeObjectView::Null => {
            ||| d.descriptor_type == DESC_TYPE_NULL
            ||| d.descriptor_type == DESC_TYPE_TYPE && (d.type_code_value == OSTYPE_MISSING
                || d.type_code_value == OSTYPE_NULL)
        },
        NativeObjectView::Array(items) => {
            &&& d.descriptor_type == DESC_TYPE_LIST
            &&& d.items.len() == items.len()
            &&& forall|i: int| 0 <= i < items.len() ==> carries(d.items[i], #[trigger] items[i])
        },
        NativeObjectView::Dictionary { keys, values } => {
            &&& d.descriptor_type == DESC_TYPE_RECORD
            &&& keys.len() == values.len()
            &&& keyword_position(d.keyword_items, AS_ID, 0) is None
            &&& keyword_position(d.keyword_items, AS_NAME, 0) is None
            &&& keyword_position(d.keyword_items, AS_USER_RECORD_FIELDS, 0) is Some
            &&& {
                let place = keyword_position(d.keyword_items, AS_USER_RECORD_FIELDS, 0)->0;
                let fields = d.keyword_items[place].1.items;
                &&& fields.len() == 2 * keys.len()
                &&& exists|order: Seq<int>, inverse: Seq<int>|
                    {
                        &&& #[trigger] is_rearrangement(order, inverse, keys.len())
                        &&& forall|t: int|
                            0 <= t < keys.len() && 0 <= #[trigger] order[t] < keys.len() ==> {
                                &&& fields[2 * t].descriptor_type == DESC_TYPE_STRING
                                &&& fields[2 * t].string_value == Some(keys[order[t]])
                                &&& carries(fields[2 * t + 1], values[order[t]])
                            }
                    }
            }
        },
    }
}

/// Whether `after` is what `before` may come back as from the scripting
/// engine. Text, booleans, doubles and null come back as they went. An
/// integer comes back as it went where it fits 32 bits, and as some finite
/// double where it does not. An array comes back item by item. An object
/// comes back with the same keys, each with what its value comes back as,
/// in any order.
pub open spec fn comes_back_as(before: ValueView, after: ValueView) -> bool
    decreases before,
{
    match before {
        ValueView::Null => after is Null,
        ValueView::Bool(value) => after == ValueView::Bool(value),
        ValueView::String(text) => after == ValueView::String(text),
        ValueView::Number(number) => match number.int_value() {
            None => after == ValueView::Number(number),
            Some(whole) => if i32::MIN <= whole <= i32::MAX {
                after == ValueView::Number(number)
            } else {
                after matches ValueView::Number(Number::Float(bits)) && is_finite(bits)
            },
        },
        ValueView::Array(items) => {
            &&& after is Array
            &&& after->Array_0.len() == items.len()
            &&& forall|i: int|
                0 <= i < items.len() ==> comes_back_as(#[trigger] items[i], after->Array_0[i])
        },
        ValueView::Object(entries) => {
            &&& after is Object
            &&& after->Object_0.len() == entries.len()
            &&& keys_unique(after->Object_0)
            &&& forall|i: int|
                0 <= i < entries.len() ==> {
                    &&& has_key(after->Object_0, (#[trigger] entries[i]).0)
                    &&& comes_back_as(
                        entries[i].1,
                        after->Object_0[key_index(after->Object_0, entries[i].0)].1,
                    )
                }
        },
    }
}

proof fn lemma_list_round_trip(value: ValueView, d: DescriptorView, count: nat)
    requires
        value is Array,
        value_wf(value),
        carries(d, encode(value)),
        count <= value->Array_0.len(),
    ensures
        decode_list(d.items, count) is Ok,
        decode_list(d.items, count)->Ok_0.len() == count,
        forall|i: int|
            0 <= i < count ==> comes_back_as(
                #[trigger] value->Array_0[i],
                decode_list(d.items, count)->Ok_0[i],
            ),
    decreases value, 0nat, count,
{
    let items = value->Array_0;
    assert(encode(value)->Array_0.len() == items.len());
    if count > 0 {
        lemma_list_round_trip(value, d, (count - 1) as nat);
        let last = count - 1;
        assert(encode(value)->Array_0[last] == encode(items[last]));
        assert(carries(d.items[last], encode(value)->Array_0[last]));
        assert(value_wf(items[last]));
        lemma_round_trip(items[last], d.items[last]);
    }
}

proof fn lemma_pairs_round_trip(
    value: ValueView,
    fields: Seq<DescriptorView>,
    order: Seq<int>,
    inverse: Seq<int>,
    pairs: nat,
)
    requires
        value is Object,
        value_wf(value),
        encode(value) is Dictionary,
        fields.len() == 2 * value->Object_0.len(),
        is_rearrangement(order, inverse, value->Object_0.len()),
        forall|t: int|
            0 <= t < value->Object_0.len() && 0 <= #[trigger] order[t] < value->Object_0.len() ==> {
                &&& fields[2 * t].descriptor_type == DESC_TYPE_STRING
                &&& fields[2 * t].string_value == Some(encode(value)->keys[order[t]])
                &&& carries(fields[2 * t + 1], encode(value)->values[order[t]])
            },
        pairs <= value->Object_0.len(),
    ensures
        decode_pairs(fields, Seq::empty(), pairs) is Ok,
        decode_pairs(fields, Seq::empty(), pairs)->Ok_0.len() == pairs,
        forall|t: int|
            0 <= t < pairs ==> {
                &&& (#[trigger] decode_pairs(fields, Seq::empty(), pairs)->Ok_0[t]).0
                    == value->Object_0[order[t]].0
                &&& comes_back_as(
                    value->Object_0[order[t]].1,
                    decode_pairs(fields, Seq::empty(), pairs)->Ok_0[t].1,
                )
            },
    decreases value, 0nat, pairs,
{
    let entries = value->Object_0;
    if pairs > 0 {
        lemma_pairs_round_trip(value, fields, order, inverse, (pairs - 1) as nat);
        let before = decode_pairs(fields, Seq::empty(), (pairs - 1) as nat)->Ok_0;
        let t = pairs - 1;
        let from = order[t];
        assert(0 <= from < entries.len());
        assert(encode(value)->keys[from] == entries[from].0);
        assert(encode(value)->values[from] == encode(entries[from].1));
        let key = entries[from].0;
        assert(decode(fields[2 * t]) == Ok::<ValueView, OutputErrorView>(ValueView::String(key)));
        assert(value_wf(entries[from].1));
        lemma_round_trip(entries[from].1, fields[2 * t + 1]);
        let back = decode(fields[2 * t + 1])->Ok_0;
        assert(!has_key(before, key)) by {
            if has_key(before, key) {
                let at = key_index(before, key);
                assert(before[at].0 == entries[order[at]].0);
                assert(inverse[order[at]] == at);
                assert(inverse[order[t]] == t);
                assert(order[at] != from);
                assert(entries[order[at]].0 != entries[from].0);
            }
        }
        assert(2 * pairs - 2 == 2 * t && 2 * pairs - 1 == 2 * t + 1);
        assert(decode_pairs(fields, Seq::empty(), pairs) == Ok::<
            Seq<(Seq<char>, ValueView)>,
            OutputErrorView,
        >(before.push((key, back))));
    }
}

/// What goes to the scripting engine comes back: where a descriptor hands
/// back the native object that a well-formed value was turned into, the
/// descriptor decodes, and to the value that went out, but for the two
/// things that the engine does not keep: an integer that does not fit 32
/// bits comes back as a double, and the entries of an object come back in
/// an order that the engine chooses.
pub proof fn lemma_round_trip(value: ValueView, d: DescriptorView)
    requires
        value_wf(value),
        carries(d, encode(value)),
    ensures
        decode(d) is Ok,
        comes_back_as(value, decode(d)->Ok_0),
    decreases value, 1nat, 0nat,
{
    match value {
        ValueView::Null => {},
        ValueView::Bool(_) => {},
        ValueView::String(_) => {},
        ValueView::Number(number) => {
            match number {
                Number::Float(_) => {},
                Number::NegInt(v) => {
                    if i32::MIN <= v <= i32::MAX {
                        assert(Number::of_i64(d.int32_value as i64) == number);
                    }
                },
                Number::PosInt(v) => {
                    if v <= i32::MAX {
                        assert(Number::of_i64(d.int32_value as i64) == number);
                    }
                },
            }
        },
        ValueView::Array(items) => {
            assert(encode(value)->Array_0.len() == items.len());
            lemma_list_round_trip(value, d, items.len());
        },
        ValueView::Object(entries) => {
            let object = encode(value);
            assert(object->keys.len() == entries.len());
            lemma_keyword_position(d.keyword_items, AS_USER_RECORD_FIELDS, 0);
            let place = keyword_position(d.keyword_items, AS_USER_RECORD_FIELDS, 0)->0;
            let fields = d.keyword_items[place].1.items;
            let (order, inverse) = choose|order: Seq<int>, inverse: Seq<int>|
                {
                    &&& #[trigger] is_rearrangement(order, inverse, object->keys.len())
                    &&& forall|t: int|
                        0 <= t < object->keys.len() && 0 <= #[trigger] order[t]
                            < object->keys.len() ==> {
                            &&& fields[2 * t].descriptor_type == DESC_TYPE_STRING
                            &&& fields[2 * t].string_value == Some(object->keys[order[t]])
                            &&& carries(fields[2 * t + 1], object->values[order[t]])
                        }
                };
            lemma_pairs_round_trip(value, fields, order, inverse, entries.len());
            let empty = Seq::<(Seq<char>, ValueView)>::empty();
            assert(decode_special(d.keyword_items, AS_ID, id_key(), empty) == Ok::<
                Seq<(Seq<char>, ValueView)>,
                OutputErrorView,
            >(empty));
            assert(decode_special(d.keyword_items, AS_NAME, name_key(), empty) == Ok::<
                Seq<(Seq<char>, ValueView)>,
                OutputErrorView,
            >(empty));
            assert(pair_count(fields.len()) == entries.len());
            let after = decode_pairs(fields, empty, entries.len())->Ok_0;
            assert(decode(d) == Ok::<ValueView, OutputErrorView>(ValueView::Object(after)));
            assert(keys_unique(after)) by {
                assert forall|a: int, b: int|
                    0 <= a < after.len() && 0 <= b < after.len() && a != b implies after[a].0
                    != after[b].0 by {
                    assert(after[a].0 == entries[order[a]].0);
                    assert(after[b].0 == entries[order[b]].0);
                    assert(inverse[order[a]] == a);
                    assert(inverse[order[b]] == b);
                    assert(order[a] != order[b]);
                }
            }
            assert forall|i: int| 0 <= i < entries.len() implies {
                &&& has_key(after, (#[trigger] entries[i]).0)
                &&& comes_back_as(entries[i].1, after[key_index(after, entries[i].0)].1)
            } by {
                let t = inverse[i];
                assert(order[t] == i);
                assert(after[t].0 == entries[i].0);
                let found = key_index(after, entries[i].0);
                assert(found == t) by {
                    if found != t {
                        assert(after[found].0 != after[t].0);
                    }
                }
            }
        },
    }
}

/// Whether every integer in the value fits 32 bits, so that the scripting
/// engine hands it back as an integer.
pub open spec fn fits_the_engine(value: ValueView) -> bool
    decreases value,
{
    match value {
        ValueView::Number(number) => match number.int_value() {
            Some(whole) => i32::MIN <= whole <= i32::MAX,
            None => true,
        },
        ValueView::Array(items) => forall|i: int|
            0 <= i < items.len() ==> fits_the_engine(#[trigger] items[i]),
        ValueView::Object(entries) => forall|i: int|
            0 <= i < entries.len() ==> fits_the_engine((#[trigger] entries[i]).1),
        _ => true,
    }
}

/// A value whose integers all fit 32 bits comes back equal to what went
/// out.
pub proof fn lemma_comes_back_equal(before: ValueView, after: ValueView)
    requires
        value_wf(before),
        fits_the_engine(before),
        comes_back_as(before, after),
    ensures
        values_equal(before, after),
    decreases before,
{
    match before {
        ValueView::Array(items) => {
            assert forall|i: int| 0 <= i < items.len() implies values_equal(
                #[trigger] items[i],
                after->Array_0[i],
            ) by {
                lemma_comes_back_equal(items[i], after->Array_0[i]);
            }
        },
        ValueView::Object(entries) => {
            assert forall|i: int| 0 <= i < entries.len() implies {
                &&& has_key(after->Object_0, (#[trigger] entries[i]).0)
                &&& values_equal(
                    entries[i].1,
                    after->Object_0[key_index(after->Object_0, entries[i].0)].1,
                )
            } by {
                lemma_comes_back_equal(
                    entries[i].1,
                    after->Object_0[key_index(after->Object_0, entries[i].0)].1,
                );
            }
        },
        _ => {},
    }
}

/// What goes to the scripting engine comes back equal: where a descriptor
/// hands back the native object that a well-formed value was turned into,
/// and every integer in the value fits 32 bits, the descriptor decodes to a
/// value that is equal to the one that went out.
pub proof fn lemma_round_trip_is_equal(value: ValueView, d: DescriptorView)
    requires
        value_wf(value),
        fits_the_engine(value),
        carries(d, encode(value)),
    ensures
        decode(d) is Ok,
        values_equal(value, decode(d)->Ok_0),
{
    lemma_round_trip(value, d);
    lemma_comes_back_equal(value, decode(d)->Ok_0);
}

} // verus!
