//! From values to the native objects that the scripting engine takes as
//! arguments.

use crate::native::{
    lemma_native_array_view_is, lemma_native_dictionary_view_is, NativeObject, NativeObjectView,
};
use crate::number::Number;
use crate::value::{Value, ValueView};
use vstd::prelude::*;

verus! {

/// Why a value could not be turned into an argument for the scripting
/// engine.
#[derive(Debug, PartialEq, Eq)]
pub enum ScriptInputConversionError {
    /// A number that fits none of the native numbers; the number as text.
    NumberConversionError(String),
}

/// The native number that carries a number: a double for a number that is
/// stored as one; else a signed 64-bit integer where the number fits one;
/// else an unsigned 64-bit integer.
pub open spec fn encode_number(number: Number) -> NativeObjectView {
    match number {
        Number::Float(bits) => NativeObjectView::Double(bits),
        Number::NegInt(v) => NativeObjectView::LongLong(v),
        Number::PosInt(v) => if v <= i64::MAX {
            NativeObjectView::LongLong(v as i64)
        } else {
            NativeObjectView::UnsignedLongLong(v)
        },
    }
}

/// The native object that carries a value. An array becomes a list of its
/// items in order; an object becomes a dictionary whose keys and values
/// stand in the order of the object's entries.
pub open spec fn encode(value: ValueView) -> NativeObjectView
    decreases value,
{
    match value {
        ValueView::Null => NativeObjectView::Null,
        ValueView::Bool(b) => NativeObjectView::Bool(b),
        ValueView::Number(number) => encode_number(number),
        ValueView::String(text) => NativeObjectView::String(text),
        ValueView::Array(items) => NativeObjectView::Array(
            Seq::new(
                items.len(),
                |i: int|
                    if 0 <= i < items.len() {
                        encode(items[i])
                    } else {
                        NativeObjectView::Null
                    },
            ),
        ),
        ValueView::Object(entries) => NativeObjectView::Dictionary {
            keys: Seq::new(entries.len(), |i: int| entries[i].0),
            values: Seq::new(
                entries.len(),
                |i: int|
                    if 0 <= i < entries.len() {
                        encode(entries[i].1)
                    } else {
                        NativeObjectView::Null
                    },
            ),
        },
    }
}

/// The native objects that carry a sequence of values, in order.
pub open spec fn encode_all(values: Seq<ValueView>) -> Seq<NativeObjectView> {
    Seq::new(values.len(), |i: int| encode(values[i]))
}

/// The models of a sequence of values.
pub open spec fn values_view(values: Seq<Value>) -> Seq<ValueView> {
    Seq::new(values.len(), |i: int| values[i]@)
}

fn number_to_nsnumber(number: &Number) -> (object: NativeObject)
    ensures
        object@ == encode_number(*number),
{
    match *number {
        Number::Float(bits) => NativeObject::Double(bits),
        Number::NegInt(v) => NativeObject::LongLong(v),
        Number::PosInt(v) => if v <= 0x7fff_ffff_ffff_ffff {
            NativeObject::LongLong(v as i64)
        } else {
            NativeObject::UnsignedLongLong(v)
        },
    }
}

/// Turns a value into the native object that carries it to the scripting
/// engine. Every value has one: the conversion never fails.
pub fn value_to_nsobject(value: &Value) -> (result: Result<
    NativeObject,
    ScriptInputConversionError,
>)
    ensures
        result is Ok,
        result->Ok_0@ == encode(value@),
    decreases value,
{
    match value {
        Value::String(text) => Ok(NativeObject::String(text.clone())),
        Value::Bool(b) => Ok(NativeObject::Bool(*b)),
        Value::Number(number) => Ok(number_to_nsnumber(number)),
        Value::Null => Ok(NativeObject::Null),
        Value::Array(items) => {
            match values_vec_to_ns_array(items) {
                Ok(encoded) => {
                    proof {
                        crate::value::lemma_array_view(*items);
                        lemma_native_array_view_is(encoded, encode_all(values_view(items@)));
                        assert(encode(value@)->Array_0 =~= encode_all(values_view(items@)));
                    }
                    Ok(NativeObject::Array(encoded))
                },
                Err(error) => Err(error),
            }
        },
        Value::Object(object) => {
            let entries = object.entries();
            let mut keys: Vec<String> = Vec::new();
            let mut values: Vec<NativeObject> = Vec::new();
            let mut at: usize = 0;
            proof {
                crate::value::lemma_object_view(*object);
            }
            while at < entries.len()
                invariant
                    at <= entries.len(),
                    entries.len() == object@.len(),
                    value@ == ValueView::Object(object@),
                    forall|j: int|
                        0 <= j < entries.len() ==> (#[trigger] entries[j]).0@ == object@[j].0
                            && entries[j].1@ == object@[j].1,
                    forall|j: int|
                        0 <= j < entries.len() ==> decreases_to!(value => #[trigger] entries[j]),
                    keys.len() == at,
                    values.len() == at,
                    forall|j: int| 0 <= j < at ==> (#[trigger] keys[j])@ == object@[j].0,
                    forall|j: int| 0 <= j < at ==> (#[trigger] values[j])@ == encode(object@[j].1),
                decreases entries.len() - at,
            {
                keys.push(entries[at].0.clone());
                match value_to_nsobject(&entries[at].1) {
                    Ok(encoded) => {
                        values.push(encoded);
                    },
                    Err(error) => {
                        return Err(error);
                    },
                }
                at = at + 1;
            }
            proof {
                let key_models = Seq::new(object@.len(), |i: int| object@[i].0);
                let value_models = Seq::new(
                    object@.len(),
                    |i: int|
                        if 0 <= i < object@.len() {
                            encode(object@[i].1)
                        } else {
                            NativeObjectView::Null
                        },
                );
                lemma_native_dictionary_view_is(keys, values, key_models, value_models);
                assert(encode(value@)->keys =~= key_models);
                assert(encode(value@)->values =~= value_models);
            }
            Ok(NativeObject::Dictionary { keys, values })
        },
    }
}

/// Turns the values into the native objects that carry them, in order.
pub fn values_vec_to_ns_array(values: &Vec<Value>) -> (result: Result<
    Vec<NativeObject>,
    ScriptInputConversionError,
>)
    ensures
        result is Ok,
        crate::native::native_objects_view(result->Ok_0@) == encode_all(values_view(values@)),
    decreases values,
{
    let mut vec: Vec<NativeObject> = Vec::new();
    let mut at: usize = 0;
    while at < values.len()
        invariant
            at <= values.len(),
            vec.len() == at,
            forall|j: int| 0 <= j < at ==> (#[trigger] vec[j])@ == encode(values[j]@),
        decreases values.len() - at,
    {
        match value_to_nsobject(&values[at]) {
            Ok(encoded) => {
                vec.push(encoded);
            },
            Err(error) => {
                return Err(error);
            },
        }
        at = at + 1;
    }
    assert(crate::native::native_objects_view(vec@) =~= encode_all(values_view(values@)));
    Ok(vec)
}

} // verus!
