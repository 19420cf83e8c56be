//! The native objects that carry arguments to the scripting engine, as plain
//! values.

use vstd::prelude::*;

verus! {

/// An argument in the form in which the scripting engine takes it: text, a
/// boolean number, a double, a signed or an unsigned 64-bit integer, the
/// null object, an ordered list, or a dictionary given by the list of its
/// keys and the list of their values.
#[derive(Debug, PartialEq, Eq)]
pub enum NativeObject {
    /// Native text.
    String(String),
    /// A native number made from a boolean.
    Bool(bool),
    /// A native number made from a double, held by its bit pattern.
    Double(u64),
    /// A native number made from a signed 64-bit integer.
    LongLong(i64),
    /// A native number made from an unsigned 64-bit integer.
    UnsignedLongLong(u64),
    /// The native null object.
    Null,
    /// A native ordered list.
    Array(Vec<NativeObject>),
    /// A native dictionary: the value at a place belongs to the key at that
    /// place.
    Dictionary { keys: Vec<String>, values: Vec<NativeObject> },
}

/// The mathematical model of a [`NativeObject`].
pub enum NativeObjectView {
    String(Seq<char>),
    Bool(bool),
    Double(u64),
    LongLong(i64),
    UnsignedLongLong(u64),
    Null,
    Array(Seq<NativeObjectView>),
    Dictionary { keys: Seq<Seq<char>>, values: Seq<NativeObjectView> },
}

/// The model of a native object.
pub open spec fn native_object_view(object: NativeObject) -> NativeObjectView
    decreases object,
{
    match object {
        NativeObject::String(text) => NativeObjectView::String(text@),
        NativeObject::Bool(b) => NativeObjectView::Bool(b),
        NativeObject::Double(bits) => NativeObjectView::Double(bits),
        NativeObject::LongLong(v) => NativeObjectView::LongLong(v),
        NativeObject::UnsignedLongLong(v) => NativeObjectView::UnsignedLongLong(v),
        NativeObject::Null => NativeObjectView::Null,
        NativeObject::Array(items) => NativeObjectView::Array(
            Seq::new(
                items.len() as nat,
                |i: int|
                    if 0 <= i < items.len() {
                        native_object_view(items[i])
                    } else {
                        NativeObjectView::Null
                    },
            ),
        ),
        NativeObject::Dictionary { keys, values } => NativeObjectView::Dictionary {
            keys: Seq::new(keys.len() as nat, |i: int| keys[i]@),
            values: Seq::new(
                values.len() as nat,
                |i: int|
                    if 0 <= i < values.len() {
                        native_object_view(values[i])
                    } else {
                        NativeObjectView::Null
                    },
            ),
        },
    }
}

impl View for NativeObject {
    type V = NativeObjectView;

    open spec fn view(&self) -> NativeObjectView {
        native_object_view(*self)
    }
}

/// The models of a sequence of native objects.
pub open spec fn native_objects_view(objects: Seq<NativeObject>) -> Seq<NativeObjectView> {
    Seq::new(objects.len(), |i: int| objects[i]@)
}

/// A native list whose items have the given models has the list of them as
/// its model.
pub proof fn lemma_native_array_view_is(items: Vec<NativeObject>, models: Seq<NativeObjectView>)
    requires
        models.len() == items.len(),
        forall|i: int| 0 <= i < items.len() ==> (#[trigger] models[i]) == items[i]@,
    ensures
        NativeObject::Array(items)@ == NativeObjectView::Array(models),
{
    assert(NativeObject::Array(items)@->Array_0 =~= models);
}

/// A native dictionary whose keys and values have the given models has the
/// dictionary of them as its model.
pub proof fn lemma_native_dictionary_view_is(
    keys: Vec<String>,
    values: Vec<NativeObject>,
    key_models: Seq<Seq<char>>,
    value_models: Seq<NativeObjectView>,
)
    requires
        key_models.len() == keys.len(),
        value_models.len() == values.len(),
        forall|i: int| 0 <= i < keys.len() ==> (#[trigger] key_models[i]) == keys[i]@,
        forall|i: int| 0 <= i < values.len() ==> (#[trigger] value_models[i]) == values[i]@,
    ensures
        (NativeObject::Dictionary { keys, values })@ == (NativeObjectView::Dictionary {
            keys: key_models,
            values: value_models,
        }),
{
    let model = (NativeObject::Dictionary { keys, values })@;
    assert(model->keys =~= key_models);
    assert(model->values =~= value_models);
}

} // verus!
