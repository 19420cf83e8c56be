//! The value model: text, booleans, numbers, null, arrays and objects.

use crate::number::Number;
use vstd::prelude::*;
use vstd::std_specs::cmp::PartialEqSpecImpl;

verus! {

/// The mathematical model of a [`Value`]: text is a sequence of characters,
/// an array a sequence of models, and an object the sequence of its entries
/// in the order in which their keys were first inserted.
pub enum ValueView {
    Null,
    Bool(bool),
    Number(Number),
    String(Seq<char>),
    Array(Seq<ValueView>),
    Object(Seq<(Seq<char>, ValueView)>),
}

/// No key occurs twice among the entries.
pub open spec fn keys_unique(entries: Seq<(Seq<char>, ValueView)>) -> bool {
    forall|i: int, j: int|
        0 <= i < entries.len() && 0 <= j < entries.len() && i != j ==> entries[i].0
            != entries[j].0
}

/// Whether some entry has the given key.
pub open spec fn has_key(entries: Seq<(Seq<char>, ValueView)>, key: Seq<char>) -> bool {
    exists|i: int| 0 <= i < entries.len() && (#[trigger] entries[i]).0 == key
}

/// The place of an entry with the given key, where there is one.
pub open spec fn key_index(entries: Seq<(Seq<char>, ValueView)>, key: Seq<char>) -> int {
    choose|i: int| 0 <= i < entries.len() && (#[trigger] entries[i]).0 == key
}

/// The value stored under a key.
pub open spec fn lookup(entries: Seq<(Seq<char>, ValueView)>, key: Seq<char>) -> Option<
    ValueView,
> {
    if has_key(entries, key) {
        Some(entries[key_index(entries, key)].1)
    } else {
        None
    }
}

/// The entries after `value` is stored under `key`: a key that is already
/// there keeps its place and gets the new value, a new key goes to the end.
pub open spec fn inserted(
    entries: Seq<(Seq<char>, ValueView)>,
    key: Seq<char>,
    value: ValueView,
) -> Seq<(Seq<char>, ValueView)> {
    if has_key(entries, key) {
        entries.update(key_index(entries, key), (key, value))
    } else {
        entries.push((key, value))
    }
}

/// The entries of the object that is built by inserting `pairs` one after
/// the other into an empty object.
pub open spec fn collected(pairs: Seq<(Seq<char>, ValueView)>) -> Seq<(Seq<char>, ValueView)>
    decreases pairs.len(),
{
    if pairs.len() == 0 {
        Seq::empty()
    } else {
        inserted(collected(pairs.drop_last()), pairs.last().0, pairs.last().1)
    }
}

/// Storing a value under a key keeps the keys unique.
pub proof fn lemma_inserted_unique(
    entries: Seq<(Seq<char>, ValueView)>,
    key: Seq<char>,
    value: ValueView,
)
    requires
        keys_unique(entries),
    ensures
        keys_unique(inserted(entries, key, value)),
        has_key(inserted(entries, key, value), key),
        lookup(inserted(entries, key, value), key) == Some(value),
{
    let after = inserted(entries, key, value);
    if has_key(entries, key) {
        let k = key_index(entries, key);
        assert(after[k].0 == key);
        assert forall|i: int, j: int|
            0 <= i < after.len() && 0 <= j < after.len() && i != j implies after[i].0
            != after[j].0 by {
            assert(entries[i].0 != entries[j].0);
        }
        let found = key_index(after, key);
        assert(found == k) by {
            if found != k {
                assert(after[found].0 != after[k].0);
            }
        }
    } else {
        let k = entries.len() as int;
        assert(after[k].0 == key);
        assert forall|i: int, j: int|
            0 <= i < after.len() && 0 <= j < after.len() && i != j implies after[i].0
            != after[j].0 by {
            if i < k && j < k {
                assert(entries[i].0 != entries[j].0);
            } else if i < k {
                assert(entries[i].0 != key);
            } else {
                assert(entries[j].0 != key);
            }
        }
        let found = key_index(after, key);
        assert(found == k) by {
            if found != k {
                assert(after[found].0 != after[k].0);
            }
        }
    }
}

/// When two values count as equal. Text, booleans and numbers are equal
/// when they are the same, a number also in the way it is stored; a double
/// that is zero is equal to zero of the other sign. Arrays are
/// equal item by item. Objects are equal when they have as many entries and
/// every key of the first has an equal value in the second: the order of the
/// keys does not count.
pub open spec fn values_equal(a: ValueView, b: ValueView) -> bool
    decreases a,
{
    match a {
        ValueView::Null => b is Null,
        ValueView::Bool(x) => b == ValueView::Bool(x),
        ValueView::Number(x) => b is Number && x.same_as(b->Number_0),
        ValueView::String(x) => b == ValueView::String(x),
        ValueView::Array(x) => {
            &&& b is Array
            &&& x.len() == b->Array_0.len()
            &&& forall|i: int| 0 <= i < x.len() ==> values_equal(#[trigger] x[i], b->Array_0[i])
        },
        ValueView::Object(x) => {
            &&& b is Object
            &&& x.len() == b->Object_0.len()
            &&& forall|i: int|
                0 <= i < x.len() ==> {
                    &&& has_key(b->Object_0, (#[trigger] x[i]).0)
                    &&& values_equal(x[i].1, b->Object_0[key_index(b->Object_0, x[i].0)].1)
                }
        },
    }
}

/// A value is well formed when its numbers are, no object in it has a key
/// twice, and the values inside it are well formed.
pub open spec fn value_wf(value: ValueView) -> bool
    decreases value,
{
    match value {
        ValueView::Number(number) => number.wf(),
        ValueView::Array(items) => forall|i: int|
            0 <= i < items.len() ==> value_wf(#[trigger] items[i]),
        ValueView::Object(entries) => keys_unique(entries) && forall|i: int|
            0 <= i < entries.len() ==> value_wf((#[trigger] entries[i]).1),
        _ => true,
    }
}

/// The entries of an object are well formed when no key occurs twice and
/// every value is well formed.
pub open spec fn entries_wf(entries: Seq<(Seq<char>, ValueView)>) -> bool {
    keys_unique(entries) && forall|i: int|
        0 <= i < entries.len() ==> value_wf((#[trigger] entries[i]).1)
}

/// Storing a well-formed value under a key keeps the entries well formed.
pub proof fn lemma_inserted_wf(
    entries: Seq<(Seq<char>, ValueView)>,
    key: Seq<char>,
    value: ValueView,
)
    requires
        entries_wf(entries),
        value_wf(value),
    ensures
        entries_wf(inserted(entries, key, value)),
{
    lemma_inserted_unique(entries, key, value);
    let after = inserted(entries, key, value);
    assert forall|i: int| 0 <= i < after.len() implies value_wf((#[trigger] after[i]).1) by {
        if has_key(entries, key) {
            if i != key_index(entries, key) {
                assert(after[i] == entries[i]);
            }
        } else {
            if i < entries.len() {
                assert(after[i] == entries[i]);
            }
        }
    }
}

/// A generic structured value: text, a boolean, a number, null, an ordered
/// array, or an object whose keys keep the order of their insertion.
#[derive(Debug)]
pub enum Value {
    Null,
    Bool(bool),
    Number(Number),
    String(String),
    Array(Vec<Value>),
    Object(Object),
}

/// An object: entries of a key and a value, in the order in which the keys
/// were first inserted. No key occurs twice.
#[derive(Debug)]
pub struct Object {
    entries: Vec<(String, Value)>,
}

/// The model of a value.
pub open spec fn value_view(value: Value) -> ValueView
    decreases value,
{
    match value {
        Value::Null => ValueView::Null,
        Value::Bool(b) => ValueView::Bool(b),
        Value::Number(n) => ValueView::Number(n),
        Value::String(s) => ValueView::String(s@),
        Value::Array(items) => ValueView::Array(
            Seq::new(
                items.len() as nat,
                |i: int|
                    if 0 <= i < items.len() {
                        value_view(items[i])
                    } else {
                        ValueView::Null
                    },
            ),
        ),
        Value::Object(object) => ValueView::Object(
            Seq::new(
                object.spec_entries().len(),
                |i: int|
                    if 0 <= i < object.spec_entries().len() {
                        (object.spec_entries()[i].0@, value_view(object.spec_entries()[i].1))
                    } else {
                        (Seq::empty(), ValueView::Null)
                    },
            ),
        ),
    }
}

impl View for Value {
    type V = ValueView;

    open spec fn view(&self) -> ValueView {
        value_view(*self)
    }
}

impl View for Object {
    type V = Seq<(Seq<char>, ValueView)>;

    open spec fn view(&self) -> Seq<(Seq<char>, ValueView)> {
        Seq::new(
            self.spec_entries().len(),
            |i: int|
                if 0 <= i < self.spec_entries().len() {
                    (self.spec_entries()[i].0@, value_view(self.spec_entries()[i].1))
                } else {
                    (Seq::empty(), ValueView::Null)
                },
        )
    }
}

impl Object {
    /// The entries as they are stored.
    pub closed spec fn spec_entries(&self) -> Seq<(String, Value)> {
        self.entries@
    }

    #[verifier::type_invariant]
    spec fn inv(self) -> bool {
        keys_unique(self@)
    }

    /// An object without entries.
    pub fn new() -> (object: Object)
        ensures
            object@ == Seq::<(Seq<char>, ValueView)>::empty(),
    {
        let object = Object { entries: Vec::new() };
        assert(object@ =~= Seq::<(Seq<char>, ValueView)>::empty());
        object
    }

    /// The number of entries.
    pub fn len(&self) -> (n: usize)
        ensures
            n == self@.len(),
    {
        self.entries.len()
    }

    /// The entries in order, each a key with its value.
    pub fn entries(&self) -> (entries: &Vec<(String, Value)>)
        ensures
            entries.len() == self@.len(),
            forall|i: int|
                0 <= i < entries.len() ==> (#[trigger] entries[i]).0@ == self@[i].0
                    && entries[i].1@ == self@[i].1,
            forall|i: int| 0 <= i < entries.len() ==> decreases_to!(self => #[trigger] entries[i]),
            keys_unique(self@),
    {
        proof {
            use_type_invariant(self);
        }
        &self.entries
    }

    fn position(&self, key: &String) -> (found: Option<usize>)
        ensures
            keys_unique(self@),
            match found {
                Some(i) => i < self@.len() && self@[i as int].0 == key@ && has_key(self@, key@)
                    && key_index(self@, key@) == i,
                None => !has_key(self@, key@),
            },
    {
        proof {
            use_type_invariant(self);
        }
        let mut i: usize = 0;
        while i < self.entries.len()
            invariant
                i <= self.entries.len(),
                self.entries.len() == self@.len(),
                keys_unique(self@),
                forall|j: int| 0 <= j < i ==> (#[trigger] self@[j]).0 != key@,
            decreases self.entries.len() - i,
        {
            if self.entries[i].0 == *key {
                assert(self@[i as int].0 == key@);
                proof {
                    let k = key_index(self@, key@);
                    if k != i {
                        assert(self@[k].0 != self@[i as int].0);
                    }
                }
                return Some(i);
            }
            i = i + 1;
        }
        None
    }

    /// The value stored under `key`, if there is one.
    pub fn get(&self, key: &String) -> (value: Option<&Value>)
        ensures
            match value {
                Some(v) => lookup(self@, key@) == Some(v@),
                None => lookup(self@, key@) is None,
            },
    {
        match self.position(key) {
            Some(i) => Some(&self.entries[i].1),
            None => None,
        }
    }

    /// Stores `value` under `key`. A key that is already there keeps its
    /// place and gets the new value; the value it had is returned. A new
    /// key goes to the end.
    pub fn insert(&mut self, key: String, value: Value) -> (replaced: Option<Value>)
        ensures
            final(self)@ == inserted(old(self)@, key@, value@),
            match replaced {
                Some(v) => lookup(old(self)@, key@) == Some(v@),
                None => lookup(old(self)@, key@) is None,
            },
    {
        let found = self.position(&key);
        let ghost before = self@;
        let ghost k = key@;
        let ghost v = value@;
        proof {
            lemma_inserted_unique(before, k, v);
        }
        let mut entries = Vec::new();
        std::mem::swap(&mut entries, &mut self.entries);
        assert(pairs_view(entries@) =~= before);
        entries.push((key, value));
        let replaced = match found {
            Some(i) => Some(entries.swap_remove(i).1),
            None => None,
        };
        assert(pairs_view(entries@) =~= inserted(before, k, v));
        assert((Object { entries: entries })@ =~= pairs_view(entries@));
        self.entries = entries;
        replaced
    }

    /// The object that is built by inserting the pairs one after the other:
    /// of two pairs with the same key the later value stays, at the place of
    /// the earlier one.
    pub fn from_iter(pairs: Vec<(String, Value)>) -> (object: Object)
        ensures
            object@ == collected(pairs_view(pairs@)),
    {
        let mut pairs = pairs;
        let ghost all = pairs_view(pairs@);
        let mut reversed: Vec<(String, Value)> = Vec::new();
        while pairs.len() > 0
            invariant
                pairs_view(pairs@) + pairs_view(reversed@).reverse() =~= all,
            decreases pairs.len(),
        {
            let ghost before = pairs@;
            let ghost rev_before = reversed@;
            let pair = pairs.pop().unwrap();
            reversed.push(pair);
            assert(pairs_view(pairs@) + pairs_view(reversed@).reverse() =~= pairs_view(before)
                + pairs_view(rev_before).reverse());
        }
        let mut object = Object::new();
        let ghost mut n: int = 0;
        assert(pairs_view(reversed@).reverse() =~= all.subrange(0, all.len() as int));
        assert(all.subrange(0, 0).len() == 0);
        while reversed.len() > 0
            invariant
                0 <= n <= all.len(),
                object@ == collected(all.subrange(0, n)),
                pairs_view(reversed@).reverse() =~= all.subrange(n, all.len() as int),
            decreases reversed.len(),
        {
            let ghost rev_before = reversed@;
            assert(pairs_view(rev_before).reverse().len() == all.subrange(
                n,
                all.len() as int,
            ).len());
            assert(n < all.len());
            let pair = reversed.pop().unwrap();
            assert(pairs_view(rev_before).reverse()[0] == pair_view(pair));
            assert(all.subrange(n, all.len() as int)[0] == all[n]);
            assert(all.subrange(0, n + 1).drop_last() =~= all.subrange(0, n));
            assert(all.subrange(0, n + 1).last() == all[n]);
            object.insert(pair.0, pair.1);
            assert(pairs_view(reversed@).reverse() =~= pairs_view(rev_before).reverse().subrange(
                1,
                rev_before.len() as int,
            ));
            proof {
                n = n + 1;
            }
        }
        assert(all.subrange(0, all.len() as int) =~= all);
        object
    }
}

/// The model of a key with its value.
pub open spec fn pair_view(pair: (String, Value)) -> (Seq<char>, ValueView) {
    (pair.0@, pair.1@)
}

/// The models of a sequence of keys with their values.
pub open spec fn pairs_view(pairs: Seq<(String, Value)>) -> Seq<(Seq<char>, ValueView)> {
    Seq::new(pairs.len(), |i: int| pair_view(pairs[i]))
}

/// The model of an array is the sequence of the models of its items.
pub proof fn lemma_array_view(items: Vec<Value>)
    ensures
        Value::Array(items)@ is Array,
        Value::Array(items)@->Array_0.len() == items.len(),
        forall|i: int|
            0 <= i < items.len() ==> (#[trigger] Value::Array(items)@->Array_0[i]) == items[i]@,
{
}

/// An array whose items have the given models has the array of them as its
/// model.
pub proof fn lemma_array_view_is(items: Vec<Value>, models: Seq<ValueView>)
    requires
        models.len() == items.len(),
        forall|i: int| 0 <= i < items.len() ==> (#[trigger] models[i]) == items[i]@,
    ensures
        Value::Array(items)@ == ValueView::Array(models),
{
    lemma_array_view(items);
    assert(Value::Array(items)@->Array_0 =~= models);
}

/// The model of a value that is an object holds the entries of the object.
pub proof fn lemma_object_view(object: Object)
    ensures
        Value::Object(object)@ == ValueView::Object(object@),
{
    assert(Value::Object(object)@->Object_0 =~= object@);
}

fn value_eq(a: &Value, b: &Value) -> (equal: bool)
    ensures
        equal == values_equal(a@, b@),
    decreases a,
{
    match a {
        Value::Null => match b {
            Value::Null => true,
            _ => false,
        },
        Value::Bool(x) => match b {
            Value::Bool(y) => *x == *y,
            _ => false,
        },
        Value::Number(x) => match b {
            Value::Number(y) => *x == *y,
            _ => false,
        },
        Value::String(x) => match b {
            Value::String(y) => *x == *y,
            _ => false,
        },
        Value::Array(x) => match b {
            Value::Array(y) => {
                assert(a@->Array_0.len() == x.len());
                assert(b@->Array_0.len() == y.len());
                if x.len() != y.len() {
                    return false;
                }
                let mut i: usize = 0;
                while i < x.len()
                    invariant
                        i <= x.len(),
                        x.len() == y.len(),
                        a@ is Array,
                        b@ is Array,
                        a@->Array_0.len() == x.len(),
                        b@->Array_0.len() == y.len(),
                        forall|j: int| 0 <= j < x.len() ==> a@->Array_0[j] == (#[trigger] x[j])@,
                        forall|j: int| 0 <= j < y.len() ==> b@->Array_0[j] == (#[trigger] y[j])@,
                        forall|j: int| 0 <= j < x.len() ==> decreases_to!(a => #[trigger] x[j]),
                        forall|j: int|
                            0 <= j < i ==> values_equal(
                                #[trigger] a@->Array_0[j],
                                b@->Array_0[j],
                            ),
                    decreases x.len() - i,
                {
                    if !value_eq(&x[i], &y[i]) {
                        assert(!values_equal(a@->Array_0[i as int], b@->Array_0[i as int]));
                        return false;
                    }
                    i = i + 1;
                }
                true
            },
            _ => false,
        },
        Value::Object(x) => match b {
            Value::Object(y) => {
                assert(a@->Object_0 =~= x@);
                assert(b@->Object_0 =~= y@);
                if x.len() != y.len() {
                    return false;
                }
                let mut i: usize = 0;
                while i < x.entries.len()
                    invariant
                        i <= x.entries.len(),
                        x.entries.len() == x@.len(),
                        x@.len() == y@.len(),
                        a@ == ValueView::Object(x@),
                        b@ == ValueView::Object(y@),
                        forall|j: int|
                            0 <= j < x.entries.len() ==> decreases_to!(
                                a => #[trigger] x.entries[j]
                            ),
                        forall|j: int|
                            0 <= j < i ==> {
                                &&& has_key(y@, (#[trigger] x@[j]).0)
                                &&& values_equal(x@[j].1, y@[key_index(y@, x@[j].0)].1)
                            },
                    decreases x.entries.len() - i,
                {
                    assert(x@[i as int] == (x.entries[i as int].0@, x.entries[i as int].1@));
                    let equal_here = match y.get(&x.entries[i].0) {
                        None => false,
                        Some(other) => value_eq(&x.entries[i].1, other),
                    };
                    if !equal_here {
                        return false;
                    }
                    i = i + 1;
                }
                true
            },
            _ => false,
        },
    }
}

fn copy_value(value: &Value) -> (copy: Value)
    ensures
        copy@ == value@,
    decreases value,
{
    match value {
        Value::Null => Value::Null,
        Value::Bool(b) => Value::Bool(*b),
        Value::Number(n) => Value::Number(*n),
        Value::String(s) => Value::String(s.clone()),
        Value::Array(items) => {
            let mut copies: Vec<Value> = Vec::new();
            let mut at: usize = 0;
            while at < items.len()
                invariant
                    at <= items.len(),
                    copies.len() == at,
                    forall|j: int|
                        0 <= j < items.len() ==> decreases_to!(value => #[trigger] items[j]),
                    forall|j: int| 0 <= j < at ==> (#[trigger] copies[j])@ == items[j]@,
                decreases items.len() - at,
            {
                copies.push(copy_value(&items[at]));
                at = at + 1;
            }
            proof {
                lemma_array_view(*items);
                lemma_array_view_is(copies, value@->Array_0);
            }
            Value::Array(copies)
        },
        Value::Object(object) => {
            proof {
                use_type_invariant(object);
            }
            let copies = copy_entries(&object.entries);
            assert((Object { entries: copies })@ =~= object@);
            let copy = Object { entries: copies };
            proof {
                lemma_object_view(copy);
                lemma_object_view(*object);
            }
            Value::Object(copy)
        },
    }
}

fn copy_entries(entries: &Vec<(String, Value)>) -> (copies: Vec<(String, Value)>)
    ensures
        copies.len() == entries.len(),
        forall|j: int|
            0 <= j < entries.len() ==> (#[trigger] copies[j]).0@ == entries[j].0@ && copies[j].1@
                == entries[j].1@,
    decreases entries,
{
    let mut copies: Vec<(String, Value)> = Vec::new();
    let mut at: usize = 0;
    while at < entries.len()
        invariant
            at <= entries.len(),
            copies.len() == at,
            forall|j: int|
                0 <= j < at ==> (#[trigger] copies[j]).0@ == entries[j].0@ && copies[j].1@
                    == entries[j].1@,
        decreases entries.len() - at,
    {
        let key = entries[at].0.clone();
        let inner = copy_value(&entries[at].1);
        copies.push((key, inner));
        at = at + 1;
    }
    copies
}

impl Clone for Value {
    fn clone(&self) -> (copy: Value)
        ensures
            copy@ == self@,
    {
        copy_value(self)
    }
}

impl Clone for Object {
    fn clone(&self) -> (copy: Object)
        ensures
            copy@ == self@,
    {
        proof {
            use_type_invariant(self);
        }
        let copies = copy_entries(&self.entries);
        assert((Object { entries: copies })@ =~= self@);
        Object { entries: copies }
    }
}

impl PartialEq for Value {
    fn eq(&self, other: &Value) -> (equal: bool) {
        value_eq(self, other)
    }
}

impl PartialEqSpecImpl for Value {
    open spec fn obeys_eq_spec() -> bool {
        true
    }

    open spec fn eq_spec(&self, other: &Value) -> bool {
        values_equal(self@, other@)
    }
}

impl Eq for Value {

}

} // verus!
