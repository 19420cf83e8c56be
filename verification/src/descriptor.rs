//! The descriptor tree in which the scripting engine hands back a result,
//! as plain values, and the accessors that read it.

use crate::four_char_code::{
    FourCharCode, DESC_TYPE_DOUBLE, DESC_TYPE_ENUM, DESC_TYPE_FALSE, DESC_TYPE_LDATE,
    DESC_TYPE_LIST, DESC_TYPE_LONG, DESC_TYPE_NULL, DESC_TYPE_RECORD, DESC_TYPE_STRING,
    DESC_TYPE_TRUE, DESC_TYPE_TYPE, DESC_TYPE_URL,
};
use vstd::prelude::*;

verus! {

/// A node of the tree in which the scripting engine hands back a result.
/// It holds as plain values what the engine's accessors give for the node:
/// its type tag, its scalar readings, the children that a record keeps under
/// keywords, and the items of a list, which the engine counts from one.
#[derive(Debug, PartialEq, Eq)]
pub struct Descriptor {
    /// The four-byte tag that says what the node holds.
    pub descriptor_type: FourCharCode,
    /// The node read as text, where the engine can give it.
    pub string_value: Option<String>,
    /// The node read as a signed 32-bit integer.
    pub int32_value: i32,
    /// The node read as a double, as its IEEE 754 bit pattern.
    pub double_bits: u64,
    /// The node read as a date: the seconds since the start of 1970, a
    /// double given as its bit pattern.
    pub date_bits: Option<u64>,
    /// The node read as a type code or an enumerator.
    pub type_code_value: FourCharCode,
    /// The children that the node keeps under keywords.
    pub keyword_items: Vec<(FourCharCode, Descriptor)>,
    /// The items of the node, the first of which has index one.
    pub items: Vec<Descriptor>,
}

/// The mathematical model of a [`Descriptor`].
pub struct DescriptorView {
    pub descriptor_type: FourCharCode,
    pub string_value: Option<Seq<char>>,
    pub int32_value: i32,
    pub double_bits: u64,
    pub date_bits: Option<u64>,
    pub type_code_value: FourCharCode,
    pub keyword_items: Seq<(FourCharCode, DescriptorView)>,
    pub items: Seq<DescriptorView>,
}

/// The model of a descriptor.
pub open spec fn descriptor_view(descriptor: Descriptor) -> DescriptorView
    decreases descriptor,
{
    DescriptorView {
        descriptor_type: descriptor.descriptor_type,
        string_value: match descriptor.string_value {
            Some(text) => Some(text@),
            None => None,
        },
        int32_value: descriptor.int32_value,
        double_bits: descriptor.double_bits,
        date_bits: descriptor.date_bits,
        type_code_value: descriptor.type_code_value,
        keyword_items: Seq::new(
            descriptor.keyword_items.len() as nat,
            |i: int|
                if 0 <= i < descriptor.keyword_items.len() {
                    (descriptor.keyword_items[i].0, descriptor_view(descriptor.keyword_items[i].1))
                } else {
                    (0, empty_descriptor())
                },
        ),
        items: Seq::new(
            descriptor.items.len() as nat,
            |i: int|
                if 0 <= i < descriptor.items.len() {
                    descriptor_view(descriptor.items[i])
                } else {
                    empty_descriptor()
                },
        ),
    }
}

/// The model of the descriptor that holds nothing.
pub open spec fn empty_descriptor() -> DescriptorView {
    DescriptorView {
        descriptor_type: DESC_TYPE_NULL,
        string_value: None,
        int32_value: 0,
        double_bits: 0,
        date_bits: None,
        type_code_value: 0,
        keyword_items: Seq::empty(),
        items: Seq::empty(),
    }
}

impl View for Descriptor {
    type V = DescriptorView;

    open spec fn view(&self) -> DescriptorView {
        descriptor_view(*self)
    }
}

/// The place of the first child kept under `keyword`, looking from `from` on.
pub open spec fn keyword_position(
    items: Seq<(FourCharCode, DescriptorView)>,
    keyword: FourCharCode,
    from: int,
) -> Option<int>
    decreases items.len() - from,
{
    if from < 0 || from >= items.len() {
        None
    } else if items[from].0 == keyword {
        Some(from)
    } else {
        keyword_position(items, keyword, from + 1)
    }
}

/// `keyword_position` answers with a place inside the sequence, at or after
/// `from`, that holds the keyword.
pub proof fn lemma_keyword_position(
    items: Seq<(FourCharCode, DescriptorView)>,
    keyword: FourCharCode,
    from: int,
)
    ensures
        match keyword_position(items, keyword, from) {
            Some(i) => 0 <= from <= i < items.len() && items[i].0 == keyword,
            None => true,
        },
    decreases items.len() - from,
{
    if 0 <= from < items.len() && items[from].0 != keyword {
        lemma_keyword_position(items, keyword, from + 1);
    }
}

/// The tag of a descriptor.
pub fn get_descriptor_type(descriptor: &Descriptor) -> (tag: FourCharCode)
    ensures
        tag == descriptor@.descriptor_type,
{
    descriptor.descriptor_type
}

/// The first child that a descriptor keeps under `keyword`, if it keeps one.
pub fn get_descriptor_for_keyword(descriptor: &Descriptor, keyword: FourCharCode) -> (child:
    Option<&Descriptor>)
    ensures
        match keyword_position(descriptor@.keyword_items, keyword, 0) {
            Some(i) => 0 <= i < descriptor.keyword_items.len() && child == Some(
                &descriptor.keyword_items[i].1,
            ) && descriptor@.keyword_items[i].1 == descriptor.keyword_items[i].1@,
            None => child is None,
        },
{
    let mut i: usize = 0;
    while i < descriptor.keyword_items.len()
        invariant
            i <= descriptor.keyword_items.len(),
            descriptor@.keyword_items.len() == descriptor.keyword_items.len(),
            forall|j: int|
                0 <= j < descriptor.keyword_items.len() ==> (
                #[trigger] descriptor@.keyword_items[j]) == (
                    descriptor.keyword_items[j].0,
                    descriptor.keyword_items[j].1@,
                ),
            keyword_position(descriptor@.keyword_items, keyword, 0) == keyword_position(
                descriptor@.keyword_items,
                keyword,
                i as int,
            ),
        decreases descriptor.keyword_items.len() - i,
    {
        if descriptor.keyword_items[i].0 == keyword {
            assert(descriptor@.keyword_items[i as int].0 == keyword);
            return Some(&descriptor.keyword_items[i].1);
        }
        assert(descriptor@.keyword_items[i as int].0 != keyword);
        i = i + 1;
    }
    None
}

/// The item of a descriptor at `index`, counted from one, if it has one.
pub fn descriptor_at_index(descriptor: &Descriptor, index: usize) -> (item: Option<&Descriptor>)
    ensures
        descriptor@.items.len() == descriptor.items.len(),
        item == (if 1 <= index <= descriptor.items.len() {
            Some(&descriptor.items[index - 1])
        } else {
            None
        }),
        1 <= index <= descriptor.items.len() ==> descriptor@.items[index - 1]
            == descriptor.items[index - 1]@,
{
    if 1 <= index && index <= descriptor.items.len() {
        Some(&descriptor.items[index - 1])
    } else {
        None
    }
}

/// The number of items of a descriptor.
pub fn number_of_items(descriptor: &Descriptor) -> (count: usize)
    ensures
        count == descriptor@.items.len(),
{
    descriptor.items.len()
}

/// The models of a sequence of descriptors.
pub open spec fn descriptors_view(descriptors: Seq<Descriptor>) -> Seq<DescriptorView> {
    Seq::new(descriptors.len(), |i: int| descriptors[i]@)
}

/// The models of a sequence of descriptors kept under keywords.
pub open spec fn keyword_items_view(items: Seq<(FourCharCode, Descriptor)>) -> Seq<
    (FourCharCode, DescriptorView),
> {
    Seq::new(items.len(), |i: int| (items[i].0, items[i].1@))
}

/// The model of a descriptor with the given tag that holds nothing else.
pub open spec fn bare_descriptor(descriptor_type: FourCharCode) -> DescriptorView {
    DescriptorView {
        descriptor_type,
        string_value: None,
        int32_value: 0,
        double_bits: 0,
        date_bits: None,
        type_code_value: 0,
        keyword_items: Seq::empty(),
        items: Seq::empty(),
    }
}

impl Descriptor {
    /// A descriptor with the given tag that holds nothing else.
    pub fn with_type(descriptor_type: FourCharCode) -> (descriptor: Descriptor)
        ensures
            descriptor@ == bare_descriptor(descriptor_type),
    {
        let descriptor = Descriptor {
            descriptor_type,
            string_value: None,
            int32_value: 0,
            double_bits: 0,
            date_bits: None,
            type_code_value: 0,
            keyword_items: Vec::new(),
            items: Vec::new(),
        };
        assert(descriptor@.keyword_items =~= Seq::empty());
        assert(descriptor@.items =~= Seq::empty());
        descriptor
    }

    /// The descriptor that holds nothing: the null descriptor.
    pub fn new() -> (descriptor: Descriptor)
        ensures
            descriptor@ == bare_descriptor(DESC_TYPE_NULL),
    {
        Descriptor::with_type(DESC_TYPE_NULL)
    }

    /// A descriptor that holds text.
    pub fn string(text: &str) -> (descriptor: Descriptor)
        ensures
            descriptor@ == (DescriptorView {
                string_value: Some(text@),
                ..bare_descriptor(DESC_TYPE_STRING)
            }),
    {
        let mut descriptor = Descriptor::with_type(DESC_TYPE_STRING);
        descriptor.string_value = Some(text.to_owned());
        assert(descriptor@.keyword_items =~= Seq::empty());
        assert(descriptor@.items =~= Seq::empty());
        descriptor
    }

    /// A descriptor that holds a URL, which it gives as text.
    pub fn url(text: &str) -> (descriptor: Descriptor)
        ensures
            descriptor@ == (DescriptorView {
                string_value: Some(text@),
                ..bare_descriptor(DESC_TYPE_URL)
            }),
    {
        let mut descriptor = Descriptor::with_type(DESC_TYPE_URL);
        descriptor.string_value = Some(text.to_owned());
        assert(descriptor@.keyword_items =~= Seq::empty());
        assert(descriptor@.items =~= Seq::empty());
        descriptor
    }

    /// A descriptor that holds a signed 32-bit integer.
    pub fn long(value: i32) -> (descriptor: Descriptor)
        ensures
            descriptor@ == (DescriptorView {
                int32_value: value,
                ..bare_descriptor(DESC_TYPE_LONG)
            }),
    {
        let mut descriptor = Descriptor::with_type(DESC_TYPE_LONG);
        descriptor.int32_value = value;
        assert(descriptor@.keyword_items =~= Seq::empty());
        assert(descriptor@.items =~= Seq::empty());
        descriptor
    }

    /// A descriptor that holds the double with the given bit pattern.
    pub fn double(bits: u64) -> (descriptor: Descriptor)
        ensures
            descriptor@ == (DescriptorView {
                double_bits: bits,
                ..bare_descriptor(DESC_TYPE_DOUBLE)
            }),
    {
        let mut descriptor = Descriptor::with_type(DESC_TYPE_DOUBLE);
        descriptor.double_bits = bits;
        assert(descriptor@.keyword_items =~= Seq::empty());
        assert(descriptor@.items =~= Seq::empty());
        descriptor
    }

    /// A descriptor that holds a date: the seconds since the start of 1970,
    /// a double given by its bit pattern.
    pub fn date(bits: u64) -> (descriptor: Descriptor)
        ensures
            descriptor@ == (DescriptorView {
                date_bits: Some(bits),
                ..bare_descriptor(DESC_TYPE_LDATE)
            }),
    {
        let mut descriptor = Descriptor::with_type(DESC_TYPE_LDATE);
        descriptor.date_bits = Some(bits);
        assert(descriptor@.keyword_items =~= Seq::empty());
        assert(descriptor@.items =~= Seq::empty());
        descriptor
    }

    /// A descriptor that holds a boolean.
    pub fn boolean(value: bool) -> (descriptor: Descriptor)
        ensures
            descriptor@ == bare_descriptor(
                if value {
                    DESC_TYPE_TRUE
                } else {
                    DESC_TYPE_FALSE
                },
            ),
    {
        if value {
            Descriptor::with_type(DESC_TYPE_TRUE)
        } else {
            Descriptor::with_type(DESC_TYPE_FALSE)
        }
    }

    /// A descriptor that holds an enumerator.
    pub fn enumerated(code: FourCharCode) -> (descriptor: Descriptor)
        ensures
            descriptor@ == (DescriptorView {
                type_code_value: code,
                ..bare_descriptor(DESC_TYPE_ENUM)
            }),
    {
        let mut descriptor = Descriptor::with_type(DESC_TYPE_ENUM);
        descriptor.type_code_value = code;
        assert(descriptor@.keyword_items =~= Seq::empty());
        assert(descriptor@.items =~= Seq::empty());
        descriptor
    }

    /// A descriptor that names a type.
    pub fn type_code(code: FourCharCode) -> (descriptor: Descriptor)
        ensures
            descriptor@ == (DescriptorView {
                type_code_value: code,
                ..bare_descriptor(DESC_TYPE_TYPE)
            }),
    {
        let mut descriptor = Descriptor::with_type(DESC_TYPE_TYPE);
        descriptor.type_code_value = code;
        assert(descriptor@.keyword_items =~= Seq::empty());
        assert(descriptor@.items =~= Seq::empty());
        descriptor
    }

    /// A list of the given items.
    pub fn list(items: Vec<Descriptor>) -> (descriptor: Descriptor)
        ensures
            descriptor@ == (DescriptorView {
                items: descriptors_view(items@),
                ..bare_descriptor(DESC_TYPE_LIST)
            }),
    {
        let mut descriptor = Descriptor::with_type(DESC_TYPE_LIST);
        descriptor.items = items;
        assert(descriptor@.keyword_items =~= Seq::empty());
        assert(descriptor@.items =~= descriptors_view(items@));
        descriptor
    }

    /// A record that keeps the given children under their keywords.
    pub fn record(keyword_items: Vec<(FourCharCode, Descriptor)>) -> (descriptor: Descriptor)
        ensures
            descriptor@ == (DescriptorView {
                keyword_items: keyword_items_view(keyword_items@),
                ..bare_descriptor(DESC_TYPE_RECORD)
            }),
    {
        let mut descriptor = Descriptor::with_type(DESC_TYPE_RECORD);
        descriptor.keyword_items = keyword_items;
        assert(descriptor@.keyword_items =~= keyword_items_view(keyword_items@));
        assert(descriptor@.items =~= Seq::empty());
        descriptor
    }
}

} // verus!
