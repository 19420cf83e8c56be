//! Four-character codes: the tags, type codes and keywords that the decoder
//! knows, and how a code is shown as text.

use vstd::prelude::*;
use vstd::string::StringSliceAdditionalSpecFns;

verus! {

/// A four-byte identifier with which the scripting engine tags descriptor
/// types, enumerators and record keywords.
pub type FourCharCode = u32;

/// The tag of a descriptor that holds text.
pub const DESC_TYPE_STRING: FourCharCode = 0x7574_7874;

/// The tag of the boolean `true`.
pub const DESC_TYPE_TRUE: FourCharCode = 0x7472_7565;

/// The tag of the boolean `false`.
pub const DESC_TYPE_FALSE: FourCharCode = 0x6661_6c73;

/// The tag of a record.
pub const DESC_TYPE_RECORD: FourCharCode = 0x7265_636f;

/// The tag of a list.
pub const DESC_TYPE_LIST: FourCharCode = 0x6c69_7374;

/// The tag of a signed 32-bit integer.
pub const DESC_TYPE_LONG: FourCharCode = 0x6c6f_6e67;

/// The tag of a double.
pub const DESC_TYPE_DOUBLE: FourCharCode = 0x646f_7562;

/// The tag of a descriptor that names a type.
pub const DESC_TYPE_TYPE: FourCharCode = 0x7479_7065;

/// The tag of the null descriptor.
pub const DESC_TYPE_NULL: FourCharCode = 0x6e75_6c6c;

/// The tag of an enumerator.
pub const DESC_TYPE_ENUM: FourCharCode = 0x656e_756d;

/// The tag of a date.
pub const DESC_TYPE_LDATE: FourCharCode = 0x6c64_7420;

/// The tag of a URL.
pub const DESC_TYPE_URL: FourCharCode = 0x7572_6c20;

/// The type code of the missing value.
pub const OSTYPE_MISSING: FourCharCode = 0x6d73_6e67;

/// The type code of null.
pub const OSTYPE_NULL: FourCharCode = 0x6e75_6c6c;

/// The enumerator `yes`.
pub const OSTYPE_YES: FourCharCode = 0x7965_7320;

/// The enumerator `no`.
pub const OSTYPE_NO: FourCharCode = 0x6e6f_2020;

/// The keyword under which a record keeps the fields that its script named.
pub const AS_USER_RECORD_FIELDS: FourCharCode = 0x7573_7266;

/// The keyword of a record's `id` field.
pub const AS_ID: FourCharCode = 0x4944_2020;

/// The keyword of a record's `name` field.
pub const AS_NAME: FourCharCode = 0x706e_616d;

/// `String::push` appends one character to the end of the string.
pub assume_specification[ std::string::String::push ](s: &mut std::string::String, ch: char)
    ensures
        final(s)@ == old(s)@.push(ch),
;

/// The byte of `code` at position `index`, counted from the most significant.
pub open spec fn code_byte(code: FourCharCode, index: int) -> int {
    if index == 0 {
        (code as int / 0x1000000) % 0x100
    } else if index == 1 {
        (code as int / 0x10000) % 0x100
    } else if index == 2 {
        (code as int / 0x100) % 0x100
    } else {
        code as int % 0x100
    }
}

/// How one byte of a code is shown: itself where it is ASCII, `?` otherwise.
pub open spec fn byte_char(byte: int) -> char {
    if 0 <= byte < 0x80 {
        byte as char
    } else {
        '?'
    }
}

/// The four characters that stand for `code`.
pub open spec fn code_text(code: FourCharCode) -> Seq<char> {
    seq![
        byte_char(code_byte(code, 0)),
        byte_char(code_byte(code, 1)),
        byte_char(code_byte(code, 2)),
        byte_char(code_byte(code, 3)),
    ]
}

fn byte_at(code: FourCharCode, index: u8) -> (byte: u8)
    requires
        index < 4,
    ensures
        byte as int == code_byte(code, index as int),
{
    let shifted: u32 = if index == 0 {
        code >> 24
    } else if index == 1 {
        code >> 16
    } else if index == 2 {
        code >> 8
    } else {
        code
    };
    let low: u32 = shifted & 0xff;
    assert(code >> 24 == code / 0x1000000) by (bit_vector);
    assert(code >> 16 == code / 0x10000) by (bit_vector);
    assert(code >> 8 == code / 0x100) by (bit_vector);
    assert(shifted & 0xff == shifted % 0x100) by (bit_vector);
    low as u8
}

fn show_byte(byte: u8) -> (c: char)
    ensures
        c == byte_char(byte as int),
{
    if byte < 0x80 {
        byte as char
    } else {
        '?'
    }
}

/// Renders a code as four characters, most significant byte first; a byte
/// outside ASCII is shown as `?`.
pub fn four_char_code_to_string(t: FourCharCode) -> (text: String)
    ensures
        text@ == code_text(t),
{
    let mut text = String::new();
    let mut index: u8 = 0;
    while index < 4
        invariant
            index <= 4,
            text@ == code_text(t).subrange(0, index as int),
        decreases 4 - index,
    {
        text.push(show_byte(byte_at(t, index)));
        index = index + 1;
    }
    assert(text@ =~= code_text(t));
    text
}

/// The code that four bytes spell, the first byte being the most
/// significant.
pub open spec fn code_of_bytes(bytes: Seq<u8>) -> int {
    bytes[0] as int * 0x1000000 + bytes[1] as int * 0x10000 + bytes[2] as int * 0x100
        + bytes[3] as int
}

/// The code that a text of exactly four bytes spells; a text of any other
/// length spells none.
pub fn four_char_code_from_string(source: &str) -> (code: Option<FourCharCode>)
    ensures
        code == (if source.spec_bytes().len() == 4 {
            Some(code_of_bytes(source.spec_bytes()) as FourCharCode)
        } else {
            None
        }),
{
    let bytes = source.as_bytes();
    if bytes.len() != 4 {
        return None;
    }
    let b0: u32 = bytes[0] as u32;
    let b1: u32 = bytes[1] as u32;
    let b2: u32 = bytes[2] as u32;
    let b3: u32 = bytes[3] as u32;
    assert((b0 << 24) | (b1 << 16) | (b2 << 8) | b3 == b0 * 0x1000000 + b1 * 0x10000 + b2 * 0x100
        + b3) by (bit_vector)
        requires
            b0 < 0x100,
            b1 < 0x100,
            b2 < 0x100,
            b3 < 0x100,
    ;
    Some((b0 << 24) | (b1 << 16) | (b2 << 8) | b3)
}

/// Every tag, type code and keyword that the decoder knows is the code that
/// its four-character name spells.
pub proof fn lemma_codes_spell_their_names()
    ensures
        code_text(DESC_TYPE_STRING) == "utxt"@,
        code_text(DESC_TYPE_TRUE) == "true"@,
        code_text(DESC_TYPE_FALSE) == "fals"@,
        code_text(DESC_TYPE_RECORD) == "reco"@,
        code_text(DESC_TYPE_LIST) == "list"@,
        code_text(DESC_TYPE_LONG) == "long"@,
        code_text(DESC_TYPE_DOUBLE) == "doub"@,
        code_text(DESC_TYPE_TYPE) == "type"@,
        code_text(DESC_TYPE_NULL) == "null"@,
        code_text(DESC_TYPE_ENUM) == "enum"@,
        code_text(DESC_TYPE_LDATE) == "ldt "@,
        code_text(DESC_TYPE_URL) == "url "@,
        code_text(OSTYPE_MISSING) == "msng"@,
        code_text(OSTYPE_NULL) == "null"@,
        code_text(OSTYPE_YES) == "yes "@,
        code_text(OSTYPE_NO) == "no  "@,
        code_text(AS_USER_RECORD_FIELDS) == "usrf"@,
        code_text(AS_ID) == "ID  "@,
        code_text(AS_NAME) == "pnam"@,
{
    reveal_strlit("utxt");
    reveal_strlit("true");
    reveal_strlit("fals");
    reveal_strlit("reco");
    reveal_strlit("list");
    reveal_strlit("long");
    reveal_strlit("doub");
    reveal_strlit("type");
    reveal_strlit("null");
    reveal_strlit("enum");
    reveal_strlit("ldt ");
    reveal_strlit("url ");
    reveal_strlit("msng");
    reveal_strlit("yes ");
    reveal_strlit("no  ");
    reveal_strlit("usrf");
    reveal_strlit("ID  ");
    reveal_strlit("pnam");
    assert(code_text(DESC_TYPE_STRING) =~= "utxt"@);
    assert(code_text(DESC_TYPE_TRUE) =~= "true"@);
    assert(code_text(DESC_TYPE_FALSE) =~= "fals"@);
    assert(code_text(DESC_TYPE_RECORD) =~= "reco"@);
    assert(code_text(DESC_TYPE_LIST) =~= "list"@);
    assert(code_text(DESC_TYPE_LONG) =~= "long"@);
    assert(code_text(DESC_TYPE_DOUBLE) =~= "doub"@);
    assert(code_text(DESC_TYPE_TYPE) =~= "type"@);
    assert(code_text(DESC_TYPE_NULL) =~= "null"@);
    assert(code_text(DESC_TYPE_ENUM) =~= "enum"@);
    assert(code_text(DESC_TYPE_LDATE) =~= "ldt "@);
    assert(code_text(DESC_TYPE_URL) =~= "url "@);
    assert(code_text(OSTYPE_MISSING) =~= "msng"@);
    assert(code_text(OSTYPE_YES) =~= "yes "@);
    assert(code_text(OSTYPE_NO) =~= "no  "@);
    assert(code_text(AS_USER_RECORD_FIELDS) =~= "usrf"@);
    assert(code_text(AS_ID) =~= "ID  "@);
    assert(code_text(AS_NAME) =~= "pnam"@);
}

} // verus!
