use osakit::descriptor::{
    descriptor_at_index, get_descriptor_for_keyword, get_descriptor_type, number_of_items,
};
use osakit::four_char_code::{
    AS_ID, AS_NAME, AS_USER_RECORD_FIELDS, DESC_TYPE_DOUBLE, DESC_TYPE_ENUM, DESC_TYPE_FALSE,
    DESC_TYPE_LDATE, DESC_TYPE_LIST, DESC_TYPE_LONG, DESC_TYPE_NULL, DESC_TYPE_RECORD,
    DESC_TYPE_STRING, DESC_TYPE_TRUE, DESC_TYPE_TYPE, DESC_TYPE_URL, OSTYPE_MISSING, OSTYPE_NO,
    OSTYPE_NULL, OSTYPE_YES,
};
use osakit::output::{
    add_special_key_to_map_if_defined, get_nested_ns_apple_event_descriptor_value,
    get_value_from_ns_apple_event_descriptor,
};
use osakit::{Descriptor, Number, Object, ScriptOutputConversionError, Value};

fn text(value: &str) -> Value {
    Value::String(String::from(value))
}

fn whole(value: i64) -> Value {
    Value::Number(Number::from(value))
}

fn flat(fields: Vec<Descriptor>) -> Descriptor {
    Descriptor::record(vec![(AS_USER_RECORD_FIELDS, Descriptor::list(fields))])
}

fn keys(value: &Value) -> Vec<String> {
    match value {
        Value::Object(object) => object.entries().iter().map(|entry| entry.0.clone()).collect(),
        _ => panic!("not an object"),
    }
}

#[test]
fn it_returns_null_for_empty_descriptor() {
    let descriptor = Descriptor::new();
    assert_eq!(get_value_from_ns_apple_event_descriptor(&descriptor).unwrap(), Value::Null);
}

#[test]
fn it_fails_when_called_with_incorrect_index() {
    let descriptor = Descriptor::list(vec![]);
    assert_eq!(
        get_nested_ns_apple_event_descriptor_value(&descriptor, 1),
        Err(ScriptOutputConversionError::DescriptorNotFoundAtIndex(1))
    );
}

#[test]
fn it_counts_items_from_one() {
    let descriptor = Descriptor::list(vec![Descriptor::long(10), Descriptor::long(20)]);
    assert_eq!(number_of_items(&descriptor), 2);
    assert!(descriptor_at_index(&descriptor, 0).is_none());
    assert_eq!(descriptor_at_index(&descriptor, 1).unwrap().int32_value, 10);
    assert_eq!(descriptor_at_index(&descriptor, 2).unwrap().int32_value, 20);
    assert!(descriptor_at_index(&descriptor, 3).is_none());
    assert_eq!(get_nested_ns_apple_event_descriptor_value(&descriptor, 2), Ok(whole(20)));
    assert_eq!(
        get_nested_ns_apple_event_descriptor_value(&descriptor, 0),
        Err(ScriptOutputConversionError::DescriptorNotFoundAtIndex(0))
    );
    assert_eq!(
        get_nested_ns_apple_event_descriptor_value(&descriptor, 3),
        Err(ScriptOutputConversionError::DescriptorNotFoundAtIndex(3))
    );
    assert_eq!(
        get_nested_ns_apple_event_descriptor_value(&descriptor, usize::MAX),
        Err(ScriptOutputConversionError::DescriptorNotFoundAtIndex(isize::MAX))
    );
}

#[test]
fn it_finds_the_first_child_under_a_keyword() {
    let descriptor = Descriptor::record(vec![
        (AS_NAME, Descriptor::long(1)),
        (AS_ID, Descriptor::long(2)),
        (AS_ID, Descriptor::long(3)),
    ]);
    assert_eq!(get_descriptor_type(&descriptor), DESC_TYPE_RECORD);
    assert_eq!(get_descriptor_for_keyword(&descriptor, AS_ID).unwrap().int32_value, 2);
    assert_eq!(get_descriptor_for_keyword(&descriptor, AS_NAME).unwrap().int32_value, 1);
    assert!(get_descriptor_for_keyword(&descriptor, AS_USER_RECORD_FIELDS).is_none());
}

#[test]
fn it_decodes_text() {
    let descriptor = Descriptor::string("épistèmê");
    assert_eq!(get_descriptor_type(&descriptor), DESC_TYPE_STRING);
    assert_eq!(get_value_from_ns_apple_event_descriptor(&descriptor), Ok(text("épistèmê")));
}

#[test]
fn it_fails_on_text_without_text() {
    let descriptor = Descriptor::with_type(DESC_TYPE_STRING);
    assert_eq!(
        get_value_from_ns_apple_event_descriptor(&descriptor),
        Err(ScriptOutputConversionError::StringExpectedButNoneFound)
    );
}

#[test]
fn it_decodes_a_long_as_an_exact_integer() {
    for value in [0, 1, -1, 2000000, i32::MAX, i32::MIN] {
        let descriptor = Descriptor::long(value);
        assert_eq!(get_descriptor_type(&descriptor), DESC_TYPE_LONG);
        assert_eq!(
            get_value_from_ns_apple_event_descriptor(&descriptor),
            Ok(whole(i64::from(value)))
        );
    }
    assert_eq!(
        get_value_from_ns_apple_event_descriptor(&Descriptor::long(-7)),
        Ok(Value::Number(Number::NegInt(-7)))
    );
    assert_eq!(
        get_value_from_ns_apple_event_descriptor(&Descriptor::long(7)),
        Ok(Value::Number(Number::PosInt(7)))
    );
}

#[test]
fn it_decodes_a_date_as_whole_seconds() {
    let descriptor = Descriptor::date(1700000000.75f64.to_bits());
    assert_eq!(get_descriptor_type(&descriptor), DESC_TYPE_LDATE);
    assert_eq!(get_value_from_ns_apple_event_descriptor(&descriptor), Ok(whole(1700000000)));
    let before_the_epoch = Descriptor::date((-1.5f64).to_bits());
    assert_eq!(get_value_from_ns_apple_event_descriptor(&before_the_epoch), Ok(whole(-1)));
}

#[test]
fn it_fails_on_a_date_without_a_date() {
    let descriptor = Descriptor::with_type(DESC_TYPE_LDATE);
    assert_eq!(
        get_value_from_ns_apple_event_descriptor(&descriptor),
        Err(ScriptOutputConversionError::DateExpectedButNoneFound)
    );
}

#[test]
fn it_decodes_a_finite_double() {
    let descriptor = Descriptor::double(1234.5678f64.to_bits());
    assert_eq!(get_descriptor_type(&descriptor), DESC_TYPE_DOUBLE);
    assert_eq!(
        get_value_from_ns_apple_event_descriptor(&descriptor),
        Ok(Value::Number(Number::Float(1234.5678f64.to_bits())))
    );
}

#[test]
fn it_fails_on_a_double_that_is_not_finite() {
    for value in [f64::INFINITY, f64::NEG_INFINITY, f64::NAN, -f64::NAN] {
        let descriptor = Descriptor::double(value.to_bits());
        assert_eq!(
            get_value_from_ns_apple_event_descriptor(&descriptor),
            Err(ScriptOutputConversionError::InfiniteFloat(value.to_string()))
        );
    }
    assert_eq!(
        get_value_from_ns_apple_event_descriptor(&Descriptor::double(f64::INFINITY.to_bits())),
        Err(ScriptOutputConversionError::InfiniteFloat(String::from("inf")))
    );
    assert_eq!(
        get_value_from_ns_apple_event_descriptor(&Descriptor::double(f64::NEG_INFINITY.to_bits())),
        Err(ScriptOutputConversionError::InfiniteFloat(String::from("-inf")))
    );
    assert_eq!(
        get_value_from_ns_apple_event_descriptor(&Descriptor::double(f64::NAN.to_bits())),
        Err(ScriptOutputConversionError::InfiniteFloat(String::from("NaN")))
    );
}

#[test]
fn it_decodes_booleans() {
    assert_eq!(get_descriptor_type(&Descriptor::boolean(true)), DESC_TYPE_TRUE);
    assert_eq!(get_descriptor_type(&Descriptor::boolean(false)), DESC_TYPE_FALSE);
    assert_eq!(
        get_value_from_ns_apple_event_descriptor(&Descriptor::boolean(true)),
        Ok(Value::Bool(true))
    );
    assert_eq!(
        get_value_from_ns_apple_event_descriptor(&Descriptor::boolean(false)),
        Ok(Value::Bool(false))
    );
}

#[test]
fn it_decodes_yes_and_no_and_no_other_enumerator() {
    assert_eq!(get_descriptor_type(&Descriptor::enumerated(OSTYPE_YES)), DESC_TYPE_ENUM);
    assert_eq!(
        get_value_from_ns_apple_event_descriptor(&Descriptor::enumerated(OSTYPE_YES)),
        Ok(Value::Bool(true))
    );
    assert_eq!(
        get_value_from_ns_apple_event_descriptor(&Descriptor::enumerated(OSTYPE_NO)),
        Ok(Value::Bool(false))
    );
    assert_eq!(
        get_value_from_ns_apple_event_descriptor(&Descriptor::enumerated(OSTYPE_MISSING)),
        Err(ScriptOutputConversionError::UnexpectedTypedValue(String::from("msng")))
    );
}

#[test]
fn it_decodes_missing_and_null_and_no_other_type() {
    assert_eq!(get_descriptor_type(&Descriptor::type_code(OSTYPE_NULL)), DESC_TYPE_TYPE);
    assert_eq!(
        get_value_from_ns_apple_event_descriptor(&Descriptor::type_code(OSTYPE_MISSING)),
        Ok(Value::Null)
    );
    assert_eq!(
        get_value_from_ns_apple_event_descriptor(&Descriptor::type_code(OSTYPE_NULL)),
        Ok(Value::Null)
    );
    assert_eq!(
        get_value_from_ns_apple_event_descriptor(&Descriptor::type_code(OSTYPE_YES)),
        Err(ScriptOutputConversionError::UnexpectedTypedValue(String::from("yes ")))
    );
}

#[test]
fn it_decodes_a_url_as_text() {
    let descriptor = Descriptor::url("http://example.com");
    assert_eq!(get_descriptor_type(&descriptor), DESC_TYPE_URL);
    assert_eq!(
        get_value_from_ns_apple_event_descriptor(&descriptor),
        Ok(text("http://example.com"))
    );
}

#[test]
fn it_fails_on_a_url_without_text() {
    let descriptor = Descriptor::with_type(DESC_TYPE_URL);
    assert_eq!(
        get_value_from_ns_apple_event_descriptor(&descriptor),
        Err(ScriptOutputConversionError::UrlExpectedButNoneFound)
    );
}

#[test]
fn it_decodes_the_null_tag() {
    let descriptor = Descriptor::with_type(DESC_TYPE_NULL);
    assert_eq!(get_value_from_ns_apple_event_descriptor(&descriptor), Ok(Value::Null));
}

#[test]
fn it_decodes_a_list_in_order() {
    let descriptor = Descriptor::list(vec![
        Descriptor::long(1),
        Descriptor::list(vec![Descriptor::boolean(true)]),
        Descriptor::string("x"),
    ]);
    assert_eq!(get_descriptor_type(&descriptor), DESC_TYPE_LIST);
    assert_eq!(
        get_value_from_ns_apple_event_descriptor(&descriptor),
        Ok(Value::Array(vec![whole(1), Value::Array(vec![Value::Bool(true)]), text("x")]))
    );
}

#[test]
fn it_fails_a_list_with_the_first_error_among_its_items() {
    let descriptor = Descriptor::list(vec![
        Descriptor::long(1),
        Descriptor::with_type(DESC_TYPE_URL),
        Descriptor::with_type(DESC_TYPE_STRING),
    ]);
    assert_eq!(
        get_value_from_ns_apple_event_descriptor(&descriptor),
        Err(ScriptOutputConversionError::UrlExpectedButNoneFound)
    );
}

#[test]
fn it_reports_an_unknown_tag_as_four_characters() {
    let descriptor = Descriptor::with_type(u32::from_be_bytes(*b"abcd"));
    assert_eq!(
        get_value_from_ns_apple_event_descriptor(&descriptor),
        Err(ScriptOutputConversionError::UnknownDescriptorType(String::from("abcd")))
    );
    let descriptor = Descriptor::with_type(u32::from_be_bytes([b'a', 0x80, 0xff, 0x7f]));
    assert_eq!(
        get_value_from_ns_apple_event_descriptor(&descriptor),
        Err(ScriptOutputConversionError::UnknownDescriptorType(String::from("a??\u{7f}")))
    );
}

#[test]
fn it_decodes_an_empty_record() {
    let descriptor = Descriptor::record(vec![]);
    assert_eq!(
        get_value_from_ns_apple_event_descriptor(&descriptor),
        Ok(Value::Object(Object::new()))
    );
    assert_eq!(
        get_value_from_ns_apple_event_descriptor(&flat(vec![])),
        Ok(Value::Object(Object::new()))
    );
}

#[test]
fn it_decodes_named_fields_in_their_order() {
    let descriptor = flat(vec![
        Descriptor::string("z"),
        Descriptor::long(1),
        Descriptor::string("a"),
        Descriptor::long(2),
    ]);
    let value = get_value_from_ns_apple_event_descriptor(&descriptor).unwrap();
    assert_eq!(keys(&value), vec!["z", "a"]);
    assert_eq!(
        value,
        Value::Object(Object::from_iter(vec![("z".into(), whole(1)), ("a".into(), whole(2))]))
    );
}

#[test]
fn it_puts_id_and_name_first() {
    let descriptor = Descriptor::record(vec![
        (
            AS_USER_RECORD_FIELDS,
            Descriptor::list(vec![Descriptor::string("x"), Descriptor::long(1)]),
        ),
        (AS_NAME, Descriptor::string("test")),
        (AS_ID, Descriptor::long(123)),
    ]);
    let value = get_value_from_ns_apple_event_descriptor(&descriptor).unwrap();
    assert_eq!(keys(&value), vec!["id", "name", "x"]);
    let only_name = Descriptor::record(vec![
        (
            AS_USER_RECORD_FIELDS,
            Descriptor::list(vec![Descriptor::string("x"), Descriptor::long(1)]),
        ),
        (AS_NAME, Descriptor::string("test")),
    ]);
    let value = get_value_from_ns_apple_event_descriptor(&only_name).unwrap();
    assert_eq!(keys(&value), vec!["name", "x"]);
}

#[test]
fn it_lets_a_named_field_replace_a_special_field_at_its_place() {
    let descriptor = Descriptor::record(vec![
        (AS_ID, Descriptor::long(1)),
        (AS_NAME, Descriptor::string("n")),
        (
            AS_USER_RECORD_FIELDS,
            Descriptor::list(vec![Descriptor::string("id"), Descriptor::long(2)]),
        ),
    ]);
    let value = get_value_from_ns_apple_event_descriptor(&descriptor).unwrap();
    assert_eq!(keys(&value), vec!["id", "name"]);
    assert_eq!(
        value,
        Value::Object(Object::from_iter(vec![("id".into(), whole(2)), ("name".into(), text("n"))]))
    );
}

#[test]
fn it_fails_on_a_key_that_is_no_text() {
    let descriptor = flat(vec![Descriptor::long(1), Descriptor::long(2)]);
    assert_eq!(
        get_value_from_ns_apple_event_descriptor(&descriptor),
        Err(ScriptOutputConversionError::StringExpectedButValueFound(whole(1)))
    );
}

#[test]
fn it_fails_on_a_key_without_a_value() {
    let descriptor = flat(vec![
        Descriptor::string("a"),
        Descriptor::long(1),
        Descriptor::string("b"),
    ]);
    assert_eq!(
        get_value_from_ns_apple_event_descriptor(&descriptor),
        Err(ScriptOutputConversionError::DescriptorNotFoundAtIndex(4))
    );
}

#[test]
fn it_fails_a_record_with_the_error_of_a_special_field() {
    let descriptor = Descriptor::record(vec![
        (AS_NAME, Descriptor::with_type(DESC_TYPE_STRING)),
        (AS_ID, Descriptor::with_type(DESC_TYPE_URL)),
    ]);
    assert_eq!(
        get_value_from_ns_apple_event_descriptor(&descriptor),
        Err(ScriptOutputConversionError::UrlExpectedButNoneFound)
    );
}

#[test]
fn it_adds_a_special_key_where_it_is_defined() {
    let descriptor = Descriptor::record(vec![(AS_ID, Descriptor::long(5))]);
    let mut map = Object::new();
    assert_eq!(add_special_key_to_map_if_defined(&mut map, &descriptor, AS_ID, "id"), Ok(()));
    assert_eq!(map.len(), 1);
    assert_eq!(map.get(&String::from("id")), Some(&whole(5)));
    assert_eq!(add_special_key_to_map_if_defined(&mut map, &descriptor, AS_NAME, "name"), Ok(()));
    assert_eq!(map.len(), 1);
    let broken = Descriptor::record(vec![(AS_NAME, Descriptor::with_type(DESC_TYPE_LDATE))]);
    assert_eq!(
        add_special_key_to_map_if_defined(&mut map, &broken, AS_NAME, "name"),
        Err(ScriptOutputConversionError::DateExpectedButNoneFound)
    );
    assert_eq!(map.len(), 1);
}
