use osakit::float_bits::{doubles_equal, is_finite_bits, non_finite_to_string, truncate_to_i64};
use osakit::four_char_code::{
    four_char_code_from_string, four_char_code_to_string, AS_ID, AS_NAME, AS_USER_RECORD_FIELDS,
    DESC_TYPE_DOUBLE, DESC_TYPE_ENUM, DESC_TYPE_FALSE, DESC_TYPE_LDATE, DESC_TYPE_LIST,
    DESC_TYPE_LONG, DESC_TYPE_NULL, DESC_TYPE_RECORD, DESC_TYPE_STRING, DESC_TYPE_TRUE,
    DESC_TYPE_TYPE, DESC_TYPE_URL, OSTYPE_MISSING, OSTYPE_NO, OSTYPE_NULL, OSTYPE_YES,
};
use osakit::script::{check_main_thread, extract_error_data, language_name, render_debug};
use osakit::{
    ErrorDict, Language, Number, Object, RangeEntry, Script, ScriptCompilationError,
    ScriptExecutionError, Value,
};

fn whole(value: i64) -> Value {
    Value::Number(Number::from(value))
}

fn text(value: &str) -> Value {
    Value::String(String::from(value))
}

#[test]
fn it_renders_a_code_most_significant_byte_first() {
    assert_eq!(four_char_code_to_string(0x7574_7874), "utxt");
    assert_eq!(four_char_code_to_string(0x6b73_2400), "ks$\0");
    assert_eq!(four_char_code_to_string(0), "\0\0\0\0");
    assert_eq!(four_char_code_to_string(0x7f80_ff41), "\u{7f}??A");
    assert_eq!(four_char_code_to_string(u32::MAX), "????");
}

#[test]
fn it_spells_every_known_code() {
    let table = [
        (DESC_TYPE_STRING, "utxt"),
        (DESC_TYPE_TRUE, "true"),
        (DESC_TYPE_FALSE, "fals"),
        (DESC_TYPE_RECORD, "reco"),
        (DESC_TYPE_LIST, "list"),
        (DESC_TYPE_LONG, "long"),
        (DESC_TYPE_DOUBLE, "doub"),
        (DESC_TYPE_TYPE, "type"),
        (DESC_TYPE_NULL, "null"),
        (DESC_TYPE_ENUM, "enum"),
        (DESC_TYPE_LDATE, "ldt "),
        (DESC_TYPE_URL, "url "),
        (OSTYPE_MISSING, "msng"),
        (OSTYPE_NULL, "null"),
        (OSTYPE_YES, "yes "),
        (OSTYPE_NO, "no  "),
        (AS_USER_RECORD_FIELDS, "usrf"),
        (AS_ID, "ID  "),
        (AS_NAME, "pnam"),
    ];
    for (code, name) in table {
        assert_eq!(four_char_code_to_string(code), name);
        assert_eq!(four_char_code_from_string(name), Some(code));
        assert_eq!(code, u32::from_be_bytes(name.as_bytes().try_into().unwrap()));
    }
}

#[test]
fn it_spells_no_code_from_a_text_that_is_not_four_bytes_long() {
    assert_eq!(four_char_code_from_string(""), None);
    assert_eq!(four_char_code_from_string("abc"), None);
    assert_eq!(four_char_code_from_string("abcde"), None);
    assert_eq!(four_char_code_from_string("éé"), Some(0xc3a9_c3a9));
}

#[test]
fn it_tells_finite_doubles() {
    for value in [0.0, -0.0, 1.5, f64::MAX, f64::MIN, f64::MIN_POSITIVE, 5e-324] {
        assert!(is_finite_bits(f64::to_bits(value)));
    }
    for value in [f64::INFINITY, f64::NEG_INFINITY, f64::NAN] {
        assert!(!is_finite_bits(value.to_bits()));
    }
    assert_eq!(non_finite_to_string(f64::INFINITY.to_bits()).unwrap(), "inf");
    assert_eq!(non_finite_to_string(f64::NEG_INFINITY.to_bits()).unwrap(), "-inf");
    assert_eq!(non_finite_to_string(f64::NAN.to_bits()).unwrap(), "NaN");
    assert_eq!(non_finite_to_string(0xfff8_0000_0000_0001).unwrap(), "NaN");
    assert_eq!(non_finite_to_string(1.5f64.to_bits()), None);
}

#[test]
fn it_truncates_doubles_toward_zero() {
    let samples = [
        0.0,
        -0.0,
        0.5,
        -0.5,
        0.999999,
        1.0,
        -1.0,
        1.5,
        -1.5,
        2.5,
        1234.5678,
        -1234.5678,
        1700000000.75,
        4503599627370495.5,
        4503599627370496.0,
        9007199254740991.0,
        9007199254740992.0,
        9007199254740993.0,
        1e18,
        -1e18,
        9223372036854774784.0,
        9223372036854775807.0,
        9223372036854775808.0,
        -9223372036854775808.0,
        -9223372036854777856.0,
        1e19,
        -1e19,
        1e300,
        -1e300,
        5e-324,
        f64::MIN_POSITIVE,
        f64::MAX,
        f64::MIN,
        f64::INFINITY,
        f64::NEG_INFINITY,
        f64::NAN,
    ];
    for value in samples {
        assert_eq!(truncate_to_i64(value.to_bits()), value.trunc() as i64, "{}", value);
    }
    assert_eq!(truncate_to_i64(2.5f64.to_bits()), 2);
    assert_eq!(truncate_to_i64((-2.5f64).to_bits()), -2);
    assert_eq!(truncate_to_i64(1e19f64.to_bits()), i64::MAX);
    assert_eq!(truncate_to_i64((-1e19f64).to_bits()), i64::MIN);
    assert_eq!(truncate_to_i64(f64::NAN.to_bits()), 0);
    let mut bits: u64 = 0x0123_4567_89ab_cdef;
    for _ in 0..20000 {
        bits = bits.wrapping_mul(6364136223846793005).wrapping_add(1442695040888963407);
        let value = f64::from_bits(bits);
        assert_eq!(truncate_to_i64(bits), value.trunc() as i64, "{}", value);
        let near = f64::from_bits((bits & 0x800f_ffff_ffff_ffff) | ((1000 + (bits >> 57)) << 52));
        assert_eq!(truncate_to_i64(near.to_bits()), near.trunc() as i64, "{}", near);
    }
}

#[test]
fn it_keeps_apart_the_ways_a_number_is_stored() {
    assert_eq!(Number::from(5), Number::PosInt(5));
    assert_eq!(Number::from(-5), Number::NegInt(-5));
    assert_eq!(Number::from(5u64), Number::PosInt(5));
    assert_eq!(Number::from(5i64), Number::PosInt(5));
    assert_eq!(Number::from_i64(0), Number::PosInt(0));
    assert_eq!(Number::from_u64(u64::MAX), Number::PosInt(u64::MAX));
    assert_eq!(Number::from_f64_bits(5.0f64.to_bits()), Some(Number::Float(5.0f64.to_bits())));
    assert_ne!(Number::from_f64_bits(5.0f64.to_bits()).unwrap(), Number::from(5));
    assert_eq!(Number::from_f64_bits(f64::NAN.to_bits()), None);
    assert_eq!(Number::from_f64_bits(f64::INFINITY.to_bits()), None);
    assert_ne!(whole(1), Value::Number(Number::Float(1.0f64.to_bits())));
}

#[test]
fn it_tells_how_a_number_can_be_read() {
    let small = Number::from(5);
    assert!(small.is_i64() && small.is_u64() && !small.is_f64());
    assert_eq!((small.as_i64(), small.as_u64(), small.as_f64_bits()), (Some(5), Some(5), None));
    let negative = Number::from(-5);
    assert!(negative.is_i64() && !negative.is_u64() && !negative.is_f64());
    assert_eq!((negative.as_i64(), negative.as_u64()), (Some(-5), None));
    let large = Number::from(u64::MAX);
    assert!(!large.is_i64() && large.is_u64() && !large.is_f64());
    assert_eq!((large.as_i64(), large.as_u64()), (None, Some(u64::MAX)));
    let double = Number::Float(0.5f64.to_bits());
    assert!(!double.is_i64() && !double.is_u64() && double.is_f64());
    assert_eq!(
        (double.as_i64(), double.as_u64(), double.as_f64_bits()),
        (None, None, Some(0.5f64.to_bits()))
    );
}

#[test]
fn it_keeps_the_order_in_which_keys_were_inserted() {
    let mut object = Object::new();
    assert_eq!(object.len(), 0);
    assert_eq!(object.insert(String::from("b"), whole(1)), None);
    assert_eq!(object.insert(String::from("a"), whole(2)), None);
    assert_eq!(object.insert(String::from("b"), whole(3)), Some(whole(1)));
    assert_eq!(object.len(), 2);
    let keys: Vec<&str> = object.entries().iter().map(|entry| entry.0.as_str()).collect();
    assert_eq!(keys, vec!["b", "a"]);
    assert_eq!(object.get(&String::from("b")), Some(&whole(3)));
    assert_eq!(object.get(&String::from("a")), Some(&whole(2)));
    assert_eq!(object.get(&String::from("c")), None);
}

#[test]
fn it_builds_an_object_from_pairs() {
    let object = Object::from_iter(vec![
        (String::from("x"), whole(1)),
        (String::from("y"), whole(2)),
        (String::from("x"), whole(3)),
    ]);
    assert_eq!(object.len(), 2);
    assert_eq!(object.entries()[0], (String::from("x"), whole(3)));
    assert_eq!(object.entries()[1], (String::from("y"), whole(2)));
    assert_eq!(Object::from_iter(vec![]).len(), 0);
}

#[test]
fn it_compares_objects_without_regard_to_the_order_of_keys() {
    let left = Value::Object(Object::from_iter(vec![
        (String::from("x"), whole(1)),
        (String::from("y"), Value::Array(vec![text("a")])),
    ]));
    let right = Value::Object(Object::from_iter(vec![
        (String::from("y"), Value::Array(vec![text("a")])),
        (String::from("x"), whole(1)),
    ]));
    assert_eq!(left, right);
    let other_value = Value::Object(Object::from_iter(vec![
        (String::from("y"), Value::Array(vec![text("b")])),
        (String::from("x"), whole(1)),
    ]));
    assert_ne!(left, other_value);
    let other_key = Value::Object(Object::from_iter(vec![
        (String::from("y"), Value::Array(vec![text("a")])),
        (String::from("z"), whole(1)),
    ]));
    assert_ne!(left, other_key);
    let shorter = Value::Object(Object::from_iter(vec![(String::from("x"), whole(1))]));
    assert_ne!(left, shorter);
    assert_ne!(shorter, left);
}

#[test]
fn it_compares_arrays_item_by_item() {
    assert_eq!(Value::Array(vec![whole(1), text("a")]), Value::Array(vec![whole(1), text("a")]));
    assert_ne!(Value::Array(vec![whole(1), text("a")]), Value::Array(vec![text("a"), whole(1)]));
    assert_ne!(Value::Array(vec![whole(1)]), Value::Array(vec![whole(1), whole(1)]));
    assert_ne!(Value::Array(vec![]), Value::Object(Object::new()));
    assert_ne!(Value::Null, Value::Bool(false));
    assert_ne!(text("1"), whole(1));
    assert_eq!(Value::Null, Value::Null);
}

#[test]
fn it_reads_nothing_out_of_no_dictionary() {
    assert_eq!(extract_error_data(None), None);
}

#[test]
fn it_reads_nothing_out_of_a_dictionary_without_a_message() {
    let dict = ErrorDict { message: None, range: RangeEntry::Range { location: 3, length: 4 } };
    assert_eq!(extract_error_data(Some(dict)), None);
}

#[test]
fn it_reads_the_message_and_the_span() {
    let dict = ErrorDict {
        message: Some(String::from("oops")),
        range: RangeEntry::Range { location: 51, length: 6 },
    };
    assert_eq!(extract_error_data(Some(dict)), Some((String::from("oops"), (51, 6))));
}

#[test]
fn it_falls_back_to_the_empty_span() {
    let dict = ErrorDict { message: Some(String::from("oops")), range: RangeEntry::Missing };
    assert_eq!(extract_error_data(Some(dict)), Some((String::from("oops"), (0, 0))));
    let dict = ErrorDict { message: Some(String::from("oops")), range: RangeEntry::Undecodable };
    assert_eq!(extract_error_data(Some(dict)), Some((String::from("oops"), (0, 0))));
}

#[test]
fn it_lets_the_main_thread_through_and_no_other() {
    assert_eq!(check_main_thread(Some("main")), Ok(()));
    assert_eq!(check_main_thread(Some("Main")), Err(ScriptExecutionError::MainThread));
    assert_eq!(check_main_thread(Some("main ")), Err(ScriptExecutionError::MainThread));
    assert_eq!(check_main_thread(Some("")), Err(ScriptExecutionError::MainThread));
    assert_eq!(check_main_thread(None), Err(ScriptExecutionError::MainThread));
}

#[test]
fn it_names_the_languages() {
    assert_eq!(language_name(Language::AppleScript), "AppleScript");
    assert_eq!(language_name(Language::JavaScript), "JavaScript");
}

#[test]
fn it_shows_a_script_for_inspection() {
    assert_eq!(
        render_debug(Some("JavaScript"), "a \"b\"\n", true),
        "Script { language: Language::JavaScript, source: \"a \\\"b\\\"\\n\", compiled: true }"
    );
    assert_eq!(
        render_debug(None, "", false),
        "Script { language: Language::?, source: \"\", compiled: false }"
    );
    let mut script = Script::new_from_source(Language::JavaScript, "output = 1;");
    assert_eq!(script.language(), Language::JavaScript);
    assert_eq!(script.source(), "output = 1;");
    assert!(!script.is_compiled());
    assert_eq!(script.process_compilation_result(Ok(())), Ok(()));
    assert_eq!(
        script.debug_string(),
        "Script { language: Language::JavaScript, source: \"output = 1;\", compiled: true }"
    );
}

#[test]
fn it_takes_note_of_what_the_engine_answered() {
    let mut script = Script::new_from_source(Language::AppleScript, "x");
    assert_eq!(
        script.process_compilation_result(Err(None)),
        Err(ScriptCompilationError::Unknown)
    );
    assert!(!script.is_compiled());
    let dict = ErrorDict { message: Some(String::from("bad")), range: RangeEntry::Missing };
    assert_eq!(
        script.process_compilation_result(Err(Some(dict))),
        Err(ScriptCompilationError::Failure {
            message: String::from("bad"),
            location: 0,
            length: 0
        })
    );
    assert!(!script.is_compiled());
    assert_eq!(script.process_compilation_result(Ok(())), Ok(()));
    assert!(script.is_compiled());
    assert_eq!(
        script.process_compilation_result(Err(None)),
        Err(ScriptCompilationError::Unknown)
    );
    assert!(script.is_compiled());
}

#[test]
fn it_copies_a_value_with_all_that_is_in_it() {
    let value = Value::Array(vec![
        whole(1),
        text("a"),
        Value::Object(Object::from_iter(vec![
            (String::from("z"), Value::Null),
            (String::from("a"), Value::Array(vec![Value::Bool(true)])),
        ])),
    ]);
    let copy = value.clone();
    assert_eq!(copy, value);
    assert_eq!(format!("{:?}", copy), format!("{:?}", value));
    let object = Object::from_iter(vec![(String::from("k"), whole(2))]);
    assert_eq!(object.clone().entries(), object.entries());
}

#[test]
fn it_wraps_conversion_errors() {
    assert_eq!(
        ScriptExecutionError::from(osakit::ScriptOutputConversionError::UrlExpectedButNoneFound),
        ScriptExecutionError::OutputConversion(
            osakit::ScriptOutputConversionError::UrlExpectedButNoneFound
        )
    );
    assert_eq!(
        ScriptExecutionError::from(osakit::ScriptInputConversionError::NumberConversionError(
            String::from("1")
        )),
        ScriptExecutionError::InputConversion(
            osakit::ScriptInputConversionError::NumberConversionError(String::from("1"))
        )
    );
}

#[test]
fn it_compares_doubles_as_numbers() {
    let samples = [
        0.0,
        -0.0,
        1.0,
        -1.0,
        5e-324,
        -5e-324,
        f64::MAX,
        f64::MIN,
        f64::INFINITY,
        f64::NEG_INFINITY,
        f64::NAN,
        -f64::NAN,
    ];
    for a in samples {
        for b in samples {
            assert_eq!(doubles_equal(a.to_bits(), b.to_bits()), a == b, "{} {}", a, b);
        }
    }
    assert_eq!(Number::Float(0.0f64.to_bits()), Number::Float((-0.0f64).to_bits()));
    assert_ne!(Number::Float(0.0f64.to_bits()), Number::from(0));
    assert_ne!(Number::Float(1.0f64.to_bits()), Number::Float((-1.0f64).to_bits()));
    assert_eq!(
        Value::Array(vec![Value::Number(Number::Float(0.0f64.to_bits()))]),
        Value::Array(vec![Value::Number(Number::Float((-0.0f64).to_bits()))])
    );
}
