use json_utils::value::{FloatBits, Json, Object};
use json_utils::decode::{FromJson, ToJson};
use json_utils::object::{as_object, create_object, JsonMap};
use json_utils::error::DecoderError;
use json_utils::render::render;

// Deserialization tests

#[test]
fn read_i64() {
    let j = (-12i64).to_json();
    assert_eq!(-12, i64::from_json(&j).unwrap());
}

#[test]
#[should_panic(expected = "ExpectedError(\"i64\", \"null\")")]
fn read_invalid_i64() {
    let null = None::<i64>.to_json();
    i64::from_json(&null).unwrap();
}

#[test]
fn read_u64() {
    let j = (43i64).to_json();
    assert_eq!(43, u64::from_json(&j).unwrap());
}

#[test]
#[should_panic(expected = "ExpectedError(\"u64\", \"null\")")]
fn read_invalid_u64() {
    let null = None::<u64>.to_json();
    u64::from_json(&null).unwrap();
}

#[test]
fn read_f64() {
    let f = FloatBits { bits: (-3.14f64).to_bits(), text: "-3.14".to_string() };
    let j = f.to_json();
    assert_eq!(f, FloatBits::from_json(&j).unwrap());
}

#[test]
#[should_panic(expected = "ExpectedError(\"f64\", \"null\")")]
fn read_invalid_f64() {
    let null = None::<FloatBits>.to_json();
    FloatBits::from_json(&null).unwrap();
}

#[test]
fn read_bool() {
    let j = true.to_json();
    assert_eq!(true, bool::from_json(&j).unwrap());
}

#[test]
#[should_panic(expected = "ExpectedError(\"bool\", \"null\")")]
fn read_invalid_bool() {
    let null = None::<bool>.to_json();
    bool::from_json(&null).unwrap();
}

#[test]
fn read_string() {
    let j = "test".to_string().to_json();
    assert_eq!("test".to_string(), String::from_json(&j).unwrap());
}

#[test]
#[should_panic(expected = "ExpectedError(\"String\", \"null\")")]
fn read_invalid_string() {
    let null = None::<String>.to_json();
    String::from_json(&null).unwrap();
}

#[test]
fn read_vec() {
    let v: Vec<i64> = vec![6, 5, 4, 3, 2];
    let j = v.to_json();
    assert_eq!(v, Vec::from_json(&j).unwrap());
}

#[test]
#[should_panic(expected = "ExpectedError(\"Array\", \"null\")")]
fn read_missing_vec() {
    let null = None::<Vec<i64>>.to_json();
    Vec::<i64>::from_json(&null).unwrap();
}

#[test]
#[should_panic(expected = "ExpectedError(\"u64\", \"-4\")")]
fn read_invalid_vec() {
    let null = vec![2i64, 3, 4, -4, 5].to_json();
    Vec::<u64>::from_json(&null).unwrap();
}

#[test]
fn read_none() {
    let j = None::<bool>.to_json();
    assert_eq!(None::<bool>, Option::from_json(&j).unwrap());
}

#[test]
fn read_some() {
    let j = Some::<i64>(67).to_json();
    assert_eq!(Some::<i64>(67), Option::from_json(&j).unwrap());
}

#[test]
#[should_panic(expected = "ExpectedError(\"i64\", \"4.12\")")]
fn read_invalid_option() {
    let j = Json::Float(FloatBits { bits: (4.12f64).to_bits(), text: "4.12".to_string() });
    Option::<i64>::from_json(&j).unwrap();
}

// JsonMap tests

#[test]
fn read_write_item() {
    let mut map = Object::new();
    map.write_item("test", &12i64);
    assert_eq!(12, map.read_item::<i64>("test").unwrap());
}

#[test]
#[should_panic(expected = "MissingFieldError(\"test\")")]
fn read_missing_item() {
    let map = Object::new();
    map.read_item::<i64>("test").unwrap();
}

#[test]
fn read_write_optional_item() {
    let mut map = Object::new();
    map.write_item("test", &Some("Hello".to_string()));
    assert_eq!(Some("Hello".to_string()), map.read_optional_item("test").unwrap());
}

#[test]
fn read_missing_optional_item() {
    let mut map = Object::new();
    assert_eq!(None::<FloatBits>, map.read_optional_item("test").unwrap());
    map.write_item("test", &None::<FloatBits>);
    assert_eq!(None::<FloatBits>, map.read_optional_item("test").unwrap());
}

#[test]
fn create_object_test() {
    let result = create_object(|mut map: Object| {
        map.write_item("int", &13i64);
        map.write_item("float", &FloatBits { bits: (54.3f64).to_bits(), text: "54.3".to_string() });
        map
    });
    let mut map = Object::new();
    map.write_item("int", &13i64);
    map.write_item("float", &FloatBits { bits: (54.3f64).to_bits(), text: "54.3".to_string() });
    assert_eq!(Json::Object(map), result);
}

#[test]
fn as_object_test() {
    let mut map = Object::new();
    let mut map_inner = Object::new();
    map_inner.write_item("test", &"Hello!".to_string());
    map.insert("inner".to_string(), Json::Object(map_inner));
    let result = map.with_key("inner", |json: &Json| {
        as_object(json, |obj: &Object| obj.read_item::<String>("test"))
    });
    assert_eq!("Hello!".to_string(), result.unwrap());
}

#[test]
#[should_panic(expected = "ExpectedError(\"Object\", \"43\")")]
fn as_object_invalid_type_test() {
    let mut map = Object::new();
    map.write_item("test", &43i64);
    map.with_key("test", |json: &Json| as_object(json, |_obj: &Object| Ok(12i64))).unwrap();
}

// Error value and rendering tests

#[test]
fn missing_field_is_matchable() {
    let map = Object::new();
    match map.read_item::<i64>("name") {
        Err(DecoderError::MissingFieldError(k)) => assert_eq!("name", k),
        other => panic!("expected a missing-field error, got {:?}", other),
    }
}

#[test]
fn type_mismatch_is_matchable() {
    let mut map = Object::new();
    map.write_item("flag", &true);
    match map.read_item::<u64>("flag") {
        Err(DecoderError::ExpectedError(expected, got)) => {
            assert_eq!("u64", expected);
            assert_eq!("true", got);
        }
        other => panic!("expected a type mismatch, got {:?}", other),
    }
}

#[test]
fn error_text_rendering() {
    let e = DecoderError::MissingFieldError("test".to_string());
    assert_eq!("MissingFieldError(\"test\")", e.to_text());
    let e = DecoderError::ExpectedError("i64".to_string(), "null".to_string());
    assert_eq!("ExpectedError(\"i64\", \"null\")", e.to_text());
}

#[test]
fn render_composite() {
    let mut inner = Object::new();
    inner.write_item("a", &vec![1i64, 2]);
    inner.write_item("b", &"x\"y\n".to_string());
    let j = Json::Object(inner);
    assert_eq!("{\"a\":[1,2],\"b\":\"x\\\"y\\n\"}", render(&j));
}

#[test]
fn render_scalars() {
    assert_eq!("null", render(&Json::Null));
    assert_eq!("false", render(&Json::Boolean(false)));
    assert_eq!("-12", render(&Json::I64(-12)));
    assert_eq!("9223372036854775808", render(&Json::U64(9223372036854775808)));
    assert_eq!("0.5", render(&Json::Float(FloatBits { bits: (0.5f64).to_bits(), text: "0.5".to_string() })));
    assert_eq!("\"\\u0001\"", render(&Json::Text("\u{1}".to_string())));
}

#[test]
fn read_i64_overflow() {
    let j = Json::U64(9223372036854775808);
    match i64::from_json(&j) {
        Err(DecoderError::ExpectedError(expected, got)) => {
            assert_eq!("i64", expected);
            assert_eq!("9223372036854775808", got);
        }
        other => panic!("expected a type mismatch, got {:?}", other),
    }
}

#[test]
fn read_cross_kinds() {
    // A signed node read as unsigned and an unsigned node read as signed,
    // where the value fits the target domain.
    assert_eq!(7, u64::from_json(&Json::I64(7)).unwrap());
    assert_eq!(7, i64::from_json(&Json::U64(7)).unwrap());
}

#[test]
fn read_optional_wrong_type() {
    let mut map = Object::new();
    map.write_item("test", &"words".to_string());
    match map.read_optional_item::<i64>("test") {
        Err(DecoderError::ExpectedError(expected, got)) => {
            assert_eq!("i64", expected);
            assert_eq!("\"words\"", got);
        }
        other => panic!("expected a type mismatch, got {:?}", other),
    }
}

#[test]
fn write_overwrites() {
    let mut map = Object::new();
    map.write_item("k", &1i64);
    map.write_item("k", &2i64);
    assert_eq!(1, map.entries.len());
    assert_eq!(2, map.read_item::<i64>("k").unwrap());
}

#[test]
fn round_trip_empty_vec() {
    let v: Vec<i64> = vec![];
    let j = v.to_json();
    assert_eq!(v, Vec::<i64>::from_json(&j).unwrap());
}

#[test]
fn round_trip_nested_vec() {
    let v: Vec<Vec<u64>> = vec![vec![1, 2], vec![], vec![3]];
    let j = v.to_json();
    assert_eq!(v, Vec::<Vec<u64>>::from_json(&j).unwrap());
}

#[test]
fn vec_first_error_wins() {
    // Two failing elements: the error reported is the first in input order.
    let j = Json::Array(vec![Json::I64(1), Json::Boolean(true), Json::Null]);
    match Vec::<i64>::from_json(&j) {
        Err(DecoderError::ExpectedError(expected, got)) => {
            assert_eq!("i64", expected);
            assert_eq!("true", got);
        }
        other => panic!("expected a type mismatch, got {:?}", other),
    }
}

#[test]
fn read_f64_from_integer_nodes() {
    // Integer number nodes convert when the value is exactly representable.
    let f = FloatBits::from_json(&Json::I64(4)).unwrap();
    assert_eq!((4.0f64).to_bits(), f.bits);
    assert_eq!("4.0", f.text);
    let f = FloatBits::from_json(&Json::I64(-4)).unwrap();
    assert_eq!((-4.0f64).to_bits(), f.bits);
    assert_eq!("-4.0", f.text);
    let f = FloatBits::from_json(&Json::I64(0)).unwrap();
    assert_eq!((0.0f64).to_bits(), f.bits);
    assert_eq!("0.0", f.text);
    let f = FloatBits::from_json(&Json::I64(1)).unwrap();
    assert_eq!((1.0f64).to_bits(), f.bits);
    assert_eq!("1.0", f.text);
    let f = FloatBits::from_json(&Json::U64(43)).unwrap();
    assert_eq!((43.0f64).to_bits(), f.bits);
    assert_eq!("43.0", f.text);
}

#[test]
fn read_f64_at_exactness_boundary() {
    // 2^53 and -2^53 are the largest integers the double format holds exactly.
    let f = FloatBits::from_json(&Json::U64(9007199254740992)).unwrap();
    assert_eq!((9007199254740992.0f64).to_bits(), f.bits);
    assert_eq!("9007199254740992.0", f.text);
    let f = FloatBits::from_json(&Json::I64(-9007199254740992)).unwrap();
    assert_eq!((-9007199254740992.0f64).to_bits(), f.bits);
    assert_eq!("-9007199254740992.0", f.text);
}

#[test]
fn read_f64_beyond_exact_range() {
    // One past 2^53 would have to round, so it is reported as a mismatch.
    match FloatBits::from_json(&Json::U64(9007199254740993)) {
        Err(DecoderError::ExpectedError(expected, got)) => {
            assert_eq!("f64", expected);
            assert_eq!("9007199254740993", got);
        }
        other => panic!("expected a type mismatch, got {:?}", other),
    }
}

#[test]
fn render_escapes_delete_control() {
    assert_eq!("\"\\u007f\"", render(&Json::Text("\u{7f}".to_string())));
}
