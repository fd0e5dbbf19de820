use std::collections::HashMap;

use number_wall_renderer::colours::{
    colour_to_u8_array, get_colour, get_colours, parse_integer, Colours,
};
use number_wall_renderer::document::{Number, Value};
use number_wall_renderer::error::{ColourError, ConfigError, ErrorKind, Field};

fn text(value: &str) -> Value {
    Value::Text(value.to_string())
}

fn number(value: i64) -> Value {
    Value::Number(Number { positive: value >= 0, mantissa: value.unsigned_abs(), exponent: 0 })
}

fn array(values: &[i64]) -> Value {
    Value::Array(values.iter().map(|value| number(*value)).collect())
}

fn with_colours(entries: Vec<(&str, Value)>) -> Value {
    let entries = entries.into_iter().map(|(key, value)| (key.to_string(), value)).collect();
    Value::Object(vec![("colours".to_string(), Value::Object(entries))])
}

#[test]
fn six_digits_give_two_for_each_channel() {
    assert_eq!(colour_to_u8_array(&text("FF0000")), Ok([255, 0, 0]));
    assert_eq!(colour_to_u8_array(&text("1a2B3c")), Ok([0x1a, 0x2b, 0x3c]));
    assert_eq!(colour_to_u8_array(&text("000000")), Ok([0, 0, 0]));
    assert_eq!(colour_to_u8_array(&text("ffffff")), Ok([255, 255, 255]));
    assert_eq!(colour_to_u8_array(&text("0910aF")), Ok([9, 16, 175]));
}

#[test]
fn three_digits_are_each_written_twice() {
    assert_eq!(colour_to_u8_array(&text("f00")), Ok([255, 0, 0]));
    assert_eq!(colour_to_u8_array(&text("abc")), Ok([0xaa, 0xbb, 0xcc]));
    assert_eq!(colour_to_u8_array(&text("0A9")), Ok([0, 170, 153]));
    assert_eq!(colour_to_u8_array(&text("123")), Ok([17, 34, 51]));
}

#[test]
fn one_character_in_front_is_skipped_whatever_it_is() {
    assert_eq!(colour_to_u8_array(&text("#f00")), Ok([255, 0, 0]));
    assert_eq!(colour_to_u8_array(&text("#FF0000")), Ok([255, 0, 0]));
    assert_eq!(colour_to_u8_array(&text("x1a2b3c")), Ok([0x1a, 0x2b, 0x3c]));
    assert_eq!(colour_to_u8_array(&text("0fff")), Ok([255, 255, 255]));
    assert_eq!(colour_to_u8_array(&text("éabc")), Ok([0xaa, 0xbb, 0xcc]));
    assert_eq!(colour_to_u8_array(&text(" 000001")), Ok([0, 0, 1]));
}

#[test]
fn a_string_of_another_length_is_no_colour() {
    for (value, length) in [("", 0), ("f", 1), ("ff", 2), ("fffff", 5), ("ffffffff", 8)] {
        let error = ColourError::WrongTextLength { length };
        assert_eq!(colour_to_u8_array(&text(value)), Err(error));
        assert_eq!(error.kind(), ErrorKind::Schema);
    }
}

#[test]
fn the_first_character_that_is_no_digit_is_reported() {
    let cases = [
        ("g00", 0),
        ("0g0", 1),
        ("00g", 2),
        ("ggg", 0),
        ("#0g0", 2),
        ("#00 ", 3),
        ("ff00zz", 4),
        ("ff00fz", 5),
        ("zf00zz", 0),
        ("+f0000", 0),
        ("-00", 0),
        ("#12345g", 6),
        ("#g2345g", 1),
        ("é00", 0),
        ("00é", 2),
    ];
    for (value, position) in cases {
        let error = ColourError::InvalidHexDigit { position };
        assert_eq!(colour_to_u8_array(&text(value)), Err(error), "{value}");
        assert_eq!(error.kind(), ErrorKind::Parse);
    }
}

#[test]
fn an_array_of_three_bytes_is_a_colour() {
    assert_eq!(colour_to_u8_array(&array(&[255, 0, 10])), Ok([255, 0, 10]));
    assert_eq!(colour_to_u8_array(&array(&[0, 0, 0])), Ok([0, 0, 0]));
    assert_eq!(colour_to_u8_array(&array(&[1, 2, 3])), Ok([1, 2, 3]));
}

#[test]
fn an_array_of_another_length_is_no_colour() {
    assert_eq!(
        colour_to_u8_array(&array(&[])),
        Err(ColourError::WrongArrayLength { length: 0 })
    );
    assert_eq!(
        colour_to_u8_array(&array(&[1, 2])),
        Err(ColourError::WrongArrayLength { length: 2 })
    );
    assert_eq!(
        colour_to_u8_array(&array(&[1, 2, 3, 4])),
        Err(ColourError::WrongArrayLength { length: 4 })
    );
    assert_eq!(ColourError::WrongArrayLength { length: 4 }.kind(), ErrorKind::Schema);
}

#[test]
fn the_first_element_that_is_no_byte_is_reported() {
    let mixed = Value::Array(vec![number(1), text("2"), number(300)]);
    assert_eq!(
        colour_to_u8_array(&mixed),
        Err(ColourError::ComponentNotNumber { position: 1 })
    );
    assert_eq!(
        colour_to_u8_array(&array(&[256, 0, 0])),
        Err(ColourError::ComponentOutOfRange { position: 0 })
    );
    assert_eq!(
        colour_to_u8_array(&array(&[0, -1, 999])),
        Err(ColourError::ComponentOutOfRange { position: 1 })
    );
    let fraction = Value::Number(Number { positive: true, mantissa: 15, exponent: -1 });
    let with_fraction = Value::Array(vec![number(0), number(0), fraction]);
    assert_eq!(
        colour_to_u8_array(&with_fraction),
        Err(ColourError::ComponentOutOfRange { position: 2 })
    );
    let with_null = Value::Array(vec![Value::Null, number(0), number(0)]);
    assert_eq!(
        colour_to_u8_array(&with_null),
        Err(ColourError::ComponentNotNumber { position: 0 })
    );
    assert_eq!(ColourError::ComponentNotNumber { position: 0 }.kind(), ErrorKind::Schema);
    assert_eq!(ColourError::ComponentOutOfRange { position: 0 }.kind(), ErrorKind::Range);
}

#[test]
fn other_values_are_no_colours() {
    assert_eq!(colour_to_u8_array(&Value::Null), Err(ColourError::NotAColour));
    assert_eq!(colour_to_u8_array(&Value::Boolean(true)), Err(ColourError::NotAColour));
    assert_eq!(colour_to_u8_array(&number(5)), Err(ColourError::NotAColour));
    assert_eq!(colour_to_u8_array(&Value::Object(vec![])), Err(ColourError::NotAColour));
    assert_eq!(ColourError::NotAColour.kind(), ErrorKind::Schema);
}

#[test]
fn integers_from_strings() {
    assert_eq!(parse_integer("0"), Some(0));
    assert_eq!(parse_integer("7"), Some(7));
    assert_eq!(parse_integer("-5"), Some(-5));
    assert_eq!(parse_integer("+5"), Some(5));
    assert_eq!(parse_integer("-0"), Some(0));
    assert_eq!(parse_integer("007"), Some(7));
    assert_eq!(parse_integer("1234567890"), Some(1234567890));
    assert_eq!(
        parse_integer("170141183460469231731687303715884105727"),
        Some(i128::MAX)
    );
    assert_eq!(
        parse_integer("-170141183460469231731687303715884105728"),
        Some(i128::MIN)
    );
    assert_eq!(
        parse_integer("000000000000000000000000000000000000000000000000000000000012"),
        Some(12)
    );
}

#[test]
fn strings_that_are_no_integers() {
    for value in [
        "",
        "-",
        "+",
        "--1",
        "+-1",
        "1a",
        "a1",
        " 1",
        "1 ",
        "1.0",
        "1e3",
        "0x10",
        "１",
        "default",
        "170141183460469231731687303715884105728",
        "-170141183460469231731687303715884105729",
        "99999999999999999999999999999999999999999999",
        "-99999999999999999999999999999999999999999999",
        "1701411834604692317316873037158841057270",
    ] {
        assert_eq!(parse_integer(value), None, "{value}");
    }
}

#[test]
fn integers_from_strings_agree_with_the_standard_library() {
    for value in ["12", "-12", "+12", "", "+", "-", "12x", "0012", "-0", "340282366920938463463374607431768211455"] {
        assert_eq!(parse_integer(value), value.parse::<i128>().ok(), "{value}");
    }
}

#[test]
fn without_a_palette_zero_is_white_and_one_is_black() {
    let colours = get_colours(&Value::Object(vec![])).unwrap();
    assert_eq!(colours.default, [128, 128, 128]);
    assert_eq!(colours.mapping.len(), 2);
    assert_eq!(colours.mapping[&0], [255, 255, 255]);
    assert_eq!(colours.mapping[&1], [0, 0, 0]);
    assert_eq!(get_colour(0, &colours), [255, 255, 255]);
    assert_eq!(get_colour(1, &colours), [0, 0, 0]);
    assert_eq!(get_colour(2, &colours), [128, 128, 128]);
    assert_eq!(get_colour(-1, &colours), [128, 128, 128]);
    let null = Value::Object(vec![("colours".to_string(), Value::Null)]);
    assert_eq!(get_colours(&null), Ok(colours));
}

#[test]
fn a_palette_names_values_and_the_default() {
    let input = with_colours(vec![
        ("2", text("#fff")),
        ("default", text("102030")),
        ("-1", array(&[1, 2, 3])),
        ("+7", text("f00")),
    ]);
    let colours = get_colours(&input).unwrap();
    assert_eq!(colours.default, [0x10, 0x20, 0x30]);
    assert_eq!(colours.mapping.len(), 3);
    assert_eq!(get_colour(2, &colours), [255, 255, 255]);
    assert_eq!(get_colour(-1, &colours), [1, 2, 3]);
    assert_eq!(get_colour(7, &colours), [255, 0, 0]);
    // A palette of its own does not hold the two colours of the default one.
    assert_eq!(get_colour(0, &colours), [0x10, 0x20, 0x30]);
    assert_eq!(get_colour(1, &colours), [0x10, 0x20, 0x30]);
}

#[test]
fn an_empty_palette_paints_everything_grey() {
    let colours = get_colours(&with_colours(vec![])).unwrap();
    assert!(colours.mapping.is_empty());
    assert_eq!(colours.default, [128, 128, 128]);
    assert_eq!(get_colour(0, &colours), [128, 128, 128]);
}

#[test]
fn a_later_entry_for_the_same_value_wins() {
    let input = with_colours(vec![
        ("1", text("f00")),
        ("default", text("000")),
        ("01", text("0f0")),
        ("default", text("fff")),
        ("+1", text("00f")),
    ]);
    let colours = get_colours(&input).unwrap();
    assert_eq!(colours.mapping.len(), 1);
    assert_eq!(get_colour(1, &colours), [0, 0, 255]);
    assert_eq!(colours.default, [255, 255, 255]);
}

#[test]
fn a_palette_that_is_no_object() {
    for colours in [array(&[1, 2, 3]), text("fff"), number(1), Value::Boolean(true)] {
        let input = Value::Object(vec![("colours".to_string(), colours)]);
        let error = ConfigError::WrongType { field: Field::Colours };
        assert_eq!(error.kind(), ErrorKind::Schema);
        assert_eq!(get_colours(&input), Err(error));
    }
}

#[test]
fn a_key_that_is_no_integer() {
    let input = with_colours(vec![("1", text("fff")), ("one", text("000")), ("2", text("zzz"))]);
    let error = ConfigError::ColourKey { key: "one".to_string() };
    assert_eq!(error.kind(), ErrorKind::Schema);
    assert_eq!(get_colours(&input), Err(error));
    let input = with_colours(vec![("Default", text("000"))]);
    assert_eq!(get_colours(&input), Err(ConfigError::ColourKey { key: "Default".to_string() }));
    // Where key and colour are both out of order, the key is reported.
    let input = with_colours(vec![("x", text("zzz"))]);
    assert_eq!(get_colours(&input), Err(ConfigError::ColourKey { key: "x".to_string() }));
}

#[test]
fn an_entry_that_is_no_colour() {
    let input = with_colours(vec![("1", text("fff")), ("2", text("ffz")), ("x", text("000"))]);
    let error = ConfigError::Colour { error: ColourError::InvalidHexDigit { position: 2 } };
    assert_eq!(error.kind(), ErrorKind::Parse);
    assert_eq!(get_colours(&input), Err(error));
    let input = with_colours(vec![("default", array(&[1, 2, 256]))]);
    let error = ConfigError::Colour { error: ColourError::ComponentOutOfRange { position: 2 } };
    assert_eq!(error.kind(), ErrorKind::Range);
    assert_eq!(get_colours(&input), Err(error));
    let input = with_colours(vec![("3", Value::Null)]);
    let error = ConfigError::Colour { error: ColourError::NotAColour };
    assert_eq!(error.kind(), ErrorKind::Schema);
    assert_eq!(get_colours(&input), Err(error));
}

#[test]
fn a_value_without_a_colour_of_its_own_takes_the_default() {
    let mut mapping: HashMap<i128, [u8; 3]> = HashMap::new();
    mapping.insert(5, [1, 2, 3]);
    let colours = Colours { mapping, default: [9, 9, 9] };
    assert_eq!(get_colour(5, &colours), [1, 2, 3]);
    assert_eq!(get_colour(6, &colours), [9, 9, 9]);
    assert_eq!(get_colour(i128::MAX, &colours), [9, 9, 9]);
    assert_eq!(get_colour(i128::MIN, &colours), [9, 9, 9]);
}
