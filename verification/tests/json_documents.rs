use json::JsonValue;
use number_wall_renderer::colours::get_colour;
use number_wall_renderer::config::{
    get_boundary, get_modulo, get_sequence, Boundary, NamedSequence, Sequence, WallType,
};
use number_wall_renderer::dispatch::{execute_input, Route};
use number_wall_renderer::document::{Number, Value};
use number_wall_renderer::error::{ColourError, ConfigError, Field};

fn to_value(input: &JsonValue) -> Value {
    match input {
        JsonValue::Null => Value::Null,
        JsonValue::Short(text) => Value::Text(text.as_str().to_owned()),
        JsonValue::String(text) => Value::Text(text.clone()),
        JsonValue::Number(number) => {
            let (positive, mantissa, exponent) = number.as_parts();
            Value::Number(Number { positive, mantissa, exponent })
        }
        JsonValue::Boolean(value) => Value::Boolean(*value),
        JsonValue::Object(object) => Value::Object(
            object.iter().map(|(key, value)| (key.to_owned(), to_value(value))).collect(),
        ),
        JsonValue::Array(items) => Value::Array(items.iter().map(to_value).collect()),
    }
}

fn document(text: &str) -> Value {
    to_value(&json::parse(text).unwrap())
}

#[test]
fn a_repeating_wall_from_a_text() {
    let input = document(
        r#"{
            "wall_type": "repeating",
            "sequence": [0, 1],
            "top": 0, "bottom": 2, "left": 0, "right": 3,
            "modulo": 0
        }"#,
    );
    let execution = execute_input(&input).unwrap();
    assert_eq!(execution.route, Route::RepeatingWall);
    assert_eq!(execution.job.wall_type, WallType::Repeating);
    assert_eq!(execution.job.sequence, Sequence::Custom(vec![0, 1]));
    assert_eq!(execution.job.boundary, Boundary { top: 0, bottom: 2, left: 0, right: 3 });
    assert_eq!(execution.job.modulo, 0);
    assert_eq!(execution.job.output_file, "./out.png");
    assert_eq!(get_colour(0, &execution.job.colours), [255, 255, 255]);
    assert_eq!(get_colour(1, &execution.job.colours), [0, 0, 0]);
    assert_eq!(get_colour(5, &execution.job.colours), [128, 128, 128]);
}

#[test]
fn a_wall_over_all_integers_from_a_text() {
    let input = document(
        r#"{
            "wall_type": "bi_directional",
            "sequence": "rueppel",
            "top": 0, "bottom": 0, "left": -2, "right": 2
        }"#,
    );
    let execution = execute_input(&input).unwrap();
    assert_eq!(execution.route, Route::BiDirectionalFnWall(NamedSequence::Rueppel));
    assert_eq!(execution.job.boundary, Boundary { top: 0, bottom: 0, left: -2, right: 2 });
    let values: Vec<i128> = (-2..=2).map(|n| NamedSequence::Rueppel.bi_directional(n)).collect();
    assert_eq!(values, vec![0, 1, 1, 1, 0]);
}

#[test]
fn a_wall_from_column_zero_with_a_negative_column_from_a_text() {
    let input = document(
        r#"{
            "wall_type": "LeftConst",
            "sequence": "Pagoda",
            "top": 0, "bottom": 10, "left": -1, "right": 10
        }"#,
    );
    assert_eq!(execute_input(&input).unwrap_err(), ConfigError::NegativeLeft);
}

#[test]
fn a_palette_from_a_text() {
    let input = document(
        r##"{
            "wall_type": "left_const",
            "sequence": "zigzag",
            "top": 0, "bottom": 10, "left": 0, "right": 10,
            "colours": {
                "0": "#FF0000",
                "1": "0f0",
                "2": [0, 0, 255],
                "default": "#888"
            },
            "output_file": "zigzag.png",
            "left_values": [1, -1],
            "sequence_start": 5,
            "modulo": 3
        }"##,
    );
    let execution = execute_input(&input).unwrap();
    assert_eq!(execution.route, Route::LeftConstFnWall(NamedSequence::Zigzag));
    let colours = &execution.job.colours;
    assert_eq!(get_colour(0, colours), [255, 0, 0]);
    assert_eq!(get_colour(1, colours), [0, 255, 0]);
    assert_eq!(get_colour(2, colours), [0, 0, 255]);
    assert_eq!(get_colour(3, colours), [0x88, 0x88, 0x88]);
    assert_eq!(execution.job.output_file, "zigzag.png");
    assert_eq!(execution.job.left_values, [1, -1]);
    assert_eq!(execution.job.sequence_start, 5);
    assert_eq!(execution.job.modulo, 3);
}

#[test]
fn a_colour_with_a_bad_digit_from_a_text() {
    let input = document(
        r##"{
            "wall_type": "left_const",
            "sequence": "zigzag",
            "colours": { "0": "#FF00G0" }
        }"##,
    );
    assert_eq!(
        execute_input(&input).unwrap_err(),
        ConfigError::Colour { error: ColourError::InvalidHexDigit { position: 5 } }
    );
}

#[test]
fn numbers_as_they_are_written() {
    let input = document(r#"{"modulo": 100}"#);
    assert_eq!(get_modulo(&input), Ok(100));
    let input = document(r#"{"modulo": 18446744073709551615}"#);
    assert_eq!(get_modulo(&input), Ok(u64::MAX as i128));
    for text in [
        r#"{"modulo": -1}"#,
        r#"{"modulo": -0}"#,
        r#"{"modulo": 1e2}"#,
        r#"{"modulo": 1.5}"#,
        r#"{"modulo": 1.0}"#,
        r#"{"modulo": 18446744073709551616}"#,
    ] {
        assert_eq!(
            get_modulo(&document(text)),
            Err(ConfigError::OutOfRange { field: Field::Modulo }),
            "{text}"
        );
    }
    assert_eq!(
        get_modulo(&document(r#"{"modulo": "7"}"#)),
        Err(ConfigError::WrongType { field: Field::Modulo })
    );
}

#[test]
fn a_list_of_values_as_it_is_written() {
    let input = document(r#"{"sequence": [0, -1, 9223372036854775807, -9223372036854775808]}"#);
    assert_eq!(
        get_sequence(&input),
        Ok(Sequence::Custom(vec![0, -1, i64::MAX as i128, i64::MIN as i128]))
    );
    let input = document(r#"{"sequence": [0, 9223372036854775808]}"#);
    assert_eq!(
        get_sequence(&input),
        Err(ConfigError::ElementOutOfRange { field: Field::Sequence, position: 1 })
    );
    let input = document(r#"{"sequence": [0, -9223372036854775809]}"#);
    assert_eq!(
        get_sequence(&input),
        Err(ConfigError::ElementOutOfRange { field: Field::Sequence, position: 1 })
    );
    let input = document(r#"{"sequence": [0, 1, 2.5]}"#);
    assert_eq!(
        get_sequence(&input),
        Err(ConfigError::ElementOutOfRange { field: Field::Sequence, position: 2 })
    );
    let input = document(r#"{"sequence": [true]}"#);
    assert_eq!(
        get_sequence(&input),
        Err(ConfigError::ElementNotNumber { field: Field::Sequence, position: 0 })
    );
}

#[test]
fn a_boundary_as_it_is_written() {
    let input = document(r#"{"top": 0, "bottom": 99, "left": -50, "right": 50}"#);
    assert_eq!(get_boundary(&input), Ok(Boundary { top: 0, bottom: 99, left: -50, right: 50 }));
    let input = document(r#"{"top": 0, "bottom": 99, "left": -50.5, "right": 50}"#);
    assert_eq!(get_boundary(&input), Err(ConfigError::OutOfRange { field: Field::Left }));
    let input = document(r#"{"top": 0, "bottom": null, "left": -50, "right": 50}"#);
    assert_eq!(get_boundary(&input), Err(ConfigError::WrongType { field: Field::Bottom }));
    let input = document(r#"{"top": 9, "bottom": 8, "left": 0, "right": 0}"#);
    assert_eq!(get_boundary(&input), Ok(Boundary { top: 9, bottom: 8, left: 0, right: 0 }));
}

#[test]
fn a_wall_whose_last_row_lies_above_its_first_from_a_text() {
    let input = document(
        r#"{
            "wall_type": "bi_directional",
            "sequence": "knight",
            "top": 9, "bottom": 8, "left": -3, "right": 3
        }"#,
    );
    assert_eq!(execute_input(&input).unwrap_err(), ConfigError::BottomAboveTop);
    let input = document(
        r#"{
            "wall_type": "bi_directional",
            "sequence": "knight",
            "top": 9, "bottom": 8, "left": -3, "right": 3,
            "output_file": 7
        }"#,
    );
    assert_eq!(
        execute_input(&input).unwrap_err(),
        ConfigError::WrongType { field: Field::OutputFile }
    );
}

#[test]
fn a_key_that_stands_twice_counts_once() {
    let input = document(r#"{"modulo": 2, "modulo": 5}"#);
    assert_eq!(get_modulo(&input), Ok(5));
}
