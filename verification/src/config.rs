//! The fields of a job description, each read from a document and checked
//! by itself.

use vstd::prelude::*;
use vstd::string::*;

use crate::document::Value;
use crate::error::{ConfigError, Field};

verus! {

/// The kind of wall to compute.
#[derive(Debug, Clone, Copy, PartialEq, Eq, Structural)]
pub enum WallType {
    /// A wall over a list of values that repeats without end.
    Repeating,
    /// A wall whose columns start at zero, with given values left of them.
    LeftConst,
    /// A wall whose columns run over all integers.
    BiDirectional,
}

/// A sequence that is known by its name.
#[derive(Debug, Clone, Copy, PartialEq, Eq, Structural)]
pub enum NamedSequence {
    Knight,
    Rook,
    Pagoda,
    Rueppel,
    Zigzag,
}

/// The sequence that a wall is computed from.
#[derive(Debug, PartialEq, Eq)]
pub enum Sequence {
    /// One of the sequences known by name.
    Named(NamedSequence),
    /// A list of values, written out.
    Custom(Vec<i128>),
}

/// What a `Sequence` holds.
pub enum SequenceView {
    Named(NamedSequence),
    Custom(Seq<i128>),
}

impl View for Sequence {
    type V = SequenceView;

    open spec fn view(&self) -> SequenceView {
        match self {
            Sequence::Named(name) => SequenceView::Named(*name),
            Sequence::Custom(values) => SequenceView::Custom(values@),
        }
    }
}

/// The part of a wall to compute: the rows from `top` to `bottom` and the
/// columns from `left` to `right`, all four included.
#[derive(Debug, Clone, Copy, PartialEq, Eq, Structural)]
pub struct Boundary {
    pub top: usize,
    pub bottom: usize,
    pub left: isize,
    pub right: isize,
}

impl Boundary {
    /// The first row does not lie below the last one. Every boundary of a
    /// job that a wall is chosen for is in this order.
    pub open spec fn wf(self) -> bool {
        self.top <= self.bottom
    }
}

/// A letter from `A` to `Z` as the small letter, any other character as it
/// is.
pub open spec fn lower(c: char) -> char {
    if 'A' <= c <= 'Z' {
        ((c as u8) + 32) as char
    } else {
        c
    }
}

/// A string with each of its letters from `A` to `Z` made small.
pub open spec fn lowercase(text: Seq<char>) -> Seq<char> {
    Seq::new(text.len(), |i: int| lower(text[i]))
}

/// The wall type that a name stands for, whatever the case of its letters.
pub open spec fn wall_type_named(name: Seq<char>) -> Option<WallType> {
    let name = lowercase(name);
    if name == "left_const"@ || name == "leftconst"@ {
        Some(WallType::LeftConst)
    } else if name == "bi_directional"@ || name == "bidirectional"@ {
        Some(WallType::BiDirectional)
    } else if name == "repeating"@ {
        Some(WallType::Repeating)
    } else {
        None
    }
}

/// The sequence that a name stands for, whatever the case of its letters.
pub open spec fn sequence_named(name: Seq<char>) -> Option<NamedSequence> {
    let name = lowercase(name);
    if name == "knight"@ {
        Some(NamedSequence::Knight)
    } else if name == "rook"@ {
        Some(NamedSequence::Rook)
    } else if name == "pagoda"@ {
        Some(NamedSequence::Pagoda)
    } else if name == "rueppel"@ {
        Some(NamedSequence::Rueppel)
    } else if name == "zigzag"@ {
        Some(NamedSequence::Zigzag)
    } else {
        None
    }
}

/// The wall type of a job: its field `wall_type`, a string.
pub open spec fn wall_type_of(input: Value) -> Result<WallType, ConfigError> {
    match input.member("wall_type"@) {
        Value::Text(name) => match wall_type_named(name@) {
            Some(wall_type) => Ok(wall_type),
            None => Err(ConfigError::UnknownName { field: Field::WallType, name }),
        },
        _ => Err(ConfigError::WrongType { field: Field::WallType }),
    }
}

/// What is wrong with the element of a list of values at `position`, if
/// anything: it has to be a number, and an integer that an `i64` holds.
pub open spec fn element_fault(items: Seq<Value>, field: Field, position: int) -> Option<
    ConfigError,
> {
    match items[position] {
        Value::Number(number) => if number.integer_within(i64::MIN as int, i64::MAX as int)
            is Some {
            None
        } else {
            Some(ConfigError::ElementOutOfRange { field, position: position as usize })
        },
        _ => Some(ConfigError::ElementNotNumber { field, position: position as usize }),
    }
}

/// What is wrong with the first element from `from` on that is not in
/// order, if there is one.
pub open spec fn first_element_fault(items: Seq<Value>, field: Field, from: int) -> Option<
    ConfigError,
>
    decreases items.len() - from,
{
    if from >= items.len() {
        None
    } else if element_fault(items, field, from) is Some {
        element_fault(items, field, from)
    } else {
        first_element_fault(items, field, from + 1)
    }
}

/// `first_element_fault` gives the fault of the first element from `from` on
/// that has one: every element before it is in order.
pub proof fn lemma_first_element_fault_is_first(items: Seq<Value>, field: Field, from: int)
    requires
        0 <= from <= items.len(),
    ensures
        match first_element_fault(items, field, from) {
            Some(error) => exists|position: int|
                {
                    &&& from <= position < items.len()
                    &&& #[trigger] element_fault(items, field, position) == Some(error)
                    &&& forall|earlier: int|
                        from <= earlier < position ==> #[trigger] element_fault(
                            items,
                            field,
                            earlier,
                        ) is None
                },
            None => forall|position: int|
                from <= position < items.len() ==> #[trigger] element_fault(
                    items,
                    field,
                    position,
                ) is None,
        },
    decreases items.len() - from,
{
    if from < items.len() {
        if element_fault(items, field, from) is Some {
            assert(element_fault(items, field, from) == first_element_fault(items, field, from));
        } else {
            lemma_first_element_fault_is_first(items, field, from + 1);
            match first_element_fault(items, field, from + 1) {
                Some(error) => {
                    let position = choose|position: int|
                        {
                            &&& from + 1 <= position < items.len()
                            &&& #[trigger] element_fault(items, field, position) == Some(error)
                            &&& forall|earlier: int|
                                from + 1 <= earlier < position ==> #[trigger] element_fault(
                                    items,
                                    field,
                                    earlier,
                                ) is None
                        };
                    assert(element_fault(items, field, position) == Some(error));
                },
                None => {},
            }
        }
    }
}

/// The integer that stands at `position` in a list of values.
pub open spec fn element(items: Seq<Value>, position: int) -> i128 {
    match items[position] {
        Value::Number(number) => number.integer().unwrap() as i128,
        _ => 0,
    }
}

/// The integers of a list of values, in their order.
pub open spec fn elements(items: Seq<Value>) -> Seq<i128> {
    Seq::new(items.len(), |position: int| element(items, position))
}

/// The sequence of a job: its field `sequence`, which is the name of a
/// sequence or a list of integers.
pub open spec fn sequence_of(input: Value) -> Result<SequenceView, ConfigError> {
    match input.member("sequence"@) {
        Value::Text(name) => match sequence_named(name@) {
            Some(sequence) => Ok(SequenceView::Named(sequence)),
            None => Err(ConfigError::UnknownName { field: Field::Sequence, name }),
        },
        Value::Array(items) => match first_element_fault(items@, Field::Sequence, 0) {
            Some(error) => Err(error),
            None => Ok(SequenceView::Custom(elements(items@))),
        },
        _ => Err(ConfigError::WrongType { field: Field::Sequence }),
    }
}

/// The modulus of a job: its field `modulo`, an integer without a sign that
/// a `u64` holds. Without the field it is 0, which stands for no reduction.
pub open spec fn modulo_of(input: Value) -> Result<i128, ConfigError> {
    match input.member("modulo"@) {
        Value::Null => Ok(0),
        Value::Number(number) => match number.unsigned_integer() {
            Some(modulo) => Ok(modulo as i128),
            None => Err(ConfigError::OutOfRange { field: Field::Modulo }),
        },
        _ => Err(ConfigError::WrongType { field: Field::Modulo }),
    }
}

/// Whether the value is a number.
pub open spec fn is_number(value: Value) -> bool {
    value is Number
}

/// The two values left of the columns of a wall: the field `left_values`,
/// an array of two integers that an `i64` holds. Without the field both
/// are 0.
pub open spec fn left_values_of(input: Value) -> Result<[i128; 2], ConfigError> {
    match input.member("left_values"@) {
        Value::Null => Ok([0i128, 0i128]),
        Value::Array(items) => {
            let items = items@;
            let field = Field::LeftValues;
            if items.len() != 2 {
                Err(ConfigError::WrongLength { field, length: items.len() as usize })
            } else if !is_number(items[0]) {
                Err(ConfigError::ElementNotNumber { field, position: 0 })
            } else if !is_number(items[1]) {
                Err(ConfigError::ElementNotNumber { field, position: 1 })
            } else if element_fault(items, field, 0) is Some {
                Err(ConfigError::ElementOutOfRange { field, position: 0 })
            } else if element_fault(items, field, 1) is Some {
                Err(ConfigError::ElementOutOfRange { field, position: 1 })
            } else {
                Ok([element(items, 0), element(items, 1)])
            }
        },
        _ => Err(ConfigError::WrongType { field: Field::LeftValues }),
    }
}

/// A field that has to hold an integer without a sign that a `usize` holds.
pub open spec fn unsigned_field(input: Value, key: Seq<char>, field: Field) -> Result<
    usize,
    ConfigError,
> {
    match input.member(key) {
        Value::Number(number) => match number.unsigned_within(usize::MAX as int) {
            Some(value) => Ok(value as usize),
            None => Err(ConfigError::OutOfRange { field }),
        },
        _ => Err(ConfigError::WrongType { field }),
    }
}

/// A field that has to hold an integer that an `isize` holds.
pub open spec fn signed_field(input: Value, key: Seq<char>, field: Field) -> Result<
    isize,
    ConfigError,
> {
    match input.member(key) {
        Value::Number(number) => match number.integer_within(
            isize::MIN as int,
            isize::MAX as int,
        ) {
            Some(value) => Ok(value as isize),
            None => Err(ConfigError::OutOfRange { field }),
        },
        _ => Err(ConfigError::WrongType { field }),
    }
}

/// The boundary of a job: its fields `top`, `bottom`, `left` and `right`,
/// each looked at by itself, in this order.
pub open spec fn boundary_of(input: Value) -> Result<Boundary, ConfigError> {
    match unsigned_field(input, "top"@, Field::Top) {
        Err(error) => Err(error),
        Ok(top) => match unsigned_field(input, "bottom"@, Field::Bottom) {
            Err(error) => Err(error),
            Ok(bottom) => match signed_field(input, "left"@, Field::Left) {
                Err(error) => Err(error),
                Ok(left) => match signed_field(input, "right"@, Field::Right) {
                    Err(error) => Err(error),
                    Ok(right) => Ok(Boundary { top, bottom, left, right }),
                },
            },
        },
    }
}

/// The file that the image of a job goes to: its field `output_file`, a
/// string. Without the field it is `./out.png`.
pub open spec fn output_file_of(input: Value) -> Result<Seq<char>, ConfigError> {
    match input.member("output_file"@) {
        Value::Null => Ok("./out.png"@),
        Value::Text(path) => Ok(path@),
        _ => Err(ConfigError::WrongType { field: Field::OutputFile }),
    }
}

/// The index at which a list of values starts on a wall over all integers:
/// the field `sequence_start`, an integer that an `isize` holds. Without
/// the field it is 0.
pub open spec fn sequence_start_of(input: Value) -> Result<isize, ConfigError> {
    match input.member("sequence_start"@) {
        Value::Null => Ok(0),
        _ => signed_field(input, "sequence_start"@, Field::SequenceStart),
    }
}

/// A letter from `A` to `Z` as the small letter, any other character as it
/// is.
fn to_lower(c: char) -> (small: char)
    ensures
        small == lower(c),
{
    if 'A' <= c && c <= 'Z' {
        ((c as u8) + 32) as char
    } else {
        c
    }
}

/// Whether `text` is `name` but for the case of its letters; `name` is
/// written in small letters.
pub fn is_named(text: &str, name: &str) -> (yes: bool)
    ensures
        yes == (lowercase(text@) == name@),
{
    let length: usize = text.unicode_len();
    if name.unicode_len() != length {
        return false;
    }
    let mut i: usize = 0;
    while i < length
        invariant
            i <= length,
            length == text@.len(),
            length == name@.len(),
            forall|j: int| 0 <= j < i ==> lower(text@[j]) == name@[j],
        decreases length - i,
    {
        if to_lower(text.get_char(i)) != name.get_char(i) {
            assert(lowercase(text@)[i as int] != name@[i as int]);
            return false;
        }
        i = i + 1;
    }
    assert(lowercase(text@) =~= name@);
    true
}

/// Reads the wall type of a job.
pub fn get_wall_type(input: &Value) -> (result: Result<WallType, ConfigError>)
    ensures
        result == wall_type_of(*input),
{
    match input.get("wall_type") {
        Some(Value::Text(name)) => {
            let wall_type: &str = name.as_str();
            if is_named(wall_type, "left_const") || is_named(wall_type, "leftconst") {
                Ok(WallType::LeftConst)
            } else if is_named(wall_type, "bi_directional") || is_named(
                wall_type,
                "bidirectional",
            ) {
                Ok(WallType::BiDirectional)
            } else if is_named(wall_type, "repeating") {
                Ok(WallType::Repeating)
            } else {
                Err(ConfigError::UnknownName { field: Field::WallType, name: name.clone() })
            }
        },
        _ => Err(ConfigError::WrongType { field: Field::WallType }),
    }
}

/// Reads the integer at `position` of a list of values.
fn read_element(items: &Vec<Value>, field: Field, position: usize) -> (result: Result<
    i128,
    ConfigError,
>)
    requires
        position < items@.len(),
    ensures
        match result {
            Ok(value) => element_fault(items@, field, position as int) is None && value
                == element(items@, position as int),
            Err(error) => element_fault(items@, field, position as int) == Some(error),
        },
{
    match &items[position] {
        Value::Number(number) => match number.as_i64() {
            Some(value) => Ok(value as i128),
            None => Err(ConfigError::ElementOutOfRange { field, position }),
        },
        _ => Err(ConfigError::ElementNotNumber { field, position }),
    }
}

/// Reads the sequence of a job.
#[verifier::loop_isolation(false)]
pub fn get_sequence(input: &Value) -> (result: Result<Sequence, ConfigError>)
    ensures
        match result {
            Ok(sequence) => sequence_of(*input) == Ok::<SequenceView, ConfigError>(sequence@),
            Err(error) => sequence_of(*input) == Err::<SequenceView, ConfigError>(error),
        },
{
    match input.get("sequence") {
        Some(Value::Text(name)) => {
            let sequence_name: &str = name.as_str();
            if is_named(sequence_name, "knight") {
                Ok(Sequence::Named(NamedSequence::Knight))
            } else if is_named(sequence_name, "rook") {
                Ok(Sequence::Named(NamedSequence::Rook))
            } else if is_named(sequence_name, "pagoda") {
                Ok(Sequence::Named(NamedSequence::Pagoda))
            } else if is_named(sequence_name, "rueppel") {
                Ok(Sequence::Named(NamedSequence::Rueppel))
            } else if is_named(sequence_name, "zigzag") {
                Ok(Sequence::Named(NamedSequence::Zigzag))
            } else {
                Err(ConfigError::UnknownName { field: Field::Sequence, name: name.clone() })
            }
        },
        Some(Value::Array(items)) => {
            let mut sequence: Vec<i128> = Vec::new();
            let mut pos: usize = 0;
            while pos < items.len()
                invariant
                    pos <= items.len(),
                    first_element_fault(items@, Field::Sequence, 0) == first_element_fault(
                        items@,
                        Field::Sequence,
                        pos as int,
                    ),
                    sequence@ == elements(items@).take(pos as int),
                decreases items.len() - pos,
            {
                match read_element(items, Field::Sequence, pos) {
                    Ok(value) => {
                        sequence.push(value);
                    },
                    Err(error) => {
                        return Err(error);
                    },
                }
                assert(sequence@ =~= elements(items@).take(pos + 1));
                pos = pos + 1;
            }
            assert(sequence@ =~= elements(items@));
            Ok(Sequence::Custom(sequence))
        },
        _ => Err(ConfigError::WrongType { field: Field::Sequence }),
    }
}

/// Reads the modulus of a job.
pub fn get_modulo(input: &Value) -> (result: Result<i128, ConfigError>)
    ensures
        result == modulo_of(*input),
{
    match input.get("modulo") {
        None => Ok(0),
        Some(Value::Null) => Ok(0),
        Some(Value::Number(number)) => match number.as_u64() {
            Some(modulo) => Ok(modulo as i128),
            None => Err(ConfigError::OutOfRange { field: Field::Modulo }),
        },
        Some(_) => Err(ConfigError::WrongType { field: Field::Modulo }),
    }
}

/// Whether the value is a number.
fn holds_number(value: &Value) -> (yes: bool)
    ensures
        yes == is_number(*value),
{
    match value {
        Value::Number(_) => true,
        _ => false,
    }
}

/// Reads the two values left of the columns of a wall.
pub fn get_left_values(input: &Value) -> (result: Result<[i128; 2], ConfigError>)
    ensures
        result == left_values_of(*input),
{
    let field = Field::LeftValues;
    let left_values: &Vec<Value> = match input.get("left_values") {
        None => {
            let both_zero: [i128; 2] = [0, 0];
            assert(both_zero =~= [0i128, 0i128]);
            return Ok(both_zero);
        },
        Some(Value::Null) => {
            let both_zero: [i128; 2] = [0, 0];
            assert(both_zero =~= [0i128, 0i128]);
            return Ok(both_zero);
        },
        Some(Value::Array(items)) => items,
        Some(_) => {
            return Err(ConfigError::WrongType { field });
        },
    };
    if left_values.len() != 2 {
        return Err(ConfigError::WrongLength { field, length: left_values.len() });
    }
    if !holds_number(&left_values[0]) {
        return Err(ConfigError::ElementNotNumber { field, position: 0 });
    }
    if !holds_number(&left_values[1]) {
        return Err(ConfigError::ElementNotNumber { field, position: 1 });
    }
    let num_0: i128 = match read_element(left_values, field, 0) {
        Ok(value) => value,
        Err(error) => {
            return Err(error);
        },
    };
    let num_1: i128 = match read_element(left_values, field, 1) {
        Ok(value) => value,
        Err(error) => {
            return Err(error);
        },
    };
    let pair: [i128; 2] = [num_0, num_1];
    assert(pair =~= [element(left_values@, 0), element(left_values@, 1)]);
    Ok(pair)
}

/// Reads a field that holds an integer without a sign.
fn read_unsigned(input: &Value, key: &str, field: Field) -> (result: Result<usize, ConfigError>)
    ensures
        result == unsigned_field(*input, key@, field),
{
    match input.get(key) {
        Some(Value::Number(number)) => match number.as_usize() {
            Some(value) => Ok(value),
            None => Err(ConfigError::OutOfRange { field }),
        },
        _ => Err(ConfigError::WrongType { field }),
    }
}

/// Reads a field that holds an integer.
fn read_signed(input: &Value, key: &str, field: Field) -> (result: Result<isize, ConfigError>)
    ensures
        result == signed_field(*input, key@, field),
{
    match input.get(key) {
        Some(Value::Number(number)) => match number.as_isize() {
            Some(value) => Ok(value),
            None => Err(ConfigError::OutOfRange { field }),
        },
        _ => Err(ConfigError::WrongType { field }),
    }
}

/// Reads the boundary of a job.
pub fn get_boundary(input: &Value) -> (result: Result<Boundary, ConfigError>)
    ensures
        result == boundary_of(*input),
{
    let top: usize = match read_unsigned(input, "top", Field::Top) {
        Ok(value) => value,
        Err(error) => {
            return Err(error);
        },
    };
    let bottom: usize = match read_unsigned(input, "bottom", Field::Bottom) {
        Ok(value) => value,
        Err(error) => {
            return Err(error);
        },
    };
    let left: isize = match read_signed(input, "left", Field::Left) {
        Ok(value) => value,
        Err(error) => {
            return Err(error);
        },
    };
    let right: isize = match read_signed(input, "right", Field::Right) {
        Ok(value) => value,
        Err(error) => {
            return Err(error);
        },
    };
    Ok(Boundary { top, bottom, left, right })
}

/// Reads the file that the image of a job goes to.
pub fn get_output_file(input: &Value) -> (result: Result<String, ConfigError>)
    ensures
        match result {
            Ok(path) => output_file_of(*input) == Ok::<Seq<char>, ConfigError>(path@),
            Err(error) => output_file_of(*input) == Err::<Seq<char>, ConfigError>(error),
        },
{
    match input.get("output_file") {
        None => Ok("./out.png".to_owned()),
        Some(Value::Null) => Ok("./out.png".to_owned()),
        Some(Value::Text(path)) => Ok(path.clone()),
        Some(_) => Err(ConfigError::WrongType { field: Field::OutputFile }),
    }
}

/// Reads the index at which a list of values starts.
pub fn get_sequence_start(input: &Value) -> (result: Result<isize, ConfigError>)
    ensures
        result == sequence_start_of(*input),
{
    match input.get("sequence_start") {
        None => Ok(0),
        Some(Value::Null) => Ok(0),
        Some(_) => read_signed(input, "sequence_start", Field::SequenceStart),
    }
}

} // verus!
