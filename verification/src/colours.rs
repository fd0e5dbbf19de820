//! Colours and the palette: which colour each sequence value is painted in.

use std::collections::HashMap;
use vstd::prelude::*;
use vstd::string::*;

use crate::document::{text_equals, Value};
use crate::error::{ColourError, ConfigError, Field};

verus! {

/// What a character is worth as a hexadecimal digit, in either case.
pub open spec fn hex_digit(c: char) -> Option<u8> {
    if '0' <= c <= '9' {
        Some((c as int - '0' as int) as u8)
    } else if 'a' <= c <= 'f' {
        Some((c as int - 'a' as int + 10) as u8)
    } else if 'A' <= c <= 'F' {
        Some((c as int - 'A' as int + 10) as u8)
    } else {
        None
    }
}

/// The first place from `from` on at which `text` holds no hexadecimal
/// digit, or the length of `text` if there is none.
pub open spec fn first_invalid_digit(text: Seq<char>, from: int) -> int
    decreases text.len() - from,
{
    if from >= text.len() {
        text.len() as int
    } else if hex_digit(text[from]) is None {
        from
    } else {
        first_invalid_digit(text, from + 1)
    }
}

/// `first_invalid_digit` gives the least place from `from` on that holds no
/// hexadecimal digit: every place before it holds one.
pub proof fn lemma_first_invalid_digit_is_least(text: Seq<char>, from: int)
    requires
        0 <= from <= text.len(),
    ensures
        from <= first_invalid_digit(text, from) <= text.len(),
        forall|i: int|
            from <= i < first_invalid_digit(text, from) ==> hex_digit(#[trigger] text[i]) is Some,
        first_invalid_digit(text, from) < text.len() ==> hex_digit(
            text[first_invalid_digit(text, from)],
        ) is None,
    decreases text.len() - from,
{
    if from < text.len() && hex_digit(text[from]) is Some {
        lemma_first_invalid_digit_is_least(text, from + 1);
    }
}

/// The channel that one hexadecimal digit stands for in the short notation:
/// the digit written twice.
pub open spec fn doubled(text: Seq<char>, at: int) -> u8 {
    (17 * hex_digit(text[at]).unwrap()) as u8
}

/// The channel that two hexadecimal digits stand for in the long notation.
pub open spec fn paired(text: Seq<char>, at: int) -> u8 {
    (16 * hex_digit(text[at]).unwrap() + hex_digit(text[at + 1]).unwrap()) as u8
}

/// The colour that a string stands for. A string of 3 characters holds one
/// digit for each of red, green and blue, one of 6 characters holds two for
/// each. A string of 4 or of 7 characters holds one character more in front,
/// which can be any.
pub open spec fn colour_of_text(text: Seq<char>) -> Result<[u8; 3], ColourError> {
    let length = text.len() as int;
    if length == 3 || length == 4 {
        let from = length - 3;
        if first_invalid_digit(text, from) < length {
            Err(ColourError::InvalidHexDigit { position: first_invalid_digit(text, from) as usize })
        } else {
            Ok([doubled(text, from), doubled(text, from + 1), doubled(text, from + 2)])
        }
    } else if length == 6 || length == 7 {
        let from = length - 6;
        if first_invalid_digit(text, from) < length {
            Err(ColourError::InvalidHexDigit { position: first_invalid_digit(text, from) as usize })
        } else {
            Ok([paired(text, from), paired(text, from + 2), paired(text, from + 4)])
        }
    } else {
        Err(ColourError::WrongTextLength { length: length as usize })
    }
}

/// What is wrong with the element of an array at `position`, if anything: a
/// channel is a number, and an integer from 0 to 255.
pub open spec fn component_fault(items: Seq<Value>, position: int) -> Option<ColourError> {
    match items[position] {
        Value::Number(number) => if number.unsigned_within(255) is Some {
            None
        } else {
            Some(ColourError::ComponentOutOfRange { position: position as usize })
        },
        _ => Some(ColourError::ComponentNotNumber { position: position as usize }),
    }
}

/// The channel that an element of an array stands for.
pub open spec fn component(items: Seq<Value>, position: int) -> u8 {
    match items[position] {
        Value::Number(number) => number.unsigned_within(255).unwrap() as u8,
        _ => 0,
    }
}

/// The colour that an array stands for: three integers from 0 to 255, for
/// red, green and blue.
pub open spec fn colour_of_array(items: Seq<Value>) -> Result<[u8; 3], ColourError> {
    if items.len() != 3 {
        Err(ColourError::WrongArrayLength { length: items.len() as usize })
    } else if component_fault(items, 0) is Some {
        Err(component_fault(items, 0).unwrap())
    } else if component_fault(items, 1) is Some {
        Err(component_fault(items, 1).unwrap())
    } else if component_fault(items, 2) is Some {
        Err(component_fault(items, 2).unwrap())
    } else {
        Ok([component(items, 0), component(items, 1), component(items, 2)])
    }
}

/// The colour that a value of a document stands for.
pub open spec fn colour_of(value: Value) -> Result<[u8; 3], ColourError> {
    match value {
        Value::Array(items) => colour_of_array(items@),
        Value::Text(text) => colour_of_text(text@),
        _ => Err(ColourError::NotAColour),
    }
}

/// The hexadecimal digit at place `at` of `text`.
fn hex_digit_at(text: &str, at: usize) -> (digit: Option<u8>)
    requires
        at < text@.len(),
    ensures
        digit == hex_digit(text@[at as int]),
        digit matches Some(d) ==> d < 16,
{
    let c: char = text.get_char(at);
    if '0' <= c && c <= '9' {
        Some(c as u8 - '0' as u8)
    } else if 'a' <= c && c <= 'f' {
        Some(c as u8 - 'a' as u8 + 10)
    } else if 'A' <= c && c <= 'F' {
        Some(c as u8 - 'A' as u8 + 10)
    } else {
        None
    }
}

/// Reads the `count` hexadecimal digits of `text` that start at `from`.
fn hex_digits(text: &str, from: usize, count: usize) -> (digits: Result<Vec<u8>, usize>)
    requires
        from + count == text@.len(),
        from + count <= usize::MAX,
    ensures
        match digits {
            Ok(values) => {
                &&& first_invalid_digit(text@, from as int) == text@.len()
                &&& values@.len() == count
                &&& forall|i: int|
                    0 <= i < count ==> hex_digit(text@[from + i]) == Some(#[trigger] values@[i])
                &&& forall|i: int| 0 <= i < count ==> #[trigger] values@[i] < 16
            },
            Err(position) => {
                &&& first_invalid_digit(text@, from as int) == position
                &&& position < text@.len()
            },
        },
{
    let mut values: Vec<u8> = Vec::new();
    let mut i: usize = 0;
    while i < count
        invariant
            i <= count,
            from + count == text@.len(),
            from + count <= usize::MAX,
            values@.len() == i,
            first_invalid_digit(text@, from as int) == first_invalid_digit(text@, from + i),
            forall|j: int| 0 <= j < i ==> hex_digit(text@[from + j]) == Some(#[trigger] values@[j]),
            forall|j: int| 0 <= j < i ==> #[trigger] values@[j] < 16,
        decreases count - i,
    {
        match hex_digit_at(text, from + i) {
            Some(digit) => {
                values.push(digit);
            },
            None => {
                return Err(from + i);
            },
        }
        i = i + 1;
    }
    Ok(values)
}

/// Reads a colour from a value of a document: an array of three integers
/// from 0 to 255, or a string in hexadecimal notation.
pub fn colour_to_u8_array(colour: &Value) -> (result: Result<[u8; 3], ColourError>)
    ensures
        result == colour_of(*colour),
{
    match colour {
        Value::Array(items) => {
            if items.len() != 3 {
                return Err(ColourError::WrongArrayLength { length: items.len() });
            }
            let red: u8 = match channel(items, 0) {
                Ok(value) => value,
                Err(error) => {
                    return Err(error);
                },
            };
            let green: u8 = match channel(items, 1) {
                Ok(value) => value,
                Err(error) => {
                    return Err(error);
                },
            };
            let blue: u8 = match channel(items, 2) {
                Ok(value) => value,
                Err(error) => {
                    return Err(error);
                },
            };
            let rgb: [u8; 3] = [red, green, blue];
            assert(rgb =~= [component(items@, 0), component(items@, 1), component(items@, 2)]);
            Ok(rgb)
        },
        Value::Text(text) => {
            let text: &str = text.as_str();
            let length: usize = text.unicode_len();
            if length == 3 || length == 4 {
                let from: usize = length - 3;
                match hex_digits(text, from, 3) {
                    Ok(digits) => {
                        let rgb: [u8; 3] = [17 * digits[0], 17 * digits[1], 17 * digits[2]];
                        assert(rgb =~= [
                            doubled(text@, from as int),
                            doubled(text@, from + 1),
                            doubled(text@, from + 2),
                        ]);
                        Ok(rgb)
                    },
                    Err(position) => Err(ColourError::InvalidHexDigit { position }),
                }
            } else if length == 6 || length == 7 {
                let from: usize = length - 6;
                match hex_digits(text, from, 6) {
                    Ok(digits) => {
                        let rgb: [u8; 3] = [
                            16 * digits[0] + digits[1],
                            16 * digits[2] + digits[3],
                            16 * digits[4] + digits[5],
                        ];
                        assert(rgb =~= [
                            paired(text@, from as int),
                            paired(text@, from + 2),
                            paired(text@, from + 4),
                        ]);
                        Ok(rgb)
                    },
                    Err(position) => Err(ColourError::InvalidHexDigit { position }),
                }
            } else {
                Err(ColourError::WrongTextLength { length })
            }
        },
        _ => Err(ColourError::NotAColour),
    }
}

/// Reads one channel from an array of values.
fn channel(items: &Vec<Value>, position: usize) -> (result: Result<u8, ColourError>)
    requires
        position < items@.len(),
    ensures
        match result {
            Ok(value) => component_fault(items@, position as int) is None && value == component(
                items@,
                position as int,
            ),
            Err(error) => component_fault(items@, position as int) == Some(error),
        },
{
    match &items[position] {
        Value::Number(number) => match number.as_u8() {
            Some(value) => Ok(value),
            None => Err(ColourError::ComponentOutOfRange { position }),
        },
        _ => Err(ColourError::ComponentNotNumber { position }),
    }
}

/// What a character is worth as a decimal digit.
pub open spec fn decimal_digit(c: char) -> Option<int> {
    if '0' <= c <= '9' {
        Some(c as int - '0' as int)
    } else {
        None
    }
}

/// Whether every character is a decimal digit.
pub open spec fn all_decimal(digits: Seq<char>) -> bool {
    forall|i: int| 0 <= i < digits.len() ==> decimal_digit(#[trigger] digits[i]) is Some
}

/// The number that a row of decimal digits stands for.
pub open spec fn decimal_value(digits: Seq<char>) -> int
    decreases digits.len(),
{
    if digits.len() == 0 {
        0
    } else {
        10 * decimal_value(digits.drop_last()) + decimal_digit(digits.last()).unwrap()
    }
}

/// The integer that a string stands for: decimal digits, at least one, with
/// `+` or `-` in front or neither, and a value that an `i128` holds.
pub open spec fn integer_of_text(text: Seq<char>) -> Option<i128> {
    let negative = text.len() > 0 && text[0] == '-';
    let signed = negative || (text.len() > 0 && text[0] == '+');
    let digits = if signed {
        text.skip(1)
    } else {
        text
    };
    let value = if negative {
        -decimal_value(digits)
    } else {
        decimal_value(digits)
    };
    if digits.len() == 0 || !all_decimal(digits) || value < i128::MIN || value > i128::MAX {
        None
    } else {
        Some(value as i128)
    }
}

/// A row of digits stands for no negative number.
proof fn lemma_decimal_value_not_negative(digits: Seq<char>)
    requires
        all_decimal(digits),
    ensures
        0 <= decimal_value(digits),
    decreases digits.len(),
{
    if digits.len() > 0 {
        assert(decimal_digit(digits[digits.len() - 1]) is Some);
        lemma_decimal_value_not_negative(digits.drop_last());
    }
}

/// A row of digits stands for at least as much as any row that it starts
/// with.
proof fn lemma_decimal_value_grows(digits: Seq<char>, count: int)
    requires
        all_decimal(digits),
        0 <= count <= digits.len(),
    ensures
        0 <= decimal_value(digits.take(count)) <= decimal_value(digits),
    decreases digits.len() - count,
{
    lemma_decimal_value_not_negative(digits.take(count));
    if count < digits.len() {
        lemma_decimal_value_grows(digits, count + 1);
        assert(digits.take(count + 1).drop_last() =~= digits.take(count));
        assert(decimal_digit(digits[count]) is Some);
        assert(digits.take(count + 1).last() == digits[count]);
    } else {
        assert(digits.take(count) =~= digits);
    }
}

/// Reads an integer from a string.
#[verifier::loop_isolation(false)]
pub fn parse_integer(text: &str) -> (value: Option<i128>)
    ensures
        value == integer_of_text(text@),
{
    let length: usize = text.unicode_len();
    if length == 0 {
        return None;
    }
    let first: char = text.get_char(0);
    let negative: bool = first == '-';
    let start: usize = if first == '-' || first == '+' {
        1
    } else {
        0
    };
    let ghost digits: Seq<char> = text@.skip(start as int);
    assert(start == 0 ==> digits =~= text@);
    if start == length {
        return None;
    }
    let mut total: i128 = 0;
    let mut i: usize = start;
    assert(digits.take(0).len() == 0);
    while i < length
        invariant
            start <= i <= length,
            length == text@.len(),
            digits == text@.skip(start as int),
            all_decimal(digits.take(i - start)),
            total == if negative {
                -decimal_value(digits.take(i - start))
            } else {
                decimal_value(digits.take(i - start))
            },
        decreases length - i,
    {
        let c: char = text.get_char(i);
        let ghost shorter = digits.take(i - start);
        let ghost longer = digits.take(i - start + 1);
        proof {
            assert(longer.drop_last() =~= shorter);
            assert(digits[i - start] == c);
            if all_decimal(digits) {
                lemma_decimal_value_grows(digits, i - start + 1);
            }
        }
        if !('0' <= c && c <= '9') {
            return None;
        }
        let digit: i128 = (c as u8 - '0' as u8) as i128;
        let scaled: i128 = match total.checked_mul(10) {
            Some(scaled) => scaled,
            None => {
                return None;
            },
        };
        let next: Option<i128> = if negative {
            scaled.checked_sub(digit)
        } else {
            scaled.checked_add(digit)
        };
        match next {
            Some(next) => {
                total = next;
            },
            None => {
                return None;
            },
        }
        i = i + 1;
        assert forall|j: int| 0 <= j < longer.len() implies decimal_digit(
            #[trigger] longer[j],
        ) is Some by {
            if j < shorter.len() {
                assert(longer[j] == shorter[j]);
            }
        }
    }
    assert(digits.take(i - start) =~= digits);
    Some(total)
}

/// A palette: the colour of each sequence value that has one of its own,
/// and the colour of all the others.
pub struct Palette {
    pub mapping: Map<i128, [u8; 3]>,
    pub default: [u8; 3],
}

impl Palette {
    /// The colour in which `value` is painted.
    pub open spec fn colour(self, value: i128) -> [u8; 3] {
        if self.mapping.contains_key(value) {
            self.mapping[value]
        } else {
            self.default
        }
    }
}

/// White, the colour of the value 0 where no palette is given.
pub open spec fn white() -> [u8; 3] {
    [255u8, 255u8, 255u8]
}

/// Black, the colour of the value 1 where no palette is given.
pub open spec fn black() -> [u8; 3] {
    [0u8, 0u8, 0u8]
}

/// Grey, the colour of every value that the palette does not name, unless
/// the palette says otherwise.
pub open spec fn grey() -> [u8; 3] {
    [128u8, 128u8, 128u8]
}

/// The palette of a job that gives none.
pub open spec fn default_palette() -> Palette {
    Palette { mapping: Map::<i128, [u8; 3]>::empty().insert(0, white()).insert(1, black()), default: grey() }
}

/// The palette with one more entry of a document taken in. The key `default`
/// sets the colour of the values without one of their own; every other key
/// is an integer and names the value whose colour follows.
pub open spec fn with_entry(palette: Palette, entry: (String, Value)) -> Result<
    Palette,
    ConfigError,
> {
    if entry.0@ == "default"@ {
        match colour_of(entry.1) {
            Ok(colour) => Ok(Palette { mapping: palette.mapping, default: colour }),
            Err(error) => Err(ConfigError::Colour { error }),
        }
    } else {
        match integer_of_text(entry.0@) {
            None => Err(ConfigError::ColourKey { key: entry.0 }),
            Some(value) => match colour_of(entry.1) {
                Ok(colour) => Ok(
                    Palette { mapping: palette.mapping.insert(value, colour), default: palette.default },
                ),
                Err(error) => Err(ConfigError::Colour { error }),
            },
        }
    }
}

/// The palette that the entries of an object give, taken in their order,
/// or what is wrong with the first entry that is not in order.
pub open spec fn palette_of_entries(entries: Seq<(String, Value)>) -> Result<Palette, ConfigError>
    decreases entries.len(),
{
    if entries.len() == 0 {
        Ok(Palette { mapping: Map::empty(), default: grey() })
    } else {
        match palette_of_entries(entries.drop_last()) {
            Ok(palette) => with_entry(palette, entries.last()),
            Err(error) => Err(error),
        }
    }
}

/// The palette of a job: that of its field `colours`, or the default one
/// where the field is not there.
pub open spec fn palette_of(input: Value) -> Result<Palette, ConfigError> {
    match input.member("colours"@) {
        Value::Null => Ok(default_palette()),
        Value::Object(entries) => palette_of_entries(entries@),
        _ => Err(ConfigError::WrongType { field: Field::Colours }),
    }
}

/// The palette of a job, as a table to look colours up in.
#[derive(Debug, PartialEq, Eq)]
pub struct Colours {
    pub mapping: HashMap<i128, [u8; 3]>,
    pub default: [u8; 3],
}

impl View for Colours {
    type V = Palette;

    open spec fn view(&self) -> Palette {
        Palette { mapping: self.mapping@, default: self.default }
    }
}

/// Reads the palette of a job from its field `colours`.
#[verifier::loop_isolation(false)]
pub fn get_colours(input: &Value) -> (result: Result<Colours, ConfigError>)
    ensures
        match result {
            Ok(colours) => palette_of(*input) == Ok::<Palette, ConfigError>(colours@),
            Err(error) => palette_of(*input) == Err::<Palette, ConfigError>(error),
        },
{
    let entries: &Vec<(String, Value)> = match input.get("colours") {
        None => {
            return Ok(default_colours());
        },
        Some(Value::Null) => {
            return Ok(default_colours());
        },
        Some(Value::Object(entries)) => entries,
        Some(_) => {
            return Err(ConfigError::WrongType { field: Field::Colours });
        },
    };
    let mut default: [u8; 3] = [128, 128, 128];
    assert(default =~= grey());
    let mut cols: HashMap<i128, [u8; 3]> = HashMap::new();
    let mut i: usize = 0;
    assert(entries@.take(0).len() == 0);
    while i < entries.len()
        invariant
            i <= entries.len(),
            palette_of_entries(entries@.take(i as int)) == Ok::<Palette, ConfigError>(
                Palette { mapping: cols@, default },
            ),
        decreases entries.len() - i,
    {
        proof {
            let upto = entries@.take(i + 1);
            assert(upto.drop_last() =~= entries@.take(i as int));
            assert(upto.last() == entries@[i as int]);
        }
        let key: &str = entries[i].0.as_str();
        if text_equals(key, "default") {
            match colour_to_u8_array(&entries[i].1) {
                Ok(colour) => {
                    default = colour;
                },
                Err(error) => {
                    proof {
                        lemma_fault_stays(entries@, i + 1, ConfigError::Colour { error });
                    }
                    return Err(ConfigError::Colour { error });
                },
            }
        } else {
            match parse_integer(key) {
                Some(value) => match colour_to_u8_array(&entries[i].1) {
                    Ok(colour) => {
                        cols.insert(value, colour);
                    },
                    Err(error) => {
                        proof {
                            lemma_fault_stays(entries@, i + 1, ConfigError::Colour { error });
                        }
                        return Err(ConfigError::Colour { error });
                    },
                },
                None => {
                    let key: String = entries[i].0.clone();
                    proof {
                        lemma_fault_stays(entries@, i + 1, ConfigError::ColourKey { key });
                    }
                    return Err(ConfigError::ColourKey { key });
                },
            }
        }
        i = i + 1;
    }
    assert(entries@.take(i as int) =~= entries@);
    Ok(Colours { mapping: cols, default })
}

/// The table of the default palette.
fn default_colours() -> (colours: Colours)
    ensures
        colours@ == default_palette(),
{
    let mut cols: HashMap<i128, [u8; 3]> = HashMap::new();
    let for_zero: [u8; 3] = [255, 255, 255];
    let for_one: [u8; 3] = [0, 0, 0];
    let default: [u8; 3] = [128, 128, 128];
    assert(for_zero =~= white());
    assert(for_one =~= black());
    assert(default =~= grey());
    cols.insert(0, for_zero);
    cols.insert(1, for_one);
    Colours { mapping: cols, default }
}

/// Once the entries up to some place are not in order, those after them do
/// not matter any more.
proof fn lemma_fault_stays(entries: Seq<(String, Value)>, count: int, error: ConfigError)
    requires
        0 <= count <= entries.len(),
        palette_of_entries(entries.take(count)) == Err::<Palette, ConfigError>(error),
    ensures
        palette_of_entries(entries) == Err::<Palette, ConfigError>(error),
    decreases entries.len() - count,
{
    if count < entries.len() {
        assert(entries.take(count + 1).drop_last() =~= entries.take(count));
        lemma_fault_stays(entries, count + 1, error);
    } else {
        assert(entries.take(count) =~= entries);
    }
}

/// The colour in which a sequence value is painted: its own where the
/// palette names the value, else the default colour.
pub fn get_colour(value: i128, colours: &Colours) -> (colour: [u8; 3])
    ensures
        colour == colours@.colour(value),
{
    match colours.mapping.get(&value) {
        Some(colour) => *colour,
        None => colours.default,
    }
}

} // verus!
