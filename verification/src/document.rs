//! A configuration document as plain data: the nested values that a JSON text
//! stands for, after it has been read.

use vstd::prelude::*;
use vstd::string::*;

verus! {

/// A number as it stands in a document: a sign, decimal digits without a
/// point, and a power of ten to scale them by.
#[derive(Debug, Clone, Copy, PartialEq, Eq, Structural)]
pub struct Number {
    /// Whether the number carries no minus sign.
    pub positive: bool,
    /// The digits of the number, read as one integer.
    pub mantissa: u64,
    /// The power of ten by which the mantissa is scaled.
    pub exponent: i16,
}

impl Number {
    /// The integer that the number is written as, where it is written as one:
    /// without a fraction and without an exponent.
    pub open spec fn integer(self) -> Option<int> {
        if self.exponent != 0 {
            None
        } else if self.positive {
            Some(self.mantissa as int)
        } else {
            Some(-(self.mantissa as int))
        }
    }

    /// The integer that the number is written as, where it is written as one
    /// and without a minus sign.
    pub open spec fn unsigned_integer(self) -> Option<int> {
        if self.positive {
            self.integer()
        } else {
            None
        }
    }

    /// What `integer` gives where that lies from `low` to `high`.
    pub open spec fn integer_within(self, low: int, high: int) -> Option<int> {
        match self.integer() {
            Some(value) if low <= value <= high => Some(value),
            _ => None,
        }
    }

    /// What `unsigned_integer` gives where that is at most `high`.
    pub open spec fn unsigned_within(self, high: int) -> Option<int> {
        match self.unsigned_integer() {
            Some(value) if value <= high => Some(value),
            _ => None,
        }
    }

    /// The number as a `u64`, where it is an integer without a sign.
    pub fn as_u64(&self) -> (value: Option<u64>)
        ensures
            value is Some <==> self.unsigned_integer() is Some,
            value matches Some(v) ==> self.unsigned_integer() == Some(v as int),
    {
        if self.positive && self.exponent == 0 {
            Some(self.mantissa)
        } else {
            None
        }
    }

    /// The number as a `usize`, where it is an integer without a sign that
    /// fits.
    pub fn as_usize(&self) -> (value: Option<usize>)
        ensures
            value is Some <==> self.unsigned_within(usize::MAX as int) is Some,
            value matches Some(v) ==> self.unsigned_within(usize::MAX as int) == Some(v as int),
    {
        match self.as_u64() {
            Some(wide) if wide <= usize::MAX as u64 => Some(wide as usize),
            _ => None,
        }
    }

    /// The number as a `u8`, where it is an integer from 0 to 255 without a
    /// sign.
    pub fn as_u8(&self) -> (value: Option<u8>)
        ensures
            value is Some <==> self.unsigned_within(255) is Some,
            value matches Some(v) ==> self.unsigned_within(255) == Some(v as int),
    {
        match self.as_u64() {
            Some(wide) if wide <= 255 => Some(wide as u8),
            _ => None,
        }
    }

    /// The number as an `i64`, where it is an integer that fits.
    pub fn as_i64(&self) -> (value: Option<i64>)
        ensures
            value is Some <==> self.integer_within(i64::MIN as int, i64::MAX as int) is Some,
            value matches Some(v) ==> self.integer() == Some(v as int),
    {
        if self.exponent != 0 {
            None
        } else if self.positive {
            if self.mantissa <= i64::MAX as u64 {
                Some(self.mantissa as i64)
            } else {
                None
            }
        } else if self.mantissa <= i64::MAX as u64 {
            Some(-(self.mantissa as i64))
        } else if self.mantissa == i64::MAX as u64 + 1 {
            Some(i64::MIN)
        } else {
            None
        }
    }

    /// The number as an `isize`, where it is an integer that fits.
    pub fn as_isize(&self) -> (value: Option<isize>)
        ensures
            value is Some <==> self.integer_within(isize::MIN as int, isize::MAX as int) is Some,
            value matches Some(v) ==> self.integer() == Some(v as int),
    {
        match self.as_i64() {
            Some(wide) if isize::MIN as i64 <= wide && wide <= isize::MAX as i64 => Some(
                wide as isize,
            ),
            _ => None,
        }
    }
}

/// A value of a document.
#[derive(Debug, PartialEq, Eq)]
pub enum Value {
    /// The value `null`; it also stands for a value that is not there.
    Null,
    /// `true` or `false`.
    Boolean(bool),
    /// A number.
    Number(Number),
    /// A string.
    Text(String),
    /// An array: values in their order.
    Array(Vec<Value>),
    /// An object: keys with their values, in the order of the text. Where a
    /// key stands more than once, its last value counts.
    Object(Vec<(String, Value)>),
}

/// The value under `key` among the entries of an object, if the key is there.
pub open spec fn entry_value(entries: Seq<(String, Value)>, key: Seq<char>) -> Option<Value>
    decreases entries.len(),
{
    if entries.len() == 0 {
        None
    } else if entries.last().0@ == key {
        Some(entries.last().1)
    } else {
        entry_value(entries.drop_last(), key)
    }
}

/// `entry_value` finds the last entry with the key: it gives the value of an
/// entry that holds the key and has no entry with the key behind it, and it
/// gives nothing only where no entry holds the key.
pub proof fn lemma_entry_value_is_last(entries: Seq<(String, Value)>, key: Seq<char>)
    ensures
        match entry_value(entries, key) {
            Some(value) => exists|i: int|
                {
                    &&& 0 <= i < entries.len()
                    &&& (#[trigger] entries[i]).0@ == key
                    &&& entries[i].1 == value
                    &&& forall|j: int| i < j < entries.len() ==> (#[trigger] entries[j]).0@ != key
                },
            None => forall|i: int| 0 <= i < entries.len() ==> (#[trigger] entries[i]).0@ != key,
        },
    decreases entries.len(),
{
    if entries.len() > 0 {
        let last = entries.len() - 1;
        let shorter = entries.drop_last();
        if entries.last().0@ == key {
            assert(entries[last].0@ == key);
        } else {
            lemma_entry_value_is_last(shorter, key);
            match entry_value(shorter, key) {
                Some(value) => {
                    let i = choose|i: int|
                        {
                            &&& 0 <= i < shorter.len()
                            &&& (#[trigger] shorter[i]).0@ == key
                            &&& shorter[i].1 == value
                            &&& forall|j: int|
                                i < j < shorter.len() ==> (#[trigger] shorter[j]).0@ != key
                        };
                    assert(entries[i] == shorter[i]);
                    assert forall|j: int| i < j < entries.len() implies (#[trigger] entries[j]).0@
                        != key by {
                        if j < last {
                            assert(entries[j] == shorter[j]);
                        }
                    }
                },
                None => {
                    assert forall|i: int| 0 <= i < entries.len() implies (#[trigger] entries[i]).0@
                        != key by {
                        if i < last {
                            assert(entries[i] == shorter[i]);
                        }
                    }
                },
            }
        }
    }
}

impl Value {
    /// The value under `key` in an object. It is `Null` where the key is not
    /// there, and in every value that is no object.
    pub open spec fn member(self, key: Seq<char>) -> Value {
        match self {
            Value::Object(entries) => match entry_value(entries@, key) {
                Some(value) => value,
                None => Value::Null,
            },
            _ => Value::Null,
        }
    }

    /// Looks up `key` in an object.
    pub fn get<'a>(&'a self, key: &str) -> (found: Option<&'a Value>)
        ensures
            match found {
                Some(value) => *value == self.member(key@),
                None => self.member(key@) == Value::Null,
            },
    {
        match self {
            Value::Object(entries) => {
                let mut i: usize = entries.len();
                assert(entries@.take(i as int) =~= entries@);
                while i > 0
                    invariant
                        i <= entries.len(),
                        *self == Value::Object(*entries),
                        entry_value(entries@, key@) == entry_value(entries@.take(i as int), key@),
                    decreases i,
                {
                    i = i - 1;
                    proof {
                        let upto = entries@.take(i + 1);
                        assert(upto.drop_last() =~= entries@.take(i as int));
                        assert(upto.last() == entries@[i as int]);
                    }
                    if text_equals(entries[i].0.as_str(), key) {
                        assert(entry_value(entries@.take(i + 1), key@) == Some(entries@[i as int].1));
                        return Some(&entries[i].1);
                    }
                }
                None
            },
            _ => None,
        }
    }
}

/// Whether two strings hold the same characters.
pub fn text_equals(left: &str, right: &str) -> (same: bool)
    ensures
        same == (left@ == right@),
{
    let length: usize = left.unicode_len();
    if right.unicode_len() != length {
        return false;
    }
    let mut i: usize = 0;
    while i < length
        invariant
            i <= length,
            length == left@.len(),
            length == right@.len(),
            forall|j: int| 0 <= j < i ==> left@[j] == right@[j],
        decreases length - i,
    {
        if left.get_char(i) != right.get_char(i) {
            return false;
        }
        i = i + 1;
    }
    assert(left@ =~= right@);
    true
}

} // verus!
