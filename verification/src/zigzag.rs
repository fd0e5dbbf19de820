//! The six-state automaton behind the ZigZag sequence.
//!
//! A position is read as a numeral in base three. Its leading digit picks the
//! starting state and each further digit, most significant first, picks one of
//! the three successors of the current state.

use vstd::prelude::*;

verus! {

/// A state of the automaton.
#[derive(Debug, Clone, Copy, PartialEq, Eq, Structural)]
pub enum ZigZagSequenceItem {
    A,
    B,
    C,
    D,
    E,
    F,
}

impl ZigZagSequenceItem {
    /// The successor of a state under `digit`, which is 0, 1 or 2.
    pub open spec fn successor(self, digit: int) -> ZigZagSequenceItem {
        match self {
            ZigZagSequenceItem::A => if digit == 0 {
                ZigZagSequenceItem::A
            } else if digit == 1 {
                ZigZagSequenceItem::C
            } else {
                ZigZagSequenceItem::B
            },
            ZigZagSequenceItem::B => if digit == 1 {
                ZigZagSequenceItem::C
            } else {
                ZigZagSequenceItem::B
            },
            ZigZagSequenceItem::C => if digit == 0 {
                ZigZagSequenceItem::E
            } else if digit == 1 {
                ZigZagSequenceItem::D
            } else {
                ZigZagSequenceItem::F
            },
            ZigZagSequenceItem::D => ZigZagSequenceItem::D,
            ZigZagSequenceItem::E => if digit == 0 {
                ZigZagSequenceItem::E
            } else {
                ZigZagSequenceItem::D
            },
            ZigZagSequenceItem::F => if digit == 2 {
                ZigZagSequenceItem::F
            } else {
                ZigZagSequenceItem::D
            },
        }
    }

    /// The sequence value that a state stands for.
    pub open spec fn output(self) -> int {
        match self {
            ZigZagSequenceItem::A => 1,
            ZigZagSequenceItem::B => 0,
            ZigZagSequenceItem::C => 1,
            ZigZagSequenceItem::D => 0,
            ZigZagSequenceItem::E => 2,
            ZigZagSequenceItem::F => 2,
        }
    }

    /// The three successors of a state, in the order of the digits 0, 1, 2.
    pub fn expand(self) -> (successors: [ZigZagSequenceItem; 3])
        ensures
            forall|digit: int|
                0 <= digit < 3 ==> #[trigger] successors[digit] == self.successor(digit),
    {
        match self {
            ZigZagSequenceItem::A => [
                ZigZagSequenceItem::A,
                ZigZagSequenceItem::C,
                ZigZagSequenceItem::B,
            ],
            ZigZagSequenceItem::B => [
                ZigZagSequenceItem::B,
                ZigZagSequenceItem::C,
                ZigZagSequenceItem::B,
            ],
            ZigZagSequenceItem::C => [
                ZigZagSequenceItem::E,
                ZigZagSequenceItem::D,
                ZigZagSequenceItem::F,
            ],
            ZigZagSequenceItem::D => [
                ZigZagSequenceItem::D,
                ZigZagSequenceItem::D,
                ZigZagSequenceItem::D,
            ],
            ZigZagSequenceItem::E => [
                ZigZagSequenceItem::E,
                ZigZagSequenceItem::D,
                ZigZagSequenceItem::D,
            ],
            ZigZagSequenceItem::F => [
                ZigZagSequenceItem::D,
                ZigZagSequenceItem::D,
                ZigZagSequenceItem::F,
            ],
        }
    }

    /// The sequence value of a state: 0, 1 or 2.
    pub fn value(self) -> (value: i128)
        ensures
            value == self.output(),
            0 <= value <= 2,
    {
        match self {
            ZigZagSequenceItem::A => 1,
            ZigZagSequenceItem::B => 0,
            ZigZagSequenceItem::C => 1,
            ZigZagSequenceItem::D => 0,
            ZigZagSequenceItem::E => 2,
            ZigZagSequenceItem::F => 2,
        }
    }
}

/// The state that the automaton reaches at `position`.
pub open spec fn state_at(position: nat) -> ZigZagSequenceItem
    decreases position,
{
    if position == 0 {
        ZigZagSequenceItem::A
    } else if position == 1 {
        ZigZagSequenceItem::C
    } else if position == 2 {
        ZigZagSequenceItem::B
    } else {
        state_at(position / 3).successor((position % 3) as int)
    }
}

/// Runs the automaton on the base-three digits of `position`.
pub fn get_zigzag_position(position: usize) -> (state: ZigZagSequenceItem)
    ensures
        state == state_at(position as nat),
    decreases position,
{
    if position == 0 {
        return ZigZagSequenceItem::A;
    }
    if position == 1 {
        return ZigZagSequenceItem::C;
    }
    if position == 2 {
        return ZigZagSequenceItem::B;
    }
    let expand_position: usize = position % 3;
    let previous_position: usize = position / 3;
    get_zigzag_position(previous_position).expand()[expand_position]
}

/// The base-three digits of `position`, most significant first. Zero has the
/// single digit 0.
pub open spec fn ternary_digits(position: nat) -> Seq<int>
    decreases position,
{
    if position < 3 {
        seq![position as int]
    } else {
        ternary_digits(position / 3).push((position % 3) as int)
    }
}

/// The state in which the automaton starts on a numeral with this leading
/// digit.
pub open spec fn start_state(digit: int) -> ZigZagSequenceItem {
    if digit == 0 {
        ZigZagSequenceItem::A
    } else if digit == 1 {
        ZigZagSequenceItem::C
    } else {
        ZigZagSequenceItem::B
    }
}

/// The state after reading `digits` from left to right: the first digit picks
/// the start state, each later one a successor.
pub open spec fn scan(digits: Seq<int>) -> ZigZagSequenceItem
    decreases digits.len(),
{
    if digits.len() <= 1 {
        start_state(digits[0])
    } else {
        scan(digits.drop_last()).successor(digits.last())
    }
}

/// The three positions of one digit: 0 is in state A with value 1, 1 in state
/// C with value 1, and 2 in state B with value 0.
pub proof fn lemma_single_digit_positions()
    ensures
        state_at(0) == ZigZagSequenceItem::A && state_at(0).output() == 1,
        state_at(1) == ZigZagSequenceItem::C && state_at(1).output() == 1,
        state_at(2) == ZigZagSequenceItem::B && state_at(2).output() == 0,
{
}

/// Reading the digits of a position from the most significant one down gives
/// the same state as stripping them from the least significant one up.
pub proof fn lemma_state_is_digit_scan(position: nat)
    ensures
        ternary_digits(position).len() >= 1,
        state_at(position) == scan(ternary_digits(position)),
    decreases position,
{
    if position >= 3 {
        lemma_state_is_digit_scan(position / 3);
        let shorter = ternary_digits(position / 3);
        let digit = (position % 3) as int;
        assert(shorter.push(digit).drop_last() =~= shorter);
        assert(shorter.push(digit).last() == digit);
    }
}

} // verus!
