//! Reading a battery percentage out of recognized text.
//!
//! A line qualifies when it holds a percent sign. The number is read from
//! the text before the first percent sign, without that text's first
//! character, which recognition tends to get wrong; of what is left only
//! the decimal digits count. The digits are read as one whole number, and
//! the number is a reading when it is at most 100.

use vstd::prelude::*;
use vstd::string::*;

verus! {

/// The character that marks a percentage.
pub const MARKER: char = '%';

/// The largest percentage that is a reading.
pub const MAX_PERCENT: u8 = 100;

/// A battery level in percent, between 0 and 100.
#[derive(Clone, Copy, Debug, PartialEq, Eq)]
pub struct BatteryReading {
    percent: u8,
}

impl View for BatteryReading {
    type V = nat;

    closed spec fn view(&self) -> nat {
        self.percent as nat
    }
}

impl BatteryReading {
    #[verifier::type_invariant]
    spec fn in_range(self) -> bool {
        self.percent <= MAX_PERCENT
    }

    /// The reading of `percent` percent, if that is at most 100.
    pub fn new(percent: u8) -> (reading: Option<Self>)
        ensures
            reading is Some <==> percent <= MAX_PERCENT,
            reading is Some ==> reading->0@ == percent,
    {
        if percent <= MAX_PERCENT {
            Some(BatteryReading { percent })
        } else {
            None
        }
    }

    /// The level in percent.
    pub fn percent(&self) -> (percent: u8)
        ensures
            percent == self@,
            percent <= MAX_PERCENT,
    {
        proof {
            use_type_invariant(self);
        }
        self.percent
    }
}

/// Why a line gives no reading.
#[derive(Clone, Copy, Debug, PartialEq, Eq)]
pub enum ExtractError {
    /// The line holds no percent sign.
    NoMarker,
    /// No decimal digit is left to read a number from.
    NoDigits,
    /// The number is larger than 100.
    OutOfRange,
}

/// Whether `c` is one of the ten decimal digits.
pub open spec fn is_digit(c: char) -> bool {
    '0' <= c <= '9'
}

/// The value of a decimal digit.
pub open spec fn digit_value(c: char) -> nat {
    (c as int - '0' as int) as nat
}

/// The decimal digits of `text`, in order.
pub open spec fn digits_of(text: Seq<char>) -> Seq<char>
    decreases text.len(),
{
    if text.len() == 0 {
        Seq::empty()
    } else if is_digit(text.last()) {
        digits_of(text.drop_last()).push(text.last())
    } else {
        digits_of(text.drop_last())
    }
}

/// The number that a run of decimal digits writes; zero for no digits.
pub open spec fn decimal_value(digits: Seq<char>) -> nat
    decreases digits.len(),
{
    if digits.len() == 0 {
        0
    } else {
        decimal_value(digits.drop_last()) * 10 + digit_value(digits.last())
    }
}

/// Whether the first percent sign of `line` stands at index `at`.
pub open spec fn is_first_marker(line: Seq<char>, at: int) -> bool {
    &&& 0 <= at < line.len()
    &&& line[at] == MARKER
    &&& forall|j: int| 0 <= j < at ==> line[j] != MARKER
}

/// Whether `line` holds a percent sign.
pub open spec fn has_marker(line: Seq<char>) -> bool {
    exists|at: int| is_first_marker(line, at)
}

/// The text that the number is read from: what stands before the first
/// percent sign of `line`, less its first character.
pub open spec fn candidate(line: Seq<char>) -> Seq<char> {
    let at = choose|at: int| is_first_marker(line, at);
    if at >= 1 {
        line.subrange(1, at)
    } else {
        Seq::empty()
    }
}

/// The reading that `line` gives, or why it gives none.
pub open spec fn extraction(line: Seq<char>) -> Result<nat, ExtractError> {
    let digits = digits_of(candidate(line));
    if !has_marker(line) {
        Err(ExtractError::NoMarker)
    } else if digits.len() == 0 {
        Err(ExtractError::NoDigits)
    } else if decimal_value(digits) > MAX_PERCENT {
        Err(ExtractError::OutOfRange)
    } else {
        Ok(decimal_value(digits))
    }
}

/// The level of a reading, and the error as it is.
pub open spec fn outcome_view(outcome: Result<BatteryReading, ExtractError>) -> Result<
    nat,
    ExtractError,
> {
    match outcome {
        Ok(reading) => Ok(reading@),
        Err(error) => Err(error),
    }
}

/// The reading that a recognized line gives, if it gives one; an absent
/// line gives none.
pub open spec fn line_reading(line: Option<String>) -> Option<nat> {
    match line {
        Some(text) => match extraction(text@) {
            Ok(percent) => Some(percent),
            Err(_) => None,
        },
        None => None,
    }
}

/// The readings of the lines that give one, in the order of the lines.
pub open spec fn readings_of(lines: Seq<Option<String>>) -> Seq<nat>
    decreases lines.len(),
{
    if lines.len() == 0 {
        Seq::empty()
    } else {
        match line_reading(lines.last()) {
            Some(percent) => readings_of(lines.drop_last()).push(percent),
            None => readings_of(lines.drop_last()),
        }
    }
}

/// The levels of a list of readings.
pub open spec fn levels(readings: Seq<BatteryReading>) -> Seq<nat> {
    Seq::new(readings.len(), |i: int| readings[i]@)
}

/// A line has at most one first percent sign.
proof fn lemma_first_marker_unique(line: Seq<char>, at: int)
    requires
        is_first_marker(line, at),
    ensures
        has_marker(line),
        (choose|other: int| is_first_marker(line, other)) == at,
{
    let other = choose|other: int| is_first_marker(line, other);
    assert(is_first_marker(line, other));
    if other < at {
        assert(line[other] != MARKER);
    } else if at < other {
        assert(line[at] != MARKER);
    }
}

/// The characters of `text`, in order.
pub fn chars_of(text: &str) -> (chars: Vec<char>)
    ensures
        chars@ == text@,
{
    let mut chars: Vec<char> = Vec::new();
    for c in it: text.chars()
        invariant
            it.seq() == text@,
            chars@ == it.seq().take(it.index()),
    {
        chars.push(c);
    }
    chars
}

/// The index of the first percent sign among `chars`, if there is one.
pub fn find_marker(chars: &Vec<char>) -> (found: Option<usize>)
    ensures
        found is Some <==> has_marker(chars@),
        found is Some ==> is_first_marker(chars@, found->0 as int),
{
    let mut at: usize = 0;
    while at < chars.len()
        invariant
            at <= chars.len(),
            forall|j: int| 0 <= j < at ==> chars@[j] != MARKER,
        decreases chars.len() - at,
    {
        if chars[at] == MARKER {
            proof {
                lemma_first_marker_unique(chars@, at as int);
            }
            return Some(at);
        }
        at += 1;
    }
    None
}

/// Reads a battery level out of the characters of one line.
pub fn extract_from_chars(chars: &Vec<char>) -> (outcome: Result<BatteryReading, ExtractError>)
    ensures
        outcome_view(outcome) == extraction(chars@),
{
    let at: usize = match find_marker(chars) {
        Some(at) => at,
        None => {
            return Err(ExtractError::NoMarker);
        },
    };
    proof {
        lemma_first_marker_unique(chars@, at as int);
    }
    if at < 1 {
        return Err(ExtractError::NoDigits);
    }
    // `value` is the number read so far, held at 101 once it is above 100.
    let mut value: u32 = 0;
    let mut any_digit = false;
    let mut next: usize = 1;
    while next < at
        invariant
            1 <= next <= at < chars.len(),
            any_digit == (digits_of(chars@.subrange(1, next as int)).len() > 0),
            value <= 101,
            value <= 100 ==> value == decimal_value(digits_of(chars@.subrange(1, next as int))),
            value == 101 ==> decimal_value(digits_of(chars@.subrange(1, next as int))) > 100,
        decreases at - next,
    {
        let c = chars[next];
        proof {
            let longer = chars@.subrange(1, next + 1);
            assert(longer.drop_last() =~= chars@.subrange(1, next as int));
            assert(longer.last() == c);
            let kept = digits_of(longer.drop_last());
            if is_digit(c) {
                assert(kept.push(c).drop_last() =~= kept);
            }
        }
        if c >= '0' && c <= '9' {
            let digit: u32 = c as u32 - '0' as u32;
            any_digit = true;
            if value <= 100 {
                value = value * 10 + digit;
                if value > 100 {
                    value = 101;
                }
            }
        }
        next += 1;
    }
    if !any_digit {
        Err(ExtractError::NoDigits)
    } else if value > 100 {
        Err(ExtractError::OutOfRange)
    } else {
        Ok(BatteryReading { percent: value as u8 })
    }
}

/// Reads a battery level out of one recognized line: `Ok` exactly when the
/// line holds a percent sign and the digits before it, the first character
/// of the line set aside, write a number of at most 100.
pub fn extract_reading(line: &str) -> (outcome: Result<BatteryReading, ExtractError>)
    ensures
        outcome_view(outcome) == extraction(line@),
{
    let chars = chars_of(line);
    extract_from_chars(&chars)
}

/// The readings of all lines that give one, in the order of the lines.
/// Lines are read one by one: a line that gives none has no effect on
/// the others, and equal readings are all kept.
pub fn extract_readings(lines: &Vec<Option<String>>) -> (readings: Vec<BatteryReading>)
    ensures
        levels(readings@) == readings_of(lines@),
{
    let mut readings: Vec<BatteryReading> = Vec::new();
    let mut done: usize = 0;
    while done < lines.len()
        invariant
            done <= lines.len(),
            levels(readings@) == readings_of(lines@.take(done as int)),
        decreases lines.len() - done,
    {
        proof {
            let longer = lines@.take(done + 1);
            assert(longer.drop_last() =~= lines@.take(done as int));
            assert(longer.last() == lines@[done as int]);
        }
        let ghost before = readings@;
        match &lines[done] {
            Some(text) => match extract_reading(text.as_str()) {
                Ok(reading) => {
                    readings.push(reading);
                    assert(levels(readings@) =~= levels(before).push(reading@));
                },
                Err(_) => {},
            },
            None => {},
        }
        done += 1;
    }
    assert(lines@.take(done as int) =~= lines@);
    readings
}

} // verus!
