//! Durations written as a whole number and a unit, such as `200ms`.

use vstd::prelude::*;
use vstd::std_specs::iter::IteratorSpec;

verus! {

/// Why a text is not a duration.
#[derive(Debug, Clone, Copy, PartialEq, Eq, Structural)]
pub enum ParseDurationError {
    /// The text does not end in one of the units.
    UnknownUnit,
    /// What stands before the unit is not a whole number, or the duration
    /// does not fit.
    InvalidScalar,
}

impl ParseDurationError {
    /// The text of the error.
    pub fn message(&self) -> (text: String)
        ensures
            text@ == match *self {
                ParseDurationError::UnknownUnit => "unknown unit"@,
                ParseDurationError::InvalidScalar => "invalid duration scalar"@,
            },
    {
        match self {
            ParseDurationError::UnknownUnit => "unknown unit".to_string(),
            ParseDurationError::InvalidScalar => "invalid duration scalar".to_string(),
        }
    }
}

/// A span of time: whole seconds and the nanoseconds of a second beyond
/// them.
#[derive(Debug, Clone, Copy, PartialEq, Eq, Structural)]
pub struct TimeSpan {
    pub secs: u64,
    pub subsec_nanos: u32,
}

impl TimeSpan {
    /// The span in nanoseconds.
    pub open spec fn as_nanos(self) -> nat {
        self.secs as nat * 1_000_000_000 + self.subsec_nanos as nat
    }

    /// The nanoseconds beyond the whole seconds are less than a second.
    pub open spec fn wf(self) -> bool {
        self.subsec_nanos < 1_000_000_000
    }
}

/// The units of a duration.
#[derive(Debug, Clone, Copy, PartialEq, Eq, Structural)]
pub enum Unit {
    Nanos,
    Micros,
    Millis,
    Secs,
    Minutes,
}

/// The nanoseconds in one of `unit`.
pub open spec fn unit_nanos(unit: Unit) -> nat {
    match unit {
        Unit::Nanos => 1,
        Unit::Micros => 1_000,
        Unit::Millis => 1_000_000,
        Unit::Secs => 1_000_000_000,
        Unit::Minutes => 60_000_000_000,
    }
}

/// White space, as Unicode has it.
pub open spec fn is_space(c: char) -> bool {
    let n = c as u32;
    ||| 0x09 <= n <= 0x0d
    ||| n == 0x20
    ||| n == 0x85
    ||| n == 0xa0
    ||| n == 0x1680
    ||| 0x2000 <= n <= 0x200a
    ||| n == 0x2028
    ||| n == 0x2029
    ||| n == 0x202f
    ||| n == 0x205f
    ||| n == 0x3000
}

/// `text` without the white space at its start.
pub open spec fn trim_front(text: Seq<char>) -> Seq<char>
    decreases text.len(),
{
    if text.len() > 0 && is_space(text[0]) {
        trim_front(text.skip(1))
    } else {
        text
    }
}

/// `text` without the white space at its end.
pub open spec fn trim_back(text: Seq<char>) -> Seq<char>
    decreases text.len(),
{
    if text.len() > 0 && is_space(text.last()) {
        trim_back(text.drop_last())
    } else {
        text
    }
}

/// `text` without the white space at its start and at its end.
pub open spec fn trimmed(text: Seq<char>) -> Seq<char> {
    trim_back(trim_front(text))
}

/// `text` ends with `suffix`.
pub open spec fn ends_with(text: Seq<char>, suffix: Seq<char>) -> bool {
    text.len() >= suffix.len() && text.skip(text.len() - suffix.len()) == suffix
}

/// The unit that `text` ends in and the length of its name. The names are
/// tried in the order `ns`, `us`, `mcs`, `ms`, `s`, `min`.
pub open spec fn unit_of(text: Seq<char>) -> Option<(Unit, nat)> {
    if ends_with(text, seq!['n', 's']) {
        Some((Unit::Nanos, 2nat))
    } else if ends_with(text, seq!['u', 's']) {
        Some((Unit::Micros, 2nat))
    } else if ends_with(text, seq!['m', 'c', 's']) {
        Some((Unit::Micros, 3nat))
    } else if ends_with(text, seq!['m', 's']) {
        Some((Unit::Millis, 2nat))
    } else if ends_with(text, seq!['s']) {
        Some((Unit::Secs, 1nat))
    } else if ends_with(text, seq!['m', 'i', 'n']) {
        Some((Unit::Minutes, 3nat))
    } else {
        None
    }
}

/// `c` is a decimal digit.
pub open spec fn is_digit(c: char) -> bool {
    0x30 <= c as u32 <= 0x39
}

/// The number that the decimal digits `digits` write.
pub open spec fn digits_value(digits: Seq<char>) -> nat
    decreases digits.len(),
{
    if digits.len() == 0 {
        0
    } else {
        digits_value(digits.drop_last()) * 10 + (digits.last() as u32 - 0x30) as nat
    }
}

/// `digits` holds decimal digits only.
pub open spec fn all_digits(digits: Seq<char>) -> bool {
    forall|i: int| 0 <= i < digits.len() ==> is_digit(#[trigger] digits[i])
}

/// `text` without a `+` at its start.
pub open spec fn unsigned(text: Seq<char>) -> Seq<char> {
    if text.len() > 0 && text[0] == '+' {
        text.skip(1)
    } else {
        text
    }
}

/// The whole number that `text` writes: decimal digits, at least one,
/// after at most one `+`, with a value that fits 64 bits.
pub open spec fn scalar_of(text: Seq<char>) -> Option<u64> {
    let digits = unsigned(text);
    if digits.len() > 0 && all_digits(digits) && digits_value(digits) <= u64::MAX {
        Some(digits_value(digits) as u64)
    } else {
        None
    }
}

/// The duration that `input` writes, in nanoseconds: white space at both
/// ends aside, a whole number and then a unit. A number of minutes whose
/// seconds do not fit 64 bits is no duration.
pub open spec fn duration_of(input: Seq<char>) -> Result<nat, ParseDurationError> {
    let text = trimmed(input);
    match unit_of(text) {
        None => Err(ParseDurationError::UnknownUnit),
        Some((unit, name)) => match scalar_of(text.take(text.len() - name)) {
            None => Err(ParseDurationError::InvalidScalar),
            Some(scalar) => if unit == Unit::Minutes && scalar * 60 > u64::MAX {
                Err(ParseDurationError::InvalidScalar)
            } else {
                Ok(scalar as nat * unit_nanos(unit))
            },
        },
    }
}

/// Tells white space.
fn space(c: char) -> (r: bool)
    ensures
        r == is_space(c),
{
    let n: u32 = c as u32;
    (0x09 <= n && n <= 0x0d) || n == 0x20 || n == 0x85 || n == 0xa0 || n == 0x1680 || (0x2000 <= n
        && n <= 0x200a) || n == 0x2028 || n == 0x2029 || n == 0x202f || n == 0x205f || n == 0x3000
}

/// The characters of `input`.
fn chars_of(input: &str) -> (chars: Vec<char>)
    ensures
        chars@ == input@,
{
    broadcast use vstd::string::group_string_axioms;

    let mut chars: Vec<char> = Vec::new();
    let mut rest = input.chars();
    loop
        invariant
            chars@.len() <= input@.len(),
            chars@ == input@.take(chars@.len() as int),
            rest.remaining() == input@.skip(chars@.len() as int),
        decreases input@.len() - chars@.len(),
    {
        match rest.next() {
            Some(c) => {
                chars.push(c);
                assert(chars@ =~= input@.take(chars@.len() as int));
                assert(rest.remaining() =~= input@.skip(chars@.len() as int));
            },
            None => {
                assert(chars@ =~= input@);
                return chars;
            },
        }
    }
}

/// Whether `text[..end]` ends with `suffix`.
fn has_suffix(text: &Vec<char>, start: usize, end: usize, suffix: &[char]) -> (r: bool)
    requires
        start <= end <= text@.len(),
    ensures
        r == ends_with(text@.subrange(start as int, end as int), suffix@),
{
    let ghost part = text@.subrange(start as int, end as int);
    if end - start < suffix.len() {
        return false;
    }
    let from = end - suffix.len();
    let mut i: usize = 0;
    while i < suffix.len()
        invariant
            i <= suffix@.len(),
            from + suffix@.len() == end,
            start <= from,
            end <= text@.len(),
            part == text@.subrange(start as int, end as int),
            forall|k: int| 0 <= k < i ==> text@[from + k] == suffix@[k],
        decreases suffix@.len() - i,
    {
        if text[from + i] != suffix[i] {
            assert(part.skip(part.len() - suffix@.len())[i as int] == text@[from + i]);
            return false;
        }
        i += 1;
    }
    assert(part.skip(part.len() - suffix@.len()) =~= suffix@);
    true
}

/// The value of a prefix of digits is no more than that of the whole.
proof fn lemma_digits_monotone(digits: Seq<char>, m: int)
    requires
        0 <= m <= digits.len(),
    ensures
        digits_value(digits.take(m)) <= digits_value(digits),
    decreases digits.len() - m,
{
    if m < digits.len() {
        lemma_digits_monotone(digits, m + 1);
        assert(digits.take(m + 1).drop_last() =~= digits.take(m));
    } else {
        assert(digits.take(m) =~= digits);
    }
}

/// Reads the whole number in `text[start..end]`.
fn scalar(text: &Vec<char>, start: usize, end: usize) -> (r: Option<u64>)
    requires
        start <= end <= text@.len(),
    ensures
        r == scalar_of(text@.subrange(start as int, end as int)),
{
    let ghost part = text@.subrange(start as int, end as int);
    let from = if start < end && text[start] == '+' {
        start + 1
    } else {
        start
    };
    let ghost digits = text@.subrange(from as int, end as int);
    proof {
        if from > start {
            assert(part[0] == '+');
            assert(part.skip(1) =~= digits);
        } else {
            assert(part =~= digits);
            if part.len() > 0 {
                assert(part[0] == text@[start as int]);
            }
        }
    }
    if from == end {
        return None;
    }
    let mut value: u64 = 0;
    let mut i: usize = from;
    proof {
        assert(digits.take(0) =~= Seq::<char>::empty());
    }
    while i < end
        invariant
            from <= i <= end,
            start <= end <= text@.len(),
            from < end,
            part == text@.subrange(start as int, end as int),
            digits == text@.subrange(from as int, end as int),
            digits == unsigned(part),
            forall|k: int| 0 <= k < i - from ==> is_digit(#[trigger] digits[k]),
            value == digits_value(digits.take(i - from)),
        decreases end - i,
    {
        let c = text[i];
        let n: u32 = c as u32;
        assert(digits[i - from] == c);
        if n < 0x30 || n > 0x39 {
            assert(!is_digit(digits[i - from]));
            return None;
        }
        let digit: u64 = (n - 0x30) as u64;
        proof {
            assert(digits.take(i - from + 1).drop_last() =~= digits.take(i - from));
            assert(digits.take(i - from + 1).last() == c);
            lemma_digits_monotone(digits, i - from + 1);
        }
        let tens = match value.checked_mul(10) {
            Some(tens) => tens,
            None => {
                return None;
            },
        };
        value = match tens.checked_add(digit) {
            Some(sum) => sum,
            None => {
                return None;
            },
        };
        i += 1;
    }
    proof {
        assert(digits.take(end - from) =~= digits);
    }
    Some(value)
}

/// Finds the part of `text` that is left without the white space at
/// its ends.
fn trim_bounds(text: &Vec<char>) -> (bounds: (usize, usize))
    ensures
        bounds.0 <= bounds.1 <= text@.len(),
        text@.subrange(bounds.0 as int, bounds.1 as int) == trimmed(text@),
{
    let mut start: usize = 0;
    assert(text@.skip(0) =~= text@);
    while start < text.len() && space(text[start])
        invariant
            start <= text@.len(),
            trim_front(text@) == trim_front(text@.skip(start as int)),
        decreases text@.len() - start,
    {
        assert(text@.skip(start as int).skip(1) =~= text@.skip(start + 1));
        start += 1;
    }
    let ghost front = text@.skip(start as int);
    assert(trim_front(text@) == front);
    let mut end: usize = text.len();
    proof {
        assert(text@.subrange(start as int, end as int) =~= front);
    }
    while end > start && space(text[end - 1])
        invariant
            start <= end <= text@.len(),
            trim_back(front) == trim_back(text@.subrange(start as int, end as int)),
        decreases end,
    {
        assert(text@.subrange(start as int, end as int).drop_last() =~= text@.subrange(
            start as int,
            end - 1,
        ));
        end -= 1;
    }
    (start, end)
}

/// Tells the unit that `text[start..end]` ends in.
fn unit(text: &Vec<char>, start: usize, end: usize) -> (r: Option<(Unit, usize)>)
    requires
        start <= end <= text@.len(),
    ensures
        match r {
            Some((unit, name)) => unit_of(text@.subrange(start as int, end as int)) == Some(
                (unit, name as nat),
            ) && name <= end - start,
            None => unit_of(text@.subrange(start as int, end as int)) is None,
        },
{
    let ns: [char; 2] = ['n', 's'];
    let us: [char; 2] = ['u', 's'];
    let mcs: [char; 3] = ['m', 'c', 's'];
    let ms: [char; 2] = ['m', 's'];
    let s: [char; 1] = ['s'];
    let min: [char; 3] = ['m', 'i', 'n'];
    proof {
        assert(ns@ =~= seq!['n', 's']);
        assert(us@ =~= seq!['u', 's']);
        assert(mcs@ =~= seq!['m', 'c', 's']);
        assert(ms@ =~= seq!['m', 's']);
        assert(s@ =~= seq!['s']);
        assert(min@ =~= seq!['m', 'i', 'n']);
    }
    if has_suffix(text, start, end, ns.as_slice()) {
        Some((Unit::Nanos, 2))
    } else if has_suffix(text, start, end, us.as_slice()) {
        Some((Unit::Micros, 2))
    } else if has_suffix(text, start, end, mcs.as_slice()) {
        Some((Unit::Micros, 3))
    } else if has_suffix(text, start, end, ms.as_slice()) {
        Some((Unit::Millis, 2))
    } else if has_suffix(text, start, end, s.as_slice()) {
        Some((Unit::Secs, 1))
    } else if has_suffix(text, start, end, min.as_slice()) {
        Some((Unit::Minutes, 3))
    } else {
        None
    }
}

/// The span of `count` of `unit`, where it fits.
fn span_of(unit: Unit, count: u64) -> (r: Option<TimeSpan>)
    ensures
        match r {
            Some(span) => span.wf() && span.as_nanos() == count as nat * unit_nanos(unit),
            None => unit == Unit::Minutes && count * 60 > u64::MAX,
        },
{
    match unit {
        Unit::Nanos => Some(
            TimeSpan {
                secs: count / 1_000_000_000,
                subsec_nanos: (count % 1_000_000_000) as u32,
            },
        ),
        Unit::Micros => Some(
            TimeSpan {
                secs: count / 1_000_000,
                subsec_nanos: ((count % 1_000_000) as u32) * 1_000,
            },
        ),
        Unit::Millis => Some(
            TimeSpan { secs: count / 1_000, subsec_nanos: ((count % 1_000) as u32) * 1_000_000 },
        ),
        Unit::Secs => Some(TimeSpan { secs: count, subsec_nanos: 0 }),
        Unit::Minutes => match count.checked_mul(60) {
            Some(secs) => Some(TimeSpan { secs, subsec_nanos: 0 }),
            None => None,
        },
    }
}

/// Reads a duration: a whole number and one of the units `ns`, `us`,
/// `mcs`, `ms`, `s` and `min`, with white space allowed around the two.
pub fn parse_duration(input: &str) -> (r: Result<TimeSpan, ParseDurationError>)
    ensures
        match r {
            Ok(span) => span.wf() && duration_of(input@) == Ok::<nat, ParseDurationError>(
                span.as_nanos(),
            ),
            Err(error) => duration_of(input@) == Err::<nat, ParseDurationError>(error),
        },
{
    let text = chars_of(input);
    let (start, end) = trim_bounds(&text);
    let ghost body = text@.subrange(start as int, end as int);
    let (unit, name) = match unit(&text, start, end) {
        Some(found) => found,
        None => {
            return Err(ParseDurationError::UnknownUnit);
        },
    };
    proof {
        assert(body.take(body.len() - name) =~= text@.subrange(start as int, end - name));
    }
    let count = match scalar(&text, start, end - name) {
        Some(count) => count,
        None => {
            return Err(ParseDurationError::InvalidScalar);
        },
    };
    match span_of(unit, count) {
        Some(span) => Ok(span),
        None => Err(ParseDurationError::InvalidScalar),
    }
}

} // verus!
