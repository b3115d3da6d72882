use vstd::prelude::*;

verus! {

/// Why the sensor's raw text gave no sample.
#[derive(Clone, Copy, Debug, PartialEq, Eq, Structural)]
pub enum DecodeError {
    /// The text, without trailing whitespace, is not an optionally negative run of digits.
    NotANumber,
    /// The text spells an integer outside the range of `i32`.
    OutOfRange,
}

/// ASCII whitespace: space, tab, line feed, vertical tab, form feed, carriage return.
pub open spec fn is_space(b: u8) -> bool {
    b == 0x20 || (0x09 <= b && b <= 0x0d)
}

pub open spec fn is_digit(b: u8) -> bool {
    0x30 <= b && b <= 0x39
}

/// `s` without its trailing whitespace.
pub open spec fn trim_end(s: Seq<u8>) -> Seq<u8>
    decreases s.len(),
{
    if s.len() > 0 && is_space(s.last()) {
        trim_end(s.drop_last())
    } else {
        s
    }
}

/// `s` is a non-empty run of decimal digits.
pub open spec fn all_digits(s: Seq<u8>) -> bool {
    s.len() > 0 && forall|i: int| 0 <= i < s.len() ==> is_digit(#[trigger] s[i])
}

/// The number that a run of decimal digits spells.
pub open spec fn digits_value(s: Seq<u8>) -> int
    decreases s.len(),
{
    if s.len() == 0 {
        0
    } else {
        10 * digits_value(s.drop_last()) + (s.last() as int - 0x30)
    }
}

/// The integer that the text spells once trailing whitespace is dropped: digits, with an
/// optional leading minus sign; `None` for any other text.
pub open spec fn reading_value(s: Seq<u8>) -> Option<int> {
    let t = trim_end(s);
    if t.len() > 0 && t[0] == 0x2d && all_digits(t.drop_first()) {
        Some(-digits_value(t.drop_first()))
    } else if all_digits(t) {
        Some(digits_value(t))
    } else {
        None
    }
}

/// The sample, in thousandths of a unit, that the sensor's raw text encodes.
pub open spec fn decoded_reading(s: Seq<u8>) -> Result<i32, DecodeError> {
    match reading_value(s) {
        None => Err(DecodeError::NotANumber),
        Some(v) => if i32::MIN <= v && v <= i32::MAX {
            Ok(v as i32)
        } else {
            Err(DecodeError::OutOfRange)
        },
    }
}

/// The magnitudes that a sample can have, `i32::MIN` included.
const MAGNITUDE_LIMIT: u64 = 0x8000_0000;

/// Decodes the sensor's raw text (an integer in thousandths of a unit, as the kernel's thermal
/// zones report it) into a sample.
pub fn parse_reading(raw: &[u8]) -> (r: Result<i32, DecodeError>)
    ensures
        r == decoded_reading(raw@),
{
    let mut end: usize = raw.len();
    assert(raw@.subrange(0, end as int) =~= raw@);
    while end > 0 && (raw[end - 1] == 0x20 || (0x09 <= raw[end - 1] && raw[end - 1] <= 0x0d))
        invariant
            end <= raw@.len(),
            trim_end(raw@.subrange(0, end as int)) == trim_end(raw@),
        decreases end,
    {
        assert(raw@.subrange(0, end as int).drop_last() =~= raw@.subrange(0, end - 1));
        end = end - 1;
    }
    let ghost t = raw@.subrange(0, end as int);
    assert(trim_end(raw@) == t) by {
        if end == 0 {
            assert(t =~= Seq::<u8>::empty());
        }
    }
    if end == 0 {
        return Err(DecodeError::NotANumber);
    }
    let negative = raw[0] == 0x2d;
    let start: usize = if negative { 1 } else { 0 };
    let ghost digits = raw@.subrange(start as int, end as int);
    assert(negative ==> digits =~= t.drop_first());
    assert(negative ==> !all_digits(t) && !is_digit(t[0]));
    assert(!negative ==> digits =~= t);
    if start == end {
        return Err(DecodeError::NotANumber);
    }
    let mut acc: u64 = 0;
    let mut i: usize = start;
    while i < end
        invariant
            start <= i <= end,
            end <= raw@.len(),
            digits == raw@.subrange(start as int, end as int),
            0 < end,
            t == raw@.subrange(0, end as int),
            trim_end(raw@) == t,
            negative == (raw@[0] == 0x2d),
            start == (if negative { 1usize } else { 0usize }),
            negative ==> digits == t.drop_first() && !all_digits(t),
            !negative ==> digits == t,
            forall|k: int| start <= k < i ==> is_digit(#[trigger] raw@[k]),
            digits_value(raw@.subrange(start as int, i as int)) >= 0,
            digits_value(raw@.subrange(start as int, i as int)) <= MAGNITUDE_LIMIT ==> acc
                == digits_value(raw@.subrange(start as int, i as int)),
            digits_value(raw@.subrange(start as int, i as int)) > MAGNITUDE_LIMIT ==> acc
                == MAGNITUDE_LIMIT + 1,
        decreases end - i,
    {
        let b = raw[i];
        if !(0x30 <= b && b <= 0x39) {
            assert(digits[i - start] == b);
            assert(!is_digit(digits[i - start]));
            assert(!all_digits(digits));
            return Err(DecodeError::NotANumber);
        }
        let ghost prefix = raw@.subrange(start as int, i as int);
        assert(raw@.subrange(start as int, i + 1).drop_last() =~= prefix);
        if acc <= MAGNITUDE_LIMIT {
            acc = 10 * acc + (b - 0x30) as u64;
            if acc > MAGNITUDE_LIMIT {
                acc = MAGNITUDE_LIMIT + 1;
            }
        }
        i = i + 1;
    }
    assert(raw@.subrange(start as int, i as int) == digits);
    assert(all_digits(digits));
    if negative {
        if acc > MAGNITUDE_LIMIT {
            Err(DecodeError::OutOfRange)
        } else {
            Ok((0 - acc as i64) as i32)
        }
    } else {
        if acc >= MAGNITUDE_LIMIT {
            Err(DecodeError::OutOfRange)
        } else {
            Ok(acc as i32)
        }
    }
}

} // verus!
