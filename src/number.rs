use vstd::prelude::*;

use crate::text::chars_of;

verus! {

/// Why a text is not a 32-bit signed integer.
#[derive(Clone, Copy, Debug, PartialEq, Eq, Structural)]
pub enum ParseFailure {
    Empty,
    InvalidDigit,
    PosOverflow,
    NegOverflow,
}

/// Whether `c` is an ASCII decimal digit.
pub open spec fn is_digit(c: char) -> bool {
    '0' <= c && c <= '9'
}

/// The value of the decimal digit `c`.
pub open spec fn digit_value(c: char) -> int {
    (c as u32) as int - ('0' as u32) as int
}

/// Reads the digits `ds` after the value `acc` read so far, adding each digit
/// (subtracting it where `neg`), and fails at the first character that is not
/// a digit or the first step that leaves the range of `i32`.
pub open spec fn scan_digits(ds: Seq<char>, acc: int, neg: bool) -> Result<int, ParseFailure>
    decreases ds.len(),
{
    if ds.len() == 0 {
        Ok(acc)
    } else if !is_digit(ds[0]) {
        Err(ParseFailure::InvalidDigit)
    } else {
        let next = if neg {
            acc * 10 - digit_value(ds[0])
        } else {
            acc * 10 + digit_value(ds[0])
        };
        if next > i32::MAX {
            Err(ParseFailure::PosOverflow)
        } else if next < i32::MIN {
            Err(ParseFailure::NegOverflow)
        } else {
            scan_digits(ds.skip(1), next, neg)
        }
    }
}

/// The integer that `s` writes in decimal, with an optional sign.
pub open spec fn parse_i32_spec(s: Seq<char>) -> Result<int, ParseFailure> {
    if s.len() == 0 {
        Err(ParseFailure::Empty)
    } else if (s[0] == '+' || s[0] == '-') && s.len() == 1 {
        Err(ParseFailure::InvalidDigit)
    } else if s[0] == '+' {
        scan_digits(s.skip(1), 0, false)
    } else if s[0] == '-' {
        scan_digits(s.skip(1), 0, true)
    } else {
        scan_digits(s, 0, false)
    }
}

/// The message that reports each failure.
pub open spec fn failure_text(f: ParseFailure) -> Seq<char> {
    match f {
        ParseFailure::Empty => "cannot parse integer from empty string"@,
        ParseFailure::InvalidDigit => "invalid digit found in string"@,
        ParseFailure::PosOverflow => "number too large to fit in target type"@,
        ParseFailure::NegOverflow => "number too small to fit in target type"@,
    }
}

impl ParseFailure {
    /// The message that reports this failure.
    pub fn describe(&self) -> (r: String)
        ensures
            r@ == failure_text(*self),
    {
        match self {
            ParseFailure::Empty => String::from_str("cannot parse integer from empty string"),
            ParseFailure::InvalidDigit => String::from_str("invalid digit found in string"),
            ParseFailure::PosOverflow => String::from_str("number too large to fit in target type"),
            ParseFailure::NegOverflow => String::from_str("number too small to fit in target type"),
        }
    }
}

/// Reads a 32-bit signed integer written in decimal, with an optional sign.
pub fn parse_i32(s: &str) -> (r: Result<i32, ParseFailure>)
    ensures
        match (r, parse_i32_spec(s@)) {
            (Ok(v), Ok(w)) => v as int == w,
            (Err(e), Err(f)) => e == f,
            _ => false,
        },
{
    let cs = chars_of(s);
    let n = cs.len();
    if n == 0 {
        return Err(ParseFailure::Empty);
    }
    if (cs[0] == '+' || cs[0] == '-') && n == 1 {
        return Err(ParseFailure::InvalidDigit);
    }
    let neg = cs[0] == '-';
    let mut i: usize = if cs[0] == '+' || cs[0] == '-' {
        1
    } else {
        0
    };
    let ghost ds = cs@.skip(i as int);
    let mut acc: i32 = 0;
    proof {
        assert(cs@.skip(i as int) =~= ds);
        if i == 0 {
            assert(cs@.skip(0) =~= cs@);
        }
    }
    while i < n
        invariant
            n == cs@.len(),
            cs@ == s@,
            i <= n,
            parse_i32_spec(s@) == scan_digits(ds, 0, neg),
            scan_digits(cs@.skip(i as int), acc as int, neg) == scan_digits(ds, 0, neg),
        decreases n - i,
    {
        let c = cs[i];
        assert(cs@.skip(i as int)[0] == c);
        assert(cs@.skip(i as int).skip(1) =~= cs@.skip(i + 1));
        if !('0' <= c && c <= '9') {
            return Err(ParseFailure::InvalidDigit);
        }
        let d = (c as u32 - '0' as u32) as i64;
        let next: i64 = if neg {
            acc as i64 * 10 - d
        } else {
            acc as i64 * 10 + d
        };
        if next > i32::MAX as i64 {
            return Err(ParseFailure::PosOverflow);
        }
        if next < i32::MIN as i64 {
            return Err(ParseFailure::NegOverflow);
        }
        acc = next as i32;
        i = i + 1;
    }
    assert(cs@.skip(n as int) =~= Seq::<char>::empty());
    Ok(acc)
}

} // verus!
