//! Reading integers from text.
use vstd::prelude::*;
use vstd::string::*;

verus! {

/// Why a text is not an integer of the wanted range.
#[derive(Debug, Clone, Copy, PartialEq, Eq, Structural)]
pub enum IntegerFault {
    Empty,
    InvalidDigit,
    PosOverflow,
    NegOverflow,
}

impl IntegerFault {
    /// The message for a fault.
    pub open spec fn text_view(self) -> Seq<char> {
        match self {
            IntegerFault::Empty => "cannot parse integer from empty string"@,
            IntegerFault::InvalidDigit => "invalid digit found in string"@,
            IntegerFault::PosOverflow => "number too large to fit in target type"@,
            IntegerFault::NegOverflow => "number too small to fit in target type"@,
        }
    }

    /// The message for a fault.
    pub fn text(&self) -> (r: &'static str)
        ensures
            r@ == self.text_view(),
    {
        match self {
            IntegerFault::Empty => "cannot parse integer from empty string",
            IntegerFault::InvalidDigit => "invalid digit found in string",
            IntegerFault::PosOverflow => "number too large to fit in target type",
            IntegerFault::NegOverflow => "number too small to fit in target type",
        }
    }
}

/// Whether a character is a decimal digit.
pub open spec fn is_digit(c: char) -> bool {
    '0' <= c <= '9'
}

/// The number that a decimal digit stands for.
pub open spec fn digit_value(c: char) -> int {
    c as int - '0' as int
}

/// Reads the digits from position `i` on, behind digits of value `acc`. The first character that is
/// not a digit or that takes the value out of the range decides.
pub open spec fn scan_digits(
    s: Seq<char>,
    i: int,
    acc: int,
    negative: bool,
    lo: int,
    hi: int,
) -> Result<int, IntegerFault>
    decreases s.len() - i,
{
    if i >= s.len() {
        Ok(acc)
    } else if !is_digit(s[i]) {
        Err(IntegerFault::InvalidDigit)
    } else {
        let next = if negative {
            acc * 10 - digit_value(s[i])
        } else {
            acc * 10 + digit_value(s[i])
        };
        if next > hi {
            Err(IntegerFault::PosOverflow)
        } else if next < lo {
            Err(IntegerFault::NegOverflow)
        } else {
            scan_digits(s, i + 1, next, negative, lo, hi)
        }
    }
}

/// The integer between `lo` and `hi` that a text stands for: digits, behind a sign or none. A minus
/// sign is accepted only where the range holds negative numbers.
pub open spec fn integer_of(s: Seq<char>, lo: int, hi: int) -> Result<int, IntegerFault> {
    if s.len() == 0 {
        Err(IntegerFault::Empty)
    } else if s[0] == '-' && lo < 0 {
        if s.len() == 1 {
            Err(IntegerFault::InvalidDigit)
        } else {
            scan_digits(s, 1, 0, true, lo, hi)
        }
    } else if s[0] == '+' {
        if s.len() == 1 {
            Err(IntegerFault::InvalidDigit)
        } else {
            scan_digits(s, 1, 0, false, lo, hi)
        }
    } else {
        scan_digits(s, 0, 0, false, lo, hi)
    }
}

/// A result with the integer as a mathematical one.
pub open spec fn parsed_view(r: Result<i128, IntegerFault>) -> Result<int, IntegerFault> {
    match r {
        Ok(v) => Ok(v as int),
        Err(e) => Err(e),
    }
}

/// An integer that was read lies in the range.
pub proof fn lemma_scan_in_range(s: Seq<char>, i: int, acc: int, negative: bool, lo: int, hi: int)
    requires
        lo <= acc <= hi,
    ensures
        scan_digits(s, i, acc, negative, lo, hi) matches Ok(v) ==> lo <= v <= hi,
    decreases s.len() - i,
{
    if i < s.len() && is_digit(s[i]) {
        let next = if negative {
            acc * 10 - digit_value(s[i])
        } else {
            acc * 10 + digit_value(s[i])
        };
        if lo <= next <= hi {
            lemma_scan_in_range(s, i + 1, next, negative, lo, hi);
        }
    }
}

/// An integer that was read lies in the range.
pub proof fn lemma_integer_in_range(s: Seq<char>, lo: int, hi: int)
    requires
        lo <= 0 <= hi,
    ensures
        integer_of(s, lo, hi) matches Ok(v) ==> lo <= v <= hi,
{
    lemma_scan_in_range(s, 1, 0, true, lo, hi);
    lemma_scan_in_range(s, 1, 0, false, lo, hi);
    lemma_scan_in_range(s, 0, 0, false, lo, hi);
}

/// Reads an integer between `lo` and `hi`.
pub fn parse_integer(text: &str, lo: i128, hi: i128) -> (r: Result<i128, IntegerFault>)
    requires
        -0x1_0000_0000_0000_0000 <= lo <= 0,
        0 <= hi <= 0x1_0000_0000_0000_0000,
    ensures
        parsed_view(r) == integer_of(text@, lo as int, hi as int),
        r matches Ok(v) ==> lo <= v <= hi,
{
    let n: usize = text.unicode_len();
    if n == 0 {
        return Err(IntegerFault::Empty);
    }
    let first = text.get_char(0);
    let negative = first == '-' && lo < 0;
    let signed = negative || first == '+';
    if signed && n == 1 {
        return Err(IntegerFault::InvalidDigit);
    }
    let mut i: usize = if signed {
        1
    } else {
        0
    };
    let mut acc: i128 = 0;
    while i < n
        invariant
            -0x1_0000_0000_0000_0000 <= lo <= 0,
            0 <= hi <= 0x1_0000_0000_0000_0000,
            i <= n,
            n == text@.len(),
            lo <= acc <= hi,
            integer_of(text@, lo as int, hi as int) == scan_digits(
                text@,
                i as int,
                acc as int,
                negative,
                lo as int,
                hi as int,
            ),
        decreases n - i,
    {
        let c = text.get_char(i);
        if !('0' <= c && c <= '9') {
            return Err(IntegerFault::InvalidDigit);
        }
        let d: i128 = (c as u32 - 48) as i128;
        let next: i128 = if negative {
            acc * 10 - d
        } else {
            acc * 10 + d
        };
        if next > hi {
            return Err(IntegerFault::PosOverflow);
        }
        if next < lo {
            return Err(IntegerFault::NegOverflow);
        }
        acc = next;
        i += 1;
    }
    Ok(acc)
}

} // verus!
