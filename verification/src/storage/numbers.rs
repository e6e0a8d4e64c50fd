//! Readings of number literals.
//!
//! A number literal can stand for an integer or for a floating-point number. The library reads
//! integers itself; the floating-point readings of the literals of a statement come with it.
use vstd::prelude::*;
use vstd::string::*;

use crate::search;
use crate::text::concat2;

verus! {

/// The floating-point readings of the text of a number.
#[derive(Debug, PartialEq, Eq)]
pub struct NumberReading {
    /// The text of the number.
    pub text: String,
    /// The bits of the nearest single-precision number, or why there is none.
    pub single: Result<u32, String>,
    /// The bits of the nearest double-precision number, or why there is none.
    pub double: Result<u64, String>,
    /// How the single-precision number is written.
    pub single_label: String,
    /// How the double-precision number is written.
    pub label: String,
}

/// The floating-point readings of the number literals of a statement.
#[derive(Debug, PartialEq, Eq)]
pub struct Numbers {
    pub readings: Vec<NumberReading>,
}

/// The property of reading a given text.
pub open spec fn reads(text: Seq<char>) -> spec_fn(NumberReading) -> bool {
    |r: NumberReading| r.text@ == text
}

/// The property of reading a single-precision number with given bits.
pub open spec fn has_single_bits(bits: u32) -> spec_fn(NumberReading) -> bool {
    |r: NumberReading| r.single == Ok::<u32, String>(bits)
}

/// The property of reading a double-precision number with given bits.
pub open spec fn has_bits(bits: u64) -> spec_fn(NumberReading) -> bool {
    |r: NumberReading| r.double == Ok::<u64, String>(bits)
}

/// A result with its error taken as a sequence of characters.
pub open spec fn reading_view<T>(r: Result<T, String>) -> Result<T, Seq<char>> {
    match r {
        Ok(v) => Ok(v),
        Err(e) => Err(e@),
    }
}

/// The single-precision reading of a text: that of the first entry for it; a text without an entry
/// is not a number.
pub open spec fn single_of(readings: Seq<NumberReading>, text: Seq<char>) -> Result<u32, Seq<char>> {
    match search::position(readings, reads(text)) {
        Some(i) => reading_view(readings[i].single),
        None => Err("invalid float literal"@),
    }
}

/// The double-precision reading of a text: that of the first entry for it; a text without an entry
/// is not a number.
pub open spec fn double_of(readings: Seq<NumberReading>, text: Seq<char>) -> Result<u64, Seq<char>> {
    match search::position(readings, reads(text)) {
        Some(i) => reading_view(readings[i].double),
        None => Err("invalid float literal"@),
    }
}

/// How a single-precision number is written: as its first entry says, else by its bits.
pub open spec fn single_label_of(readings: Seq<NumberReading>, bits: u32) -> Seq<char> {
    match search::position(readings, has_single_bits(bits)) {
        Some(i) => readings[i].single_label@,
        None => "bits "@ + crate::text::decimal(bits as nat),
    }
}

/// How a double-precision number is written: as its first entry says, else by its bits.
pub open spec fn label_of(readings: Seq<NumberReading>, bits: u64) -> Seq<char> {
    match search::position(readings, has_bits(bits)) {
        Some(i) => readings[i].label@,
        None => "bits "@ + crate::text::decimal(bits as nat),
    }
}

impl Numbers {
    fn position_of(&self, text: &str) -> (r: Option<usize>)
        ensures
            match r {
                Some(i) => i < self.readings@.len() && search::position(
                    self.readings@,
                    reads(text@),
                ) == Some(i as int),
                None => search::position(self.readings@, reads(text@)) is None,
            },
    {
        let mut i: usize = 0;
        while i < self.readings.len()
            invariant
                i <= self.readings@.len(),
                search::position(self.readings@, reads(text@)) == search::position_from(
                    self.readings@,
                    reads(text@),
                    i as int,
                ),
            decreases self.readings@.len() - i,
        {
            if crate::text::same_text(self.readings[i].text.as_str(), text) {
                return Some(i);
            }
            i += 1;
        }
        None
    }

    /// The single-precision reading of a text.
    pub fn single(&self, text: &str) -> (r: Result<u32, String>)
        ensures
            reading_view(r) == single_of(self.readings@, text@),
    {
        match self.position_of(text) {
            Some(i) => match &self.readings[i].single {
                Ok(bits) => Ok(*bits),
                Err(e) => Err(e.clone()),
            },
            None => Err("invalid float literal".to_owned()),
        }
    }

    /// The double-precision reading of a text.
    pub fn double(&self, text: &str) -> (r: Result<u64, String>)
        ensures
            reading_view(r) == double_of(self.readings@, text@),
    {
        match self.position_of(text) {
            Some(i) => match &self.readings[i].double {
                Ok(bits) => Ok(*bits),
                Err(e) => Err(e.clone()),
            },
            None => Err("invalid float literal".to_owned()),
        }
    }

    /// How a single-precision number is written.
    pub fn single_label(&self, bits: u32) -> (r: String)
        ensures
            r@ == single_label_of(self.readings@, bits),
    {
        let mut i: usize = 0;
        while i < self.readings.len()
            invariant
                i <= self.readings@.len(),
                search::position(self.readings@, has_single_bits(bits)) == search::position_from(
                    self.readings@,
                    has_single_bits(bits),
                    i as int,
                ),
            decreases self.readings@.len() - i,
        {
            let found = match &self.readings[i].single {
                Ok(b) => *b == bits,
                Err(_) => false,
            };
            if found {
                return self.readings[i].single_label.clone();
            }
            i += 1;
        }
        concat2("bits ", crate::text::decimal_text(bits as u64).as_str())
    }

    /// How a double-precision number is written.
    pub fn label(&self, bits: u64) -> (r: String)
        ensures
            r@ == label_of(self.readings@, bits),
    {
        let mut i: usize = 0;
        while i < self.readings.len()
            invariant
                i <= self.readings@.len(),
                search::position(self.readings@, has_bits(bits)) == search::position_from(
                    self.readings@,
                    has_bits(bits),
                    i as int,
                ),
            decreases self.readings@.len() - i,
        {
            let found = match &self.readings[i].double {
                Ok(b) => *b == bits,
                Err(_) => false,
            };
            if found {
                return self.readings[i].label.clone();
            }
            i += 1;
        }
        concat2("bits ", crate::text::decimal_text(bits).as_str())
    }
}

} // verus!
