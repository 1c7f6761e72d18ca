//! What a caller may ask for besides the picture: the width of the text.
//!
//! The width arrives as text, if it arrives at all. It counts only if it is a
//! plain decimal number, one or more digits and nothing else, with a value
//! from 1 to the largest 32-bit number. In every other case the default
//! width applies.

use vstd::prelude::*;
use crate::pipeline::DEFAULT_WIDTH;

verus! {

/// Whether text is one or more decimal digits and nothing else.
pub open spec fn is_digits(text: Seq<u8>) -> bool {
    &&& text.len() > 0
    &&& forall|i: int| 0 <= i < text.len() ==> 0x30 <= #[trigger] text[i] <= 0x39
}

/// The number that decimal digits write.
pub open spec fn spec_decimal(text: Seq<u8>) -> nat
    decreases text.len(),
{
    if text.len() == 0 {
        0
    } else {
        10 * spec_decimal(text.drop_last()) + (text.last() - 0x30) as nat
    }
}

/// The width that text asks for, if it asks for one.
pub open spec fn spec_width(text: Seq<u8>) -> Option<u32> {
    if is_digits(text) && 1 <= spec_decimal(text) <= u32::MAX {
        Some(spec_decimal(text) as u32)
    } else {
        None
    }
}

/// The width of the output: the one asked for, or the default.
pub open spec fn spec_output_width(field: Option<Seq<u8>>) -> u32 {
    match field {
        Some(text) => match spec_width(text) {
            Some(width) => width,
            None => DEFAULT_WIDTH,
        },
        None => DEFAULT_WIDTH,
    }
}

/// The number that the first digits of a text write is never larger than the
/// number that all of them write.
pub proof fn lemma_decimal_grows(text: Seq<u8>, count: int)
    requires
        0 <= count <= text.len(),
        forall|i: int| 0 <= i < text.len() ==> 0x30 <= #[trigger] text[i] <= 0x39,
    ensures
        spec_decimal(text.take(count)) <= spec_decimal(text),
    decreases text.len() - count,
{
    if count == text.len() {
        assert(text.take(count) =~= text);
    } else {
        lemma_decimal_grows(text, count + 1);
        let longer = text.take(count + 1);
        assert(longer.drop_last() =~= text.take(count));
        assert(longer.last() == text[count]);
    }
}

/// Reads a width: a decimal number from 1 to the largest 32-bit number,
/// written in digits alone.
pub fn parse_width(text: &[u8]) -> (parsed: Option<u32>)
    ensures
        parsed == spec_width(text@),
{
    let count = text.len();
    if count == 0 {
        return None;
    }
    let mut value: u64 = 0;
    let mut i: usize = 0;
    while i < count
        invariant
            i <= count,
            count == text@.len(),
            forall|k: int| 0 <= k < i ==> 0x30 <= #[trigger] text@[k] <= 0x39,
            value == spec_decimal(text@.take(i as int)),
            value <= u32::MAX,
        decreases count - i,
    {
        let digit = text[i];
        if digit < 0x30 || digit > 0x39 {
            return None;
        }
        proof {
            let longer = text@.take(i + 1);
            assert(longer.drop_last() =~= text@.take(i as int));
            assert(longer.last() == digit);
        }
        value = value * 10 + (digit - 0x30) as u64;
        if value > u32::MAX as u64 {
            proof {
                if is_digits(text@) {
                    lemma_decimal_grows(text@, i + 1);
                }
            }
            return None;
        }
        i += 1;
    }
    proof {
        assert(text@.take(count as int) =~= text@);
    }
    if value == 0 {
        None
    } else {
        Some(value as u32)
    }
}

/// Settles the width of the output: the width that the field asks for, or
/// the default where there is no field or it does not hold a width.
pub fn output_width(field: Option<&[u8]>) -> (width: u32)
    ensures
        width == spec_output_width(
            match field {
                Some(text) => Some(text@),
                None => None,
            },
        ),
        width > 0,
{
    match field {
        Some(text) => match parse_width(text) {
            Some(width) => width,
            None => DEFAULT_WIDTH,
        },
        None => DEFAULT_WIDTH,
    }
}

} // verus!
