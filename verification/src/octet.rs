//! Decimal octets: the textual form of one byte of an IPv4 address.

use crate::outcome::Error;
use vstd::prelude::*;

verus! {

/// The byte `0`; the ten digits are `ZERO ..= ZERO + 9`.
pub const ZERO: u8 = 48;

/// Whether `b` is one of the ASCII digits `0` to `9`.
pub open spec fn is_digit(b: u8) -> bool {
    ZERO <= b <= ZERO + 9
}

/// Whether every byte of `text` is an ASCII digit.
pub open spec fn all_digits(text: Seq<u8>) -> bool {
    forall|i: int| 0 <= i < text.len() ==> is_digit(#[trigger] text[i])
}

/// The number that the digit string `text` denotes in base ten, most
/// significant digit first. Meaningful only where `all_digits(text)`.
pub open spec fn decimal_value(text: Seq<u8>) -> nat
    decreases text.len(),
{
    if text.len() == 0 {
        0
    } else {
        (decimal_value(text.drop_last()) * 10 + (text.last() - ZERO)) as nat
    }
}

/// The octet that `text` denotes: a non-empty string of decimal digits, with
/// no sign, whose value is at most 255. Leading zeros are allowed.
pub open spec fn octet_of(text: Seq<u8>) -> Result<u8, Error> {
    if text.len() == 0 || !all_digits(text) {
        Err(Error::NonNumericOctet)
    } else if decimal_value(text) > 255 {
        Err(Error::OctetOutOfRange)
    } else {
        Ok(decimal_value(text) as u8)
    }
}

/// The usual decimal text of an octet: one to three digits, no leading zero.
pub open spec fn decimal_text(x: u8) -> Seq<u8> {
    if x < 10 {
        seq![(ZERO + x) as u8]
    } else if x < 100 {
        seq![(ZERO + x / 10) as u8, (ZERO + x % 10) as u8]
    } else {
        seq![(ZERO + x / 100) as u8, (ZERO + (x / 10) % 10) as u8, (ZERO + x % 10) as u8]
    }
}

/// The decimal text of an octet denotes that octet.
pub proof fn lemma_decimal_text_denotes(x: u8)
    ensures
        octet_of(decimal_text(x)) == Ok::<u8, Error>(x),
{
    let text = decimal_text(x);
    reveal_with_fuel(decimal_value, 4);
    if x < 10 {
        assert(text.drop_last() =~= Seq::<u8>::empty());
    } else if x < 100 {
        assert(text.drop_last() =~= seq![(ZERO + x / 10) as u8]);
        assert(text.drop_last().drop_last() =~= Seq::<u8>::empty());
    } else {
        assert(text.drop_last() =~= seq![(ZERO + x / 100) as u8, (ZERO + (x / 10) % 10) as u8]);
        assert(text.drop_last().drop_last() =~= seq![(ZERO + x / 100) as u8]);
        assert(text.drop_last().drop_last().drop_last() =~= Seq::<u8>::empty());
    }
}

/// Parses one octet from its decimal text.
pub fn parse_octet(text: &Vec<u8>) -> (r: Result<u8, Error>)
    ensures
        r == octet_of(text@),
{
    let n = text.len();
    if n == 0 {
        return Err(Error::NonNumericOctet);
    }
    let mut value: u16 = 0;
    let mut over = false;
    let mut i: usize = 0;
    while i < n
        invariant
            n == text.len(),
            0 <= i <= n,
            all_digits(text@.take(i as int)),
            over ==> decimal_value(text@.take(i as int)) > 255,
            !over ==> value == decimal_value(text@.take(i as int)) && value <= 255,
        decreases n - i,
    {
        let b = text[i];
        if b < ZERO || b > ZERO + 9 {
            assert(!is_digit(text@[i as int]));
            return Err(Error::NonNumericOctet);
        }
        proof {
            let next = text@.take(i + 1);
            assert(next.drop_last() =~= text@.take(i as int));
            assert(next.last() == b);
            assert forall|j: int| 0 <= j < next.len() implies is_digit(#[trigger] next[j]) by {
                if j < i {
                    assert(next[j] == text@.take(i as int)[j]);
                }
            }
        }
        if !over {
            value = value * 10 + (b - ZERO) as u16;
            if value > 255 {
                over = true;
            }
        }
        i = i + 1;
    }
    assert(text@.take(n as int) =~= text@);
    if over {
        Err(Error::OctetOutOfRange)
    } else {
        Ok(value as u8)
    }
}

} // verus!
