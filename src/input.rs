use vstd::prelude::*;
use vstd::string::StringSliceAdditionalSpecFns;

verus! {

pub open spec fn is_digit(c: u8) -> bool {
    48 <= c <= 57
}

/// `b` is a non-empty run of decimal digits.
pub open spec fn all_digits(b: Seq<u8>) -> bool {
    b.len() > 0 && forall|i: int| 0 <= i < b.len() ==> is_digit(#[trigger] b[i])
}

/// The number that the decimal digits `b` spell.
pub open spec fn digits_value(b: Seq<u8>) -> int
    decreases b.len(),
{
    if b.len() == 0 {
        0
    } else {
        digits_value(b.drop_last()) * 10 + (b.last() - 48)
    }
}

/// The new value of a slider bounded by `[min, max]` after its text became
/// `text`: the number it spells when it is a plain decimal number within the
/// bounds; otherwise the input is rejected and `prior` is kept.
pub fn slider_value(prior: i64, text: &str, min: i64, max: i64) -> (r: i64)
    requires
        0 <= min <= max <= 1_000_000_000,
    ensures
        r == (if all_digits(text.spec_bytes()) && min <= digits_value(text.spec_bytes()) <= max {
            digits_value(text.spec_bytes())
        } else {
            prior as int
        }),
{
    let bytes = text.as_bytes();
    let ghost b = text.spec_bytes();
    if bytes.len() == 0 {
        return prior;
    }
    let mut value: i64 = 0;
    let mut too_big = false;
    let mut i: usize = 0;
    while i < bytes.len()
        invariant
            bytes@ == b,
            b == text.spec_bytes(),
            0 <= min <= max <= 1_000_000_000,
            i <= b.len(),
            forall|k: int| 0 <= k < i ==> is_digit(#[trigger] b[k]),
            !too_big ==> value == digits_value(b.subrange(0, i as int)) && 0 <= value <= max,
            too_big ==> digits_value(b.subrange(0, i as int)) > max,
        decreases b.len() - i,
    {
        let c = bytes[i];
        if c < 48 || c > 57 {
            assert(!is_digit(b[i as int]));
            return prior;
        }
        let ghost prefix = b.subrange(0, i as int);
        proof {
            let next = b.subrange(0, i + 1);
            assert(next.drop_last() == prefix);
            assert(next.last() == c);
            lemma_digits_value_nonneg(prefix);
        }
        if !too_big {
            let next_value = value * 10 + (c - 48) as i64;
            if next_value > max {
                too_big = true;
            } else {
                value = next_value;
            }
        }
        i = i + 1;
    }
    assert(b.subrange(0, b.len() as int) == b);
    if too_big || value < min {
        prior
    } else {
        value
    }
}

proof fn lemma_digits_value_nonneg(b: Seq<u8>)
    requires
        forall|i: int| 0 <= i < b.len() ==> is_digit(#[trigger] b[i]),
    ensures
        digits_value(b) >= 0,
    decreases b.len(),
{
    if b.len() > 0 {
        lemma_digits_value_nonneg(b.drop_last());
        assert(is_digit(b[b.len() - 1]));
    }
}

} // verus!
