//! Parsing a non-negative integer from the bytes of one input line
//! (or one command-line argument): an optional leading `+`, then one
//! or more ASCII decimal digits, and nothing else.

use vstd::prelude::*;
use vstd::arithmetic::div_mod::lemma_fundamental_div_mod;

verus! {

/// An ASCII decimal digit.
pub open spec fn is_digit(b: u8) -> bool {
    48 <= b <= 57
}

/// All bytes of the sequence are ASCII decimal digits.
pub open spec fn all_digits(s: Seq<u8>) -> bool {
    forall|i: int| 0 <= i < s.len() ==> is_digit(#[trigger] s[i])
}

/// The part of the input that must consist of digits: everything
/// after an optional leading `+`.
pub open spec fn digit_span(s: Seq<u8>) -> Seq<u8> {
    if s.len() >= 1 && s[0] == 43 {
        s.subrange(1, s.len() as int)
    } else {
        s
    }
}

/// The input is a well-formed non-negative integer: at least one
/// digit, and nothing but digits after the optional sign.
pub open spec fn is_number(s: Seq<u8>) -> bool {
    digit_span(s).len() >= 1 && all_digits(digit_span(s))
}

/// The value of a sequence of decimal digits, most significant first.
pub open spec fn digits_value(s: Seq<u8>) -> int
    decreases s.len(),
{
    if s.len() == 0 {
        0
    } else {
        digits_value(s.drop_last()) * 10 + (s.last() - 48)
    }
}

/// The value of a digit sequence is never negative.
pub proof fn lemma_digits_value_nonneg(s: Seq<u8>)
    requires
        all_digits(s),
    ensures
        digits_value(s) >= 0,
    decreases s.len(),
{
    if s.len() > 0 {
        assert(all_digits(s.drop_last()));
        lemma_digits_value_nonneg(s.drop_last());
    }
}

/// Appending digits never lowers the value: a prefix's value bounds
/// the whole sequence's value from below.
pub proof fn lemma_digits_value_take_le(s: Seq<u8>, i: int)
    requires
        all_digits(s),
        0 <= i <= s.len(),
    ensures
        digits_value(s.take(i)) <= digits_value(s),
    decreases s.len() - i,
{
    if i == s.len() {
        assert(s.take(i) =~= s);
    } else {
        assert(s.take(i + 1).drop_last() =~= s.take(i));
        assert(all_digits(s.take(i)));
        lemma_digits_value_nonneg(s.take(i));
        assert(digits_value(s.take(i + 1)) == digits_value(s.take(i)) * 10 + (s[i] - 48));
        lemma_digits_value_take_le(s, i + 1);
    }
}

/// Parse the bytes of one trimmed line as a non-negative integer.
///
/// Returns the written value exactly when the input is a well-formed
/// number whose value fits in a machine word; returns `None` on an
/// empty input, a stray byte, or a value too large to represent.
pub fn parse_usize(s: &[u8]) -> (r: Option<usize>)
    ensures
        r is Some <==> is_number(s@) && digits_value(digit_span(s@)) <= usize::MAX,
        r is Some ==> r == Some(digits_value(digit_span(s@)) as usize),
{
    let n = s.len();
    let start: usize = if n >= 1 && s[0] == 43 {
        1
    } else {
        0
    };
    if start >= n {
        return None;
    }
    let ghost span = digit_span(s@);
    proof {
        assert(span =~= s@.subrange(start as int, n as int));
    }
    let mut acc: usize = 0;
    let mut i: usize = start;
    while i < n
        invariant
            start <= i <= n,
            n == s@.len(),
            span == digit_span(s@),
            span =~= s@.subrange(start as int, n as int),
            all_digits(span.take(i - start)),
            acc == digits_value(span.take(i - start)),
        decreases n - i,
    {
        let b = s[i];
        if b < 48 || b > 57 {
            proof {
                assert(span[i - start] == s@[i as int]);
                assert(!is_digit(span[i - start]));
            }
            return None;
        }
        let d = (b - 48) as usize;
        proof {
            assert(span.take(i - start + 1).drop_last() =~= span.take(i - start));
            assert(span.take(i - start + 1).last() == s@[i as int]);
            lemma_fundamental_div_mod(usize::MAX - d, 10);
        }
        if acc > (usize::MAX - d) / 10 {
            proof {
                assert(digits_value(span.take(i - start + 1)) > usize::MAX);
                if all_digits(span) {
                    lemma_digits_value_take_le(span, i - start + 1);
                }
            }
            return None;
        }
        acc = acc * 10 + d;
        i = i + 1;
    }
    proof {
        assert(span.take(n - start) =~= span);
    }
    Some(acc)
}

} // verus!
