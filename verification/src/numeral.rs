//! Decimal parsing for the width and height arguments.
//!
//! A dimension argument is accepted exactly when the standard library would
//! accept it as a `u32`: an optional leading `+`, then one or more ASCII
//! digits, with a value that fits in 32 bits.

use vstd::prelude::*;

verus! {

/// `c` is an ASCII decimal digit (code points 48 through 57).
pub open spec fn is_digit(c: char) -> bool {
    48 <= c as int && c as int <= 57
}

/// Numeric value of the digit `c`.
pub open spec fn digit_val(c: char) -> int {
    c as int - 48
}

/// Every character of `s` is a decimal digit.
pub open spec fn all_digits(s: Seq<char>) -> bool {
    forall|i: int| 0 <= i < s.len() ==> is_digit(#[trigger] s[i])
}

/// Value of the digit string `s` read in base ten.
pub open spec fn digits_val(s: Seq<char>) -> int
    decreases s.len(),
{
    if s.len() == 0 {
        0
    } else {
        digits_val(s.drop_last()) * 10 + digit_val(s.last())
    }
}

/// `s` without its optional leading `+` sign.
pub open spec fn numeral_body(s: Seq<char>) -> Seq<char> {
    if s.len() > 0 && s[0] == '+' {
        s.subrange(1, s.len() as int)
    } else {
        s
    }
}

/// `s` is a numeral that parses as a `u32`: after the optional sign, one or
/// more digits whose value fits in 32 bits.
pub open spec fn is_u32_numeral(s: Seq<char>) -> bool {
    &&& numeral_body(s).len() > 0
    &&& all_digits(numeral_body(s))
    &&& digits_val(numeral_body(s)) <= u32::MAX
}

/// The value such a numeral denotes.
pub open spec fn u32_numeral_value(s: Seq<char>) -> int {
    digits_val(numeral_body(s))
}

/// A digit string's value is non-negative.
pub proof fn lemma_digits_val_nonneg(s: Seq<char>)
    requires
        all_digits(s),
    ensures
        digits_val(s) >= 0,
    decreases s.len(),
{
    if s.len() > 0 {
        assert(all_digits(s.drop_last()));
        lemma_digits_val_nonneg(s.drop_last());
    }
}

/// Appending digits never shrinks a digit string's value.
pub proof fn lemma_digits_val_prefix_le(s: Seq<char>, k: int)
    requires
        all_digits(s),
        0 <= k <= s.len(),
    ensures
        digits_val(s.subrange(0, k)) <= digits_val(s),
    decreases s.len() - k,
{
    if k < s.len() {
        let t = s.subrange(0, k + 1);
        assert(t.drop_last() =~= s.subrange(0, k));
        assert(all_digits(s.subrange(0, k)));
        lemma_digits_val_nonneg(s.subrange(0, k));
        lemma_digits_val_prefix_le(s, k + 1);
    } else {
        assert(s.subrange(0, k) =~= s);
    }
}

/// Parse `s` as the standard library parses a `u32`: returns the value
/// exactly when `s` is a well-formed 32-bit decimal numeral.
pub fn parse_u32(s: &str) -> (r: Option<u32>)
    ensures
        r is Some <==> is_u32_numeral(s@),
        r is Some ==> r->0 == u32_numeral_value(s@),
{
    let n: usize = s.unicode_len();
    if n == 0 {
        return None;
    }
    let first = s.get_char(0);
    let start: usize = if first == '+' {
        1
    } else {
        0
    };
    proof {
        if start == 1 {
            assert(numeral_body(s@) =~= s@.subrange(1, n as int));
        } else {
            assert(numeral_body(s@) =~= s@);
        }
    }
    if start == n {
        return None;
    }
    let ghost body = numeral_body(s@);
    let mut acc: u64 = 0;
    let mut k: usize = start;
    proof {
        assert(body.subrange(0, 0) =~= Seq::<char>::empty());
    }
    loop
        invariant
            start <= k <= n,
            n == s@.len(),
            n > start,
            body == numeral_body(s@),
            body.len() == n - start,
            forall|j: int| 0 <= j < body.len() ==> body[j] == s@[start + j],
            all_digits(body.subrange(0, k - start)),
            acc == digits_val(body.subrange(0, k - start)),
            acc <= u32::MAX,
        ensures
            k == n,
            all_digits(body),
            acc == digits_val(body),
            acc <= u32::MAX,
        decreases n - k,
    {
        if k == n {
            proof {
                assert(body.subrange(0, k - start) =~= body);
            }
            break;
        }
        let c = s.get_char(k);
        proof {
            assert(body[k - start] == s@[k as int]);
        }
        let cu: u32 = c as u32;
        if !(cu >= 48 && cu <= 57) {
            proof {
                assert(!is_digit(body[k - start]));
            }
            return None;
        }
        let d: u64 = (cu - 48) as u64;
        let next: u64 = acc * 10 + d;
        proof {
            let pre = body.subrange(0, k - start);
            let cur = body.subrange(0, k + 1 - start);
            assert(cur.drop_last() =~= pre);
            assert(cur.last() == body[k - start]);
            assert(digit_val(c) == d);
            assert(digits_val(cur) == next);
        }
        if next > 0xFFFF_FFFF {
            proof {
                let cur = body.subrange(0, k + 1 - start);
                if is_u32_numeral(s@) {
                    lemma_digits_val_prefix_le(body, k + 1 - start);
                    assert(digits_val(cur) <= digits_val(body));
                    assert(false);
                }
            }
            return None;
        }
        acc = next;
        k = k + 1;
    }
    Some(acc as u32)
}

} // verus!
