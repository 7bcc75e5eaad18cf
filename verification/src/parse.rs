//! Decimal integer literals: the grammar of the numeric row fields and a
//! verified parser for them.
//!
//! A literal is an optional single sign (`+` or `-`) followed by one or more
//! decimal digits; its value must fit the target integer type. This is the
//! whole grammar: no whitespace, no separators, no other radix.

use vstd::prelude::*;

verus! {

/// A decimal digit `0` through `9`.
pub open spec fn is_dec_digit(c: char) -> bool {
    48 <= c as int <= 57
}

/// The numeric value of a decimal digit.
pub open spec fn digit_value(c: char) -> int {
    c as int - 48
}

/// Every character of `s` is a decimal digit.
pub open spec fn all_dec_digits(s: Seq<char>) -> bool {
    forall|i: int| 0 <= i < s.len() ==> is_dec_digit(#[trigger] s[i])
}

/// The value of a digit string, most significant digit first.
pub open spec fn digits_value(s: Seq<char>) -> int
    decreases s.len(),
{
    if s.len() == 0 {
        0
    } else {
        digits_value(s.drop_last()) * 10 + digit_value(s.last())
    }
}

/// Whether a literal carries a leading sign character.
pub open spec fn literal_signed(s: Seq<char>) -> bool {
    s.len() > 0 && (s[0] == '-' || s[0] == '+')
}

/// Whether a literal denotes a negative value.
pub open spec fn literal_negative(s: Seq<char>) -> bool {
    s.len() > 0 && s[0] == '-'
}

/// The digit portion of a literal: everything after the optional sign.
pub open spec fn literal_digits(s: Seq<char>) -> Seq<char> {
    if literal_signed(s) {
        s.subrange(1, s.len() as int)
    } else {
        s
    }
}

/// A well-formed integer literal: an optional sign, then one or more digits.
pub open spec fn is_int_literal(s: Seq<char>) -> bool {
    literal_digits(s).len() > 0 && all_dec_digits(literal_digits(s))
}

/// The mathematical value of a well-formed integer literal.
pub open spec fn int_literal_value(s: Seq<char>) -> int {
    if literal_negative(s) {
        -digits_value(literal_digits(s))
    } else {
        digits_value(literal_digits(s))
    }
}

/// A literal that parses as an `i64`: well-formed and within range.
pub open spec fn parses_to_i64(s: Seq<char>) -> bool {
    is_int_literal(s) && i64::MIN <= int_literal_value(s) <= i64::MAX
}

/// Appending a digit multiplies the value by ten and adds the digit.
proof fn lemma_digits_value_snoc(s: Seq<char>, c: char)
    ensures
        digits_value(s.push(c)) == digits_value(s) * 10 + digit_value(c),
{
    assert(s.push(c).drop_last() =~= s);
}

/// A digit string has a non-negative value.
proof fn lemma_digits_value_nonneg(s: Seq<char>)
    requires
        all_dec_digits(s),
    ensures
        digits_value(s) >= 0,
    decreases s.len(),
{
    if s.len() > 0 {
        assert(all_dec_digits(s.drop_last())) by {
            assert(forall|i: int|
                0 <= i < s.drop_last().len() ==> #[trigger] s.drop_last()[i] == s[i]);
        }
        lemma_digits_value_nonneg(s.drop_last());
    }
}

/// Every prefix of a digit string has a value no larger than the whole.
proof fn lemma_digits_value_prefix_le(s: Seq<char>, i: int)
    requires
        all_dec_digits(s),
        0 <= i <= s.len(),
    ensures
        digits_value(s.take(i)) <= digits_value(s),
    decreases s.len() - i,
{
    if i == s.len() {
        assert(s.take(i) =~= s);
    } else {
        assert(all_dec_digits(s.take(i))) by {
            assert(forall|j: int| 0 <= j < i ==> #[trigger] s.take(i)[j] == s[j]);
        }
        assert(s.take(i + 1) =~= s.take(i).push(s[i]));
        lemma_digits_value_snoc(s.take(i), s[i]);
        lemma_digits_value_nonneg(s.take(i));
        lemma_digits_value_prefix_le(s, i + 1);
    }
}

/// Parse a complete string as a base-10 `i64`.
///
/// Succeeds exactly on the literals of this module's grammar whose value
/// fits in an `i64`, and then returns that value.
pub fn parse_i64(s: &str) -> (r: Option<i64>)
    ensures
        r is Some <==> parses_to_i64(s@),
        r matches Some(v) ==> v as int == int_literal_value(s@),
{
    let n = s.unicode_len();
    if n == 0 {
        return None;
    }
    let first = s.get_char(0);
    let neg = first == '-';
    let signed = neg || first == '+';
    let start: usize = if signed { 1 } else { 0 };
    if start == n {
        // A bare sign has no digits.
        return None;
    }
    let limit: i128 = if neg {
        i64::MIN as i128
    } else {
        -(i64::MAX as i128)
    };
    let ghost ds = literal_digits(s@);
    proof {
        assert(ds =~= s@.subrange(start as int, n as int));
    }
    let mut acc: i128 = 0;
    let mut i: usize = start;
    while i < n
        invariant
            start <= i <= n,
            n == s@.len(),
            start == if literal_signed(s@) { 1int } else { 0int },
            neg == literal_negative(s@),
            ds == s@.subrange(start as int, n as int),
            ds == literal_digits(s@),
            limit as int == if neg { i64::MIN as int } else { -(i64::MAX as int) },
            all_dec_digits(s@.subrange(start as int, i as int)),
            acc == -digits_value(s@.subrange(start as int, i as int)),
            limit <= acc <= 0,
        decreases n - i,
    {
        let c = s.get_char(i);
        let d = c as u32;
        if d < 48 || d > 57 {
            proof {
                assert(ds[i - start] == s@[i as int]);
                assert(!all_dec_digits(ds));
            }
            return None;
        }
        let ghost prev = s@.subrange(start as int, i as int);
        proof {
            assert(s@.subrange(start as int, i + 1) =~= prev.push(s@[i as int]));
            lemma_digits_value_snoc(prev, s@[i as int]);
            assert(all_dec_digits(s@.subrange(start as int, i + 1))) by {
                assert(forall|j: int|
                    0 <= j < i + 1 - start
                        ==> #[trigger] s@.subrange(start as int, i + 1)[j] == s@[j + start]);
            }
        }
        acc = acc * 10 - ((d - 48) as i128);
        i = i + 1;
        if acc < limit {
            proof {
                assert(!parses_to_i64(s@)) by {
                    if parses_to_i64(s@) {
                        assert(ds.take(i - start) =~= s@.subrange(start as int, i as int));
                        lemma_digits_value_prefix_le(ds, i - start);
                    }
                }
            }
            return None;
        }
    }
    proof {
        assert(s@.subrange(start as int, i as int) =~= ds);
        assert(is_int_literal(s@));
    }
    let v: i128 = if neg {
        acc
    } else {
        -acc
    };
    Some(v as i64)
}

} // verus!
