//! Decimal rendering and parsing of unsigned integers.
//!
//! Request ids cross the subprocess boundary both as JSON numbers and as
//! decimal strings; this module fixes one mathematical meaning for the
//! decimal form and proves that parsing inverts rendering.

use vstd::prelude::*;

verus! {

/// The digit character for a value in `0..10`.
pub open spec fn spec_digit_char(d: int) -> char {
    ((48 + d) as u8) as char
}

/// Decimal rendering of a non-negative integer, most significant digit
/// first, with no sign and no leading zeros (except for the value zero).
pub open spec fn spec_u64_string(n: int) -> Seq<char>
    decreases n,
{
    if n < 10 {
        seq![spec_digit_char(n)]
    } else {
        spec_u64_string(n / 10).push(spec_digit_char(n % 10))
    }
}

/// The numeric value of a digit character, if it is one.
pub open spec fn spec_char_digit(c: char) -> Option<int> {
    if '0' <= c && c <= '9' {
        Some(c as int - 48)
    } else {
        None
    }
}

pub open spec fn spec_all_digits(s: Seq<char>) -> bool {
    forall|i: int| 0 <= i < s.len() ==> #[trigger] spec_char_digit(s[i]) is Some
}

/// Value of an all-digit string, most significant digit first.
pub open spec fn spec_digits_value(s: Seq<char>) -> int
    decreases s.len(),
{
    if s.len() == 0 {
        0
    } else {
        spec_digits_value(s.drop_last()) * 10 + spec_char_digit(s.last()).unwrap_or(0)
    }
}

/// What `str::parse::<u64>` accepts: an optional leading `+`, then one or
/// more digits, whose value fits in a `u64`.
pub open spec fn spec_parse_u64(s: Seq<char>) -> Option<u64> {
    let digits = if s.len() > 0 && s[0] == '+' {
        s.drop_first()
    } else {
        s
    };
    if digits.len() > 0 && spec_all_digits(digits) && spec_digits_value(digits) <= u64::MAX {
        Some(spec_digits_value(digits) as u64)
    } else {
        None
    }
}

/// Rendering `n` and reading the digits back yields `n` again.
pub proof fn lemma_u64_string_value(n: int)
    requires
        0 <= n <= u64::MAX,
    ensures
        spec_u64_string(n).len() >= 1,
        spec_u64_string(n)[0] != '+',
        spec_all_digits(spec_u64_string(n)),
        spec_digits_value(spec_u64_string(n)) == n,
    decreases n,
{
    if n < 10 {
        let s = spec_u64_string(n);
        assert(s.len() == 1);
        assert(spec_char_digit(s[0]) == Some(n));
        assert(s.drop_last() =~= Seq::<char>::empty());
        assert(spec_digits_value(Seq::<char>::empty()) == 0);
        assert(s.last() == spec_digit_char(n));
        assert(spec_char_digit(spec_digit_char(n)) == Some(n));
        assert(spec_digits_value(s) == n);
    } else {
        lemma_u64_string_value(n / 10);
        let prefix = spec_u64_string(n / 10);
        let s = spec_u64_string(n);
        assert(s == prefix.push(spec_digit_char(n % 10)));
        assert(s.drop_last() =~= prefix);
        assert(s.last() == spec_digit_char(n % 10));
        assert(spec_char_digit(spec_digit_char(n % 10)) == Some(n % 10));
        assert(spec_digits_value(s) == (n / 10) * 10 + n % 10);
        assert((n / 10) * 10 + n % 10 == n) by (nonlinear_arith);
        assert forall|i: int| 0 <= i < s.len() implies #[trigger] spec_char_digit(s[i]) is Some by {
            if i < prefix.len() {
                assert(spec_char_digit(prefix[i]) is Some);
            }
        }
    }
}

/// The decimal round trip: parsing the rendering of `n` gives `n` back.
pub proof fn lemma_u64_decimal_round_trip(n: u64)
    ensures
        spec_parse_u64(spec_u64_string(n as int)) == Some(n),
{
    lemma_u64_string_value(n as int);
}

/// Renders `n` in decimal.
#[verifier::loop_isolation(false)]
pub fn u64_to_string(n: u64) -> (s: String)
    ensures
        s@ == spec_u64_string(n as int),
{
    let mut digits: Vec<char> = Vec::new();
    let mut cur: u64 = n;
    if cur == 0 {
        digits.push('0');
        assert(digits@ =~= spec_u64_string(0));
    } else {
        while cur > 0
            invariant
                0 <= cur <= n,
                cur > 0 ==> spec_u64_string(n as int) =~= spec_u64_string(cur as int)
                    + digits@.reverse(),
                cur == 0 ==> spec_u64_string(n as int) =~= digits@.reverse(),
                cur == 0 ==> digits@.len() > 0,
            decreases cur,
        {
            let d: u64 = cur % 10;
            let ghost old_cur = cur as int;
            let ghost old_digits = digits@;
            digits.push(digit_to_char(d));
            cur = cur / 10;
            proof {
                assert(cur == old_cur / 10);
                assert(old_cur / 10 < old_cur) by (nonlinear_arith)
                    requires
                        old_cur > 0,
                ;
                assert(digits@.reverse() =~= seq![spec_digit_char(old_cur % 10)]
                    + old_digits.reverse());
                if old_cur >= 10 {
                    assert(spec_u64_string(old_cur) == spec_u64_string(old_cur / 10).push(
                        spec_digit_char(old_cur % 10),
                    ));
                    assert(spec_u64_string(old_cur) + old_digits.reverse() =~= spec_u64_string(
                        old_cur / 10,
                    ) + digits@.reverse());
                } else {
                    assert(spec_u64_string(old_cur) =~= seq![spec_digit_char(old_cur)]);
                    assert(spec_u64_string(old_cur) + old_digits.reverse() =~= digits@.reverse());
                }
            }
        }
        let mut reversed: Vec<char> = Vec::new();
        let mut i: usize = digits.len();
        while i > 0
            invariant
                0 <= i <= digits.len(),
                reversed@.len() == digits@.len() - i,
                forall|j: int| 0 <= j < reversed@.len() ==> reversed@[j] == digits@.reverse()[j],
            decreases i,
        {
            i = i - 1;
            reversed.push(digits[i]);
        }
        assert(reversed@ =~= digits@.reverse());
        digits = reversed;
    }
    crate::text::string_from_chars(&digits)
}

/// The character for a digit value.
pub fn digit_to_char(d: u64) -> (c: char)
    requires
        d < 10,
    ensures
        c == spec_digit_char(d as int),
{
    (48 + d as u8) as char
}

/// The value of a digit character, if it is one.
pub fn char_digit(c: char) -> (r: Option<u64>)
    ensures
        match r {
            Some(d) => spec_char_digit(c) == Some(d as int) && d < 10,
            None => spec_char_digit(c) is None,
        },
{
    if '0' <= c && c <= '9' {
        Some((c as u8 - 48) as u64)
    } else {
        None
    }
}

/// Once a digit prefix is worth more than `u64::MAX`, every extension is too.
proof fn lemma_digits_value_grows(s: Seq<char>, i: int)
    requires
        0 <= i <= s.len(),
        spec_all_digits(s),
    ensures
        spec_digits_value(s.take(i)) <= spec_digits_value(s),
    decreases s.len() - i,
{
    if i < s.len() {
        lemma_digits_value_grows(s, i + 1);
        let p = s.take(i + 1);
        assert(p.drop_last() =~= s.take(i));
        assert(spec_char_digit(s[i]) is Some);
        assert(p.last() == s[i]);
        assert(spec_digits_value(p) == spec_digits_value(s.take(i)) * 10 + spec_char_digit(
            s[i],
        ).unwrap_or(0));
        assert(spec_digits_value(s.take(i)) * 10 >= spec_digits_value(s.take(i))) by {
            lemma_digits_value_nonneg(s.take(i));
            assert(forall|v: int| v >= 0 ==> #[trigger] (v * 10) >= v) by (nonlinear_arith);
        }
    } else {
        assert(s.take(i) =~= s);
    }
}

proof fn lemma_digits_value_nonneg(s: Seq<char>)
    ensures
        spec_digits_value(s) >= 0,
    decreases s.len(),
{
    if s.len() > 0 {
        lemma_digits_value_nonneg(s.drop_last());
        assert(spec_digits_value(s.drop_last()) * 10 >= 0) by (nonlinear_arith)
            requires
                spec_digits_value(s.drop_last()) >= 0,
        ;
    }
}

/// Parses a decimal `u64` as `str::parse` would: an optional leading `+`,
/// then only digits, rejecting overflow.
#[verifier::loop_isolation(false)]
pub fn parse_u64(s: &str) -> (r: Option<u64>)
    ensures
        r == spec_parse_u64(s@),
{
    let chars = crate::text::str_to_chars(s);
    let start: usize = if chars.len() > 0 && chars[0] == '+' {
        1
    } else {
        0
    };
    let ghost digits = if s@.len() > 0 && s@[0] == '+' {
        s@.drop_first()
    } else {
        s@
    };
    proof {
        assert(digits =~= chars@.skip(start as int));
    }
    if chars.len() == start {
        return None;
    }
    let mut acc: u64 = 0;
    let mut i: usize = start;
    while i < chars.len()
        invariant
            start <= i <= chars.len(),
            spec_all_digits(digits.take(i - start)),
            acc == spec_digits_value(digits.take(i - start)),
        decreases chars.len() - i,
    {
        let ghost prev = digits.take(i - start);
        match char_digit(chars[i]) {
            Some(d) => {
                proof {
                    assert(digits.take(i + 1 - start).drop_last() =~= prev);
                    assert(digits.take(i + 1 - start).last() == digits[i - start]);
                }
                if acc > (u64::MAX - d) / 10 {
                    // The value no longer fits; no longer digit string can
                    // bring it back down.
                    proof {
                        let upto = digits.take(i + 1 - start);
                        assert(spec_digits_value(upto) == acc * 10 + d);
                        assert(acc * 10 + d > u64::MAX) by (nonlinear_arith)
                            requires
                                acc > ((u64::MAX - d) / 10) && d < 10 && acc <= u64::MAX,
                        ;
                        if spec_all_digits(digits) {
                            lemma_digits_value_grows(digits, i + 1 - start);
                        }
                    }
                    return None;
                }
                proof {
                    assert(acc * 10 + d <= u64::MAX) by (nonlinear_arith)
                        requires
                            acc <= ((u64::MAX - d) / 10) && d < 10,
                    ;
                }
                acc = acc * 10 + d;
                i += 1;
                proof {
                    assert forall|j: int| 0 <= j < digits.take(i - start).len()
                        implies #[trigger] spec_char_digit(digits.take(i - start)[j]) is Some by {
                        if j < prev.len() {
                            assert(spec_char_digit(prev[j]) is Some);
                        }
                    }
                }
            },
            None => {
                proof {
                    assert(spec_char_digit(digits[i - start]) is None);
                }
                return None;
            },
        }
    }
    proof {
        assert(digits.take(chars@.len() - start) =~= digits);
    }
    Some(acc)
}

/// Decimal rendering of a signed integer.
pub open spec fn spec_i64_string(n: int) -> Seq<char> {
    if n < 0 {
        seq!['-'] + spec_u64_string(-n)
    } else {
        spec_u64_string(n)
    }
}

/// Renders `n` in decimal, with a leading minus sign when negative.
pub fn i64_to_string(n: i64) -> (s: String)
    ensures
        s@ == spec_i64_string(n as int),
{
    if n < 0 {
        let magnitude: u64 = ((-(n + 1)) as u64) + 1;
        let digits = u64_to_string(magnitude);
        let r = crate::text::concat_str("-", digits.as_str());
        proof {
            reveal_strlit("-");
            assert(magnitude == -(n as int));
            assert(r@ =~= spec_i64_string(n as int));
        }
        r
    } else {
        u64_to_string(n as u64)
    }
}

} // verus!
