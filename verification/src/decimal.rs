//! Decimal text: the canonical decimal rendering of an integer, the grammar
//! of integer labels, and a verified parser and renderer for them.
//!
//! The risk rules compare configured option labels against the *canonical*
//! decimal rendering of a product (an option labeled `"06"` does not match a
//! product of `6`), and read severity and probability ordinals out of option
//! labels by parsing them as base-10 signed integers.
use crate::model::ExtractError;
use vstd::prelude::*;
use vstd::string::StrSliceExecFns;
use vstd::string::StringExecFns;

verus! {

/// `c` is one of the characters `'0'` through `'9'`.
pub open spec fn is_dec_digit(c: char) -> bool {
    '0' <= c && c <= '9'
}

/// Numeric value of a digit character.
pub open spec fn digit_value(c: char) -> int
    recommends
        is_dec_digit(c),
{
    c as u32 - '0' as u32
}

/// The digit character for a value between 0 and 9.
pub open spec fn digit_char(d: int) -> char
    recommends
        0 <= d <= 9,
{
    if d == 0 {
        '0'
    } else if d == 1 {
        '1'
    } else if d == 2 {
        '2'
    } else if d == 3 {
        '3'
    } else if d == 4 {
        '4'
    } else if d == 5 {
        '5'
    } else if d == 6 {
        '6'
    } else if d == 7 {
        '7'
    } else if d == 8 {
        '8'
    } else {
        '9'
    }
}

/// Ten to the power `n`.
pub open spec fn pow10(n: nat) -> int
    decreases n,
{
    if n == 0 {
        1
    } else {
        10 * pow10((n - 1) as nat)
    }
}

/// Every character of `s` is a decimal digit.
pub open spec fn all_digits(s: Seq<char>) -> bool {
    forall|i: int| 0 <= i < s.len() ==> is_dec_digit(#[trigger] s[i])
}

/// The value of a digit string read in base 10, most significant digit first.
pub open spec fn digits_value(s: Seq<char>) -> int
    recommends
        all_digits(s),
    decreases s.len(),
{
    if s.len() == 0 {
        0
    } else {
        digits_value(s.drop_last()) * 10 + digit_value(s.last())
    }
}

/// Canonical decimal digits of a nonnegative integer: no sign, no leading
/// zeros (`0` itself renders as `"0"`).
pub open spec fn dec_digits(n: nat) -> Seq<char>
    decreases n,
{
    if n < 10 {
        seq![digit_char(n as int)]
    } else {
        dec_digits(n / 10) + seq![digit_char((n % 10) as int)]
    }
}

/// Canonical decimal rendering of an integer: a `'-'` sign for negative
/// values, then the digits of the magnitude.
pub open spec fn dec_rep(v: int) -> Seq<char> {
    if v < 0 {
        seq!['-'] + dec_digits((-v) as nat)
    } else {
        dec_digits(v as nat)
    }
}

/// `s` starts with an explicit sign character.
pub open spec fn has_sign(s: Seq<char>) -> bool {
    s.len() > 0 && (s[0] == '+' || s[0] == '-')
}

/// `s` without its sign character, if any.
pub open spec fn digits_part(s: Seq<char>) -> Seq<char> {
    if has_sign(s) {
        s.drop_first()
    } else {
        s
    }
}

/// `s` is a base-10 signed integer literal: an optional single `'+'` or `'-'`
/// followed by one or more digits.
pub open spec fn is_int_literal(s: Seq<char>) -> bool {
    digits_part(s).len() > 0 && all_digits(digits_part(s))
}

/// The mathematical value of an integer literal.
pub open spec fn int_literal_value(s: Seq<char>) -> int
    recommends
        is_int_literal(s),
{
    if s.len() > 0 && s[0] == '-' {
        -digits_value(digits_part(s))
    } else {
        digits_value(digits_part(s))
    }
}

/// What parsing `s` as an `i64` yields: its value when `s` is an integer
/// literal whose value fits, nothing otherwise.
pub open spec fn parse_i64(s: Seq<char>) -> Option<int> {
    if is_int_literal(s) && i64::MIN <= int_literal_value(s) <= i64::MAX {
        Some(int_literal_value(s))
    } else {
        None
    }
}

/// A digit string that does not start with `'0'` is at least ten to the power
/// of its length less one.
pub proof fn lemma_digits_value_msd(s: Seq<char>)
    requires
        all_digits(s),
        s.len() > 0,
        s[0] != '0',
    ensures
        digits_value(s) >= pow10((s.len() - 1) as nat),
    decreases s.len(),
{
    if s.len() == 1 {
        assert(s.drop_last().len() == 0);
        assert(s.last() == s[0]);
        assert(is_dec_digit(s[0]));
        assert(digit_value(s.last()) >= 1);
        assert(digits_value(s.drop_last()) == 0);
        assert(digits_value(s) == digits_value(s.drop_last()) * 10 + digit_value(s.last()));
        assert(pow10(0) == 1);
    } else {
        let dl = s.drop_last();
        assert(all_digits(dl)) by {
            assert(forall|i: int| 0 <= i < dl.len() ==> #[trigger] dl[i] == s[i]);
        }
        assert(dl[0] == s[0]);
        lemma_digits_value_msd(dl);
        assert(is_dec_digit(s[s.len() - 1]));
        assert(s.last() == s[s.len() - 1]);
        assert(digit_value(s.last()) >= 0);
        assert(pow10((s.len() - 1) as nat) == 10 * pow10((s.len() - 2) as nat));
        assert(digits_value(s) == digits_value(dl) * 10 + digit_value(s.last()));
        assert(digits_value(dl) * 10 >= pow10((s.len() - 2) as nat) * 10);
    }
}

/// Dropping a leading zero does not change a digit string's value.
pub proof fn lemma_digits_drop_leading_zero(s: Seq<char>)
    requires
        all_digits(s),
        s.len() > 0,
        s[0] == '0',
    ensures
        digits_value(s) == digits_value(s.drop_first()),
    decreases s.len(),
{
    if s.len() == 1 {
        assert(s.drop_last().len() == 0);
        assert(s.drop_first().len() == 0);
        assert(s.last() == s[0]);
        assert(digit_value(s.last()) == 0);
        assert(digits_value(s) == digits_value(s.drop_last()) * 10 + digit_value(s.last()));
    } else {
        let dl = s.drop_last();
        assert(all_digits(dl)) by {
            assert(forall|i: int| 0 <= i < dl.len() ==> #[trigger] dl[i] == s[i]);
        }
        assert(dl[0] == s[0]);
        lemma_digits_drop_leading_zero(dl);
        assert(s.drop_first().drop_last() =~= dl.drop_first());
        assert(s.drop_first().last() == s.last());
        assert(s.drop_first().len() > 0);
        assert(digits_value(s.drop_first()) == digits_value(s.drop_first().drop_last()) * 10
            + digit_value(s.drop_first().last()));
        assert(digits_value(s) == digits_value(dl) * 10 + digit_value(s.last()));
    }
}

/// `pow10` grows monotonically.
pub proof fn lemma_pow10_mono(a: nat, b: nat)
    requires
        a <= b,
    ensures
        pow10(a) <= pow10(b),
    decreases b,
{
    if a < b {
        lemma_pow10_mono(a, (b - 1) as nat);
        assert(pow10((b - 1) as nat) >= 1) by {
            lemma_pow10_pos((b - 1) as nat);
        }
    }
}

/// `pow10` is positive.
pub proof fn lemma_pow10_pos(n: nat)
    ensures
        pow10(n) >= 1,
    decreases n,
{
    if n > 0 {
        lemma_pow10_pos((n - 1) as nat);
    }
}

/// The value of `pow10` at 19, by unfolding.
pub proof fn lemma_pow10_19()
    ensures
        pow10(19) == 10_000_000_000_000_000_000,
{
    assert(pow10(0) == 1);
    assert(pow10(1) == 10);
    assert(pow10(2) == 100);
    assert(pow10(3) == 1000);
    assert(pow10(4) == 10000);
    assert(pow10(5) == 100000);
    assert(pow10(6) == 1000000);
    assert(pow10(7) == 10000000);
    assert(pow10(8) == 100000000);
    assert(pow10(9) == 1000000000);
    assert(pow10(10) == 10000000000);
    assert(pow10(11) == 100000000000);
    assert(pow10(12) == 1000000000000);
    assert(pow10(13) == 10000000000000);
    assert(pow10(14) == 100000000000000);
    assert(pow10(15) == 1000000000000000);
    assert(pow10(16) == 10000000000000000);
    assert(pow10(17) == 100000000000000000);
    assert(pow10(18) == 1000000000000000000);
    assert(pow10(19) == 10000000000000000000);
}

/// The one-character string for a digit value.
fn digit_str(d: u32) -> (r: &'static str)
    requires
        d < 10,
    ensures
        r@ == seq![digit_char(d as int)],
{
    if d == 0 {
        proof {
            reveal_strlit("0");
            assert("0"@ =~= seq![digit_char(0)]);
        }
        "0"
    } else if d == 1 {
        proof {
            reveal_strlit("1");
            assert("1"@ =~= seq![digit_char(1)]);
        }
        "1"
    } else if d == 2 {
        proof {
            reveal_strlit("2");
            assert("2"@ =~= seq![digit_char(2)]);
        }
        "2"
    } else if d == 3 {
        proof {
            reveal_strlit("3");
            assert("3"@ =~= seq![digit_char(3)]);
        }
        "3"
    } else if d == 4 {
        proof {
            reveal_strlit("4");
            assert("4"@ =~= seq![digit_char(4)]);
        }
        "4"
    } else if d == 5 {
        proof {
            reveal_strlit("5");
            assert("5"@ =~= seq![digit_char(5)]);
        }
        "5"
    } else if d == 6 {
        proof {
            reveal_strlit("6");
            assert("6"@ =~= seq![digit_char(6)]);
        }
        "6"
    } else if d == 7 {
        proof {
            reveal_strlit("7");
            assert("7"@ =~= seq![digit_char(7)]);
        }
        "7"
    } else if d == 8 {
        proof {
            reveal_strlit("8");
            assert("8"@ =~= seq![digit_char(8)]);
        }
        "8"
    } else {
        proof {
            reveal_strlit("9");
            assert("9"@ =~= seq![digit_char(9)]);
        }
        "9"
    }
}

/// Render a nonnegative integer as canonical decimal digits.
pub fn u128_to_decimal(n: u128) -> (s: String)
    ensures
        s@ == dec_digits(n as nat),
    decreases n,
{
    if n < 10 {
        String::from_str(digit_str(n as u32))
    } else {
        let q = n / 10;
        let d = (n % 10) as u32;
        let mut s = u128_to_decimal(q);
        s.append(digit_str(d));
        proof {
            assert(dec_digits(n as nat) == dec_digits((n as nat) / 10) + seq![
                digit_char(((n as nat) % 10) as int),
            ]);
        }
        s
    }
}

/// Render an integer as canonical signed decimal text.
pub fn i128_to_decimal(v: i128) -> (s: String)
    requires
        v != i128::MIN,
    ensures
        s@ == dec_rep(v as int),
{
    if v >= 0 {
        u128_to_decimal(v as u128)
    } else {
        let mut s = String::from_str("-");
        proof {
            reveal_strlit("-");
            assert("-"@ =~= seq!['-']);
        }
        let mag = u128_to_decimal((-v) as u128);
        s.append(mag.as_str());
        s
    }
}

/// Parse a label as a base-10 signed integer in `i64` range, per the exact
/// grammar of `parse_i64`: an optional single sign, then one or more digits,
/// and a value that fits.
pub fn convert_label_to_integer(label: String) -> (r: Result<i64, ExtractError>)
    ensures
        match parse_i64(label@) {
            Some(v) => r matches Ok(x) && x as int == v,
            None => r == Err::<i64, ExtractError>(ExtractError::NotAnInteger),
        },
{
    let s: &str = label.as_str();
    let n: usize = s.unicode_len();
    if n == 0 {
        return Err(ExtractError::NotAnInteger);
    }
    let c0: char = s.get_char(0);
    let neg: bool = c0 == '-';
    let start: usize = if c0 == '-' || c0 == '+' {
        1
    } else {
        0
    };
    if start == n {
        assert(digits_part(label@).len() == 0);
        return Err(ExtractError::NotAnInteger);
    }
    let mut i: usize = start;
    while i < n
        invariant
            start <= i <= n,
            n == label@.len(),
            s@ == label@,
            start == 0 || start == 1,
            start == 1 ==> has_sign(label@),
            start == 0 ==> !has_sign(label@),
            forall|k: int| start <= k < i ==> is_dec_digit(#[trigger] label@[k]),
        decreases n - i,
    {
        let c = s.get_char(i);
        let code = c as u32;
        if code < 48 || code > 57 {
            proof {
                assert(!is_dec_digit(label@[i as int]));
                assert(digits_part(label@)[i - start] == label@[i as int]);
            }
            return Err(ExtractError::NotAnInteger);
        }
        i += 1;
    }
    proof {
        assert(digits_part(label@) =~= label@.subrange(start as int, n as int));
        assert(is_int_literal(label@)) by {
            assert(forall|k: int|
                0 <= k < digits_part(label@).len() ==> #[trigger] digits_part(label@)[k]
                    == label@[k + start]);
        }
    }
    let mut j: usize = start;
    while j < n && s.get_char(j) == '0'
        invariant
            start <= j <= n,
            n == label@.len(),
            s@ == label@,
            forall|k: int| start <= k < n ==> is_dec_digit(#[trigger] label@[k]),
            digits_value(label@.subrange(j as int, n as int)) == digits_value(
                label@.subrange(start as int, n as int),
            ),
        decreases n - j,
    {
        proof {
            let t = label@.subrange(j as int, n as int);
            assert(all_digits(t)) by {
                assert(forall|k: int| 0 <= k < t.len() ==> #[trigger] t[k] == label@[k + j]);
            }
            assert(t[0] == label@[j as int]);
            lemma_digits_drop_leading_zero(t);
            assert(t.drop_first() =~= label@.subrange(j + 1, n as int));
        }
        j += 1;
    }
    let ghost digits = label@.subrange(start as int, n as int);
    let ghost tail = label@.subrange(j as int, n as int);
    proof {
        assert(all_digits(tail)) by {
            assert(forall|k: int| 0 <= k < tail.len() ==> #[trigger] tail[k] == label@[k + j]);
        }
    }
    if n - j > 19 {
        proof {
            assert(tail[0] == label@[j as int]);
            assert(tail[0] != '0');
            lemma_digits_value_msd(tail);
            lemma_pow10_mono(19, (tail.len() - 1) as nat);
            lemma_pow10_19();
            assert(digits_value(digits) >= 10_000_000_000_000_000_000);
            assert(int_literal_value(label@) > i64::MAX || int_literal_value(label@)
                < i64::MIN);
        }
        return Err(ExtractError::NotAnInteger);
    }
    let mut acc: u64 = 0;
    let mut k: usize = j;
    proof {
        lemma_pow10_19();
        assert(label@.subrange(j as int, j as int).len() == 0);
    }
    while k < n
        invariant
            j <= k <= n,
            n - j <= 19,
            n == label@.len(),
            s@ == label@,
            forall|k2: int| start <= k2 < n ==> is_dec_digit(#[trigger] label@[k2]),
            start <= j,
            acc == digits_value(label@.subrange(j as int, k as int)),
            acc < pow10((k - j) as nat),
            pow10(19) == 10_000_000_000_000_000_000,
        decreases n - k,
    {
        let c = s.get_char(k);
        let code = c as u32;
        proof {
            assert(is_dec_digit(label@[k as int]));
        }
        let d: u64 = (code - 48) as u64;
        proof {
            let pre = label@.subrange(j as int, k as int);
            let post = label@.subrange(j as int, (k + 1) as int);
            assert(post.drop_last() =~= pre);
            assert(post.last() == label@[k as int]);
            assert(digit_value(label@[k as int]) == d);
            assert(pow10(((k + 1) - j) as nat) == 10 * pow10((k - j) as nat));
            lemma_pow10_mono(((k + 1) - j) as nat, 19);
            assert(acc * 10 + d < pow10(((k + 1) - j) as nat));
        }
        acc = acc * 10 + d;
        k += 1;
    }
    proof {
        assert(label@.subrange(j as int, n as int) == tail);
        assert(digits_value(digits) == acc);
        assert(digits =~= digits_part(label@));
    }
    if neg {
        proof {
            assert(label@[0] == '-');
            assert(int_literal_value(label@) == -digits_value(digits_part(label@)));
        }
        if acc > 9_223_372_036_854_775_808u64 {
            return Err(ExtractError::NotAnInteger);
        }
        if acc == 9_223_372_036_854_775_808u64 {
            Ok(i64::MIN)
        } else {
            Ok(-(acc as i64))
        }
    } else {
        proof {
            assert(!(label@.len() > 0 && label@[0] == '-'));
            assert(int_literal_value(label@) == digits_value(digits_part(label@)));
        }
        if acc > 9_223_372_036_854_775_807u64 {
            return Err(ExtractError::NotAnInteger);
        }
        Ok(acc as i64)
    }
}

} // verus!
