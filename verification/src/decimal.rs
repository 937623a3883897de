//! Plain decimal numerals and their truncation to a 64-bit integer.
//!
//! A stored amount is an arbitrary-precision decimal, carried here as its
//! text: an optional `-`, one or more digits and, optionally, a `.` followed
//! by one or more digits.

use num_traits::cast::ToPrimitive;
use std::str::FromStr;
use vstd::prelude::*;
use vstd::string::*;

verus! {

pub open spec fn is_digit(c: char) -> bool {
    '0' <= c <= '9'
}

/// Length of the longest prefix of `s` made of digits only.
pub open spec fn digit_run(s: Seq<char>) -> nat
    decreases s.len(),
{
    if s.len() == 0 || !is_digit(s[0]) {
        0
    } else {
        1 + digit_run(s.skip(1))
    }
}

/// The numeral without its sign.
pub open spec fn magnitude(text: Seq<char>) -> Seq<char> {
    if text.len() > 0 && text[0] == '-' {
        text.skip(1)
    } else {
        text
    }
}

pub open spec fn is_negative(text: Seq<char>) -> bool {
    text.len() > 0 && text[0] == '-'
}

/// `text` is an optional `-`, digits, and optionally `.` and more digits.
pub open spec fn plain_decimal(text: Seq<char>) -> bool {
    let m = magnitude(text);
    let w = digit_run(m) as int;
    &&& w >= 1
    &&& (w == m.len() || (m[w] == '.' && m.len() > w + 1 && digit_run(m.skip(w + 1)) == m.len()
        - (w + 1)))
}

/// The digits before the decimal point.
pub open spec fn whole_digits(text: Seq<char>) -> Seq<char> {
    let m = magnitude(text);
    m.take(digit_run(m) as int)
}

/// The number that a run of digits denotes in base ten.
pub open spec fn digits_value(s: Seq<char>) -> nat
    decreases s.len(),
{
    if s.len() == 0 {
        0
    } else {
        digits_value(s.drop_last()) * 10 + ((s.last() as u32 - '0' as u32) as nat)
    }
}

/// The numeral's value with its fraction cut off, toward zero.
pub open spec fn whole_value(text: Seq<char>) -> int {
    if is_negative(text) {
        -(digits_value(whole_digits(text)) as int)
    } else {
        digits_value(whole_digits(text)) as int
    }
}

/// The truncated value as an `i64`, where it fits.
pub open spec fn truncated(text: Seq<char>) -> Option<i64> {
    let v = whole_value(text);
    if i64::MIN <= v <= i64::MAX {
        Some(v as i64)
    } else {
        None
    }
}

/// What `decimal_to_i64` returns: the truncation of a plain decimal that
/// fits, and nothing for any other text.
pub open spec fn decimal_i64(text: Seq<char>) -> Option<i64> {
    if plain_decimal(text) {
        truncated(text)
    } else {
        None
    }
}

/// A run of `k` digits that ends at the end of `s` or before a non-digit is
/// the digit run of `s`.
pub proof fn lemma_digit_run(s: Seq<char>, k: int)
    requires
        0 <= k <= s.len(),
        forall|j: int| 0 <= j < k ==> is_digit(#[trigger] s[j]),
        k == s.len() || !is_digit(s[k]),
    ensures
        digit_run(s) == k,
    decreases k,
{
    if k > 0 {
        let t = s.skip(1);
        assert forall|j: int| 0 <= j < k - 1 implies is_digit(#[trigger] t[j]) by {
            assert(t[j] == s[j + 1]);
        }
        lemma_digit_run(t, k - 1);
    }
}

/// The digit run lies within `s`, holds digits only, and stops at a non-digit.
pub proof fn lemma_digit_run_bounds(s: Seq<char>)
    ensures
        digit_run(s) <= s.len(),
        forall|j: int| 0 <= j < digit_run(s) ==> is_digit(#[trigger] s[j]),
        digit_run(s) < s.len() ==> !is_digit(s[digit_run(s) as int]),
    decreases s.len(),
{
    if s.len() > 0 && is_digit(s[0]) {
        let t = s.skip(1);
        lemma_digit_run_bounds(t);
        assert forall|j: int| 0 <= j < digit_run(s) implies is_digit(#[trigger] s[j]) by {
            if j > 0 {
                assert(s[j] == t[j - 1]);
            }
        }
        if digit_run(s) < s.len() {
            assert(s[digit_run(s) as int] == t[digit_run(t) as int]);
        }
    }
}

/// A plain decimal holds ASCII characters only.
pub proof fn lemma_plain_decimal_is_ascii(text: Seq<char>)
    requires
        plain_decimal(text),
    ensures
        vstd::utf8::is_ascii_chars(text),
{
    let m = magnitude(text);
    let w = digit_run(m) as int;
    let off: int = if is_negative(text) { 1 } else { 0 };
    lemma_digit_run_bounds(m);
    assert forall|i: int| 0 <= i < text.len() implies '\0' <= #[trigger] text[i] <= '\u{7f}' by {
        if i >= off {
            let j = i - off;
            assert(m[j] == text[i]);
            if j < w {
                assert(is_digit(m[j]));
            } else if j > w {
                let f = m.skip(w + 1);
                lemma_digit_run_bounds(f);
                assert(f[j - (w + 1)] == m[j]);
                assert(is_digit(f[j - (w + 1)]));
            }
        }
    }
}

/// Whether `text` is a plain decimal.
pub fn is_plain_decimal(text: &str) -> (b: bool)
    ensures
        b == plain_decimal(text@),
{
    if !text.is_ascii() {
        proof {
            if plain_decimal(text@) {
                lemma_plain_decimal_is_ascii(text@);
            }
        }
        return false;
    }
    let n: usize = text.unicode_len();
    let start: usize = if n > 0 && text.get_ascii(0) == 45u8 { 1 } else { 0 };
    let ghost m = magnitude(text@);
    assert(m =~= text@.skip(start as int));
    let mut i: usize = start;
    while i < n && 48u8 <= text.get_ascii(i) && text.get_ascii(i) <= 57u8
        invariant
            start <= i <= n,
            n == text@.len(),
            text.is_ascii(),
            m == text@.skip(start as int),
            forall|j: int| 0 <= j < i - start ==> is_digit(#[trigger] m[j]),
        decreases n - i,
    {
        i = i + 1;
    }
    proof {
        lemma_digit_run(m, i - start);
    }
    if i == start {
        return false;
    }
    if i == n {
        return true;
    }
    if text.get_ascii(i) != 46u8 {
        return false;
    }
    let frac: usize = i + 1;
    let ghost f = m.skip(frac - start);
    assert(f =~= text@.skip(frac as int));
    let mut k: usize = frac;
    while k < n && 48u8 <= text.get_ascii(k) && text.get_ascii(k) <= 57u8
        invariant
            frac <= k <= n,
            n == text@.len(),
            text.is_ascii(),
            f == text@.skip(frac as int),
            forall|j: int| 0 <= j < k - frac ==> is_digit(#[trigger] f[j]),
        decreases n - k,
    {
        k = k + 1;
    }
    proof {
        lemma_digit_run(f, k - frac);
    }
    k > frac && k == n
}

/// Calls `BigDecimal::from_str` on the numeral and `ToPrimitive::to_i64` on
/// what it parsed; `BigDecimal` is the type of the `bigdecimal` crate, as
/// `sqlx::types` hands it on. For a plain decimal the parse succeeds with all the digits
/// as the unscaled integer and the number of digits after the point as the
/// scale; `to_i64` divides by ten to the scale, rounding toward zero, and
/// gives the quotient where it fits in an `i64`, and nothing where it does not.
#[verifier::external_body]
fn truncate_plain_decimal(text: &str) -> (r: Option<i64>)
    requires
        plain_decimal(text@),
    ensures
        r == truncated(text@),
{
    match sqlx::types::BigDecimal::from_str(text) {
        Ok(d) => d.to_i64(),
        Err(_) => None,
    }
}

/// Truncates a decimal numeral to an `i64`: the value of the digits before
/// the point, with the sign, where `text` is a plain decimal and that value
/// fits; `None` otherwise.
pub fn decimal_to_i64(text: &str) -> (r: Option<i64>)
    ensures
        r == decimal_i64(text@),
{
    if is_plain_decimal(text) {
        truncate_plain_decimal(text)
    } else {
        None
    }
}

/// The character of one decimal digit.
pub open spec fn digit_char(d: nat) -> char {
    if d == 0 {
        '0'
    } else if d == 1 {
        '1'
    } else if d == 2 {
        '2'
    } else if d == 3 {
        '3'
    } else if d == 4 {
        '4'
    } else if d == 5 {
        '5'
    } else if d == 6 {
        '6'
    } else if d == 7 {
        '7'
    } else if d == 8 {
        '8'
    } else {
        '9'
    }
}

/// The decimal numeral of `n`, without leading zeros.
pub open spec fn decimal_text(n: nat) -> Seq<char>
    decreases n,
{
    if n < 10 {
        seq![digit_char(n)]
    } else {
        decimal_text(n / 10).push(digit_char(n % 10))
    }
}

/// A numeral made by `decimal_text` is a run of digits that reads back as
/// the number it was made from.
pub proof fn lemma_decimal_text_reads_back(n: nat)
    ensures
        decimal_text(n).len() >= 1,
        digit_run(decimal_text(n)) == decimal_text(n).len(),
        digits_value(decimal_text(n)) == n,
    decreases n,
{
    let t = decimal_text(n);
    if n < 10 {
        assert(t.drop_last() =~= Seq::<char>::empty());
        assert(digits_value(t.drop_last()) == 0);
        assert(t.last() == digit_char(n));
        lemma_digit_run(t, 1);
    } else {
        let head = decimal_text(n / 10);
        lemma_decimal_text_reads_back(n / 10);
        assert(t.drop_last() =~= head);
        assert(t.last() == digit_char(n % 10));
        lemma_digit_run_bounds(head);
        assert forall|j: int| 0 <= j < t.len() implies is_digit(#[trigger] t[j]) by {
            if j < head.len() {
                assert(t[j] == head[j]);
            }
        }
        lemma_digit_run(t, t.len() as int);
    }
}

/// The text of one decimal digit.
fn digit_text(d: u64) -> (s: &'static str)
    requires
        d < 10,
    ensures
        s@ == seq![digit_char(d as nat)],
{
    proof {
        reveal_strlit("0");
        reveal_strlit("1");
        reveal_strlit("2");
        reveal_strlit("3");
        reveal_strlit("4");
        reveal_strlit("5");
        reveal_strlit("6");
        reveal_strlit("7");
        reveal_strlit("8");
        reveal_strlit("9");
    }
    let s = if d == 0 {
        "0"
    } else if d == 1 {
        "1"
    } else if d == 2 {
        "2"
    } else if d == 3 {
        "3"
    } else if d == 4 {
        "4"
    } else if d == 5 {
        "5"
    } else if d == 6 {
        "6"
    } else if d == 7 {
        "7"
    } else if d == 8 {
        "8"
    } else {
        "9"
    };
    assert(s@ =~= seq![digit_char(d as nat)]);
    s
}

/// Writes `n` as a decimal numeral.
pub fn format_decimal(n: u64) -> (s: String)
    ensures
        s@ == decimal_text(n as nat),
    decreases n,
{
    if n < 10 {
        digit_text(n).to_owned()
    } else {
        let mut s = format_decimal(n / 10);
        s.append(digit_text(n % 10));
        assert(s@ =~= decimal_text(n as nat));
        s
    }
}

} // verus!
