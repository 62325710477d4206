//! Runs of decimal digits and the numbers they write.

use vstd::arithmetic::div_mod::{lemma_div_denominator, lemma_div_multiples_vanish_fancy};
use vstd::arithmetic::power::{lemma_pow0, lemma_pow_positive, pow};
use vstd::prelude::*;
use vstd::std_specs::iter::IteratorSpec;
use vstd::string::StringExecFns;

verus! {

/// The ten decimal digits.
pub open spec fn is_digit(c: char) -> bool {
    '0' <= c && c <= '9'
}

/// The number that a decimal digit stands for.
pub open spec fn digit_of(c: char) -> int {
    c as int - '0' as int
}

/// The natural number written by a run of decimal digits, most significant
/// first; the empty run writes zero.
pub open spec fn digits_value(s: Seq<char>) -> int
    decreases s.len(),
{
    if s.len() == 0 {
        0
    } else {
        10 * digits_value(s.drop_last()) + digit_of(s.last())
    }
}

/// The first index at or after `from` that holds no decimal digit.
pub open spec fn digits_end(s: Seq<char>, from: int) -> int
    decreases s.len() - from,
{
    if 0 <= from < s.len() && is_digit(s[from]) {
        digits_end(s, from + 1)
    } else {
        from
    }
}

/// Every character of the run is a decimal digit.
pub open spec fn all_digits(s: Seq<char>) -> bool {
    forall|i: int| 0 <= i < s.len() ==> is_digit(#[trigger] s[i])
}

/// Between `from` and where its digits end stand digits only, and no digit
/// stands at the end.
pub proof fn lemma_digits_end_bounds(s: Seq<char>, from: int)
    requires
        0 <= from <= s.len(),
    ensures
        from <= digits_end(s, from) <= s.len(),
        forall|i: int| from <= i < digits_end(s, from) ==> is_digit(#[trigger] s[i]),
        digits_end(s, from) < s.len() ==> !is_digit(s[digits_end(s, from)]),
    decreases s.len() - from,
{
    if from < s.len() && is_digit(s[from]) {
        lemma_digits_end_bounds(s, from + 1);
    }
}

/// A run of digits writes a natural number below ten to the power of its
/// length.
pub proof fn lemma_digits_value_bounds(s: Seq<char>)
    requires
        all_digits(s),
    ensures
        0 <= digits_value(s) < pow(10, s.len()),
    decreases s.len(),
{
    if s.len() == 0 {
        lemma_pow0(10);
    } else {
        lemma_digits_value_bounds(s.drop_last());
        assert(pow(10, s.len()) == 10 * pow(10, (s.len() - 1) as nat)) by {
            reveal(pow);
        }
    }
}

/// One digit more at the end: ten times the number so far, plus the digit.
pub proof fn lemma_take_step(s: Seq<char>, k: int)
    requires
        0 <= k < s.len(),
    ensures
        digits_value(s.take(k + 1)) == 10 * digits_value(s.take(k)) + digit_of(s[k]),
{
    assert(s.take(k + 1).drop_last() =~= s.take(k));
}

/// A longer prefix of a run of digits writes no smaller a number.
pub proof fn lemma_prefix_grows(s: Seq<char>, k: int, m: int)
    requires
        all_digits(s),
        0 <= k <= m <= s.len(),
    ensures
        0 <= digits_value(s.take(k)) <= digits_value(s.take(m)),
    decreases m - k,
{
    lemma_digits_value_bounds(s.take(k));
    if k < m {
        lemma_prefix_grows(s, k, m - 1);
        lemma_take_step(s, m - 1);
    }
}

/// Dividing by a power of ten drops that many digits from the end.
pub proof fn lemma_drop_low_digits(s: Seq<char>, k: int)
    requires
        all_digits(s),
        0 <= k <= s.len(),
    ensures
        digits_value(s) / pow(10, (s.len() - k) as nat) == digits_value(s.take(k)),
    decreases s.len() - k,
{
    if k == s.len() {
        lemma_pow0(10);
        assert(s.take(k) =~= s);
    } else {
        let t = s.drop_last();
        let low = pow(10, (t.len() - k) as nat);
        lemma_pow_positive(10, (t.len() - k) as nat);
        assert(pow(10, (s.len() - k) as nat) == 10 * low) by {
            reveal(pow);
        }
        lemma_digits_value_bounds(s);
        lemma_div_denominator(digits_value(s), 10, low);
        lemma_div_multiples_vanish_fancy(digits_value(t), digit_of(s.last()), 10);
        lemma_drop_low_digits(t, k);
        assert(t.take(k) =~= s.take(k));
    }
}

/// The digit that stands for a number below ten.
pub open spec fn digit_char(d: int) -> char {
    seq!['0', '1', '2', '3', '4', '5', '6', '7', '8', '9'][d]
}

/// The last `count` digits of a number, most significant first.
pub open spec fn fixed_digits(n: int, count: nat) -> Seq<char>
    decreases count,
{
    if count == 0 {
        Seq::empty()
    } else {
        fixed_digits(n / 10, (count - 1) as nat).push(digit_char(n % 10))
    }
}

/// The digits of a natural number, most significant first, without leading
/// zeros; zero is written with one digit.
pub open spec fn whole_digits(n: int) -> Seq<char>
    decreases n,
{
    if n < 10 {
        seq![digit_char(n)]
    } else {
        whole_digits(n / 10).push(digit_char(n % 10))
    }
}

/// A run of digits without the zeros at its end.
pub open spec fn trimmed(s: Seq<char>) -> Seq<char>
    decreases s.len(),
{
    if s.len() > 0 && s.last() == '0' {
        trimmed(s.drop_last())
    } else {
        s
    }
}

/// The digit for a number stands for that number.
pub proof fn lemma_digit_char(d: int)
    requires
        0 <= d < 10,
    ensures
        is_digit(digit_char(d)),
        digit_of(digit_char(d)) == d,
{
}

/// A number below ten to the `count` is written by its last `count` digits.
pub proof fn lemma_fixed_digits(n: int, count: nat)
    requires
        0 <= n < pow(10, count),
    ensures
        fixed_digits(n, count).len() == count,
        all_digits(fixed_digits(n, count)),
        digits_value(fixed_digits(n, count)) == n,
    decreases count,
{
    if count == 0 {
        lemma_pow0(10);
    } else {
        assert(pow(10, count) == 10 * pow(10, (count - 1) as nat)) by {
            reveal(pow);
        }
        lemma_fixed_digits(n / 10, (count - 1) as nat);
        lemma_digit_char(n % 10);
        assert(fixed_digits(n, count).drop_last() =~= fixed_digits(n / 10, (count - 1) as nat));
    }
}

/// The digits of a natural number write that number.
pub proof fn lemma_whole_digits(n: int)
    requires
        0 <= n,
    ensures
        whole_digits(n).len() >= 1,
        all_digits(whole_digits(n)),
        digits_value(whole_digits(n)) == n,
    decreases n,
{
    if n < 10 {
        lemma_digit_char(n);
        assert(whole_digits(n).drop_last() =~= Seq::<char>::empty());
        assert(digits_value(Seq::<char>::empty()) == 0);
        assert(whole_digits(n).last() == digit_char(n));
    } else {
        lemma_whole_digits(n / 10);
        lemma_digit_char(n % 10);
        assert(whole_digits(n).drop_last() =~= whole_digits(n / 10));
        assert(whole_digits(n).last() == digit_char(n % 10));
    }
}

/// The digits of two runs written one after the other: the first run's
/// number moves up by as many places as the second run has digits.
pub proof fn lemma_digits_value_joined(a: Seq<char>, b: Seq<char>)
    ensures
        digits_value(a + b) == digits_value(a) * pow(10, b.len()) + digits_value(b),
    decreases b.len(),
{
    if b.len() == 0 {
        lemma_pow0(10);
        assert(a + b =~= a);
    } else {
        let low = pow(10, (b.len() - 1) as nat);
        lemma_digits_value_joined(a, b.drop_last());
        assert((a + b).drop_last() =~= a + b.drop_last());
        assert(pow(10, b.len()) == 10 * low) by {
            reveal(pow);
        }
        assert(10 * (digits_value(a) * low) == digits_value(a) * (10 * low)) by (nonlinear_arith);
    }
}

/// Zeros at the end of a run of digits are a power of ten in its number.
pub proof fn lemma_trimmed(s: Seq<char>)
    requires
        all_digits(s),
    ensures
        all_digits(trimmed(s)),
        trimmed(s).len() <= s.len(),
        trimmed(s).len() > 0 ==> trimmed(s).last() != '0',
        digits_value(trimmed(s)) * pow(10, (s.len() - trimmed(s).len()) as nat) == digits_value(s),
    decreases s.len(),
{
    if s.len() > 0 && s.last() == '0' {
        let rest = s.drop_last();
        lemma_trimmed(rest);
        let gap = (rest.len() - trimmed(rest).len()) as nat;
        assert(pow(10, gap + 1) == 10 * pow(10, gap)) by {
            reveal(pow);
        }
        assert(digits_value(trimmed(rest)) * (10 * pow(10, gap)) == 10 * (digits_value(
            trimmed(rest),
        ) * pow(10, gap))) by (nonlinear_arith);
    } else {
        lemma_pow0(10);
    }
}

/// The characters of a text, in order.
pub fn text_chars(text: &str) -> (chars: Vec<char>)
    ensures
        chars@ == text@,
{
    let mut chars: Vec<char> = Vec::new();
    let mut rest = text.chars();
    loop
        invariant
            chars@ + rest.remaining() == text@,
            rest.obeys_prophetic_iter_laws(),
            rest.decrease() is Some,
        decreases rest.decrease()->0,
    {
        match rest.next() {
            Some(c) => chars.push(c),
            None => {
                return chars;
            },
        }
    }
}

/// The digit for a number below ten.
pub(crate) fn digit_glyph(d: u8) -> (c: char)
    requires
        d < 10,
    ensures
        c == digit_char(d as int),
{
    (48u8 + d) as char
}

/// Writes a natural number in digits, without leading zeros.
pub(crate) fn whole_glyphs(n: u128) -> (digits: Vec<char>)
    ensures
        digits@ == whole_digits(n as int),
{
    let mut digits: Vec<char> = Vec::new();
    let mut rest: u128 = n;
    while rest >= 10
        invariant
            whole_digits(n as int) == whole_digits(rest as int) + digits@,
        decreases rest,
    {
        let ghost before = digits@;
        digits.insert(0, digit_glyph((rest % 10) as u8));
        proof {
            assert(whole_digits(rest as int) + before =~= whole_digits(rest as int / 10)
                + digits@);
        }
        rest = rest / 10;
    }
    let ghost before = digits@;
    digits.insert(0, digit_glyph(rest as u8));
    proof {
        assert(whole_digits(rest as int) + before =~= digits@);
    }
    digits
}

/// Writes the last `count` digits of a natural number.
pub(crate) fn fixed_glyphs(n: u128, count: usize) -> (digits: Vec<char>)
    ensures
        digits@ == fixed_digits(n as int, count as nat),
{
    let mut digits: Vec<char> = Vec::new();
    let mut rest: u128 = n;
    let mut left: usize = count;
    while left > 0
        invariant
            fixed_digits(n as int, count as nat) == fixed_digits(rest as int, left as nat)
                + digits@,
        decreases left,
    {
        let ghost before = digits@;
        digits.insert(0, digit_glyph((rest % 10) as u8));
        proof {
            assert(fixed_digits(rest as int, left as nat) + before =~= fixed_digits(
                rest as int / 10,
                (left - 1) as nat,
            ) + digits@);
        }
        rest = rest / 10;
        left = left - 1;
    }
    proof {
        assert(fixed_digits(rest as int, 0) + digits@ =~= digits@);
    }
    digits
}

/// Takes the zeros off the end of a run of digits.
pub(crate) fn trim_zeros(digits: &mut Vec<char>)
    ensures
        final(digits)@ == trimmed(old(digits)@),
{
    while digits.len() > 0 && digits[digits.len() - 1] == '0'
        invariant
            trimmed(digits@) == trimmed(old(digits)@),
        decreases digits.len(),
    {
        digits.pop();
    }
}

/// The characters that the text of a number is written in.
pub open spec fn is_glyph(c: char) -> bool {
    is_digit(c) || c == '-' || c == '.'
}

/// A text of one character.
fn glyph_text(c: char) -> (text: &'static str)
    requires
        is_glyph(c),
    ensures
        text@ == seq![c],
{
    proof {
        reveal_strlit("0");
        reveal_strlit("1");
        reveal_strlit("2");
        reveal_strlit("3");
        reveal_strlit("4");
        reveal_strlit("5");
        reveal_strlit("6");
        reveal_strlit("7");
        reveal_strlit("8");
        reveal_strlit("9");
        reveal_strlit("-");
        reveal_strlit(".");
    }
    let text = match c {
        '0' => "0",
        '1' => "1",
        '2' => "2",
        '3' => "3",
        '4' => "4",
        '5' => "5",
        '6' => "6",
        '7' => "7",
        '8' => "8",
        '9' => "9",
        '-' => "-",
        _ => ".",
    };
    assert(text@ =~= seq![c]);
    text
}

/// The text made of the given characters.
pub(crate) fn glyphs_text(chars: &Vec<char>) -> (text: String)
    requires
        forall|i: int| 0 <= i < chars.len() ==> is_glyph(#[trigger] chars[i]),
    ensures
        text@ == chars@,
{
    let mut text = String::new();
    let mut at: usize = 0;
    while at < chars.len()
        invariant
            at <= chars.len(),
            forall|i: int| 0 <= i < chars.len() ==> is_glyph(#[trigger] chars[i]),
            text@ == chars@.take(at as int),
        decreases chars.len() - at,
    {
        text.append(glyph_text(chars[at]));
        at = at + 1;
        proof {
            assert(text@ =~= chars@.take(at as int));
        }
    }
    proof {
        assert(chars@.take(at as int) =~= chars@);
    }
    text
}

/// The number that a digit stands for.
pub(crate) fn digit_number(c: char) -> (d: u8)
    requires
        is_digit(c),
    ensures
        d == digit_of(c),
{
    (c as u32 - '0' as u32) as u8
}

/// Steps over the digits that start at `from`.
pub(crate) fn skip_digits(chars: &Vec<char>, from: usize) -> (end: usize)
    requires
        from <= chars.len(),
    ensures
        end == digits_end(chars@, from as int),
        from <= end <= chars.len(),
{
    let mut end: usize = from;
    while end < chars.len() && '0' <= chars[end] && chars[end] <= '9'
        invariant
            from <= end <= chars.len(),
            digits_end(chars@, from as int) == digits_end(chars@, end as int),
        decreases chars.len() - end,
    {
        end = end + 1;
    }
    end
}

} // verus!
