//! Fixed-point decimal numbers.
//!
//! A [`Decimal`] counts units of ten to the minus eighteenth, so that the
//! arithmetic on coordinates and scale factors is exact integer arithmetic.
//! Its range goes past that of a single-precision float; what a text writes
//! beyond it is held at the end of the range.

use vstd::arithmetic::div_mod::{
    lemma_basic_div, lemma_fundamental_div_mod, lemma_fundamental_div_mod_converse, lemma_mod_bound,
};
use vstd::arithmetic::mul::{lemma_mul_inequality, lemma_mul_is_associative};
use vstd::arithmetic::power::{
    lemma_pow0, lemma_pow1, lemma_pow_adds, lemma_pow_increases, lemma_pow_positive, pow,
};
use vstd::prelude::*;

use crate::digits::{
    all_digits, digit_number, digit_of, digits_value, fixed_digits, fixed_glyphs, glyphs_text,
    lemma_digits_end_bounds, lemma_digits_value_bounds, lemma_digits_value_joined,
    lemma_drop_low_digits, lemma_fixed_digits, lemma_prefix_grows, lemma_take_step, lemma_trimmed,
    lemma_whole_digits, text_chars, trim_zeros, trimmed, whole_digits, whole_glyphs,
};
use crate::literal::{
    exponent_size, gather_digits, lay_out, lemma_parts_read_back, literal_of, Literal,
    NumberParts, EXPONENT_CAP,
};

verus! {

/// Units in one whole: ten to the eighteenth.
pub const UNITS_PER_ONE: i128 = 1_000_000_000_000_000_000;

/// Every `Decimal` is smaller in magnitude than this many units. The limit,
/// 3.4028235 times ten to the thirty-eighth in whole ones, lies just above
/// the largest number that a single-precision float holds.
pub open spec fn unit_limit() -> int {
    340_282_350_000_000_000_000_000_000_000_000_000_000_000_000_000_000_000_000int
}

/// A `Decimal` keeps its count of units in two parts: so many times ten to
/// the nineteenth, and a rest below that.
pub open spec fn joined(high: int, low: int) -> int {
    high * 10_000_000_000_000_000_000 + low
}

/// Ten to the nineteenth: where the low part of a count ends.
const LOW_END: u128 = 10_000_000_000_000_000_000;

/// The high part of every count is below this in magnitude: the limit in
/// units, over `LOW_END`.
const HIGH_END: u128 = 34_028_235_000_000_000_000_000_000_000_000_000_000;

/// Counts that fit a machine integer with room to spare are below this in
/// magnitude: ten to the thirty-eighth.
pub const PLAIN_END: i128 = 100_000_000_000_000_000_000_000_000_000_000_000_000;

/// Decimal places that a `Decimal` keeps.
pub open spec fn fraction_digits() -> int {
    18
}

/// The units of a literal up to the eighteenth decimal place, with what lies
/// beyond it cut off.
pub open spec fn literal_floor(l: Literal) -> int {
    let shift = fraction_digits() + l.exponent - l.fraction_len;
    if shift >= 0 {
        digits_value(l.digits) * pow(10, shift as nat)
    } else {
        digits_value(l.digits) / pow(10, (-shift) as nat)
    }
}

/// Whether the nineteenth decimal place of a literal holds five or more.
pub open spec fn rounds_up(l: Literal) -> bool {
    let shift = fraction_digits() + l.exponent - l.fraction_len;
    shift < 0 && (digits_value(l.digits) / pow(10, (-shift - 1) as nat)) % 10 >= 5
}

/// The units that a literal comes to: its value times ten to the eighteenth,
/// rounded to the nearest whole count, a half away from zero.
pub open spec fn literal_magnitude(l: Literal) -> int {
    if rounds_up(l) {
        literal_floor(l) + 1
    } else {
        literal_floor(l)
    }
}

/// The units of a literal with its sign.
pub open spec fn literal_units(l: Literal) -> int {
    if l.negative {
        -literal_magnitude(l)
    } else {
        literal_magnitude(l)
    }
}

/// A count of units that a `Decimal` can hold.
pub open spec fn in_range(units: int) -> bool {
    -unit_limit() < units < unit_limit()
}

/// A count held within the range: one beyond it becomes the last count
/// within, on its side of zero.
pub open spec fn saturated(units: int) -> int {
    if units >= unit_limit() {
        unit_limit() - 1
    } else if units <= -unit_limit() {
        1 - unit_limit()
    } else {
        units
    }
}

/// The units that a text stands for, where it is a decimal number: those of
/// the number, held within the range of a `Decimal`.
pub open spec fn text_units(s: Seq<char>) -> Option<int> {
    match literal_of(s) {
        None => None,
        Some(l) => Some(saturated(literal_units(l))),
    }
}

/// A count that `Decimal::units` hands out as a machine integer.
pub open spec fn is_plain(units: int) -> bool {
    -PLAIN_END < units < PLAIN_END
}

/// The text of a count of units: a minus sign where the count is below zero,
/// the whole part without leading zeros, and, where the number is not whole,
/// a point and the decimal places up to the last that is not zero.
pub open spec fn units_text(units: int) -> Seq<char> {
    let magnitude = if units < 0 { -units } else { units };
    let fraction = trimmed(fixed_digits(magnitude % (UNITS_PER_ONE as int), 18));
    (if units < 0 { seq!['-'] } else { Seq::empty() }) + whole_digits(
        magnitude / (UNITS_PER_ONE as int),
    ) + (if fraction.len() > 0 { seq!['.'] + fraction } else { Seq::empty() })
}

/// A number's text reads back as the number.
pub proof fn lemma_text_reads_back(units: int)
    requires
        in_range(units),
    ensures
        text_units(units_text(units)) == Some(units),
{
    let unit = UNITS_PER_ONE as int;
    let magnitude = if units < 0 { -units } else { units };
    let whole = magnitude / unit;
    let rest = magnitude % unit;
    lemma_limit_is_power();
    lemma_fundamental_div_mod(magnitude, unit);
    lemma_mod_bound(magnitude, unit);
    assert(0 <= whole) by (nonlinear_arith)
        requires
            magnitude == unit * whole + rest,
            0 <= magnitude,
            rest < unit,
            0 < unit,
    ;
    lemma_whole_digits(whole);
    lemma_fixed_digits(rest, 18);
    lemma_trimmed(fixed_digits(rest, 18));
    let fraction = trimmed(fixed_digits(rest, 18));
    let parts = NumberParts {
        sign: if units < 0 { Some('-') } else { None },
        whole: whole_digits(whole),
        fraction: if fraction.len() > 0 { Some(fraction) } else { None },
        exponent: None,
    };
    assert(parts.fraction_digits() =~= fraction);
    assert(parts.text() =~= units_text(units));
    lemma_parts_read_back(parts);
    lemma_digits_value_joined(whole_digits(whole), fraction);
    let gap = (18 - fraction.len()) as nat;
    lemma_pow_adds(10, fraction.len(), gap);
    assert((whole * pow(10, fraction.len()) + digits_value(fraction)) * pow(10, gap) == whole * (
    pow(10, fraction.len()) * pow(10, gap)) + digits_value(fraction) * pow(10, gap))
        by (nonlinear_arith);
    assert(whole * unit == unit * whole) by (nonlinear_arith);
    assert(literal_magnitude(parts.literal()) == magnitude);
}

/// The mean of two counts, rounded down to a whole count.
pub open spec fn mean_floor(a: int, b: int) -> int {
    (a + b) / 2
}

/// The rounded mean lies at most half a unit below the mean, and on it where
/// the two counts have a whole mean.
pub proof fn lemma_mean_floor_is_mean(a: int, b: int)
    ensures
        2 * mean_floor(a, b) <= a + b <= 2 * mean_floor(a, b) + 1,
        (a + b) % 2 == 0 ==> 2 * mean_floor(a, b) == a + b,
        a <= b ==> a <= mean_floor(a, b) <= b,
{
}

/// The number written by the first `keep` of the digits, followed by zeros
/// where `keep` is more than their count.
spec fn kept_value(digits: Seq<char>, keep: int) -> int {
    if keep <= 0 {
        0
    } else if keep <= digits.len() {
        digits_value(digits.take(keep))
    } else {
        digits_value(digits) * pow(10, (keep - digits.len()) as nat)
    }
}

proof fn lemma_limit_is_power()
    ensures
        pow(10, 18) == UNITS_PER_ONE,
        pow(10, 58) >= unit_limit(),
{
    lemma_pow1(10);
    lemma_pow_adds(10, 1, 1);
    assert(pow(10, 2) == 100);
    lemma_pow_adds(10, 2, 2);
    assert(pow(10, 4) == 10_000);
    lemma_pow_adds(10, 4, 4);
    assert(pow(10, 8) == 100_000_000);
    lemma_pow_adds(10, 8, 8);
    assert(pow(10, 16) == 10_000_000_000_000_000);
    lemma_pow_adds(10, 16, 2);
    assert(pow(10, 18) == 1_000_000_000_000_000_000);
    lemma_pow_adds(10, 18, 18);
    assert(pow(10, 36) == 1_000_000_000_000_000_000_000_000_000_000_000_000);
    lemma_pow_adds(10, 36, 18);
    lemma_pow_adds(10, 54, 4);
    assert(pow(10, 58) == 10_000 * pow(10, 54));
}

/// The units of a literal are its digits, kept up to the eighteenth decimal
/// place.
proof fn lemma_magnitude_is_kept(l: Literal)
    requires
        all_digits(l.digits),
    ensures
        literal_floor(l) == kept_value(
            l.digits,
            l.digits.len() + fraction_digits() + l.exponent - l.fraction_len,
        ),
        rounds_up(l) == next_is_high(
            l.digits,
            l.digits.len() + fraction_digits() + l.exponent - l.fraction_len,
        ),
{
    let shift = fraction_digits() + l.exponent - l.fraction_len;
    let keep = l.digits.len() + shift;
    if shift < 0 {
        let beyond = (-shift - 1) as nat;
        if keep < 0 {
            lemma_digits_value_bounds(l.digits);
            lemma_pow_increases(10, l.digits.len(), beyond);
            lemma_basic_div(digits_value(l.digits), pow(10, beyond));
        } else {
            lemma_drop_low_digits(l.digits, keep + 1);
            lemma_take_step(l.digits, keep);
            lemma_prefix_grows(l.digits, keep, keep);
        }
    }
    if shift == 0 {
        lemma_pow0(10);
        assert(l.digits.take(keep) =~= l.digits);
    } else if shift < 0 {
        if keep <= 0 {
            lemma_digits_value_bounds(l.digits);
            lemma_pow_increases(10, l.digits.len(), (-shift) as nat);
            lemma_basic_div(digits_value(l.digits), pow(10, (-shift) as nat));
        } else {
            lemma_drop_low_digits(l.digits, keep);
        }
    }
}

/// Whether the digit behind the first `keep` is five or more.
spec fn next_is_high(digits: Seq<char>, keep: int) -> bool {
    0 <= keep < digits.len() && digit_of(digits[keep]) >= 5
}

/// A product with a power of ten is no smaller than the other factor.
proof fn lemma_scaled_up(n: int, e: nat)
    requires
        0 <= n,
    ensures
        n <= n * pow(10, e),
{
    lemma_pow_positive(10, e);
    lemma_mul_inequality(1, pow(10, e), n);
}

/// Holding an exponent at the cap changes no outcome: what was zero stays
/// zero, and what was out of range stays out of range.
proof fn lemma_cap_keeps_outcome(digits: Seq<char>, held: int, exponent: int, capped: int)
    requires
        all_digits(digits),
        0 <= held <= digits.len() <= usize::MAX,
        capped == if exponent > EXPONENT_CAP {
            EXPONENT_CAP as int
        } else if exponent < -EXPONENT_CAP {
            -EXPONENT_CAP as int
        } else {
            exponent
        },
    ensures
        ({
            let exact = kept_value(digits, held + fraction_digits() + exponent);
            let found = kept_value(digits, held + fraction_digits() + capped);
            exact == found || (exact >= unit_limit() && found >= unit_limit())
        }),
        next_is_high(digits, held + fraction_digits() + exponent) == next_is_high(
            digits,
            held + fraction_digits() + capped,
        ),
{
    let n = digits_value(digits);
    lemma_digits_value_bounds(digits);
    if exponent > EXPONENT_CAP {
        let exact_zeros = (held + fraction_digits() + exponent - digits.len()) as nat;
        let found_zeros = (held + fraction_digits() + capped - digits.len()) as nat;
        lemma_limit_is_power();
        lemma_pow_increases(10, 58, exact_zeros);
        lemma_pow_increases(10, 58, found_zeros);
        if n > 0 {
            lemma_mul_inequality(1, n, pow(10, exact_zeros));
            lemma_mul_inequality(1, n, pow(10, found_zeros));
            assert(n * pow(10, exact_zeros) == pow(10, exact_zeros) * n) by (nonlinear_arith);
            assert(n * pow(10, found_zeros) == pow(10, found_zeros) * n) by (nonlinear_arith);
        } else {
            assert(n * pow(10, exact_zeros) == 0) by (nonlinear_arith)
                requires
                    n == 0,
            ;
            assert(n * pow(10, found_zeros) == 0) by (nonlinear_arith)
                requires
                    n == 0,
            ;
        }
    }
}

/// A fixed-point decimal number: a whole count of units of ten to the minus
/// eighteenth, smaller in magnitude than `unit_limit`.
#[derive(Clone, Copy, Debug, PartialEq, Eq)]
pub struct Decimal {
    high: i128,
    low: u64,
}

impl View for Decimal {
    type V = int;

    /// The number, counted in units of ten to the minus eighteenth.
    closed spec fn view(&self) -> int {
        joined(self.high as int, self.low as int)
    }
}

/// Computes `kept_value` in two parts, or finds that it reaches the limit.
fn kept_units(digits: &Vec<char>, keep: i128) -> (parts: Option<(u128, u64)>)
    requires
        all_digits(digits@),
    ensures
        match parts {
            Some((high, low)) => joined(high as int, low as int) == kept_value(
                digits@,
                keep as int,
            ) && high < HIGH_END && low < LOW_END,
            None => kept_value(digits@, keep as int) >= unit_limit(),
        },
{
    if keep <= 0 {
        return Some((0, 0));
    }
    let whole_run = keep >= digits.len() as i128;
    let count: usize = if whole_run { digits.len() } else { keep as usize };
    let mut high: u128 = 0;
    let mut low: u64 = 0;
    let mut at: usize = 0;
    while at < count
        invariant
            at <= count <= digits.len(),
            keep > 0,
            whole_run ==> count == digits.len() && keep >= digits.len(),
            !whole_run ==> count == keep,
            all_digits(digits@),
            joined(high as int, low as int) == digits_value(digits@.take(at as int)),
            high < HIGH_END,
            low < LOW_END,
        decreases count - at,
    {
        proof {
            lemma_take_step(digits@, at as int);
        }
        let grown: u128 = low as u128 * 10 + digit_number(digits[at]) as u128;
        let carried: u128 = high * 10 + grown / LOW_END;
        low = (grown % LOW_END) as u64;
        at = at + 1;
        if carried >= HIGH_END {
            proof {
                lemma_prefix_grows(digits@, at as int, count as int);
                if whole_run {
                    assert(digits@.take(count as int) =~= digits@);
                    lemma_scaled_up(digits_value(digits@), (keep - digits.len()) as nat);
                }
            }
            return None;
        }
        high = carried;
    }
    if !whole_run {
        return Some((high, low));
    }
    proof {
        assert(digits@.take(count as int) =~= digits@);
        lemma_pow0(10);
    }
    if high == 0 && low == 0 {
        proof {
            assert(0 * pow(10, (keep - digits.len()) as nat) == 0) by (nonlinear_arith);
        }
        return Some((0, 0));
    }
    let mut zeros: i128 = keep - digits.len() as i128;
    while zeros > 0
        invariant
            0 <= zeros,
            0 < joined(high as int, low as int),
            high < HIGH_END,
            low < LOW_END,
            keep > 0,
            keep >= digits.len(),
            joined(high as int, low as int) * pow(10, zeros as nat) == kept_value(
                digits@,
                keep as int,
            ),
        decreases zeros,
    {
        let ghost before = joined(high as int, low as int);
        proof {
            assert(pow(10, zeros as nat) == 10 * pow(10, (zeros - 1) as nat)) by {
                reveal(pow);
            }
            lemma_mul_is_associative(before, 10, pow(10, (zeros - 1) as nat));
        }
        let grown: u128 = low as u128 * 10;
        let carried: u128 = high * 10 + grown / LOW_END;
        low = (grown % LOW_END) as u64;
        zeros = zeros - 1;
        proof {
            assert(joined(carried as int, low as int) == before * 10);
        }
        if carried >= HIGH_END {
            proof {
                lemma_scaled_up(before * 10, zeros as nat);
            }
            return None;
        }
        high = carried;
    }
    proof {
        assert(joined(high as int, low as int) * pow(10, 0) == joined(high as int, low as int))
            by (nonlinear_arith)
            requires
                pow(10, 0) == 1,
        ;
    }
    Some((high, low))
}

impl Decimal {
    #[verifier::type_invariant]
    spec fn well_formed(self) -> bool {
        self.low < LOW_END && in_range(joined(self.high as int, self.low as int))
    }

    /// The number of a sign and a magnitude in two parts.
    fn of_magnitude(negative: bool, high: u128, low: u64) -> (number: Decimal)
        requires
            high < HIGH_END,
            low < LOW_END,
        ensures
            number@ == if negative {
                -joined(high as int, low as int)
            } else {
                joined(high as int, low as int)
            },
    {
        if !negative {
            Decimal { high: high as i128, low }
        } else if low == 0 {
            Decimal { high: -(high as i128), low: 0 }
        } else {
            Decimal { high: -(high as i128) - 1, low: (LOW_END - low as u128) as u64 }
        }
    }

    /// The sign of the number and its magnitude in two parts.
    fn magnitude(&self) -> (parts: (bool, u128, u64))
        ensures
            parts.0 == (self@ < 0),
            joined(parts.1 as int, parts.2 as int) == if self@ < 0 {
                -self@
            } else {
                self@
            },
            parts.1 < HIGH_END,
            parts.2 < LOW_END,
    {
        proof {
            use_type_invariant(self);
        }
        if self.high >= 0 {
            (false, self.high as u128, self.low)
        } else if self.low == 0 {
            (true, (-self.high) as u128, 0)
        } else {
            (true, (-(self.high + 1)) as u128, (LOW_END - self.low as u128) as u64)
        }
    }

    /// Reads a decimal number from its text. The text is taken as a whole:
    /// neither blanks nor anything else may surround the number. The number
    /// is rounded to eighteen decimal places, a half away from zero, and a
    /// number beyond the range is held at the end of the range, as a float is
    /// held at infinity. Every text that writes a decimal number is read.
    pub fn parse(text: &str) -> (number: Option<Decimal>)
        ensures
            match number {
                Some(d) => text_units(text@) == Some(d@),
                None => text_units(text@) is None,
            },
    {
        let chars = text_chars(text);
        let layout = match lay_out(&chars) {
            Some(layout) => layout,
            None => {
                return None;
            },
        };
        let digits = gather_digits(&chars, &layout);
        proof {
            lemma_digits_end_bounds(chars@, layout.exponent_start as int);
        }
        let size = exponent_size(&chars, layout.exponent_start, layout.exponent_end);
        let exponent: i128 = if layout.exponent_negative { -size } else { size };
        let held: usize = layout.whole_end - layout.whole_start;
        let keep: i128 = held as i128 + 18 + exponent;
        proof {
            let l = literal_of(chars@)->0;
            assert(l.digits == digits@);
            if layout.fraction_end == chars.len() {
                assert(chars@.subrange(layout.exponent_start as int, layout.exponent_end as int)
                    =~= Seq::<char>::empty());
            }
            lemma_digits_value_bounds(
                chars@.subrange(layout.exponent_start as int, layout.exponent_end as int),
            );
            lemma_magnitude_is_kept(l);
            lemma_cap_keeps_outcome(digits@, held as int, l.exponent, exponent as int);
        }
        let last = Decimal::of_magnitude(layout.negative, HIGH_END - 1, (LOW_END - 1) as u64);
        let (high, low) = match kept_units(&digits, keep) {
            Some(parts) => parts,
            None => {
                return Some(last);
            },
        };
        let up = 0 <= keep && keep < digits.len() as i128 && digits[keep as usize] >= '5';
        if !up {
            Some(Decimal::of_magnitude(layout.negative, high, low))
        } else if (low as u128) + 1 < LOW_END {
            Some(Decimal::of_magnitude(layout.negative, high, low + 1))
        } else if high + 1 < HIGH_END {
            Some(Decimal::of_magnitude(layout.negative, high + 1, 0))
        } else {
            Some(last)
        }
    }

    /// Writes the number as a text that `parse` reads back as the same
    /// number.
    pub fn to_text(&self) -> (text: String)
        ensures
            text@ == units_text(self@),
            text_units(text@) == Some(self@),
    {
        proof {
            use_type_invariant(self);
        }
        let (negative, high, low) = self.magnitude();
        let whole: u128 = high * 10 + (low as u128) / (UNITS_PER_ONE as u128);
        let rest: u128 = (low as u128) % (UNITS_PER_ONE as u128);
        let ghost magnitude = joined(high as int, low as int);
        proof {
            lemma_fundamental_div_mod_converse(
                magnitude,
                UNITS_PER_ONE as int,
                whole as int,
                rest as int,
            );
        }
        let mut chars = whole_glyphs(whole);
        let mut fraction = fixed_glyphs(rest, 18);
        trim_zeros(&mut fraction);
        proof {
            lemma_limit_is_power();
            lemma_whole_digits(whole as int);
            lemma_fixed_digits(rest as int, 18);
            lemma_trimmed(fixed_digits(rest as int, 18));
        }
        if negative {
            chars.insert(0, '-');
        }
        if fraction.len() > 0 {
            chars.push('.');
            chars.append(&mut fraction);
        }
        proof {
            assert(chars@ =~= units_text(self@));
            lemma_text_reads_back(self@);
        }
        glyphs_text(&chars)
    }

    /// The number that counts `units` units.
    pub fn from_units(units: i128) -> (number: Decimal)
        ensures
            number@ == units,
    {
        let negative = units < 0;
        let size: u128 = if negative { (-(units + 1)) as u128 + 1 } else { units as u128 };
        Decimal::of_magnitude(negative, size / LOW_END, (size % LOW_END) as u64)
    }

    /// The mean of two numbers, rounded down to a whole count of units.
    pub fn midpoint(self, other: Decimal) -> (middle: Decimal)
        ensures
            middle@ == mean_floor(self@, other@),
    {
        proof {
            use_type_invariant(&self);
            use_type_invariant(&other);
        }
        let lifted: i128 = self.high + other.high + 2 * (HIGH_END as i128);
        let half: i128 = lifted / 2 - HIGH_END as i128;
        let odd: u128 = (lifted % 2) as u128;
        let rest: u128 = (odd * LOW_END + self.low as u128 + other.low as u128) / 2;
        if rest >= LOW_END {
            Decimal { high: half + 1, low: (rest - LOW_END) as u64 }
        } else {
            Decimal { high: half, low: rest as u64 }
        }
    }

    /// The number's count of units, where it is below ten to the
    /// thirty-eighth in magnitude.
    pub fn units(&self) -> (units: Option<i128>)
        ensures
            match units {
                Some(count) => count == self@ && is_plain(self@),
                None => !is_plain(self@),
            },
            in_range(self@),
    {
        proof {
            use_type_invariant(self);
        }
        let (negative, high, low) = self.magnitude();
        if high >= LOW_END {
            return None;
        }
        let size: i128 = (high * LOW_END + low as u128) as i128;
        if negative {
            Some(-size)
        } else {
            Some(size)
        }
    }

    /// Whether the number is below zero.
    pub fn is_negative(&self) -> (negative: bool)
        ensures
            negative == (self@ < 0),
    {
        self.magnitude().0
    }
}

} // verus!
