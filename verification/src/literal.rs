//! The text form of decimal numbers: which texts write a number, and what
//! they say.

use vstd::prelude::*;

use crate::digits::{
    all_digits, digit_number, digits_end, digits_value, is_digit, lemma_digits_end_bounds,
    lemma_prefix_grows, lemma_take_step, skip_digits,
};

verus! {

/// What a number's text says, once its characters are told apart.
pub struct Literal {
    /// A minus sign leads the text.
    pub negative: bool,
    /// The digits before and after the decimal point, as one run.
    pub digits: Seq<char>,
    /// How many of `digits` stood after the decimal point.
    pub fraction_len: int,
    /// The power of ten that the text scales its digits by; zero where it
    /// writes none.
    pub exponent: int,
}

pub open spec fn is_sign(c: char) -> bool {
    c == '+' || c == '-'
}

pub open spec fn is_exponent_mark(c: char) -> bool {
    c == 'e' || c == 'E'
}

/// Reads a text as a decimal number: an optional sign, digits with at most one
/// decimal point among them (before, between or after, but at least one
/// digit), and optionally `e` or `E`, an optional sign and at least one digit.
/// Nothing may stand before, between or after these parts.
pub open spec fn literal_of(s: Seq<char>) -> Option<Literal> {
    let start: int = if s.len() > 0 && is_sign(s[0]) { 1 } else { 0 };
    let whole_end = digits_end(s, start);
    let has_point = whole_end < s.len() && s[whole_end] == '.';
    let fraction_start = if has_point { whole_end + 1 } else { whole_end };
    let fraction_end = digits_end(s, fraction_start);
    let digits = s.subrange(start, whole_end) + s.subrange(fraction_start, fraction_end);
    let has_exponent = fraction_end < s.len() && is_exponent_mark(s[fraction_end]);
    let sign_at = fraction_end + 1;
    let exponent_start: int = if sign_at < s.len() && is_sign(s[sign_at]) {
        sign_at + 1
    } else {
        sign_at
    };
    let exponent_end = digits_end(s, exponent_start);
    let exponent_size = digits_value(s.subrange(exponent_start, exponent_end));
    if digits.len() == 0 {
        None
    } else if !has_exponent {
        if fraction_end == s.len() {
            Some(
                Literal {
                    negative: s[0] == '-',
                    digits,
                    fraction_len: fraction_end - fraction_start,
                    exponent: 0,
                },
            )
        } else {
            None
        }
    } else if exponent_end == exponent_start || exponent_end != s.len() {
        None
    } else {
        Some(
            Literal {
                negative: s[0] == '-',
                digits,
                fraction_len: fraction_end - fraction_start,
                exponent: if s[sign_at] == '-' {
                    -exponent_size
                } else {
                    exponent_size
                },
            },
        )
    }
}

/// The exponent that a number's text may end in.
pub struct ExponentParts {
    /// The letter that opens the exponent.
    pub mark: char,
    /// The sign written before the exponent's digits, if any.
    pub sign: Option<char>,
    pub digits: Seq<char>,
}

/// The parts that the text of a number is put together from.
pub struct NumberParts {
    /// The sign written before the number, if any.
    pub sign: Option<char>,
    /// The digits before the decimal point.
    pub whole: Seq<char>,
    /// The digits after the decimal point, where the text writes a point.
    pub fraction: Option<Seq<char>>,
    /// The exponent, where the text writes one.
    pub exponent: Option<ExponentParts>,
}

/// The text of a character that may be left out.
pub open spec fn optional(c: Option<char>) -> Seq<char> {
    match c {
        Some(c) => seq![c],
        None => Seq::empty(),
    }
}

impl NumberParts {
    pub open spec fn fraction_digits(self) -> Seq<char> {
        match self.fraction {
            Some(digits) => digits,
            None => Seq::empty(),
        }
    }

    /// The parts are those of a number: signs are signs, digits are digits,
    /// there is at least one digit before or after the point, and an exponent
    /// has at least one digit of its own.
    pub open spec fn well_formed(self) -> bool {
        &&& self.sign is Some ==> is_sign(self.sign->0)
        &&& all_digits(self.whole)
        &&& all_digits(self.fraction_digits())
        &&& self.whole.len() + self.fraction_digits().len() > 0
        &&& self.exponent is Some ==> {
            &&& is_exponent_mark(self.exponent->0.mark)
            &&& self.exponent->0.sign is Some ==> is_sign(self.exponent->0.sign->0)
            &&& all_digits(self.exponent->0.digits)
            &&& self.exponent->0.digits.len() > 0
        }
    }

    /// The parts written one after the other.
    pub open spec fn text(self) -> Seq<char> {
        optional(self.sign) + self.whole + (match self.fraction {
            Some(digits) => seq!['.'] + digits,
            None => Seq::empty(),
        }) + (match self.exponent {
            Some(exponent) => seq![exponent.mark] + optional(exponent.sign) + exponent.digits,
            None => Seq::empty(),
        })
    }

    /// What the parts say.
    pub open spec fn literal(self) -> Literal {
        Literal {
            negative: self.sign == Some('-'),
            digits: self.whole + self.fraction_digits(),
            fraction_len: self.fraction_digits().len() as int,
            exponent: match self.exponent {
                Some(exponent) => if exponent.sign == Some('-') {
                    -digits_value(exponent.digits)
                } else {
                    digits_value(exponent.digits)
                },
                None => 0,
            },
        }
    }
}

/// A run of digits that ends at `to` is stepped over as a whole.
pub proof fn lemma_digits_end_of_run(s: Seq<char>, from: int, to: int)
    requires
        0 <= from <= to <= s.len(),
        forall|i: int| from <= i < to ==> is_digit(#[trigger] s[i]),
        to < s.len() ==> !is_digit(s[to]),
    ensures
        digits_end(s, from) == to,
    decreases to - from,
{
    if from < to {
        lemma_digits_end_of_run(s, from + 1, to);
    }
}

impl NumberParts {
    /// Where the digits before the point start in the text.
    pub open spec fn whole_start(self) -> int {
        optional(self.sign).len() as int
    }

    pub open spec fn whole_end(self) -> int {
        self.whole_start() + self.whole.len()
    }

    /// Where the digits after the point start: behind the point, where the
    /// text writes one.
    pub open spec fn fraction_start(self) -> int {
        if self.fraction is Some {
            self.whole_end() + 1
        } else {
            self.whole_end()
        }
    }

    pub open spec fn fraction_end(self) -> int {
        self.fraction_start() + self.fraction_digits().len()
    }

    /// Where the digits of the exponent start, where the text writes one.
    pub open spec fn exponent_start(self) -> int {
        self.fraction_end() + 1 + optional(self.exponent->0.sign).len()
    }

    /// The text without its exponent.
    pub open spec fn mantissa_text(self) -> Seq<char> {
        optional(self.sign) + self.whole + (match self.fraction {
            Some(digits) => seq!['.'] + digits,
            None => Seq::empty(),
        })
    }

    /// The text of the exponent, where there is one.
    pub open spec fn exponent_text(self) -> Seq<char> {
        match self.exponent {
            Some(exponent) => seq![exponent.mark] + optional(exponent.sign) + exponent.digits,
            None => Seq::empty(),
        }
    }
}

/// Where each part stands in the text that the parts make.
#[verifier::rlimit(40)]
proof fn lemma_parts_layout(parts: NumberParts)
    requires
        parts.well_formed(),
    ensures
        ({
            let t = parts.text();
            &&& t.len() > 0
            &&& is_sign(t[0]) <==> parts.sign is Some
            &&& t[0] == '-' <==> parts.sign == Some('-')
            &&& digits_end(t, parts.whole_start()) == parts.whole_end()
            &&& t.subrange(parts.whole_start(), parts.whole_end()) == parts.whole
            &&& (parts.whole_end() < t.len() && t[parts.whole_end()] == '.') <==> parts.fraction
                is Some
            &&& digits_end(t, parts.fraction_start()) == parts.fraction_end()
            &&& t.subrange(parts.fraction_start(), parts.fraction_end())
                == parts.fraction_digits()
            &&& parts.fraction_end() <= t.len()
            &&& parts.exponent is None ==> parts.fraction_end() == t.len()
            &&& parts.exponent is Some ==> {
                &&& parts.fraction_end() < t.len()
                &&& is_exponent_mark(t[parts.fraction_end()])
                &&& parts.exponent_start() < t.len()
                &&& (is_sign(t[parts.fraction_end() + 1]) <==> parts.exponent->0.sign is Some)
                &&& (t[parts.fraction_end() + 1] == '-' <==> parts.exponent->0.sign == Some('-'))
                &&& digits_end(t, parts.exponent_start()) == t.len()
                &&& t.subrange(parts.exponent_start(), t.len() as int)
                    == parts.exponent->0.digits
            }
        }),
{
    let t = parts.text();
    let head = parts.mantissa_text();
    let tail = parts.exponent_text();
    let fraction = parts.fraction_digits();
    let whole_start = parts.whole_start();
    let whole_end = parts.whole_end();
    let fraction_start = parts.fraction_start();
    let fraction_end = parts.fraction_end();
    assert(t =~= head + tail);
    assert(head.len() == fraction_end);
    assert forall|i: int| 0 <= i < head.len() implies t[i] == head[i] by {}
    assert forall|i: int| 0 <= i < tail.len() implies t[fraction_end + i] == tail[i] by {}
    assert forall|i: int| whole_start <= i < whole_end implies t[i] == parts.whole[i
        - whole_start] by {
        assert(t[i] == head[i]);
    }
    assert forall|i: int| fraction_start <= i < fraction_end implies t[i] == fraction[i
        - fraction_start] by {
        assert(t[i] == head[i]);
    }
    if parts.fraction is Some {
        assert(t[whole_end] == head[whole_end]);
        assert(head[whole_end] == '.');
    }
    if parts.sign is Some {
        assert(t[0] == head[0]);
        assert(head[0] == parts.sign->0);
    } else if parts.whole.len() > 0 {
        assert(t[0] == parts.whole[0]);
    } else {
        assert(parts.fraction is Some);
        assert(t[0] == '.');
    }
    if parts.exponent is Some {
        let exponent = parts.exponent->0;
        let start = parts.exponent_start();
        assert(t[fraction_end] == tail[0]);
        assert(tail[0] == exponent.mark);
        assert(t.len() == start + exponent.digits.len());
        assert forall|i: int| start <= i < t.len() implies t[i] == exponent.digits[i - start] by {
            assert(t[i] == tail[i - fraction_end]);
        }
        assert(t[fraction_end + 1] == tail[1]);
        if exponent.sign is Some {
            assert(tail[1] == exponent.sign->0);
        } else {
            assert(tail[1] == exponent.digits[0]);
        }
        assert forall|i: int| start <= i < t.len() implies is_digit(#[trigger] t[i]) by {
            assert(t[i] == exponent.digits[i - start]);
        }
        lemma_digits_end_of_run(t, start, t.len() as int);
        assert(t.subrange(start, t.len() as int) =~= exponent.digits);
    }
    assert forall|i: int| whole_start <= i < whole_end implies is_digit(#[trigger] t[i]) by {
        assert(t[i] == parts.whole[i - whole_start]);
    }
    assert forall|i: int| fraction_start <= i < fraction_end implies is_digit(#[trigger] t[i]) by {
        assert(t[i] == fraction[i - fraction_start]);
    }
    lemma_digits_end_of_run(t, whole_start, whole_end);
    lemma_digits_end_of_run(t, fraction_start, fraction_end);
    assert(t.subrange(whole_start, whole_end) =~= parts.whole);
    assert(t.subrange(fraction_start, fraction_end) =~= fraction);
}

/// Every text put together from the parts of a number reads as what the
/// parts say.
pub proof fn lemma_parts_read_back(parts: NumberParts)
    requires
        parts.well_formed(),
    ensures
        literal_of(parts.text()) == Some(parts.literal()),
{
    lemma_parts_layout(parts);
}

/// Where the parts of a number stand in its text.
pub(crate) struct Layout {
    pub negative: bool,
    pub whole_start: usize,
    pub whole_end: usize,
    pub fraction_start: usize,
    pub fraction_end: usize,
    pub exponent_negative: bool,
    pub exponent_start: usize,
    pub exponent_end: usize,
}

impl Layout {
    /// The layout is the one that `literal_of` reads from `s`.
    pub(crate) open spec fn describes(self, s: Seq<char>) -> bool {
        &&& self.whole_start == (if s.len() > 0 && is_sign(s[0]) { 1int } else { 0int })
        &&& self.negative == (s.len() > 0 && s[0] == '-')
        &&& self.whole_end == digits_end(s, self.whole_start as int)
        &&& self.fraction_start == (if self.whole_end < s.len() && s[self.whole_end as int] == '.' {
            self.whole_end + 1
        } else {
            self.whole_end as int
        })
        &&& self.fraction_end == digits_end(s, self.fraction_start as int)
        &&& self.whole_start <= self.whole_end <= self.fraction_start <= self.fraction_end
            <= s.len()
        &&& (self.whole_end - self.whole_start) + (self.fraction_end - self.fraction_start) > 0
        &&& self.exponent_start <= self.exponent_end <= s.len()
        &&& if self.fraction_end == s.len() {
            self.exponent_start == self.exponent_end && !self.exponent_negative
        } else {
            &&& is_exponent_mark(s[self.fraction_end as int])
            &&& self.exponent_negative == (self.fraction_end + 1 < s.len() && s[self.fraction_end
                + 1] == '-')
            &&& self.exponent_start == (if self.fraction_end + 1 < s.len() && is_sign(
                s[self.fraction_end + 1],
            ) {
                self.fraction_end + 2
            } else {
                self.fraction_end + 1
            })
            &&& self.exponent_start < self.exponent_end
            &&& self.exponent_end == digits_end(s, self.exponent_start as int)
            &&& self.exponent_end == s.len()
        }
    }
}

/// Finds the parts of a number in `chars`, or reports that the text is none.
pub(crate) fn lay_out(chars: &Vec<char>) -> (found: Option<Layout>)
    ensures
        found is Some <==> literal_of(chars@) is Some,
        found is Some ==> found->0.describes(chars@),
{
    let len = chars.len();
    let signed = len > 0 && (chars[0] == '+' || chars[0] == '-');
    let negative = len > 0 && chars[0] == '-';
    let whole_start: usize = if signed { 1 } else { 0 };
    let whole_end = skip_digits(chars, whole_start);
    let has_point = whole_end < len && chars[whole_end] == '.';
    let fraction_start: usize = if has_point { whole_end + 1 } else { whole_end };
    let fraction_end = skip_digits(chars, fraction_start);
    if (whole_end - whole_start) + (fraction_end - fraction_start) == 0 {
        return None;
    }
    if fraction_end == len {
        return Some(
            Layout {
                negative,
                whole_start,
                whole_end,
                fraction_start,
                fraction_end,
                exponent_negative: false,
                exponent_start: len,
                exponent_end: len,
            },
        );
    }
    if !(chars[fraction_end] == 'e' || chars[fraction_end] == 'E') {
        return None;
    }
    let sign_at: usize = fraction_end + 1;
    let exponent_signed = sign_at < len && (chars[sign_at] == '+' || chars[sign_at] == '-');
    let exponent_negative = sign_at < len && chars[sign_at] == '-';
    let exponent_start: usize = if exponent_signed { sign_at + 1 } else { sign_at };
    let exponent_end = skip_digits(chars, exponent_start);
    if exponent_end == exponent_start || exponent_end != len {
        return None;
    }
    Some(
        Layout {
            negative,
            whole_start,
            whole_end,
            fraction_start,
            fraction_end,
            exponent_negative,
            exponent_start,
            exponent_end,
        },
    )
}

/// Exponents are held at this size where the text writes a larger one: two to
/// the sixty-fifth, beyond which every text has the outcome of the cap.
pub(crate) const EXPONENT_CAP: i128 = 36_893_488_147_419_103_232;

/// Reads the size of an exponent from its digits, holding it at
/// `EXPONENT_CAP`.
pub(crate) fn exponent_size(chars: &Vec<char>, start: usize, end: usize) -> (size: i128)
    requires
        start <= end <= chars.len(),
        all_digits(chars@.subrange(start as int, end as int)),
    ensures
        0 <= size <= EXPONENT_CAP,
        size == if digits_value(chars@.subrange(start as int, end as int)) > EXPONENT_CAP {
            EXPONENT_CAP as int
        } else {
            digits_value(chars@.subrange(start as int, end as int))
        },
{
    let ghost run = chars@.subrange(start as int, end as int);
    let mut size: i128 = 0;
    let mut at: usize = start;
    while at < end
        invariant
            start <= at <= end <= chars.len(),
            run == chars@.subrange(start as int, end as int),
            all_digits(run),
            0 <= digits_value(run.take(at - start)),
            size == if digits_value(run.take(at - start)) > EXPONENT_CAP {
                EXPONENT_CAP as int
            } else {
                digits_value(run.take(at - start))
            },
        decreases end - at,
    {
        proof {
            lemma_take_step(run, at - start);
            lemma_prefix_grows(run, at - start, at - start + 1);
        }
        let digit = digit_number(chars[at]);
        if size < EXPONENT_CAP {
            size = size * 10 + digit as i128;
            if size > EXPONENT_CAP {
                size = EXPONENT_CAP;
            }
        }
        at = at + 1;
    }
    proof {
        assert(run.take(end - start) =~= run);
    }
    size
}

/// Joins the digits before and after the decimal point.
pub(crate) fn gather_digits(chars: &Vec<char>, layout: &Layout) -> (digits: Vec<char>)
    requires
        layout.describes(chars@),
    ensures
        digits@ == chars@.subrange(layout.whole_start as int, layout.whole_end as int)
            + chars@.subrange(layout.fraction_start as int, layout.fraction_end as int),
        all_digits(digits@),
{
    proof {
        lemma_digits_end_bounds(chars@, layout.whole_start as int);
        lemma_digits_end_bounds(chars@, layout.fraction_start as int);
    }
    let mut digits: Vec<char> = Vec::new();
    let mut at: usize = layout.whole_start;
    while at < layout.whole_end
        invariant
            layout.whole_start <= at <= layout.whole_end <= chars.len(),
            digits@ == chars@.subrange(layout.whole_start as int, at as int),
        decreases layout.whole_end - at,
    {
        digits.push(chars[at]);
        at = at + 1;
        assert(digits@ =~= chars@.subrange(layout.whole_start as int, at as int));
    }
    let ghost whole = digits@;
    let mut at: usize = layout.fraction_start;
    while at < layout.fraction_end
        invariant
            layout.fraction_start <= at <= layout.fraction_end <= chars.len(),
            digits@ == whole + chars@.subrange(layout.fraction_start as int, at as int),
        decreases layout.fraction_end - at,
    {
        digits.push(chars[at]);
        at = at + 1;
        assert(digits@ =~= whole + chars@.subrange(layout.fraction_start as int, at as int));
    }
    digits
}

} // verus!
