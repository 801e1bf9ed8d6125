//! Alert ranges in the Nagios format, `[@]start:end`. A value outside the
//! range raises an alert; with `@` in front, a value inside it does. An empty
//! start is 0, an empty end is infinity, `~` is negative infinity, and a
//! range without a colon gives the end alone.
//!
//! Numbers are decimal and exact: a sign or none, digits, and a point among
//! them or none, eighteen digits at most.

use vstd::prelude::*;
use vstd::string::StringExecFns;
use crate::text::{all_digits, chars_of, is_digit, number, split, split_text, string_of, views};

verus! {

/// The most digits that a number may have.
pub const MAX_DIGITS: usize = 18;

/// Ten to the power `n`.
pub open spec fn pow10(n: nat) -> nat
    decreases n,
{
    if n == 0 {
        1
    } else {
        10 * pow10((n - 1) as nat)
    }
}

/// A decimal number over views: `mantissa` divided by ten to the `scale`.
pub struct DecimalModel {
    pub mantissa: int,
    pub scale: nat,
}

/// Whether `a` is less than `b`.
pub open spec fn dec_lt(a: DecimalModel, b: DecimalModel) -> bool {
    a.mantissa * pow10(b.scale) < b.mantissa * pow10(a.scale)
}

/// Whether `a` is not more than `b`.
pub open spec fn dec_le(a: DecimalModel, b: DecimalModel) -> bool {
    a.mantissa * pow10(b.scale) <= b.mantissa * pow10(a.scale)
}

/// Whether `a` and `b` are the same number.
pub open spec fn dec_eq(a: DecimalModel, b: DecimalModel) -> bool {
    a.mantissa * pow10(b.scale) == b.mantissa * pow10(a.scale)
}

/// The number that a whole part and a fraction write, both strings of
/// digits, one digit at least and eighteen at most between them.
pub open spec fn digits_decimal(whole: Seq<char>, fraction: Seq<char>) -> Option<DecimalModel> {
    if 1 <= whole.len() + fraction.len() <= MAX_DIGITS && all_digits(whole) && all_digits(
        fraction,
    ) {
        Some(DecimalModel { mantissa: number(whole + fraction) as int, scale: fraction.len() })
    } else {
        None
    }
}

/// The number that a text without sign writes: digits, with one point among
/// them or none.
pub open spec fn unsigned_decimal(body: Seq<char>) -> Option<DecimalModel> {
    let parts = split(body, '.');
    if parts.len() == 1 {
        digits_decimal(parts[0], Seq::<char>::empty())
    } else if parts.len() == 2 {
        digits_decimal(parts[0], parts[1])
    } else {
        None
    }
}

/// The opposite of a number.
pub open spec fn negated(d: Option<DecimalModel>) -> Option<DecimalModel> {
    match d {
        Some(m) => Some(DecimalModel { mantissa: -m.mantissa, scale: m.scale }),
        None => None,
    }
}

/// The number that `text` writes; none where it writes no decimal number.
pub open spec fn decimal_of(text: Seq<char>) -> Option<DecimalModel> {
    if text.len() > 0 && text[0] == '-' {
        negated(unsigned_decimal(text.drop_first()))
    } else if text.len() > 0 && text[0] == '+' {
        unsigned_decimal(text.drop_first())
    } else {
        unsigned_decimal(text)
    }
}

/// A decimal number.
#[derive(Debug)]
pub struct Decimal {
    mantissa: i64,
    scale: u8,
}

impl View for Decimal {
    type V = DecimalModel;

    closed spec fn view(&self) -> DecimalModel {
        DecimalModel { mantissa: self.mantissa as int, scale: self.scale as nat }
    }
}

/// Ten to a power grows with the power.
pub proof fn lemma_pow10_grows(a: nat, b: nat)
    requires
        a <= b,
    ensures
        1 <= pow10(a) <= pow10(b),
    decreases b,
{
    if b > 0 {
        if a < b {
            lemma_pow10_grows(a, (b - 1) as nat);
        } else {
            lemma_pow10_grows((a - 1) as nat, (b - 1) as nat);
        }
    }
}

/// A string of digits writes a number below ten to its length.
pub proof fn lemma_number_below(digits: Seq<char>)
    requires
        all_digits(digits),
    ensures
        number(digits) < pow10(digits.len()),
    decreases digits.len(),
{
    if digits.len() > 0 {
        let head = digits.drop_last();
        lemma_number_below(head);
    }
}

/// Ten to the eighteenth.
pub proof fn lemma_pow10_18()
    ensures
        pow10(18) == 1_000_000_000_000_000_000,
{
    reveal_with_fuel(pow10, 19);
}

fn power_of_ten(k: u8) -> (r: i128)
    requires
        k <= 18,
    ensures
        r == pow10(k as nat),
        1 <= r <= 1_000_000_000_000_000_000,
{
    let mut r: i128 = 1;
    let mut i: u8 = 0;
    proof {
        lemma_pow10_18();
    }
    while i < k
        invariant
            i <= k <= 18,
            r == pow10(i as nat),
            1 <= r <= pow10(18),
            pow10(18) == 1_000_000_000_000_000_000,
        decreases k - i,
    {
        proof {
            lemma_pow10_grows((i + 1) as nat, 18);
        }
        r = r * 10;
        i += 1;
    }
    r
}

impl Decimal {
    #[verifier::type_invariant]
    spec fn well_formed(&self) -> bool {
        self.scale <= 18 && -1_000_000_000_000_000_000 < self.mantissa < 1_000_000_000_000_000_000
    }

    /// The whole number `n`, where it has no more than eighteen digits.
    pub fn from_integer(n: i64) -> (r: Option<Decimal>)
        ensures
            r is Some <==> -1_000_000_000_000_000_000 < n < 1_000_000_000_000_000_000,
            r matches Some(d) ==> d@ == (DecimalModel { mantissa: n as int, scale: 0 }),
    {
        if n > -1_000_000_000_000_000_000 && n < 1_000_000_000_000_000_000 {
            Some(Decimal { mantissa: n, scale: 0 })
        } else {
            None
        }
    }

    /// Whether this number is less than `other`.
    pub fn lt(&self, other: &Decimal) -> (r: bool)
        ensures
            r == dec_lt(self@, other@),
    {
        proof {
            use_type_invariant(self);
            use_type_invariant(other);
        }
        let a: i128 = self.mantissa as i128;
        let b: i128 = other.mantissa as i128;
        let pa = power_of_ten(self.scale);
        let pb = power_of_ten(other.scale);
        assert(-1_000_000_000_000_000_000_000_000_000_000_000_000 <= a * pb
            <= 1_000_000_000_000_000_000_000_000_000_000_000_000) by (nonlinear_arith)
            requires
                -1_000_000_000_000_000_000 < a < 1_000_000_000_000_000_000,
                1 <= pb <= 1_000_000_000_000_000_000,
        ;
        assert(-1_000_000_000_000_000_000_000_000_000_000_000_000 <= b * pa
            <= 1_000_000_000_000_000_000_000_000_000_000_000_000) by (nonlinear_arith)
            requires
                -1_000_000_000_000_000_000 < b < 1_000_000_000_000_000_000,
                1 <= pa <= 1_000_000_000_000_000_000,
        ;
        a * pb < b * pa
    }

    /// Whether this number is not more than `other`.
    pub fn le(&self, other: &Decimal) -> (r: bool)
        ensures
            r == dec_le(self@, other@),
    {
        !other.lt(self)
    }
}

fn read_digits(s: &str) -> (r: Option<i64>)
    ensures
        r is Some <==> all_digits(s@) && s@.len() <= MAX_DIGITS,
        r matches Some(n) ==> n == number(s@) && n < pow10(s@.len()) && n
            < 1_000_000_000_000_000_000,
{
    let t = chars_of(s);
    if t.len() > MAX_DIGITS {
        return None;
    }
    let mut value: i64 = 0;
    let mut i: usize = 0;
    while i < t.len()
        invariant
            i <= t.len() <= MAX_DIGITS,
            t@ == s@,
            all_digits(s@.take(i as int)),
            value == number(s@.take(i as int)),
            0 <= value < pow10(i as nat),
        decreases t.len() - i,
    {
        let c = t[i];
        if (c as u32) < 48 || (c as u32) > 57 {
            return None;
        }
        proof {
            let longer = s@.take(i + 1);
            assert(longer.drop_last() == s@.take(i as int));
            assert(all_digits(longer)) by {
                assert forall|k: int| 0 <= k < longer.len() implies is_digit(
                    #[trigger] longer[k],
                ) by {}
            }
            lemma_pow10_grows((i + 1) as nat, 18);
            lemma_pow10_18();
        }
        value = value * 10 + ((c as u32) - 48) as i64;
        i += 1;
    }
    proof {
        assert(s@.take(t.len() as int) == s@);
        lemma_pow10_grows(s@.len(), 18);
        lemma_pow10_18();
    }
    Some(value)
}

/// Reads a decimal number.
pub fn parse_decimal(text: &str) -> (r: Option<Decimal>)
    ensures
        match r {
            Some(d) => decimal_of(text@) == Some(d@),
            None => decimal_of(text@) is None,
        },
{
    let t = chars_of(text);
    let negative = t.len() > 0 && t[0] == '-';
    let signed = t.len() > 0 && (t[0] == '-' || t[0] == '+');
    let from: usize = if signed {
        1
    } else {
        0
    };
    let body = string_of(&t, from, t.len());
    proof {
        if !signed {
            assert(t@.subrange(0, t.len() as int) == text@);
        }
    }
    let parts = split_text(body.as_str(), '.');
    if parts.len() > 2 {
        return None;
    }
    let mut digits = parts[0].clone();
    let mut scale: usize = 0;
    if parts.len() == 2 {
        digits.append(parts[1].as_str());
        scale = parts[1].as_str().unicode_len();
    }
    let ghost whole = views(parts@)[0];
    let ghost fraction = if parts.len() == 2 {
        views(parts@)[1]
    } else {
        Seq::<char>::empty()
    };
    proof {
        lemma_all_digits_concat(whole, fraction);
    }
    if digits.as_str().is_empty() {
        return None;
    }
    match read_digits(digits.as_str()) {
        None => None,
        Some(n) => {
            let mantissa: i64 = if negative {
                -n
            } else {
                n
            };
            Some(Decimal { mantissa, scale: scale as u8 })
        },
    }
}

/// A text is made of digits exactly when its two halves are.
pub proof fn lemma_all_digits_concat(a: Seq<char>, b: Seq<char>)
    ensures
        all_digits(a + b) <==> all_digits(a) && all_digits(b),
{
    let whole = a + b;
    if all_digits(whole) {
        assert forall|i: int| 0 <= i < a.len() implies is_digit(#[trigger] a[i]) by {
            assert(whole[i] == a[i]);
        }
        assert forall|i: int| 0 <= i < b.len() implies is_digit(#[trigger] b[i]) by {
            assert(whole[a.len() + i] == b[i]);
        }
    }
}

/// One end of a range.
#[derive(Debug)]
pub enum Bound {
    NegInfinity,
    Finite(Decimal),
    PosInfinity,
}

/// One end of a range, over views.
pub enum BoundModel {
    NegInfinity,
    Finite(DecimalModel),
    PosInfinity,
}

impl View for Bound {
    type V = BoundModel;

    open spec fn view(&self) -> BoundModel {
        match self {
            Bound::NegInfinity => BoundModel::NegInfinity,
            Bound::Finite(d) => BoundModel::Finite(d@),
            Bound::PosInfinity => BoundModel::PosInfinity,
        }
    }
}

/// Whether the number `v` is less than the bound `b`.
pub open spec fn below(v: DecimalModel, b: BoundModel) -> bool {
    match b {
        BoundModel::NegInfinity => false,
        BoundModel::Finite(d) => dec_lt(v, d),
        BoundModel::PosInfinity => true,
    }
}

/// Whether the number `v` is more than the bound `b`.
pub open spec fn above(v: DecimalModel, b: BoundModel) -> bool {
    match b {
        BoundModel::NegInfinity => true,
        BoundModel::Finite(d) => dec_lt(d, v),
        BoundModel::PosInfinity => false,
    }
}

/// Whether the number `v` is the bound `b`.
pub open spec fn at(v: DecimalModel, b: BoundModel) -> bool {
    match b {
        BoundModel::Finite(d) => dec_eq(v, d),
        _ => false,
    }
}

/// An alert range over views.
pub struct ThresholdModel {
    pub inside: bool,
    pub start: BoundModel,
    pub end: BoundModel,
}

/// Whether `v` raises an alert. By default it does where it is less than the
/// start or more than the end; with the sense flipped, where it is neither:
/// inside the range, the two ends included.
pub open spec fn alerts(t: ThresholdModel, v: DecimalModel) -> bool {
    if t.inside {
        !below(v, t.start) && !above(v, t.end)
    } else {
        below(v, t.start) || above(v, t.end)
    }
}

/// Whether `v` is one of the two ends of the range.
pub open spec fn on_boundary(t: ThresholdModel, v: DecimalModel) -> bool {
    at(v, t.start) || at(v, t.end)
}

/// The number zero.
pub open spec fn zero() -> DecimalModel {
    DecimalModel { mantissa: 0, scale: 0 }
}

/// A finite bound, where there is a number.
pub open spec fn finite(d: Option<DecimalModel>) -> Option<BoundModel> {
    match d {
        Some(m) => Some(BoundModel::Finite(m)),
        None => None,
    }
}

/// The start that `text` writes: 0 for no text, negative infinity for a
/// tilde, the number otherwise.
pub open spec fn start_of(text: Seq<char>) -> Option<BoundModel> {
    if text.len() == 0 {
        Some(BoundModel::Finite(zero()))
    } else if text == seq!['~'] {
        Some(BoundModel::NegInfinity)
    } else {
        finite(decimal_of(text))
    }
}

/// The end that `text` writes: infinity for no text, negative infinity for a
/// tilde, the number otherwise.
pub open spec fn end_of(text: Seq<char>) -> Option<BoundModel> {
    if text.len() == 0 {
        Some(BoundModel::PosInfinity)
    } else if text == seq!['~'] {
        Some(BoundModel::NegInfinity)
    } else {
        finite(decimal_of(text))
    }
}

/// The range of the two ends, where both are there.
pub open spec fn between(inside: bool, start: Option<BoundModel>, end: Option<BoundModel>)
    -> Option<ThresholdModel> {
    match (start, end) {
        (Some(s), Some(e)) => Some(ThresholdModel { inside, start: s, end: e }),
        _ => None,
    }
}

/// The range that `text` writes, the sense given. Without a colon the text
/// is the end and the start is 0; with one colon the two sides are the two
/// ends; a second colon makes it no range.
pub open spec fn plain_range(inside: bool, text: Seq<char>) -> Option<ThresholdModel> {
    let parts = split(text, ':');
    if parts.len() == 1 {
        between(inside, Some(BoundModel::Finite(zero())), end_of(parts[0]))
    } else if parts.len() == 2 {
        between(inside, start_of(parts[0]), end_of(parts[1]))
    } else {
        None
    }
}

/// The range that `text` writes; none where it writes no range.
pub open spec fn range_of(text: Seq<char>) -> Option<ThresholdModel> {
    if text.len() > 0 && text[0] == '@' {
        plain_range(true, text.drop_first())
    } else {
        plain_range(false, text)
    }
}

/// An alert range.
#[derive(Debug)]
pub struct Threshold {
    pub inside: bool,
    pub start: Bound,
    pub end: Bound,
}

impl View for Threshold {
    type V = ThresholdModel;

    open spec fn view(&self) -> ThresholdModel {
        ThresholdModel { inside: self.inside, start: self.start@, end: self.end@ }
    }
}

fn is_tilde(text: &str) -> (r: bool)
    ensures
        r == (text@ == seq!['~']),
{
    let t = chars_of(text);
    let r = t.len() == 1 && t[0] == '~';
    proof {
        if r {
            assert(text@ =~= seq!['~']);
        }
    }
    r
}

fn bound_from(d: Option<Decimal>) -> (r: Option<Bound>)
    ensures
        match r {
            Some(b) => d is Some && b@ == BoundModel::Finite(d->0@),
            None => d is None,
        },
{
    match d {
        Some(x) => Some(Bound::Finite(x)),
        None => None,
    }
}

fn parse_start(text: &str) -> (r: Option<Bound>)
    ensures
        match r {
            Some(b) => start_of(text@) == Some(b@),
            None => start_of(text@) is None,
        },
{
    if text.is_empty() {
        match Decimal::from_integer(0) {
            Some(z) => Some(Bound::Finite(z)),
            None => None,
        }
    } else if is_tilde(text) {
        Some(Bound::NegInfinity)
    } else {
        bound_from(parse_decimal(text))
    }
}

fn parse_end(text: &str) -> (r: Option<Bound>)
    ensures
        match r {
            Some(b) => end_of(text@) == Some(b@),
            None => end_of(text@) is None,
        },
{
    if text.is_empty() {
        Some(Bound::PosInfinity)
    } else if is_tilde(text) {
        Some(Bound::NegInfinity)
    } else {
        bound_from(parse_decimal(text))
    }
}

impl Threshold {
    /// Reads a range.
    pub fn parse(range_str: &str) -> (r: Option<Threshold>)
        ensures
            match r {
                Some(t) => range_of(range_str@) == Some(t@),
                None => range_of(range_str@) is None,
            },
    {
        let t = chars_of(range_str);
        let inside = t.len() > 0 && t[0] == '@';
        let from: usize = if inside {
            1
        } else {
            0
        };
        let body = string_of(&t, from, t.len());
        proof {
            if !inside {
                assert(t@.subrange(0, t.len() as int) == range_str@);
            }
        }
        let parts = split_text(body.as_str(), ':');
        if parts.len() == 1 {
            let start = match Decimal::from_integer(0) {
                Some(z) => Bound::Finite(z),
                None => Bound::NegInfinity,
            };
            match parse_end(parts[0].as_str()) {
                Some(end) => Some(Threshold { inside, start, end }),
                None => None,
            }
        } else if parts.len() == 2 {
            match parse_start(parts[0].as_str()) {
                None => None,
                Some(start) => match parse_end(parts[1].as_str()) {
                    Some(end) => Some(Threshold { inside, start, end }),
                    None => None,
                },
            }
        } else {
            None
        }
    }

    /// Whether `value` raises an alert.
    pub fn should_alert(&self, value: &Decimal) -> (r: bool)
        ensures
            r == alerts(self@, value@),
    {
        let below = match &self.start {
            Bound::NegInfinity => false,
            Bound::Finite(d) => value.lt(d),
            Bound::PosInfinity => true,
        };
        let above = match &self.end {
            Bound::NegInfinity => true,
            Bound::Finite(d) => d.lt(value),
            Bound::PosInfinity => false,
        };
        if self.inside {
            !below && !above
        } else {
            below || above
        }
    }
}

/// A range with `@` in front is the range behind it with the sense flipped.
pub proof fn lemma_at_sign(range: Seq<char>)
    ensures
        range_of(seq!['@'] + range) == plain_range(true, range),
        range.len() == 0 || range[0] != '@' ==> range_of(range) == plain_range(false, range),
{
    let whole = seq!['@'] + range;
    assert(whole.drop_first() == range);
}

/// Flipping the sense of a range flips every decision.
pub proof fn lemma_flip(inside: bool, text: Seq<char>, v: DecimalModel)
    requires
        plain_range(inside, text) is Some,
    ensures
        plain_range(!inside, text) is Some,
        alerts(plain_range(!inside, text)->0, v) == !alerts(plain_range(inside, text)->0, v),
        on_boundary(plain_range(!inside, text)->0, v) == on_boundary(
            plain_range(inside, text)->0,
            v,
        ),
{
}

/// The two senses of one range. For a range `R` that does not itself begin
/// with `@`, and a value that is not one of its two ends, `"@" + R` raises
/// an alert exactly where `R` raises none: the decision is inverted inside
/// the range and outside of it.
pub proof fn lemma_sense_inverts(range: Seq<char>, v: DecimalModel)
    requires
        range_of(range) is Some,
        range.len() == 0 || range[0] != '@',
        !on_boundary(range_of(range)->0, v),
    ensures
        range_of(seq!['@'] + range) is Some,
        alerts(range_of(seq!['@'] + range)->0, v) != alerts(range_of(range)->0, v),
{
    lemma_at_sign(range);
}

/// The two senses of one range at its ends: a value that is one of the two
/// ends of `R` raises an alert for `"@" + R` and none for `R`, where the
/// range is not empty.
pub proof fn lemma_sense_at_boundary(range: Seq<char>, v: DecimalModel)
    requires
        range_of(range) is Some,
        range.len() == 0 || range[0] != '@',
        on_boundary(range_of(range)->0, v),
        !below(v, range_of(range)->0.start),
        !above(v, range_of(range)->0.end),
    ensures
        range_of(seq!['@'] + range) is Some,
        alerts(range_of(seq!['@'] + range)->0, v),
        !alerts(range_of(range)->0, v),
{
    lemma_at_sign(range);
}

} // verus!
