//! The record types and the numeric interpretation of matched spans: digit
//! runs, decimal literals and ASCII fractions become exact rationals.

use vstd::prelude::*;

use crate::chars::{is_digit_char, digit_char};
use crate::rat::Rat;
use crate::tree::RuleId;

verus! {

/// The system a unit belongs to: imperial, metric, or a non-standardized
/// measure such as a pinch.
#[derive(Clone, Copy, Debug, PartialEq, Eq, Structural)]
pub enum UnitType {
    English,
    Metric,
    Imprecise,
}

/// The canonical name of a grammar rule; for the leaf unit rules this is
/// also the canonical unit name stored in the record.
pub open spec fn spec_rule_name(r: RuleId) -> Seq<char> {
    match r {
        RuleId::MultipartQuantity => "multipart_quantity"@,
        RuleId::QuantityFragment => "quantity_fragment"@,
        RuleId::Quantity => "quantity"@,
        RuleId::AmountWithConversion => "amount_with_conversion"@,
        RuleId::AmountWithAttachedUnits => "amount_with_attached_units"@,
        RuleId::AmountWithMultiplier => "amount_with_multiplier"@,
        RuleId::AmountImprecise => "amount_imprecise"@,
        RuleId::ParenthesizedQuantity => "parenthesized_quantity"@,
        RuleId::Conversion => "conversion"@,
        RuleId::Amount => "amount"@,
        RuleId::MixedNumber => "mixed_number"@,
        RuleId::Fraction => "fraction"@,
        RuleId::MulticharacterFraction => "multicharacter_fraction"@,
        RuleId::UnicodeFraction => "unicode_fraction"@,
        RuleId::Float => "float"@,
        RuleId::Integer => "integer"@,
        RuleId::Separator => "separator"@,
        RuleId::Number => "number"@,
        RuleId::NumberWord => "number_word"@,
        RuleId::Unit => "unit"@,
        RuleId::EnglishUnit => "english_unit"@,
        RuleId::MetricUnit => "metric_unit"@,
        RuleId::ImpreciseUnit => "imprecise_unit"@,
        RuleId::Ingredient => "ingredient"@,
        RuleId::Cup => "cup"@,
        RuleId::FluidOunce => "fluid_ounce"@,
        RuleId::Gallon => "gallon"@,
        RuleId::Ounce => "ounce"@,
        RuleId::Pint => "pint"@,
        RuleId::Pound => "pound"@,
        RuleId::Quart => "quart"@,
        RuleId::Tablespoon => "tablespoon"@,
        RuleId::Teaspoon => "teaspoon"@,
        RuleId::Calorie => "calorie"@,
        RuleId::Gram => "gram"@,
        RuleId::Joule => "joule"@,
        RuleId::Kilogram => "kilogram"@,
        RuleId::Kilojoule => "kilojoule"@,
        RuleId::Liter => "liter"@,
        RuleId::Milligram => "milligram"@,
        RuleId::Milliliter => "milliliter"@,
        RuleId::Dash => "dash"@,
        RuleId::Handful => "handful"@,
        RuleId::Pinch => "pinch"@,
        RuleId::Touch => "touch"@,
    }
}

pub fn rule_name(r: RuleId) -> (s: String)
    ensures
        s@ == spec_rule_name(r),
{
    match r {
        RuleId::MultipartQuantity => String::from_str("multipart_quantity"),
        RuleId::QuantityFragment => String::from_str("quantity_fragment"),
        RuleId::Quantity => String::from_str("quantity"),
        RuleId::AmountWithConversion => String::from_str("amount_with_conversion"),
        RuleId::AmountWithAttachedUnits => String::from_str("amount_with_attached_units"),
        RuleId::AmountWithMultiplier => String::from_str("amount_with_multiplier"),
        RuleId::AmountImprecise => String::from_str("amount_imprecise"),
        RuleId::ParenthesizedQuantity => String::from_str("parenthesized_quantity"),
        RuleId::Conversion => String::from_str("conversion"),
        RuleId::Amount => String::from_str("amount"),
        RuleId::MixedNumber => String::from_str("mixed_number"),
        RuleId::Fraction => String::from_str("fraction"),
        RuleId::MulticharacterFraction => String::from_str("multicharacter_fraction"),
        RuleId::UnicodeFraction => String::from_str("unicode_fraction"),
        RuleId::Float => String::from_str("float"),
        RuleId::Integer => String::from_str("integer"),
        RuleId::Separator => String::from_str("separator"),
        RuleId::Number => String::from_str("number"),
        RuleId::NumberWord => String::from_str("number_word"),
        RuleId::Unit => String::from_str("unit"),
        RuleId::EnglishUnit => String::from_str("english_unit"),
        RuleId::MetricUnit => String::from_str("metric_unit"),
        RuleId::ImpreciseUnit => String::from_str("imprecise_unit"),
        RuleId::Ingredient => String::from_str("ingredient"),
        RuleId::Cup => String::from_str("cup"),
        RuleId::FluidOunce => String::from_str("fluid_ounce"),
        RuleId::Gallon => String::from_str("gallon"),
        RuleId::Ounce => String::from_str("ounce"),
        RuleId::Pint => String::from_str("pint"),
        RuleId::Pound => String::from_str("pound"),
        RuleId::Quart => String::from_str("quart"),
        RuleId::Tablespoon => String::from_str("tablespoon"),
        RuleId::Teaspoon => String::from_str("teaspoon"),
        RuleId::Calorie => String::from_str("calorie"),
        RuleId::Gram => String::from_str("gram"),
        RuleId::Joule => String::from_str("joule"),
        RuleId::Kilogram => String::from_str("kilogram"),
        RuleId::Kilojoule => String::from_str("kilojoule"),
        RuleId::Liter => String::from_str("liter"),
        RuleId::Milligram => String::from_str("milligram"),
        RuleId::Milliliter => String::from_str("milliliter"),
        RuleId::Dash => String::from_str("dash"),
        RuleId::Handful => String::from_str("handful"),
        RuleId::Pinch => String::from_str("pinch"),
        RuleId::Touch => String::from_str("touch"),
    }
}

/// The value of a run of decimal digits, most significant first.
pub open spec fn digits_val(t: Seq<char>) -> int
    decreases t.len(),
{
    if t.len() == 0 {
        0
    } else {
        digits_val(t.drop_last()) * 10 + (t.last() as int - '0' as int)
    }
}

pub open spec fn all_digits(t: Seq<char>) -> bool {
    forall|k: int| 0 <= k < t.len() ==> is_digit_char(t[k])
}

pub proof fn lemma_digits_val_nonneg(t: Seq<char>)
    requires
        all_digits(t),
    ensures
        digits_val(t) >= 0,
    decreases t.len(),
{
    if t.len() > 0 {
        assert(all_digits(t.drop_last())) by {
            assert(forall|k: int| 0 <= k < t.len() - 1 ==> t.drop_last()[k] == t[k]);
        }
        lemma_digits_val_nonneg(t.drop_last());
    }
}

/// Extending a digit run never shrinks its value.
pub proof fn lemma_digits_val_prefix(t: Seq<char>, m: int)
    requires
        all_digits(t),
        0 <= m <= t.len(),
    ensures
        digits_val(t.subrange(0, m)) <= digits_val(t),
    decreases t.len() - m,
{
    if m < t.len() {
        let u = t.subrange(0, m + 1);
        assert(u.drop_last() =~= t.subrange(0, m));
        assert(all_digits(u));
        lemma_digits_val_nonneg(u.drop_last());
        assert(digits_val(u) == digits_val(t.subrange(0, m)) * 10 + (t[m] as int - '0' as int));
        lemma_digits_val_prefix(t, m + 1);
    } else {
        assert(t.subrange(0, m) =~= t);
    }
}

/// A whole digit run as a machine integer: defined when the span is a
/// non-empty run of digits whose value fits.
pub open spec fn spec_digits_to_u64(t: Seq<char>) -> Option<u64> {
    if t.len() >= 1 && all_digits(t) && digits_val(t) <= u64::MAX {
        Some(digits_val(t) as u64)
    } else {
        None
    }
}

/// Parses the digits of `t` between `lo` and `hi`.
pub fn parse_digits(t: &Vec<char>, lo: usize, hi: usize) -> (r: Option<u64>)
    requires
        lo <= hi <= t@.len(),
    ensures
        r == spec_digits_to_u64(t@.subrange(lo as int, hi as int)),
{
    let ghost sub = t@.subrange(lo as int, hi as int);
    if lo == hi {
        return None;
    }
    let mut acc: u64 = 0;
    let mut k: usize = lo;
    while k < hi
        invariant
            lo <= k <= hi <= t@.len(),
            sub == t@.subrange(lo as int, hi as int),
            all_digits(sub.subrange(0, k - lo)),
            acc as int == digits_val(sub.subrange(0, k - lo)),
        decreases hi - k,
    {
        let c = t[k];
        if !digit_char(c) {
            proof {
                assert(sub[k - lo] == c);
            }
            return None;
        }
        let d: u64 = (c as u32 as u64) - 48;
        let next = match acc.checked_mul(10) {
            Some(x) => x.checked_add(d),
            None => None,
        };
        match next {
            Some(x) => {
                proof {
                    let pre = sub.subrange(0, k - lo);
                    let cur = sub.subrange(0, k + 1 - lo);
                    assert(cur.drop_last() =~= pre);
                    assert(cur.last() == c);
                }
                acc = x;
            }
            None => {
                proof {
                    let pre = sub.subrange(0, k - lo);
                    let cur = sub.subrange(0, k + 1 - lo);
                    assert(cur.drop_last() =~= pre);
                    assert(cur.last() == c);
                    assert(digits_val(cur) > u64::MAX);
                    if all_digits(sub) {
                        lemma_digits_val_prefix(sub, k + 1 - lo);
                    }
                }
                return None;
            }
        }
        k += 1;
    }
    proof {
        assert(sub.subrange(0, hi - lo) =~= sub);
    }
    Some(acc)
}

/// Ten to the `k`-th power.
pub open spec fn pow10(k: int) -> int
    decreases k,
{
    if k <= 0 {
        1
    } else {
        pow10(k - 1) * 10
    }
}

pub proof fn lemma_pow10_pos(k: int)
    ensures
        pow10(k) >= 1,
    decreases k,
{
    if k > 0 {
        lemma_pow10_pos(k - 1);
    }
}

pub proof fn lemma_pow10_mono(a: int, b: int)
    requires
        a <= b,
    ensures
        pow10(a) <= pow10(b),
    decreases b - a,
{
    if a < b {
        lemma_pow10_mono(a, b - 1);
        lemma_pow10_pos(b - 1);
    }
}

/// The index of the first `.` in `t` at or after `i`, or the length.
pub open spec fn dot_index(t: Seq<char>, i: int) -> int
    decreases t.len() - i,
{
    if 0 <= i && i < t.len() {
        if t[i] == '.' {
            i
        } else {
            dot_index(t, i + 1)
        }
    } else {
        i
    }
}

pub proof fn lemma_dot_index(t: Seq<char>, i: int)
    requires
        0 <= i <= t.len(),
    ensures
        i <= dot_index(t, i) <= t.len(),
        dot_index(t, i) < t.len() ==> t[dot_index(t, i)] == '.',
        forall|k: int| i <= k < dot_index(t, i) ==> t[k] != '.',
    decreases t.len() - i,
{
    if i < t.len() && t[i] != '.' {
        lemma_dot_index(t, i + 1);
    }
}

fn find_dot(t: &Vec<char>, i: usize) -> (j: usize)
    requires
        i <= t@.len(),
    ensures
        j == dot_index(t@, i as int),
        i <= j <= t@.len(),
    decreases t@.len() - i,
{
    if i < t.len() {
        if t[i] == '.' {
            i
        } else {
            find_dot(t, i + 1)
        }
    } else {
        i
    }
}

/// The digit characters of a decimal literal: the digits before the first
/// `.`, if any, followed by those after it.
pub open spec fn decimal_digits(t: Seq<char>) -> Seq<char> {
    let d = dot_index(t, 0);
    if d == t.len() {
        t
    } else {
        t.subrange(0, d) + t.subrange(d + 1, t.len() as int)
    }
}

/// The number of fractional digits of a decimal literal.
pub open spec fn decimal_frac_len(t: Seq<char>) -> int {
    let d = dot_index(t, 0);
    if d == t.len() {
        0
    } else {
        t.len() - d - 1
    }
}

/// A decimal literal (`12`, `1.5`, `.25`) as an exact rational: defined when
/// the span is digits with at most one point, has at least one digit, and
/// numerator and denominator both fit.
pub open spec fn spec_decimal_rat(t: Seq<char>) -> Option<Rat> {
    let ds = decimal_digits(t);
    let fl = decimal_frac_len(t);
    if ds.len() >= 1 && all_digits(ds) && digits_val(ds) <= u64::MAX && pow10(fl) <= u64::MAX {
        Some(Rat { num: digits_val(ds) as u64, den: pow10(fl) as u64 })
    } else {
        None
    }
}

/// Parses a decimal literal span into an exact rational.
pub fn parse_decimal(t: &Vec<char>) -> (r: Option<Rat>)
    ensures
        r == spec_decimal_rat(t@),
        r matches Some(v) ==> v.den >= 1,
{
    let n = t.len();
    let d = find_dot(t, 0);
    proof {
        lemma_dot_index(t@, 0);
    }
    if d == n {
        match parse_digits(t, 0, n) {
            Some(v) => {
                proof {
                    assert(t@.subrange(0, n as int) =~= t@);
                    assert(decimal_digits(t@) =~= t@);
                }
                Some(Rat { num: v, den: 1 })
            }
            None => {
                proof {
                    assert(t@.subrange(0, n as int) =~= t@);
                    assert(decimal_digits(t@) =~= t@);
                }
                None
            }
        }
    } else {
        let ghost ds = decimal_digits(t@);
        let ghost fl = decimal_frac_len(t@);
        let mut digits: Vec<char> = Vec::new();
        let mut k: usize = 0;
        while k < n
            invariant
                0 <= k <= n == t@.len(),
                d == dot_index(t@, 0),
                d < n,
                t@[d as int] == '.',
                forall|m: int| 0 <= m < d ==> t@[m] != '.',
                digits@ =~= (if k <= d {
                    t@.subrange(0, k as int)
                } else {
                    t@.subrange(0, d as int) + t@.subrange(d + 1, k as int)
                }),
            decreases n - k,
        {
            if k != d {
                digits.push(t[k]);
            }
            proof {
                if k + 1 <= d {
                    assert(digits@ =~= t@.subrange(0, k + 1));
                } else {
                    assert(digits@ =~= t@.subrange(0, d as int) + t@.subrange(d + 1, k + 1));
                }
            }
            k += 1;
        }
        proof {
            assert(digits@ =~= ds);
        }
        // denominator: ten to the number of fractional digits
        let mut den: u64 = 1;
        let mut m: usize = d + 1;
        while m < n
            invariant
                d + 1 <= m <= n == t@.len(),
                d == dot_index(t@, 0),
                d < n,
                fl == decimal_frac_len(t@),
                den as int == pow10(m - d - 1),
            decreases n - m,
        {
            match den.checked_mul(10) {
                Some(x) => {
                    den = x;
                }
                None => {
                    proof {
                        assert(m < n);
                        assert(fl == n - d - 1);
                        assert(m - d <= fl);
                        lemma_pow10_mono(m - d, fl);
                        assert(pow10(m - d) == pow10(m - d - 1) * 10);
                        assert(pow10(fl) > u64::MAX);
                    }
                    return None;
                }
            }
            m += 1;
        }
        match parse_digits(&digits, 0, digits.len()) {
            Some(v) => {
                proof {
                    assert(digits@.subrange(0, digits@.len() as int) =~= ds);
                    lemma_pow10_pos(fl);
                }
                Some(Rat { num: v, den })
            }
            None => {
                proof {
                    assert(digits@.subrange(0, digits@.len() as int) =~= ds);
                }
                None
            }
        }
    }
}

/// The index of the first `/` in `t` at or after `i`, or the length.
pub open spec fn slash_index(t: Seq<char>, i: int) -> int
    decreases t.len() - i,
{
    if 0 <= i && i < t.len() {
        if t[i] == '/' {
            i
        } else {
            slash_index(t, i + 1)
        }
    } else {
        i
    }
}

pub proof fn lemma_slash_index(t: Seq<char>, i: int)
    requires
        0 <= i <= t.len(),
    ensures
        i <= slash_index(t, i) <= t.len(),
    decreases t.len() - i,
{
    if i < t.len() && t[i] != '/' {
        lemma_slash_index(t, i + 1);
    }
}

fn find_slash(t: &Vec<char>, i: usize) -> (j: usize)
    requires
        i <= t@.len(),
    ensures
        j == slash_index(t@, i as int),
        i <= j <= t@.len(),
    decreases t@.len() - i,
{
    if i < t.len() {
        if t[i] == '/' {
            i
        } else {
            find_slash(t, i + 1)
        }
    } else {
        i
    }
}

/// An ASCII fraction span `digits/digits` as an exact rational: defined when
/// both operands are digit runs that fit and the denominator is non-zero.
pub open spec fn spec_mc_value(t: Seq<char>) -> Option<Rat> {
    let sl = slash_index(t, 0);
    if sl == t.len() {
        None
    } else {
        match (
            spec_digits_to_u64(t.subrange(0, sl)),
            spec_digits_to_u64(t.subrange(sl + 1, t.len() as int)),
        ) {
            (Some(x), Some(y)) => {
                if y >= 1 {
                    Some(Rat { num: x, den: y })
                } else {
                    None
                }
            }
            _ => None,
        }
    }
}

/// Parses a `numerator/denominator` span.
pub fn parse_mc_value(t: &Vec<char>) -> (r: Option<Rat>)
    ensures
        r == spec_mc_value(t@),
{
    let n = t.len();
    let sl = find_slash(t, 0);
    if sl == n {
        return None;
    }
    match (parse_digits(t, 0, sl), parse_digits(t, sl + 1, n)) {
        (Some(x), Some(y)) => {
            if y >= 1 {
                Some(Rat { num: x, den: y })
            } else {
                None
            }
        }
        _ => None,
    }
}

} // verus!
