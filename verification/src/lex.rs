//! Lexical layer: character scanners, case-insensitive keyword matching, and
//! the fixed tables of unit spellings, spelled-out number words and unicode
//! fraction glyphs.

use vstd::prelude::*;

use crate::chars::{
    is_break_char, is_digit_char, is_ascii_letter, lower_char, break_char, digit_char,
    ascii_letter, to_lower,
};
use crate::tree::RuleId;

verus! {

/// End of the run of decimal digits starting at `i`.
pub open spec fn digits_end(s: Seq<char>, i: int) -> int
    decreases s.len() - i,
{
    if 0 <= i && i < s.len() && is_digit_char(s[i]) {
        digits_end(s, i + 1)
    } else {
        i
    }
}

/// End of the run of spaces and tabs starting at `i`.
pub open spec fn ws_end(s: Seq<char>, i: int) -> int
    decreases s.len() - i,
{
    if 0 <= i && i < s.len() && (s[i] == ' ' || s[i] == '\t') {
        ws_end(s, i + 1)
    } else {
        i
    }
}

/// End of the run of characters that may stand between an amount and its
/// unit: whitespace or a hyphen, as in `16-ounce`.
pub open spec fn unit_sep_end(s: Seq<char>, i: int) -> int
    decreases s.len() - i,
{
    if 0 <= i && i < s.len() && (s[i] == ' ' || s[i] == '\t' || s[i] == '-') {
        unit_sep_end(s, i + 1)
    } else {
        i
    }
}

/// End of the run of characters that separate quantity fragments: break
/// characters or a slash.
pub open spec fn frag_sep_end(s: Seq<char>, i: int) -> int
    decreases s.len() - i,
{
    if 0 <= i && i < s.len() && (is_break_char(s[i]) || s[i] == '/') {
        frag_sep_end(s, i + 1)
    } else {
        i
    }
}

pub proof fn lemma_digits_end(s: Seq<char>, i: int)
    requires
        0 <= i <= s.len(),
    ensures
        i <= digits_end(s, i) <= s.len(),
    decreases s.len() - i,
{
    if i < s.len() && is_digit_char(s[i]) {
        lemma_digits_end(s, i + 1);
    }
}

pub proof fn lemma_ws_end(s: Seq<char>, i: int)
    requires
        0 <= i <= s.len(),
    ensures
        i <= ws_end(s, i) <= s.len(),
    decreases s.len() - i,
{
    if i < s.len() && (s[i] == ' ' || s[i] == '\t') {
        lemma_ws_end(s, i + 1);
    }
}

pub proof fn lemma_unit_sep_end(s: Seq<char>, i: int)
    requires
        0 <= i <= s.len(),
    ensures
        i <= unit_sep_end(s, i) <= s.len(),
    decreases s.len() - i,
{
    if i < s.len() && (s[i] == ' ' || s[i] == '\t' || s[i] == '-') {
        lemma_unit_sep_end(s, i + 1);
    }
}

pub proof fn lemma_frag_sep_end(s: Seq<char>, i: int)
    requires
        0 <= i <= s.len(),
    ensures
        i <= frag_sep_end(s, i) <= s.len(),
    decreases s.len() - i,
{
    if i < s.len() && (is_break_char(s[i]) || s[i] == '/') {
        lemma_frag_sep_end(s, i + 1);
    }
}

pub fn scan_digits(s: &Vec<char>, i: usize) -> (j: usize)
    requires
        i <= s@.len(),
    ensures
        j == digits_end(s@, i as int),
        i <= j <= s@.len(),
    decreases s@.len() - i,
{
    if i < s.len() && digit_char(s[i]) {
        scan_digits(s, i + 1)
    } else {
        i
    }
}

pub fn scan_ws(s: &Vec<char>, i: usize) -> (j: usize)
    requires
        i <= s@.len(),
    ensures
        j == ws_end(s@, i as int),
        i <= j <= s@.len(),
    decreases s@.len() - i,
{
    if i < s.len() && (s[i] == ' ' || s[i] == '\t') {
        scan_ws(s, i + 1)
    } else {
        i
    }
}

pub fn scan_unit_sep(s: &Vec<char>, i: usize) -> (j: usize)
    requires
        i <= s@.len(),
    ensures
        j == unit_sep_end(s@, i as int),
        i <= j <= s@.len(),
    decreases s@.len() - i,
{
    if i < s.len() && (s[i] == ' ' || s[i] == '\t' || s[i] == '-') {
        scan_unit_sep(s, i + 1)
    } else {
        i
    }
}

pub fn scan_frag_sep(s: &Vec<char>, i: usize) -> (j: usize)
    requires
        i <= s@.len(),
    ensures
        j == frag_sep_end(s@, i as int),
        i <= j <= s@.len(),
    decreases s@.len() - i,
{
    if i < s.len() && (break_char(s[i]) || s[i] == '/') {
        scan_frag_sep(s, i + 1)
    } else {
        i
    }
}

/// The lowercase folding of `s` matches `kw` at position `i`.
pub open spec fn kw_at(s: Seq<char>, i: int, kw: Seq<char>) -> bool {
    1 <= kw.len() && 0 <= i && i + kw.len() <= s.len() && (forall|k: int|
        0 <= k < kw.len() ==> lower_char(s[i + k]) == kw[k])
}

/// No ASCII letter stands at position `j`, so a keyword ending there ends at
/// a word boundary.
pub open spec fn no_letter_at(s: Seq<char>, j: int) -> bool {
    j >= s.len() || !is_ascii_letter(s[j])
}

/// `kw` matches at `i` and ends at a word boundary.
pub open spec fn word_at(s: Seq<char>, i: int, kw: Seq<char>) -> bool {
    kw_at(s, i, kw) && no_letter_at(s, i + kw.len())
}

/// Matches the keyword `kw` (given in lowercase) case-insensitively at
/// position `i`, requiring a word boundary after it.
pub fn match_word(s: &Vec<char>, i: usize, kw: &str) -> (r: Option<usize>)
    requires
        i <= s@.len(),
    ensures
        match r {
            Some(j) => word_at(s@, i as int, kw@) && j == i + kw@.len() && i < j <= s@.len(),
            None => !word_at(s@, i as int, kw@),
        },
{
    let n = kw.unicode_len();
    let slen = s.len();
    if n < 1 || n > slen - i {
        return None;
    }
    let mut k: usize = 0;
    while k < n
        invariant
            0 <= k <= n,
            1 <= n == kw@.len(),
            slen == s@.len(),
            i + n <= slen,
            forall|m: int| 0 <= m < k ==> lower_char(s@[i + m]) == kw@[m],
        decreases n - k,
    {
        if to_lower(s[i + k]) != kw.get_char(k) {
            return None;
        }
        k += 1;
    }
    if i + n < s.len() && ascii_letter(s[i + n]) {
        return None;
    }
    Some(i + n)
}

/// Which unit spelling, if any, begins at position `i`: the specific unit
/// rule, its unit-system rule, and the position after the spelling. Spellings
/// are tried in a fixed order, longer spellings of a unit before its shorter
/// abbreviations.
pub open spec fn spec_match_unit(s: Seq<char>, i: int) -> Option<(RuleId, RuleId, int)> {
    if word_at(s, i, "cups"@) {
        Some((RuleId::Cup, RuleId::EnglishUnit, i + "cups"@.len()))
    } else if word_at(s, i, "cup"@) {
        Some((RuleId::Cup, RuleId::EnglishUnit, i + "cup"@.len()))
    } else if word_at(s, i, "c."@) {
        Some((RuleId::Cup, RuleId::EnglishUnit, i + "c."@.len()))
    } else if word_at(s, i, "c"@) {
        Some((RuleId::Cup, RuleId::EnglishUnit, i + "c"@.len()))
    } else if spec_fluid_ounce(s, i) is Some {
        Some((RuleId::FluidOunce, RuleId::EnglishUnit, spec_fluid_ounce(s, i)->Some_0))
    } else if word_at(s, i, "gallons"@) {
        Some((RuleId::Gallon, RuleId::EnglishUnit, i + "gallons"@.len()))
    } else if word_at(s, i, "gallon"@) {
        Some((RuleId::Gallon, RuleId::EnglishUnit, i + "gallon"@.len()))
    } else if word_at(s, i, "gal."@) {
        Some((RuleId::Gallon, RuleId::EnglishUnit, i + "gal."@.len()))
    } else if word_at(s, i, "gal"@) {
        Some((RuleId::Gallon, RuleId::EnglishUnit, i + "gal"@.len()))
    } else if word_at(s, i, "ounces"@) {
        Some((RuleId::Ounce, RuleId::EnglishUnit, i + "ounces"@.len()))
    } else if word_at(s, i, "ounce"@) {
        Some((RuleId::Ounce, RuleId::EnglishUnit, i + "ounce"@.len()))
    } else if word_at(s, i, "oz."@) {
        Some((RuleId::Ounce, RuleId::EnglishUnit, i + "oz."@.len()))
    } else if word_at(s, i, "oz"@) {
        Some((RuleId::Ounce, RuleId::EnglishUnit, i + "oz"@.len()))
    } else if word_at(s, i, "pints"@) {
        Some((RuleId::Pint, RuleId::EnglishUnit, i + "pints"@.len()))
    } else if word_at(s, i, "pint"@) {
        Some((RuleId::Pint, RuleId::EnglishUnit, i + "pint"@.len()))
    } else if word_at(s, i, "pt."@) {
        Some((RuleId::Pint, RuleId::EnglishUnit, i + "pt."@.len()))
    } else if word_at(s, i, "pt"@) {
        Some((RuleId::Pint, RuleId::EnglishUnit, i + "pt"@.len()))
    } else if word_at(s, i, "pounds"@) {
        Some((RuleId::Pound, RuleId::EnglishUnit, i + "pounds"@.len()))
    } else if word_at(s, i, "pound"@) {
        Some((RuleId::Pound, RuleId::EnglishUnit, i + "pound"@.len()))
    } else if word_at(s, i, "lbs."@) {
        Some((RuleId::Pound, RuleId::EnglishUnit, i + "lbs."@.len()))
    } else if word_at(s, i, "lbs"@) {
        Some((RuleId::Pound, RuleId::EnglishUnit, i + "lbs"@.len()))
    } else if word_at(s, i, "lb."@) {
        Some((RuleId::Pound, RuleId::EnglishUnit, i + "lb."@.len()))
    } else if word_at(s, i, "lb"@) {
        Some((RuleId::Pound, RuleId::EnglishUnit, i + "lb"@.len()))
    } else if word_at(s, i, "quarts"@) {
        Some((RuleId::Quart, RuleId::EnglishUnit, i + "quarts"@.len()))
    } else if word_at(s, i, "quart"@) {
        Some((RuleId::Quart, RuleId::EnglishUnit, i + "quart"@.len()))
    } else if word_at(s, i, "qts."@) {
        Some((RuleId::Quart, RuleId::EnglishUnit, i + "qts."@.len()))
    } else if word_at(s, i, "qts"@) {
        Some((RuleId::Quart, RuleId::EnglishUnit, i + "qts"@.len()))
    } else if word_at(s, i, "qt."@) {
        Some((RuleId::Quart, RuleId::EnglishUnit, i + "qt."@.len()))
    } else if word_at(s, i, "qt"@) {
        Some((RuleId::Quart, RuleId::EnglishUnit, i + "qt"@.len()))
    } else if word_at(s, i, "tablespoons"@) {
        Some((RuleId::Tablespoon, RuleId::EnglishUnit, i + "tablespoons"@.len()))
    } else if word_at(s, i, "tablespoon"@) {
        Some((RuleId::Tablespoon, RuleId::EnglishUnit, i + "tablespoon"@.len()))
    } else if word_at(s, i, "tbsp."@) {
        Some((RuleId::Tablespoon, RuleId::EnglishUnit, i + "tbsp."@.len()))
    } else if word_at(s, i, "tbsp"@) {
        Some((RuleId::Tablespoon, RuleId::EnglishUnit, i + "tbsp"@.len()))
    } else if word_at(s, i, "tbs."@) {
        Some((RuleId::Tablespoon, RuleId::EnglishUnit, i + "tbs."@.len()))
    } else if word_at(s, i, "tbs"@) {
        Some((RuleId::Tablespoon, RuleId::EnglishUnit, i + "tbs"@.len()))
    } else if word_at(s, i, "teaspoons"@) {
        Some((RuleId::Teaspoon, RuleId::EnglishUnit, i + "teaspoons"@.len()))
    } else if word_at(s, i, "teaspoon"@) {
        Some((RuleId::Teaspoon, RuleId::EnglishUnit, i + "teaspoon"@.len()))
    } else if word_at(s, i, "tsp."@) {
        Some((RuleId::Teaspoon, RuleId::EnglishUnit, i + "tsp."@.len()))
    } else if word_at(s, i, "tsp"@) {
        Some((RuleId::Teaspoon, RuleId::EnglishUnit, i + "tsp"@.len()))
    } else if word_at(s, i, "kcal"@) {
        Some((RuleId::Calorie, RuleId::EnglishUnit, i + "kcal"@.len()))
    } else if word_at(s, i, "cal"@) {
        Some((RuleId::Calorie, RuleId::EnglishUnit, i + "cal"@.len()))
    } else if word_at(s, i, "grams"@) {
        Some((RuleId::Gram, RuleId::MetricUnit, i + "grams"@.len()))
    } else if word_at(s, i, "gram"@) {
        Some((RuleId::Gram, RuleId::MetricUnit, i + "gram"@.len()))
    } else if word_at(s, i, "gr."@) {
        Some((RuleId::Gram, RuleId::MetricUnit, i + "gr."@.len()))
    } else if word_at(s, i, "gr"@) {
        Some((RuleId::Gram, RuleId::MetricUnit, i + "gr"@.len()))
    } else if word_at(s, i, "g."@) {
        Some((RuleId::Gram, RuleId::MetricUnit, i + "g."@.len()))
    } else if word_at(s, i, "g"@) {
        Some((RuleId::Gram, RuleId::MetricUnit, i + "g"@.len()))
    } else if word_at(s, i, "joules"@) {
        Some((RuleId::Joule, RuleId::MetricUnit, i + "joules"@.len()))
    } else if word_at(s, i, "joule"@) {
        Some((RuleId::Joule, RuleId::MetricUnit, i + "joule"@.len()))
    } else if word_at(s, i, "j"@) {
        Some((RuleId::Joule, RuleId::MetricUnit, i + "j"@.len()))
    } else if word_at(s, i, "kilograms"@) {
        Some((RuleId::Kilogram, RuleId::MetricUnit, i + "kilograms"@.len()))
    } else if word_at(s, i, "kilogram"@) {
        Some((RuleId::Kilogram, RuleId::MetricUnit, i + "kilogram"@.len()))
    } else if word_at(s, i, "kg."@) {
        Some((RuleId::Kilogram, RuleId::MetricUnit, i + "kg."@.len()))
    } else if word_at(s, i, "kg"@) {
        Some((RuleId::Kilogram, RuleId::MetricUnit, i + "kg"@.len()))
    } else if word_at(s, i, "kilojoules"@) {
        Some((RuleId::Kilojoule, RuleId::MetricUnit, i + "kilojoules"@.len()))
    } else if word_at(s, i, "kilojoule"@) {
        Some((RuleId::Kilojoule, RuleId::MetricUnit, i + "kilojoule"@.len()))
    } else if word_at(s, i, "kj"@) {
        Some((RuleId::Kilojoule, RuleId::MetricUnit, i + "kj"@.len()))
    } else if word_at(s, i, "liters"@) {
        Some((RuleId::Liter, RuleId::MetricUnit, i + "liters"@.len()))
    } else if word_at(s, i, "liter"@) {
        Some((RuleId::Liter, RuleId::MetricUnit, i + "liter"@.len()))
    } else if word_at(s, i, "litres"@) {
        Some((RuleId::Liter, RuleId::MetricUnit, i + "litres"@.len()))
    } else if word_at(s, i, "litre"@) {
        Some((RuleId::Liter, RuleId::MetricUnit, i + "litre"@.len()))
    } else if word_at(s, i, "l."@) {
        Some((RuleId::Liter, RuleId::MetricUnit, i + "l."@.len()))
    } else if word_at(s, i, "l"@) {
        Some((RuleId::Liter, RuleId::MetricUnit, i + "l"@.len()))
    } else if word_at(s, i, "milligrams"@) {
        Some((RuleId::Milligram, RuleId::MetricUnit, i + "milligrams"@.len()))
    } else if word_at(s, i, "milligram"@) {
        Some((RuleId::Milligram, RuleId::MetricUnit, i + "milligram"@.len()))
    } else if word_at(s, i, "mg."@) {
        Some((RuleId::Milligram, RuleId::MetricUnit, i + "mg."@.len()))
    } else if word_at(s, i, "mg"@) {
        Some((RuleId::Milligram, RuleId::MetricUnit, i + "mg"@.len()))
    } else if word_at(s, i, "milliliters"@) {
        Some((RuleId::Milliliter, RuleId::MetricUnit, i + "milliliters"@.len()))
    } else if word_at(s, i, "milliliter"@) {
        Some((RuleId::Milliliter, RuleId::MetricUnit, i + "milliliter"@.len()))
    } else if word_at(s, i, "millilitres"@) {
        Some((RuleId::Milliliter, RuleId::MetricUnit, i + "millilitres"@.len()))
    } else if word_at(s, i, "millilitre"@) {
        Some((RuleId::Milliliter, RuleId::MetricUnit, i + "millilitre"@.len()))
    } else if word_at(s, i, "ml."@) {
        Some((RuleId::Milliliter, RuleId::MetricUnit, i + "ml."@.len()))
    } else if word_at(s, i, "ml"@) {
        Some((RuleId::Milliliter, RuleId::MetricUnit, i + "ml"@.len()))
    } else if word_at(s, i, "dashes"@) {
        Some((RuleId::Dash, RuleId::ImpreciseUnit, i + "dashes"@.len()))
    } else if word_at(s, i, "dash"@) {
        Some((RuleId::Dash, RuleId::ImpreciseUnit, i + "dash"@.len()))
    } else if word_at(s, i, "handfuls"@) {
        Some((RuleId::Handful, RuleId::ImpreciseUnit, i + "handfuls"@.len()))
    } else if word_at(s, i, "handful"@) {
        Some((RuleId::Handful, RuleId::ImpreciseUnit, i + "handful"@.len()))
    } else if word_at(s, i, "pinches"@) {
        Some((RuleId::Pinch, RuleId::ImpreciseUnit, i + "pinches"@.len()))
    } else if word_at(s, i, "pinch"@) {
        Some((RuleId::Pinch, RuleId::ImpreciseUnit, i + "pinch"@.len()))
    } else if word_at(s, i, "touches"@) {
        Some((RuleId::Touch, RuleId::ImpreciseUnit, i + "touches"@.len()))
    } else if word_at(s, i, "touch"@) {
        Some((RuleId::Touch, RuleId::ImpreciseUnit, i + "touch"@.len()))
    } else {
        None
    }
}

/// A fluid-ounce spelling: a `fluid` word, optional whitespace, an `ounce`
/// word. Returns the position after the spelling.
pub open spec fn spec_fluid_ounce(s: Seq<char>, i: int) -> Option<int> {
    let f = if word_at(s, i, "fluid"@) {
        Some(i + "fluid"@.len())
    } else if word_at(s, i, "fl."@) {
        Some(i + "fl."@.len())
    } else if word_at(s, i, "fl"@) {
        Some(i + "fl"@.len())
    } else {
        None
    };
    match f {
        Some(j) => {
            let k = ws_end(s, j);
            if word_at(s, k, "ounces"@) {
                Some(k + "ounces"@.len())
            } else if word_at(s, k, "ounce"@) {
                Some(k + "ounce"@.len())
            } else if word_at(s, k, "oz."@) {
                Some(k + "oz."@.len())
            } else if word_at(s, k, "oz"@) {
                Some(k + "oz"@.len())
            } else {
                None
            }
        }
        None => None,
    }
}

fn match_fluid_ounce(s: &Vec<char>, i: usize) -> (r: Option<usize>)
    requires
        i <= s@.len(),
    ensures
        match r {
            Some(e) => spec_fluid_ounce(s@, i as int) == Some(e as int) && i < e <= s@.len(),
            None => spec_fluid_ounce(s@, i as int) is None,
        },
{
    let f = if let Some(j) = match_word(s, i, "fluid") {
        Some(j)
    } else if let Some(j) = match_word(s, i, "fl.") {
        Some(j)
    } else if let Some(j) = match_word(s, i, "fl") {
        Some(j)
    } else {
        None
    };
    match f {
        Some(j) => {
            let k = scan_ws(s, j);
            if let Some(e) = match_word(s, k, "ounces") {
                Some(e)
            } else if let Some(e) = match_word(s, k, "ounce") {
                Some(e)
            } else if let Some(e) = match_word(s, k, "oz.") {
                Some(e)
            } else if let Some(e) = match_word(s, k, "oz") {
                Some(e)
            } else {
                None
            }
        }
        None => None,
    }
}

pub fn match_unit(s: &Vec<char>, i: usize) -> (r: Option<(RuleId, RuleId, usize)>)
    requires
        i <= s@.len(),
    ensures
        match r {
            Some((uid, sys, j)) => spec_match_unit(s@, i as int) == Some(
                (uid, sys, j as int),
            ) && i < j <= s@.len(),
            None => spec_match_unit(s@, i as int) is None,
        },
{
    if let Some(j) = match_word(s, i, "cups") {
        Some((RuleId::Cup, RuleId::EnglishUnit, j))
    } else if let Some(j) = match_word(s, i, "cup") {
        Some((RuleId::Cup, RuleId::EnglishUnit, j))
    } else if let Some(j) = match_word(s, i, "c.") {
        Some((RuleId::Cup, RuleId::EnglishUnit, j))
    } else if let Some(j) = match_word(s, i, "c") {
        Some((RuleId::Cup, RuleId::EnglishUnit, j))
    } else if let Some(j) = match_fluid_ounce(s, i) {
        Some((RuleId::FluidOunce, RuleId::EnglishUnit, j))
    } else if let Some(j) = match_word(s, i, "gallons") {
        Some((RuleId::Gallon, RuleId::EnglishUnit, j))
    } else if let Some(j) = match_word(s, i, "gallon") {
        Some((RuleId::Gallon, RuleId::EnglishUnit, j))
    } else if let Some(j) = match_word(s, i, "gal.") {
        Some((RuleId::Gallon, RuleId::EnglishUnit, j))
    } else if let Some(j) = match_word(s, i, "gal") {
        Some((RuleId::Gallon, RuleId::EnglishUnit, j))
    } else if let Some(j) = match_word(s, i, "ounces") {
        Some((RuleId::Ounce, RuleId::EnglishUnit, j))
    } else if let Some(j) = match_word(s, i, "ounce") {
        Some((RuleId::Ounce, RuleId::EnglishUnit, j))
    } else if let Some(j) = match_word(s, i, "oz.") {
        Some((RuleId::Ounce, RuleId::EnglishUnit, j))
    } else if let Some(j) = match_word(s, i, "oz") {
        Some((RuleId::Ounce, RuleId::EnglishUnit, j))
    } else if let Some(j) = match_word(s, i, "pints") {
        Some((RuleId::Pint, RuleId::EnglishUnit, j))
    } else if let Some(j) = match_word(s, i, "pint") {
        Some((RuleId::Pint, RuleId::EnglishUnit, j))
    } else if let Some(j) = match_word(s, i, "pt.") {
        Some((RuleId::Pint, RuleId::EnglishUnit, j))
    } else if let Some(j) = match_word(s, i, "pt") {
        Some((RuleId::Pint, RuleId::EnglishUnit, j))
    } else if let Some(j) = match_word(s, i, "pounds") {
        Some((RuleId::Pound, RuleId::EnglishUnit, j))
    } else if let Some(j) = match_word(s, i, "pound") {
        Some((RuleId::Pound, RuleId::EnglishUnit, j))
    } else if let Some(j) = match_word(s, i, "lbs.") {
        Some((RuleId::Pound, RuleId::EnglishUnit, j))
    } else if let Some(j) = match_word(s, i, "lbs") {
        Some((RuleId::Pound, RuleId::EnglishUnit, j))
    } else if let Some(j) = match_word(s, i, "lb.") {
        Some((RuleId::Pound, RuleId::EnglishUnit, j))
    } else if let Some(j) = match_word(s, i, "lb") {
        Some((RuleId::Pound, RuleId::EnglishUnit, j))
    } else if let Some(j) = match_word(s, i, "quarts") {
        Some((RuleId::Quart, RuleId::EnglishUnit, j))
    } else if let Some(j) = match_word(s, i, "quart") {
        Some((RuleId::Quart, RuleId::EnglishUnit, j))
    } else if let Some(j) = match_word(s, i, "qts.") {
        Some((RuleId::Quart, RuleId::EnglishUnit, j))
    } else if let Some(j) = match_word(s, i, "qts") {
        Some((RuleId::Quart, RuleId::EnglishUnit, j))
    } else if let Some(j) = match_word(s, i, "qt.") {
        Some((RuleId::Quart, RuleId::EnglishUnit, j))
    } else if let Some(j) = match_word(s, i, "qt") {
        Some((RuleId::Quart, RuleId::EnglishUnit, j))
    } else if let Some(j) = match_word(s, i, "tablespoons") {
        Some((RuleId::Tablespoon, RuleId::EnglishUnit, j))
    } else if let Some(j) = match_word(s, i, "tablespoon") {
        Some((RuleId::Tablespoon, RuleId::EnglishUnit, j))
    } else if let Some(j) = match_word(s, i, "tbsp.") {
        Some((RuleId::Tablespoon, RuleId::EnglishUnit, j))
    } else if let Some(j) = match_word(s, i, "tbsp") {
        Some((RuleId::Tablespoon, RuleId::EnglishUnit, j))
    } else if let Some(j) = match_word(s, i, "tbs.") {
        Some((RuleId::Tablespoon, RuleId::EnglishUnit, j))
    } else if let Some(j) = match_word(s, i, "tbs") {
        Some((RuleId::Tablespoon, RuleId::EnglishUnit, j))
    } else if let Some(j) = match_word(s, i, "teaspoons") {
        Some((RuleId::Teaspoon, RuleId::EnglishUnit, j))
    } else if let Some(j) = match_word(s, i, "teaspoon") {
        Some((RuleId::Teaspoon, RuleId::EnglishUnit, j))
    } else if let Some(j) = match_word(s, i, "tsp.") {
        Some((RuleId::Teaspoon, RuleId::EnglishUnit, j))
    } else if let Some(j) = match_word(s, i, "tsp") {
        Some((RuleId::Teaspoon, RuleId::EnglishUnit, j))
    } else if let Some(j) = match_word(s, i, "kcal") {
        Some((RuleId::Calorie, RuleId::EnglishUnit, j))
    } else if let Some(j) = match_word(s, i, "cal") {
        Some((RuleId::Calorie, RuleId::EnglishUnit, j))
    } else if let Some(j) = match_word(s, i, "grams") {
        Some((RuleId::Gram, RuleId::MetricUnit, j))
    } else if let Some(j) = match_word(s, i, "gram") {
        Some((RuleId::Gram, RuleId::MetricUnit, j))
    } else if let Some(j) = match_word(s, i, "gr.") {
        Some((RuleId::Gram, RuleId::MetricUnit, j))
    } else if let Some(j) = match_word(s, i, "gr") {
        Some((RuleId::Gram, RuleId::MetricUnit, j))
    } else if let Some(j) = match_word(s, i, "g.") {
        Some((RuleId::Gram, RuleId::MetricUnit, j))
    } else if let Some(j) = match_word(s, i, "g") {
        Some((RuleId::Gram, RuleId::MetricUnit, j))
    } else if let Some(j) = match_word(s, i, "joules") {
        Some((RuleId::Joule, RuleId::MetricUnit, j))
    } else if let Some(j) = match_word(s, i, "joule") {
        Some((RuleId::Joule, RuleId::MetricUnit, j))
    } else if let Some(j) = match_word(s, i, "j") {
        Some((RuleId::Joule, RuleId::MetricUnit, j))
    } else if let Some(j) = match_word(s, i, "kilograms") {
        Some((RuleId::Kilogram, RuleId::MetricUnit, j))
    } else if let Some(j) = match_word(s, i, "kilogram") {
        Some((RuleId::Kilogram, RuleId::MetricUnit, j))
    } else if let Some(j) = match_word(s, i, "kg.") {
        Some((RuleId::Kilogram, RuleId::MetricUnit, j))
    } else if let Some(j) = match_word(s, i, "kg") {
        Some((RuleId::Kilogram, RuleId::MetricUnit, j))
    } else if let Some(j) = match_word(s, i, "kilojoules") {
        Some((RuleId::Kilojoule, RuleId::MetricUnit, j))
    } else if let Some(j) = match_word(s, i, "kilojoule") {
        Some((RuleId::Kilojoule, RuleId::MetricUnit, j))
    } else if let Some(j) = match_word(s, i, "kj") {
        Some((RuleId::Kilojoule, RuleId::MetricUnit, j))
    } else if let Some(j) = match_word(s, i, "liters") {
        Some((RuleId::Liter, RuleId::MetricUnit, j))
    } else if let Some(j) = match_word(s, i, "liter") {
        Some((RuleId::Liter, RuleId::MetricUnit, j))
    } else if let Some(j) = match_word(s, i, "litres") {
        Some((RuleId::Liter, RuleId::MetricUnit, j))
    } else if let Some(j) = match_word(s, i, "litre") {
        Some((RuleId::Liter, RuleId::MetricUnit, j))
    } else if let Some(j) = match_word(s, i, "l.") {
        Some((RuleId::Liter, RuleId::MetricUnit, j))
    } else if let Some(j) = match_word(s, i, "l") {
        Some((RuleId::Liter, RuleId::MetricUnit, j))
    } else if let Some(j) = match_word(s, i, "milligrams") {
        Some((RuleId::Milligram, RuleId::MetricUnit, j))
    } else if let Some(j) = match_word(s, i, "milligram") {
        Some((RuleId::Milligram, RuleId::MetricUnit, j))
    } else if let Some(j) = match_word(s, i, "mg.") {
        Some((RuleId::Milligram, RuleId::MetricUnit, j))
    } else if let Some(j) = match_word(s, i, "mg") {
        Some((RuleId::Milligram, RuleId::MetricUnit, j))
    } else if let Some(j) = match_word(s, i, "milliliters") {
        Some((RuleId::Milliliter, RuleId::MetricUnit, j))
    } else if let Some(j) = match_word(s, i, "milliliter") {
        Some((RuleId::Milliliter, RuleId::MetricUnit, j))
    } else if let Some(j) = match_word(s, i, "millilitres") {
        Some((RuleId::Milliliter, RuleId::MetricUnit, j))
    } else if let Some(j) = match_word(s, i, "millilitre") {
        Some((RuleId::Milliliter, RuleId::MetricUnit, j))
    } else if let Some(j) = match_word(s, i, "ml.") {
        Some((RuleId::Milliliter, RuleId::MetricUnit, j))
    } else if let Some(j) = match_word(s, i, "ml") {
        Some((RuleId::Milliliter, RuleId::MetricUnit, j))
    } else if let Some(j) = match_word(s, i, "dashes") {
        Some((RuleId::Dash, RuleId::ImpreciseUnit, j))
    } else if let Some(j) = match_word(s, i, "dash") {
        Some((RuleId::Dash, RuleId::ImpreciseUnit, j))
    } else if let Some(j) = match_word(s, i, "handfuls") {
        Some((RuleId::Handful, RuleId::ImpreciseUnit, j))
    } else if let Some(j) = match_word(s, i, "handful") {
        Some((RuleId::Handful, RuleId::ImpreciseUnit, j))
    } else if let Some(j) = match_word(s, i, "pinches") {
        Some((RuleId::Pinch, RuleId::ImpreciseUnit, j))
    } else if let Some(j) = match_word(s, i, "pinch") {
        Some((RuleId::Pinch, RuleId::ImpreciseUnit, j))
    } else if let Some(j) = match_word(s, i, "touches") {
        Some((RuleId::Touch, RuleId::ImpreciseUnit, j))
    } else if let Some(j) = match_word(s, i, "touch") {
        Some((RuleId::Touch, RuleId::ImpreciseUnit, j))
    } else {
        None
    }
}

/// Which spelled-out number word, if any, begins at position `i`; returns the
/// position after the word.
pub open spec fn spec_match_number_word(s: Seq<char>, i: int) -> Option<int> {
    if word_at(s, i, "an"@) {
        Some(i + "an"@.len())
    } else if word_at(s, i, "a"@) {
        Some(i + "a"@.len())
    } else if word_at(s, i, "zero"@) {
        Some(i + "zero"@.len())
    } else if word_at(s, i, "one"@) {
        Some(i + "one"@.len())
    } else if word_at(s, i, "two"@) {
        Some(i + "two"@.len())
    } else if word_at(s, i, "three"@) {
        Some(i + "three"@.len())
    } else if word_at(s, i, "four"@) {
        Some(i + "four"@.len())
    } else if word_at(s, i, "five"@) {
        Some(i + "five"@.len())
    } else if word_at(s, i, "six"@) {
        Some(i + "six"@.len())
    } else if word_at(s, i, "seven"@) {
        Some(i + "seven"@.len())
    } else if word_at(s, i, "eight"@) {
        Some(i + "eight"@.len())
    } else if word_at(s, i, "nine"@) {
        Some(i + "nine"@.len())
    } else if word_at(s, i, "ten"@) {
        Some(i + "ten"@.len())
    } else if word_at(s, i, "eleven"@) {
        Some(i + "eleven"@.len())
    } else if word_at(s, i, "twelve"@) {
        Some(i + "twelve"@.len())
    } else if word_at(s, i, "thirteen"@) {
        Some(i + "thirteen"@.len())
    } else if word_at(s, i, "fourteen"@) {
        Some(i + "fourteen"@.len())
    } else if word_at(s, i, "fifteen"@) {
        Some(i + "fifteen"@.len())
    } else if word_at(s, i, "sixteen"@) {
        Some(i + "sixteen"@.len())
    } else if word_at(s, i, "seventeen"@) {
        Some(i + "seventeen"@.len())
    } else if word_at(s, i, "eighteen"@) {
        Some(i + "eighteen"@.len())
    } else if word_at(s, i, "nineteen"@) {
        Some(i + "nineteen"@.len())
    } else if word_at(s, i, "twenty"@) {
        Some(i + "twenty"@.len())
    } else if word_at(s, i, "thirty"@) {
        Some(i + "thirty"@.len())
    } else if word_at(s, i, "forty"@) {
        Some(i + "forty"@.len())
    } else if word_at(s, i, "fifty"@) {
        Some(i + "fifty"@.len())
    } else if word_at(s, i, "sixty"@) {
        Some(i + "sixty"@.len())
    } else if word_at(s, i, "seventy"@) {
        Some(i + "seventy"@.len())
    } else if word_at(s, i, "eighty"@) {
        Some(i + "eighty"@.len())
    } else if word_at(s, i, "ninety"@) {
        Some(i + "ninety"@.len())
    } else {
        None
    }
}

pub fn match_number_word(s: &Vec<char>, i: usize) -> (r: Option<usize>)
    requires
        i <= s@.len(),
    ensures
        match r {
            Some(j) => spec_match_number_word(s@, i as int) == Some(j as int) && i < j <= s@.len(),
            None => spec_match_number_word(s@, i as int) is None,
        },
{
    if let Some(j) = match_word(s, i, "an") {
        Some(j)
    } else if let Some(j) = match_word(s, i, "a") {
        Some(j)
    } else if let Some(j) = match_word(s, i, "zero") {
        Some(j)
    } else if let Some(j) = match_word(s, i, "one") {
        Some(j)
    } else if let Some(j) = match_word(s, i, "two") {
        Some(j)
    } else if let Some(j) = match_word(s, i, "three") {
        Some(j)
    } else if let Some(j) = match_word(s, i, "four") {
        Some(j)
    } else if let Some(j) = match_word(s, i, "five") {
        Some(j)
    } else if let Some(j) = match_word(s, i, "six") {
        Some(j)
    } else if let Some(j) = match_word(s, i, "seven") {
        Some(j)
    } else if let Some(j) = match_word(s, i, "eight") {
        Some(j)
    } else if let Some(j) = match_word(s, i, "nine") {
        Some(j)
    } else if let Some(j) = match_word(s, i, "ten") {
        Some(j)
    } else if let Some(j) = match_word(s, i, "eleven") {
        Some(j)
    } else if let Some(j) = match_word(s, i, "twelve") {
        Some(j)
    } else if let Some(j) = match_word(s, i, "thirteen") {
        Some(j)
    } else if let Some(j) = match_word(s, i, "fourteen") {
        Some(j)
    } else if let Some(j) = match_word(s, i, "fifteen") {
        Some(j)
    } else if let Some(j) = match_word(s, i, "sixteen") {
        Some(j)
    } else if let Some(j) = match_word(s, i, "seventeen") {
        Some(j)
    } else if let Some(j) = match_word(s, i, "eighteen") {
        Some(j)
    } else if let Some(j) = match_word(s, i, "nineteen") {
        Some(j)
    } else if let Some(j) = match_word(s, i, "twenty") {
        Some(j)
    } else if let Some(j) = match_word(s, i, "thirty") {
        Some(j)
    } else if let Some(j) = match_word(s, i, "forty") {
        Some(j)
    } else if let Some(j) = match_word(s, i, "fifty") {
        Some(j)
    } else if let Some(j) = match_word(s, i, "sixty") {
        Some(j)
    } else if let Some(j) = match_word(s, i, "seventy") {
        Some(j)
    } else if let Some(j) = match_word(s, i, "eighty") {
        Some(j)
    } else if let Some(j) = match_word(s, i, "ninety") {
        Some(j)
    } else {
        None
    }
}


pub proof fn lemma_fluid_ounce_advances(s: Seq<char>, i: int)
    requires
        0 <= i <= s.len(),
    ensures
        spec_fluid_ounce(s, i) matches Some(e) ==> i < e <= s.len(),
{
    if word_at(s, i, "fluid"@) {
        lemma_ws_end(s, i + "fluid"@.len());
    } else if word_at(s, i, "fl."@) {
        lemma_ws_end(s, i + "fl."@.len());
    } else if word_at(s, i, "fl"@) {
        lemma_ws_end(s, i + "fl"@.len());
    }
}

pub proof fn lemma_match_unit_advances(s: Seq<char>, i: int)
    requires
        0 <= i <= s.len(),
    ensures
        spec_match_unit(s, i) matches Some((uid, sys, e)) ==> i < e <= s.len(),
{
    lemma_fluid_ounce_advances(s, i);
}

/// Case-insensitive equality of a text span with a lowercase keyword.
pub open spec fn ci_eq(t: Seq<char>, kw: Seq<char>) -> bool {
    t.len() == kw.len() && (forall|k: int| 0 <= k < t.len() ==> lower_char(t[k]) == kw[k])
}

fn eq_ci(t: &Vec<char>, lo: usize, hi: usize, kw: &str) -> (r: bool)
    requires
        lo <= hi <= t@.len(),
    ensures
        r == ci_eq(t@.subrange(lo as int, hi as int), kw@),
{
    let n = kw.unicode_len();
    if n != hi - lo {
        return false;
    }
    let ghost sub = t@.subrange(lo as int, hi as int);
    let tlen = t.len();
    let mut k: usize = 0;
    while k < n
        invariant
            0 <= k <= n,
            n == kw@.len() == hi - lo,
            lo <= hi <= tlen,
            tlen == t@.len(),
            sub == t@.subrange(lo as int, hi as int),
            forall|m: int| 0 <= m < k ==> lower_char(sub[m]) == kw@[m],
        decreases n - k,
    {
        if to_lower(t[lo + k]) != kw.get_char(k) {
            return false;
        }
        k += 1;
    }
    true
}

/// The magnitude of a spelled-out number word, if the span is one.
pub open spec fn spec_word_value(t: Seq<char>) -> Option<u64> {
    if ci_eq(t, "an"@) {
        Some(1u64)
    } else if ci_eq(t, "a"@) {
        Some(1u64)
    } else if ci_eq(t, "zero"@) {
        Some(0u64)
    } else if ci_eq(t, "one"@) {
        Some(1u64)
    } else if ci_eq(t, "two"@) {
        Some(2u64)
    } else if ci_eq(t, "three"@) {
        Some(3u64)
    } else if ci_eq(t, "four"@) {
        Some(4u64)
    } else if ci_eq(t, "five"@) {
        Some(5u64)
    } else if ci_eq(t, "six"@) {
        Some(6u64)
    } else if ci_eq(t, "seven"@) {
        Some(7u64)
    } else if ci_eq(t, "eight"@) {
        Some(8u64)
    } else if ci_eq(t, "nine"@) {
        Some(9u64)
    } else if ci_eq(t, "ten"@) {
        Some(10u64)
    } else if ci_eq(t, "eleven"@) {
        Some(11u64)
    } else if ci_eq(t, "twelve"@) {
        Some(12u64)
    } else if ci_eq(t, "thirteen"@) {
        Some(13u64)
    } else if ci_eq(t, "fourteen"@) {
        Some(14u64)
    } else if ci_eq(t, "fifteen"@) {
        Some(15u64)
    } else if ci_eq(t, "sixteen"@) {
        Some(16u64)
    } else if ci_eq(t, "seventeen"@) {
        Some(17u64)
    } else if ci_eq(t, "eighteen"@) {
        Some(18u64)
    } else if ci_eq(t, "nineteen"@) {
        Some(19u64)
    } else if ci_eq(t, "twenty"@) {
        Some(20u64)
    } else if ci_eq(t, "thirty"@) {
        Some(30u64)
    } else if ci_eq(t, "forty"@) {
        Some(40u64)
    } else if ci_eq(t, "fifty"@) {
        Some(50u64)
    } else if ci_eq(t, "sixty"@) {
        Some(60u64)
    } else if ci_eq(t, "seventy"@) {
        Some(70u64)
    } else if ci_eq(t, "eighty"@) {
        Some(80u64)
    } else if ci_eq(t, "ninety"@) {
        Some(90u64)
    } else {
        None
    }
}

pub fn word_value(t: &Vec<char>, lo: usize, hi: usize) -> (r: Option<u64>)
    requires
        lo <= hi <= t@.len(),
    ensures
        r == spec_word_value(t@.subrange(lo as int, hi as int)),
{
    if eq_ci(t, lo, hi, "an") {
        Some(1)
    } else if eq_ci(t, lo, hi, "a") {
        Some(1)
    } else if eq_ci(t, lo, hi, "zero") {
        Some(0)
    } else if eq_ci(t, lo, hi, "one") {
        Some(1)
    } else if eq_ci(t, lo, hi, "two") {
        Some(2)
    } else if eq_ci(t, lo, hi, "three") {
        Some(3)
    } else if eq_ci(t, lo, hi, "four") {
        Some(4)
    } else if eq_ci(t, lo, hi, "five") {
        Some(5)
    } else if eq_ci(t, lo, hi, "six") {
        Some(6)
    } else if eq_ci(t, lo, hi, "seven") {
        Some(7)
    } else if eq_ci(t, lo, hi, "eight") {
        Some(8)
    } else if eq_ci(t, lo, hi, "nine") {
        Some(9)
    } else if eq_ci(t, lo, hi, "ten") {
        Some(10)
    } else if eq_ci(t, lo, hi, "eleven") {
        Some(11)
    } else if eq_ci(t, lo, hi, "twelve") {
        Some(12)
    } else if eq_ci(t, lo, hi, "thirteen") {
        Some(13)
    } else if eq_ci(t, lo, hi, "fourteen") {
        Some(14)
    } else if eq_ci(t, lo, hi, "fifteen") {
        Some(15)
    } else if eq_ci(t, lo, hi, "sixteen") {
        Some(16)
    } else if eq_ci(t, lo, hi, "seventeen") {
        Some(17)
    } else if eq_ci(t, lo, hi, "eighteen") {
        Some(18)
    } else if eq_ci(t, lo, hi, "nineteen") {
        Some(19)
    } else if eq_ci(t, lo, hi, "twenty") {
        Some(20)
    } else if eq_ci(t, lo, hi, "thirty") {
        Some(30)
    } else if eq_ci(t, lo, hi, "forty") {
        Some(40)
    } else if eq_ci(t, lo, hi, "fifty") {
        Some(50)
    } else if eq_ci(t, lo, hi, "sixty") {
        Some(60)
    } else if eq_ci(t, lo, hi, "seventy") {
        Some(70)
    } else if eq_ci(t, lo, hi, "eighty") {
        Some(80)
    } else if eq_ci(t, lo, hi, "ninety") {
        Some(90)
    } else {
        None
    }
}

/// The value of a precomposed unicode fraction glyph as numerator and
/// denominator, if `c` is one.
pub open spec fn spec_glyph_value(c: char) -> Option<(u64, u64)> {
    if c == '\u{00BC}' {
        Some((1u64, 4u64))
    } else if c == '\u{00BD}' {
        Some((1u64, 2u64))
    } else if c == '\u{00BE}' {
        Some((3u64, 4u64))
    } else if c == '\u{2150}' {
        Some((1u64, 7u64))
    } else if c == '\u{2151}' {
        Some((1u64, 9u64))
    } else if c == '\u{2152}' {
        Some((1u64, 10u64))
    } else if c == '\u{2153}' {
        Some((1u64, 3u64))
    } else if c == '\u{2154}' {
        Some((2u64, 3u64))
    } else if c == '\u{2155}' {
        Some((1u64, 5u64))
    } else if c == '\u{2156}' {
        Some((2u64, 5u64))
    } else if c == '\u{2157}' {
        Some((3u64, 5u64))
    } else if c == '\u{2158}' {
        Some((4u64, 5u64))
    } else if c == '\u{2159}' {
        Some((1u64, 6u64))
    } else if c == '\u{215A}' {
        Some((5u64, 6u64))
    } else if c == '\u{215B}' {
        Some((1u64, 8u64))
    } else if c == '\u{215C}' {
        Some((3u64, 8u64))
    } else if c == '\u{215D}' {
        Some((5u64, 8u64))
    } else if c == '\u{215E}' {
        Some((7u64, 8u64))
    } else {
        None
    }
}

pub fn glyph_value(c: char) -> (r: Option<(u64, u64)>)
    ensures
        r == spec_glyph_value(c),
{
    if c == '\u{00BC}' {
        Some((1, 4))
    } else if c == '\u{00BD}' {
        Some((1, 2))
    } else if c == '\u{00BE}' {
        Some((3, 4))
    } else if c == '\u{2150}' {
        Some((1, 7))
    } else if c == '\u{2151}' {
        Some((1, 9))
    } else if c == '\u{2152}' {
        Some((1, 10))
    } else if c == '\u{2153}' {
        Some((1, 3))
    } else if c == '\u{2154}' {
        Some((2, 3))
    } else if c == '\u{2155}' {
        Some((1, 5))
    } else if c == '\u{2156}' {
        Some((2, 5))
    } else if c == '\u{2157}' {
        Some((3, 5))
    } else if c == '\u{2158}' {
        Some((4, 5))
    } else if c == '\u{2159}' {
        Some((1, 6))
    } else if c == '\u{215A}' {
        Some((5, 6))
    } else if c == '\u{215B}' {
        Some((1, 8))
    } else if c == '\u{215C}' {
        Some((3, 8))
    } else if c == '\u{215D}' {
        Some((5, 8))
    } else if c == '\u{215E}' {
        Some((7, 8))
    } else {
        None
    }
}

/// Copies the characters of `s` between `lo` and `hi`.
pub fn copy_range(s: &Vec<char>, lo: usize, hi: usize) -> (r: Vec<char>)
    requires
        lo <= hi <= s@.len(),
    ensures
        r@ == s@.subrange(lo as int, hi as int),
{
    let mut r: Vec<char> = Vec::new();
    let mut k: usize = lo;
    while k < hi
        invariant
            lo <= k <= hi <= s@.len(),
            r@ == s@.subrange(lo as int, k as int),
        decreases hi - k,
    {
        r.push(s[k]);
        proof {
            assert(r@ =~= s@.subrange(lo as int, k + 1));
        }
        k += 1;
    }
    r
}

} // verus!
