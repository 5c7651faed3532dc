//! The grammar engine: derives an ingredient line by the ingredient-line
//! grammar and produces the concrete parse tree, or reports the position at
//! which matching stopped.
//!
//! The grammar is a PEG: within each rule the alternatives are tried in the
//! listed order and the first that matches wins, repetition is greedy, and a
//! committed choice is never revisited. An amount is tried as a mixed number,
//! a fraction, a decimal, an integer, then a spelled-out number word; a
//! quantity as amount-with-conversion, amount-with-attached-units,
//! amount-with-multiplier, then a bare imprecise unit.

use vstd::prelude::*;

use crate::chars::{is_break_char, break_char};
use crate::err::{IngreedyError, SErr};
use crate::lex::{
    digits_end, ws_end, unit_sep_end, frag_sep_end, lemma_digits_end, lemma_ws_end,
    lemma_unit_sep_end, lemma_frag_sep_end, scan_digits, scan_ws, scan_unit_sep, scan_frag_sep,
    spec_match_unit, match_unit, spec_match_number_word, match_number_word, spec_glyph_value,
    glyph_value, copy_range, lemma_match_unit_advances,
};
use crate::tree::{
    RuleId, ParseNode, SNode, nodes_view, lemma_seq_node_view, leaf, branch1, branch2, branch3,
};

verus! {

/// The outcome of deriving a line: the top-level parse-tree nodes (the
/// multipart quantity and, if any text remains, the ingredient), or the
/// position at which the derivation got stuck.
#[verifier::ext_equal]
pub ghost enum SLine {
    Pairs(Seq<SNode>),
    Fail(int),
}

/// `integer := digit+`, maximal munch.
pub open spec fn spec_integer(s: Seq<char>, i: int) -> Option<(SNode, int)> {
    let e = digits_end(s, i);
    if e > i {
        Some((SNode::Leaf { rule: RuleId::Integer, text: s.subrange(i, e) }, e))
    } else {
        None
    }
}

/// `float := digit* '.' digit+`.
pub open spec fn spec_float(s: Seq<char>, i: int) -> Option<(SNode, int)> {
    if 0 <= i {
        let a = digits_end(s, i);
        if a < s.len() && s[a] == '.' {
            let b = digits_end(s, a + 1);
            if b > a + 1 {
                Some((SNode::Leaf { rule: RuleId::Float, text: s.subrange(i, b) }, b))
            } else {
                None
            }
        } else {
            None
        }
    } else {
        None
    }
}

/// `multicharacter_fraction := digit+ '/' digit+`.
pub open spec fn spec_mc_fraction(s: Seq<char>, i: int) -> Option<(SNode, int)> {
    let a = digits_end(s, i);
    if a > i && a < s.len() && s[a] == '/' {
        let b = digits_end(s, a + 1);
        if b > a + 1 {
            Some((SNode::Leaf { rule: RuleId::MulticharacterFraction, text: s.subrange(i, b) }, b))
        } else {
            None
        }
    } else {
        None
    }
}

/// `fraction := multicharacter_fraction | unicode_fraction`.
pub open spec fn spec_fraction(s: Seq<char>, i: int) -> Option<(SNode, int)> {
    match spec_mc_fraction(s, i) {
        Some((n, e)) => Some((SNode::Branch { rule: RuleId::Fraction, children: seq![n] }, e)),
        None => {
            if 0 <= i && i < s.len() && spec_glyph_value(s[i]) is Some {
                Some(
                    (
                        SNode::Branch {
                            rule: RuleId::Fraction,
                            children: seq![
                                SNode::Leaf {
                                    rule: RuleId::UnicodeFraction,
                                    text: s.subrange(i, i + 1),
                                },
                            ],
                        },
                        i + 1,
                    ),
                )
            } else {
                None
            }
        }
    }
}

/// `mixed_number := integer separator fraction`, the separator being
/// whitespace or a hyphen.
pub open spec fn spec_mixed(s: Seq<char>, i: int) -> Option<(SNode, int)> {
    match spec_integer(s, i) {
        Some((intn, a)) => {
            let k = unit_sep_end(s, a);
            if k > a {
                match spec_fraction(s, k) {
                    Some((fr, e)) => Some(
                        (
                            SNode::Branch {
                                rule: RuleId::MixedNumber,
                                children: seq![
                                    intn,
                                    SNode::Leaf { rule: RuleId::Separator, text: s.subrange(a, k) },
                                    fr,
                                ],
                            },
                            e,
                        ),
                    ),
                    None => None,
                }
            } else {
                None
            }
        }
        None => None,
    }
}

/// `number := number_word`, ending at a word boundary.
pub open spec fn spec_number(s: Seq<char>, i: int) -> Option<(SNode, int)> {
    match spec_match_number_word(s, i) {
        Some(e) => Some(
            (
                SNode::Branch {
                    rule: RuleId::Number,
                    children: seq![
                        SNode::Leaf { rule: RuleId::NumberWord, text: s.subrange(i, e) },
                    ],
                },
                e,
            ),
        ),
        None => None,
    }
}

/// `amount := mixed_number | fraction | float | integer | number`.
pub open spec fn spec_amount(s: Seq<char>, i: int) -> Option<(SNode, int)> {
    let inner = match spec_mixed(s, i) {
        Some(r) => Some(r),
        None => match spec_fraction(s, i) {
            Some(r) => Some(r),
            None => match spec_float(s, i) {
                Some(r) => Some(r),
                None => match spec_integer(s, i) {
                    Some(r) => Some(r),
                    None => spec_number(s, i),
                },
            },
        },
    };
    match inner {
        Some((n, e)) => Some((SNode::Branch { rule: RuleId::Amount, children: seq![n] }, e)),
        None => None,
    }
}

/// The unit node built from a matched spelling: the specific unit rule and
/// its matched text, wrapped in its unit-system rule, wrapped in `unit`.
pub open spec fn spec_unit_snode(s: Seq<char>, i: int, uid: RuleId, sys: RuleId, e: int) -> SNode {
    SNode::Branch {
        rule: RuleId::Unit,
        children: seq![
            SNode::Branch {
                rule: sys,
                children: seq![SNode::Leaf { rule: uid, text: s.subrange(i, e) }],
            },
        ],
    }
}

/// `unit := english_unit | metric_unit | imprecise_unit`, wrapped as a `unit`
/// node.
pub open spec fn spec_unit(s: Seq<char>, i: int) -> Option<(SNode, int)> {
    match spec_match_unit(s, i) {
        Some((uid, sys, e)) => Some((spec_unit_snode(s, i, uid, sys, e), e)),
        None => None,
    }
}

/// An amount, optional separators, then a unit; the pair shared by the
/// attached-units and conversion forms.
pub open spec fn spec_amount_unit(s: Seq<char>, i: int) -> Option<(SNode, SNode, int)> {
    match spec_amount(s, i) {
        Some((an, a)) => {
            let k = unit_sep_end(s, a);
            match spec_unit(s, k) {
                Some((un, e)) => Some((an, un, e)),
                None => None,
            }
        }
        None => None,
    }
}

/// `amount_with_conversion := amount unit '/' amount unit
///                          | amount unit '(' amount unit ')'`.
/// Only the first pair is primary; the second is kept under a `conversion`
/// node, which the extractor discards.
pub open spec fn spec_conversion(s: Seq<char>, i: int) -> Option<(SNode, int)> {
    match spec_amount_unit(s, i) {
        Some((a1, u1, j1)) => {
            let k = ws_end(s, j1);
            if k < s.len() && s[k] == '/' {
                let k2 = ws_end(s, k + 1);
                match spec_amount_unit(s, k2) {
                    Some((a2, u2, j2)) => Some(
                        (
                            SNode::Branch {
                                rule: RuleId::AmountWithConversion,
                                children: seq![
                                    a1,
                                    u1,
                                    SNode::Branch {
                                        rule: RuleId::Conversion,
                                        children: seq![a2, u2],
                                    },
                                ],
                            },
                            j2,
                        ),
                    ),
                    None => None,
                }
            } else if k < s.len() && s[k] == '(' {
                let k2 = ws_end(s, k + 1);
                match spec_amount_unit(s, k2) {
                    Some((a2, u2, j2)) => {
                        let k3 = ws_end(s, j2);
                        if k3 < s.len() && s[k3] == ')' {
                            Some(
                                (
                                    SNode::Branch {
                                        rule: RuleId::AmountWithConversion,
                                        children: seq![
                                            a1,
                                            u1,
                                            SNode::Branch {
                                                rule: RuleId::Conversion,
                                                children: seq![a2, u2],
                                            },
                                        ],
                                    },
                                    k3 + 1,
                                ),
                            )
                        } else {
                            None
                        }
                    }
                    None => None,
                }
            } else {
                None
            }
        }
        None => None,
    }
}

/// `amount_with_attached_units := amount unit`.
pub open spec fn spec_attached(s: Seq<char>, i: int) -> Option<(SNode, int)> {
    match spec_amount_unit(s, i) {
        Some((an, un, e)) => Some(
            (
                SNode::Branch { rule: RuleId::AmountWithAttachedUnits, children: seq![an, un] },
                e,
            ),
        ),
        None => None,
    }
}

/// `amount_imprecise := imprecise_unit`, with no numeral at all.
pub open spec fn spec_imprecise(s: Seq<char>, i: int) -> Option<(SNode, int)> {
    match spec_match_unit(s, i) {
        Some((uid, sys, e)) => {
            if sys == RuleId::ImpreciseUnit {
                Some(
                    (
                        SNode::Branch {
                            rule: RuleId::AmountImprecise,
                            children: seq![
                                SNode::Branch {
                                    rule: RuleId::ImpreciseUnit,
                                    children: seq![SNode::Leaf { rule: uid, text: s.subrange(i, e) }],
                                },
                            ],
                        },
                        e,
                    ),
                )
            } else {
                None
            }
        }
        None => None,
    }
}

pub proof fn lemma_integer_advances(s: Seq<char>, i: int)
    requires
        0 <= i <= s.len(),
    ensures
        spec_integer(s, i) matches Some((n, e)) ==> i < e <= s.len(),
{
    lemma_digits_end(s, i);
}

pub proof fn lemma_float_advances(s: Seq<char>, i: int)
    requires
        0 <= i <= s.len(),
    ensures
        spec_float(s, i) matches Some((n, e)) ==> i < e <= s.len(),
{
    lemma_digits_end(s, i);
    let a = digits_end(s, i);
    if a < s.len() {
        lemma_digits_end(s, a + 1);
    }
}

pub proof fn lemma_mc_fraction_advances(s: Seq<char>, i: int)
    requires
        0 <= i <= s.len(),
    ensures
        spec_mc_fraction(s, i) matches Some((n, e)) ==> i < e <= s.len(),
{
    lemma_digits_end(s, i);
    let a = digits_end(s, i);
    if a < s.len() {
        lemma_digits_end(s, a + 1);
    }
}

pub proof fn lemma_fraction_advances(s: Seq<char>, i: int)
    requires
        0 <= i <= s.len(),
    ensures
        spec_fraction(s, i) matches Some((n, e)) ==> i < e <= s.len(),
{
    lemma_mc_fraction_advances(s, i);
}

pub proof fn lemma_mixed_advances(s: Seq<char>, i: int)
    requires
        0 <= i <= s.len(),
    ensures
        spec_mixed(s, i) matches Some((n, e)) ==> i < e <= s.len(),
{
    lemma_integer_advances(s, i);
    match spec_integer(s, i) {
        Some((intn, a)) => {
            lemma_unit_sep_end(s, a);
            lemma_fraction_advances(s, unit_sep_end(s, a));
        }
        None => {}
    }
}

pub proof fn lemma_amount_advances(s: Seq<char>, i: int)
    requires
        0 <= i <= s.len(),
    ensures
        spec_amount(s, i) matches Some((n, e)) ==> i < e <= s.len(),
{
    lemma_mixed_advances(s, i);
    lemma_fraction_advances(s, i);
    lemma_float_advances(s, i);
    lemma_integer_advances(s, i);
}

pub proof fn lemma_amount_unit_advances(s: Seq<char>, i: int)
    requires
        0 <= i <= s.len(),
    ensures
        spec_amount_unit(s, i) matches Some((a, u, e)) ==> i < e <= s.len(),
{
    lemma_amount_advances(s, i);
    match spec_amount(s, i) {
        Some((an, a)) => {
            lemma_unit_sep_end(s, a);
            lemma_match_unit_advances(s, unit_sep_end(s, a));
        }
        None => {}
    }
}

pub proof fn lemma_conversion_advances(s: Seq<char>, i: int)
    requires
        0 <= i <= s.len(),
    ensures
        spec_conversion(s, i) matches Some((n, e)) ==> i < e <= s.len(),
{
    lemma_amount_unit_advances(s, i);
    match spec_amount_unit(s, i) {
        Some((a1, u1, j1)) => {
            lemma_ws_end(s, j1);
            let k = ws_end(s, j1);
            if k < s.len() {
                lemma_ws_end(s, k + 1);
                lemma_amount_unit_advances(s, ws_end(s, k + 1));
                match spec_amount_unit(s, ws_end(s, k + 1)) {
                    Some((a2, u2, j2)) => {
                        lemma_ws_end(s, j2);
                    }
                    None => {}
                }
            }
        }
        None => {}
    }
}

pub proof fn lemma_imprecise_advances(s: Seq<char>, i: int)
    requires
        0 <= i <= s.len(),
    ensures
        spec_imprecise(s, i) matches Some((n, e)) ==> i < e <= s.len(),
{
    lemma_match_unit_advances(s, i);
}

/// `quantity := amount_with_conversion | amount_with_attached_units
///            | amount_with_multiplier | amount_imprecise`.
pub open spec fn spec_quantity(s: Seq<char>, i: int) -> Option<(SNode, int)>
    decreases s.len() - i, 1int,
{
    if 0 <= i && i <= s.len() {
        let inner = match spec_conversion(s, i) {
            Some(r) => Some(r),
            None => match spec_attached(s, i) {
                Some(r) => Some(r),
                None => match spec_multiplier(s, i) {
                    Some(r) => Some(r),
                    None => spec_imprecise(s, i),
                },
            },
        };
        match inner {
            Some((n, e)) => Some((SNode::Branch { rule: RuleId::Quantity, children: seq![n] }, e)),
            None => None,
        }
    } else {
        None
    }
}

/// `amount_with_multiplier := amount '(' quantity ')'`: a leading bare count
/// that scales the parenthesized quantity.
pub open spec fn spec_multiplier(s: Seq<char>, i: int) -> Option<(SNode, int)>
    decreases s.len() - i, 0int,
{
    if 0 <= i && i <= s.len() {
        match spec_amount(s, i) {
            Some((an, a)) => {
                let k = ws_end(s, a);
                if k < s.len() && s[k] == '(' {
                    let k2 = ws_end(s, k + 1);
                    proof {
                        lemma_amount_advances(s, i);
                        lemma_ws_end(s, a);
                        lemma_ws_end(s, k + 1);
                    }
                    match spec_quantity(s, k2) {
                        Some((qn, j)) => {
                            let k3 = ws_end(s, j);
                            if k3 < s.len() && s[k3] == ')' {
                                Some(
                                    (
                                        SNode::Branch {
                                            rule: RuleId::AmountWithMultiplier,
                                            children: seq![
                                                an,
                                                SNode::Branch {
                                                    rule: RuleId::ParenthesizedQuantity,
                                                    children: seq![qn],
                                                },
                                            ],
                                        },
                                        k3 + 1,
                                    ),
                                )
                            } else {
                                None
                            }
                        }
                        None => None,
                    }
                } else {
                    None
                }
            }
            None => None,
        }
    } else {
        None
    }
}

pub proof fn lemma_quantity_advances(s: Seq<char>, i: int)
    requires
        0 <= i <= s.len(),
    ensures
        spec_quantity(s, i) matches Some((n, e)) ==> i < e <= s.len(),
    decreases s.len() - i, 1int,
{
    lemma_conversion_advances(s, i);
    lemma_amount_unit_advances(s, i);
    lemma_multiplier_advances(s, i);
    lemma_imprecise_advances(s, i);
}

pub proof fn lemma_multiplier_advances(s: Seq<char>, i: int)
    requires
        0 <= i <= s.len(),
    ensures
        spec_multiplier(s, i) matches Some((n, e)) ==> i < e <= s.len(),
    decreases s.len() - i, 0int,
{
    lemma_amount_advances(s, i);
    match spec_amount(s, i) {
        Some((an, a)) => {
            lemma_ws_end(s, a);
            let k = ws_end(s, a);
            if k < s.len() {
                lemma_ws_end(s, k + 1);
                let k2 = ws_end(s, k + 1);
                lemma_quantity_advances(s, k2);
                match spec_quantity(s, k2) {
                    Some((qn, j)) => {
                        lemma_ws_end(s, j);
                    }
                    None => {}
                }
            }
        }
        None => {}
    }
}

/// `quantity_fragment := quantity | amount`.
pub open spec fn spec_fragment(s: Seq<char>, i: int) -> Option<(SNode, int)> {
    let inner = match spec_quantity(s, i) {
        Some(r) => Some(r),
        None => spec_amount(s, i),
    };
    match inner {
        Some((n, e)) => Some(
            (SNode::Branch { rule: RuleId::QuantityFragment, children: seq![n] }, e),
        ),
        None => None,
    }
}

pub proof fn lemma_fragment_advances(s: Seq<char>, i: int)
    requires
        0 <= i <= s.len(),
    ensures
        spec_fragment(s, i) matches Some((n, e)) ==> i < e <= s.len(),
{
    lemma_quantity_advances(s, i);
    lemma_amount_advances(s, i);
}

/// `multipart_quantity := (quantity_fragment fragment_separator*)*`: the
/// fragments in order, and the position after the quantity portion,
/// trailing separators consumed.
pub open spec fn spec_multipart(s: Seq<char>, i: int) -> (Seq<SNode>, int)
    decreases s.len() - i,
{
    if 0 <= i && i <= s.len() {
        match spec_fragment(s, i) {
            None => (Seq::empty(), i),
            Some((f, j)) => {
                let k = frag_sep_end(s, j);
                proof {
                    lemma_fragment_advances(s, i);
                    lemma_frag_sep_end(s, j);
                }
                let r = spec_multipart(s, k);
                (seq![f] + r.0, r.1)
            }
        }
    } else {
        (Seq::empty(), i)
    }
}

/// The whole line: the multipart quantity (possibly empty), optionally
/// followed by the ingredient text, which must reach the end of the input.
/// The derivation fails on an empty quantity portion with no ingredient, and
/// on remaining text that begins with `(`, a separator or `/` — text no rule
/// can consume.
pub open spec fn spec_line(s: Seq<char>) -> SLine {
    let r = spec_multipart(s, 0);
    let frags = r.0;
    let e = r.1;
    let mq = SNode::Branch { rule: RuleId::MultipartQuantity, children: frags };
    if e == s.len() {
        if frags.len() == 0 {
            SLine::Fail(e)
        } else {
            SLine::Pairs(seq![mq])
        }
    } else if s[e] == '(' || is_break_char(s[e]) || s[e] == '/' {
        SLine::Fail(e)
    } else {
        SLine::Pairs(
            seq![mq, SNode::Leaf { rule: RuleId::Ingredient, text: s.subrange(e, s.len() as int) }],
        )
    }
}

fn parse_integer(s: &Vec<char>, i: usize) -> (r: Option<(ParseNode, usize)>)
    requires
        i <= s@.len(),
    ensures
        match r {
            Some((n, j)) => spec_integer(s@, i as int) == Some((n@, j as int)) && i < j
                <= s@.len(),
            None => spec_integer(s@, i as int) is None,
        },
{
    let e = scan_digits(s, i);
    if e > i {
        Some((leaf(RuleId::Integer, copy_range(s, i, e)), e))
    } else {
        None
    }
}

fn parse_float(s: &Vec<char>, i: usize) -> (r: Option<(ParseNode, usize)>)
    requires
        i <= s@.len(),
    ensures
        match r {
            Some((n, j)) => spec_float(s@, i as int) == Some((n@, j as int)) && i < j <= s@.len(),
            None => spec_float(s@, i as int) is None,
        },
{
    let a = scan_digits(s, i);
    if a < s.len() && s[a] == '.' {
        let b = scan_digits(s, a + 1);
        if b > a + 1 {
            Some((leaf(RuleId::Float, copy_range(s, i, b)), b))
        } else {
            None
        }
    } else {
        None
    }
}

fn parse_mc_fraction(s: &Vec<char>, i: usize) -> (r: Option<(ParseNode, usize)>)
    requires
        i <= s@.len(),
    ensures
        match r {
            Some((n, j)) => spec_mc_fraction(s@, i as int) == Some((n@, j as int)) && i < j
                <= s@.len(),
            None => spec_mc_fraction(s@, i as int) is None,
        },
{
    let a = scan_digits(s, i);
    if a > i && a < s.len() && s[a] == '/' {
        let b = scan_digits(s, a + 1);
        if b > a + 1 {
            Some((leaf(RuleId::MulticharacterFraction, copy_range(s, i, b)), b))
        } else {
            None
        }
    } else {
        None
    }
}

fn parse_fraction(s: &Vec<char>, i: usize) -> (r: Option<(ParseNode, usize)>)
    requires
        i <= s@.len(),
    ensures
        match r {
            Some((n, j)) => spec_fraction(s@, i as int) == Some((n@, j as int)) && i < j
                <= s@.len(),
            None => spec_fraction(s@, i as int) is None,
        },
{
    match parse_mc_fraction(s, i) {
        Some((n, e)) => Some((branch1(RuleId::Fraction, n), e)),
        None => {
            if i < s.len() && glyph_value(s[i]).is_some() {
                let g = leaf(RuleId::UnicodeFraction, copy_range(s, i, i + 1));
                Some((branch1(RuleId::Fraction, g), i + 1))
            } else {
                None
            }
        }
    }
}

fn parse_mixed(s: &Vec<char>, i: usize) -> (r: Option<(ParseNode, usize)>)
    requires
        i <= s@.len(),
    ensures
        match r {
            Some((n, j)) => spec_mixed(s@, i as int) == Some((n@, j as int)) && i < j <= s@.len(),
            None => spec_mixed(s@, i as int) is None,
        },
{
    match parse_integer(s, i) {
        Some((intn, a)) => {
            let k = scan_unit_sep(s, a);
            if k > a {
                match parse_fraction(s, k) {
                    Some((fr, e)) => {
                        let sep = leaf(RuleId::Separator, copy_range(s, a, k));
                        Some((branch3(RuleId::MixedNumber, intn, sep, fr), e))
                    }
                    None => None,
                }
            } else {
                None
            }
        }
        None => None,
    }
}

fn parse_number(s: &Vec<char>, i: usize) -> (r: Option<(ParseNode, usize)>)
    requires
        i <= s@.len(),
    ensures
        match r {
            Some((n, j)) => spec_number(s@, i as int) == Some((n@, j as int)) && i < j <= s@.len(),
            None => spec_number(s@, i as int) is None,
        },
{
    match match_number_word(s, i) {
        Some(e) => {
            let w = leaf(RuleId::NumberWord, copy_range(s, i, e));
            Some((branch1(RuleId::Number, w), e))
        }
        None => None,
    }
}

fn parse_amount(s: &Vec<char>, i: usize) -> (r: Option<(ParseNode, usize)>)
    requires
        i <= s@.len(),
    ensures
        match r {
            Some((n, j)) => spec_amount(s@, i as int) == Some((n@, j as int)) && i < j <= s@.len(),
            None => spec_amount(s@, i as int) is None,
        },
{
    let inner = match parse_mixed(s, i) {
        Some(r) => Some(r),
        None => match parse_fraction(s, i) {
            Some(r) => Some(r),
            None => match parse_float(s, i) {
                Some(r) => Some(r),
                None => match parse_integer(s, i) {
                    Some(r) => Some(r),
                    None => parse_number(s, i),
                },
            },
        },
    };
    match inner {
        Some((n, e)) => Some((branch1(RuleId::Amount, n), e)),
        None => None,
    }
}

fn parse_unit(s: &Vec<char>, i: usize) -> (r: Option<(ParseNode, usize)>)
    requires
        i <= s@.len(),
    ensures
        match r {
            Some((n, j)) => spec_unit(s@, i as int) == Some((n@, j as int)) && i < j <= s@.len(),
            None => spec_unit(s@, i as int) is None,
        },
{
    match match_unit(s, i) {
        Some((uid, sys, e)) => {
            let specific = leaf(uid, copy_range(s, i, e));
            let system = branch1(sys, specific);
            Some((branch1(RuleId::Unit, system), e))
        }
        None => None,
    }
}

fn parse_amount_unit(s: &Vec<char>, i: usize) -> (r: Option<(ParseNode, ParseNode, usize)>)
    requires
        i <= s@.len(),
    ensures
        match r {
            Some((an, un, j)) => spec_amount_unit(s@, i as int) == Some((an@, un@, j as int)) && i
                < j <= s@.len(),
            None => spec_amount_unit(s@, i as int) is None,
        },
{
    match parse_amount(s, i) {
        Some((an, a)) => {
            let k = scan_unit_sep(s, a);
            match parse_unit(s, k) {
                Some((un, e)) => Some((an, un, e)),
                None => None,
            }
        }
        None => None,
    }
}

fn parse_conversion(s: &Vec<char>, i: usize) -> (r: Option<(ParseNode, usize)>)
    requires
        i <= s@.len(),
    ensures
        match r {
            Some((n, j)) => spec_conversion(s@, i as int) == Some((n@, j as int)) && i < j
                <= s@.len(),
            None => spec_conversion(s@, i as int) is None,
        },
{
    match parse_amount_unit(s, i) {
        Some((a1, u1, j1)) => {
            let k = scan_ws(s, j1);
            if k < s.len() && s[k] == '/' {
                let k2 = scan_ws(s, k + 1);
                match parse_amount_unit(s, k2) {
                    Some((a2, u2, j2)) => {
                        let conv = branch2(RuleId::Conversion, a2, u2);
                        Some((branch3(RuleId::AmountWithConversion, a1, u1, conv), j2))
                    }
                    None => None,
                }
            } else if k < s.len() && s[k] == '(' {
                let k2 = scan_ws(s, k + 1);
                match parse_amount_unit(s, k2) {
                    Some((a2, u2, j2)) => {
                        let k3 = scan_ws(s, j2);
                        if k3 < s.len() && s[k3] == ')' {
                            let conv = branch2(RuleId::Conversion, a2, u2);
                            Some((branch3(RuleId::AmountWithConversion, a1, u1, conv), k3 + 1))
                        } else {
                            None
                        }
                    }
                    None => None,
                }
            } else {
                None
            }
        }
        None => None,
    }
}

fn parse_attached(s: &Vec<char>, i: usize) -> (r: Option<(ParseNode, usize)>)
    requires
        i <= s@.len(),
    ensures
        match r {
            Some((n, j)) => spec_attached(s@, i as int) == Some((n@, j as int)) && i < j
                <= s@.len(),
            None => spec_attached(s@, i as int) is None,
        },
{
    match parse_amount_unit(s, i) {
        Some((an, un, e)) => Some((branch2(RuleId::AmountWithAttachedUnits, an, un), e)),
        None => None,
    }
}

fn parse_imprecise(s: &Vec<char>, i: usize) -> (r: Option<(ParseNode, usize)>)
    requires
        i <= s@.len(),
    ensures
        match r {
            Some((n, j)) => spec_imprecise(s@, i as int) == Some((n@, j as int)) && i < j
                <= s@.len(),
            None => spec_imprecise(s@, i as int) is None,
        },
{
    match match_unit(s, i) {
        Some((uid, sys, e)) => {
            if sys == RuleId::ImpreciseUnit {
                let specific = leaf(uid, copy_range(s, i, e));
                let system = branch1(RuleId::ImpreciseUnit, specific);
                Some((branch1(RuleId::AmountImprecise, system), e))
            } else {
                None
            }
        }
        None => None,
    }
}

fn parse_quantity(s: &Vec<char>, i: usize) -> (r: Option<(ParseNode, usize)>)
    requires
        i <= s@.len(),
    ensures
        match r {
            Some((n, j)) => spec_quantity(s@, i as int) == Some((n@, j as int)) && i < j
                <= s@.len(),
            None => spec_quantity(s@, i as int) is None,
        },
    decreases s@.len() - i, 1int,
{
    let inner = match parse_conversion(s, i) {
        Some(r) => Some(r),
        None => match parse_attached(s, i) {
            Some(r) => Some(r),
            None => match parse_multiplier(s, i) {
                Some(r) => Some(r),
                None => parse_imprecise(s, i),
            },
        },
    };
    match inner {
        Some((n, e)) => Some((branch1(RuleId::Quantity, n), e)),
        None => None,
    }
}

fn parse_multiplier(s: &Vec<char>, i: usize) -> (r: Option<(ParseNode, usize)>)
    requires
        i <= s@.len(),
    ensures
        match r {
            Some((n, j)) => spec_multiplier(s@, i as int) == Some((n@, j as int)) && i < j
                <= s@.len(),
            None => spec_multiplier(s@, i as int) is None,
        },
    decreases s@.len() - i, 0int,
{
    match parse_amount(s, i) {
        Some((an, a)) => {
            let k = scan_ws(s, a);
            if k < s.len() && s[k] == '(' {
                let k2 = scan_ws(s, k + 1);
                match parse_quantity(s, k2) {
                    Some((qn, j)) => {
                        let k3 = scan_ws(s, j);
                        if k3 < s.len() && s[k3] == ')' {
                            let pq = branch1(RuleId::ParenthesizedQuantity, qn);
                            Some((branch2(RuleId::AmountWithMultiplier, an, pq), k3 + 1))
                        } else {
                            None
                        }
                    }
                    None => None,
                }
            } else {
                None
            }
        }
        None => None,
    }
}

fn parse_fragment(s: &Vec<char>, i: usize) -> (r: Option<(ParseNode, usize)>)
    requires
        i <= s@.len(),
    ensures
        match r {
            Some((n, j)) => spec_fragment(s@, i as int) == Some((n@, j as int)) && i < j
                <= s@.len(),
            None => spec_fragment(s@, i as int) is None,
        },
{
    let inner = match parse_quantity(s, i) {
        Some(r) => Some(r),
        None => parse_amount(s, i),
    };
    match inner {
        Some((n, e)) => Some((branch1(RuleId::QuantityFragment, n), e)),
        None => None,
    }
}

fn parse_multipart(s: &Vec<char>, i: usize) -> (r: (Vec<ParseNode>, usize))
    requires
        i <= s@.len(),
    ensures
        nodes_view(r.0@) == spec_multipart(s@, i as int).0,
        r.1 as int == spec_multipart(s@, i as int).1,
        i <= r.1 <= s@.len(),
    decreases s@.len() - i,
{
    match parse_fragment(s, i) {
        None => {
            let v: Vec<ParseNode> = Vec::new();
            proof {
                assert(nodes_view(v@) =~= spec_multipart(s@, i as int).0);
            }
            (v, i)
        }
        Some((f, j)) => {
            let ghost gf = f@;
            let k = scan_frag_sep(s, j);
            let (mut rest, e) = parse_multipart(s, k);
            let ghost grest = rest@;
            rest.insert(0, f);
            proof {
                lemma_seq_node_view(rest@);
                lemma_seq_node_view(grest);
                assert(nodes_view(rest@) =~= seq![gf] + nodes_view(grest));
            }
            (rest, e)
        }
    }
}

/// The grammar engine.
pub struct IngredientParser;

impl IngredientParser {
    /// Derives `input` by the ingredient-line grammar. On success the result
    /// holds the top-level parse-tree nodes: the multipart quantity and, when
    /// text follows it, the ingredient leaf. On failure it is a
    /// `SyntaxError` carrying the position at which matching stopped.
    pub fn parse(input: &str) -> (r: Result<Vec<ParseNode>, IngreedyError>)
        ensures
            match r {
                Ok(ns) => spec_line(input@) == SLine::Pairs(nodes_view(ns@)),
                Err(e) => e@ matches SErr::Syntax { position } && spec_line(input@) == SLine::Fail(
                    position,
                ),
            },
{
        let v = str_chars(input);
        match parse_line_nodes(&v) {
            Ok(ns) => Ok(ns),
            Err(p) => Err(IngreedyError::SyntaxError { position: p }),
        }
    }
}

/// The characters of `s` as a vector.
fn str_chars(s: &str) -> (r: Vec<char>)
    ensures
        r@ == s@,
{
    let n = s.unicode_len();
    let mut v: Vec<char> = Vec::new();
    let mut k: usize = 0;
    while k < n
        invariant
            0 <= k <= n == s@.len(),
            v@ == s@.subrange(0, k as int),
        decreases n - k,
    {
        v.push(s.get_char(k));
        proof {
            assert(v@ =~= s@.subrange(0, k + 1));
        }
        k += 1;
    }
    proof {
        assert(v@ =~= s@);
    }
    v
}

fn parse_line_nodes(s: &Vec<char>) -> (r: Result<Vec<ParseNode>, usize>)
    ensures
        match r {
            Ok(ns) => spec_line(s@) == SLine::Pairs(nodes_view(ns@)),
            Err(p) => spec_line(s@) == SLine::Fail(p as int),
        },
{
    let (frags, e) = parse_multipart(s, 0);
    let flen = frags.len();
    let ghost gfr = nodes_view(frags@);
    proof {
        lemma_seq_node_view(frags@);
    }
    let mq = ParseNode::Branch { rule: RuleId::MultipartQuantity, children: frags };
    proof {
        assert(mq@ == (SNode::Branch { rule: RuleId::MultipartQuantity, children: gfr }));
    }
    let ghost gmq = mq@;
    if e == s.len() {
        if flen == 0 {
            Err(e)
        } else {
            let ns = vec![mq];
            proof {
                lemma_seq_node_view(ns@);
                assert(nodes_view(ns@) =~= seq![gmq]);
            }
            Ok(ns)
        }
    } else if s[e] == '(' || break_char(s[e]) || s[e] == '/' {
        Err(e)
    } else {
        let ing = leaf(RuleId::Ingredient, copy_range(s, e, s.len()));
        let ghost ging = ing@;
        let ns = vec![mq, ing];
        proof {
            lemma_seq_node_view(ns@);
            assert(nodes_view(ns@) =~= seq![gmq, ging]);
        }
        Ok(ns)
    }
}

} // verus!
