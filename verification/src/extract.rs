//! The semantic extractor: folds a parse tree into the output record,
//! applying the merge and multiplier rules. On trees the grammar engine did
//! not build, a node of an unexpected rule or a missing inner node surfaces
//! a `WrongRule` or `InnerRuleNoneError`.

use vstd::prelude::*;
use vstd::string::StrSliceExecFns;
use vstd::string::StringExecFns;

use crate::err::{IngreedyError, SErr};
use crate::grammar::{spec_line, SLine, IngredientParser};
use crate::lex::{
    ws_end, lemma_ws_end, scan_ws, spec_word_value, word_value, spec_glyph_value, glyph_value,
    copy_range,
};
use crate::rat::{Rat, spec_rat_mul, spec_rat_add};
use crate::record::{
    UnitType, spec_rule_name, rule_name, spec_decimal_rat, parse_decimal, spec_mc_value,
    parse_mc_value,
};
use crate::tree::{RuleId, ParseNode, SNode, nodes_view, lemma_seq_node_view};

verus! {

broadcast use {
    vstd::std_specs::vec::axiom_vec_index_decreases,
    vstd::std_specs::vec::axiom_vec_decreases_to_view,
    vstd::seq::axiom_seq_index_decreases,
    vstd::seq::axiom_seq_subrange_decreases,
};

/// Start of the trailing whitespace run ending at `j`.
pub open spec fn trim_back_idx(t: Seq<char>, j: int) -> int
    decreases j,
{
    if 0 < j && j <= t.len() && (t[j - 1] == ' ' || t[j - 1] == '\t') {
        trim_back_idx(t, j - 1)
    } else {
        j
    }
}

/// `t` with leading and trailing whitespace removed.
pub open spec fn spec_trimmed(t: Seq<char>) -> Seq<char> {
    let a = ws_end(t, 0);
    let b = trim_back_idx(t, t.len() as int);
    if a <= b {
        t.subrange(a, b)
    } else {
        Seq::empty()
    }
}

proof fn lemma_trim_back_idx(t: Seq<char>, j: int)
    requires
        0 <= j <= t.len(),
    ensures
        0 <= trim_back_idx(t, j) <= j,
    decreases j,
{
    if 0 < j && (t[j - 1] == ' ' || t[j - 1] == '\t') {
        lemma_trim_back_idx(t, j - 1);
    }
}

fn scan_trim_back(t: &Vec<char>, j: usize) -> (b: usize)
    requires
        j <= t@.len(),
    ensures
        b == trim_back_idx(t@, j as int),
        b <= j,
    decreases j,
{
    if 0 < j && (t[j - 1] == ' ' || t[j - 1] == '\t') {
        scan_trim_back(t, j - 1)
    } else {
        j
    }
}

/// Copies `t` with surrounding whitespace removed.
fn trimmed(t: &Vec<char>) -> (r: Vec<char>)
    ensures
        r@ == spec_trimmed(t@),
{
    let a = scan_ws(t, 0);
    let b = scan_trim_back(t, t.len());
    proof {
        lemma_ws_end(t@, 0);
        lemma_trim_back_idx(t@, t@.len() as int);
    }
    if a <= b {
        copy_range(t, a, b)
    } else {
        let v: Vec<char> = Vec::new();
        proof {
            assert(v@ =~= Seq::<char>::empty());
        }
        v
    }
}

/// The ingredient-name normalization: a leading literal `of ` is dropped.
pub open spec fn strip_of(t: Seq<char>) -> Seq<char> {
    if t.len() >= 3 && t[0] == 'o' && t[1] == 'f' && t[2] == ' ' {
        t.subrange(3, t.len() as int)
    } else {
        t
    }
}

/// Relies on `String::push`: appends one character to the string.
#[verifier::external_body]
fn push_char(s: &mut String, c: char)
    ensures
        final(s)@ == old(s)@.push(c),
{
    s.push(c);
}

/// The characters of `v` as a `String`.
fn chars_to_string(v: &Vec<char>) -> (r: String)
    ensures
        r@ == v@,
{
    let mut r = String::from_str("");
    proof {
        reveal_strlit("");
        assert(r@ =~= v@.subrange(0, 0));
    }
    let mut k: usize = 0;
    while k < v.len()
        invariant
            0 <= k <= v@.len(),
            r@ == v@.subrange(0, k as int),
        decreases v@.len() - k,
    {
        push_char(&mut r, v[k]);
        proof {
            assert(r@ =~= v@.subrange(0, k + 1));
        }
        k += 1;
    }
    proof {
        assert(r@ =~= v@);
    }
    r
}

/// The mathematical shape of a `Quantity`.
#[verifier::ext_equal]
pub ghost struct SQuantity {
    pub amount: Rat,
    pub unit: Option<Seq<char>>,
    pub unit_type: Option<UnitType>,
}

/// The mathematical shape of an `Ingredient`.
#[verifier::ext_equal]
pub ghost struct SIngredient {
    pub quantities: Seq<SQuantity>,
    pub ingredient: Option<Seq<char>>,
}

/// One quantity of the record: an exact rational amount and, when a unit was
/// written, its canonical name and unit system — always both or neither.
#[derive(Debug, PartialEq)]
pub struct Quantity {
    pub amount: Rat,
    pub unit: Option<String>,
    pub unit_type: Option<UnitType>,
}

impl View for Quantity {
    type V = SQuantity;

    open spec fn view(&self) -> SQuantity {
        SQuantity {
            amount: self.amount,
            unit: match self.unit {
                Some(u) => Some(u@),
                None => None,
            },
            unit_type: self.unit_type,
        }
    }
}

pub open spec fn quantities_view(v: Seq<Quantity>) -> Seq<SQuantity> {
    Seq::new(v.len(), |i: int| v[i]@)
}

/// The structured record a line parses to: the quantities in order of
/// appearance and the residual ingredient name, if any text remained.
#[derive(Debug, PartialEq)]
pub struct Ingredient {
    pub quantities: Vec<Quantity>,
    pub ingredient: Option<String>,
}

impl View for Ingredient {
    type V = SIngredient;

    open spec fn view(&self) -> SIngredient {
        SIngredient {
            quantities: quantities_view(self.quantities@),
            ingredient: match self.ingredient {
                Some(s) => Some(s@),
                None => None,
            },
        }
    }
}

/// The children of a node; a leaf has none.
pub open spec fn s_children(n: SNode) -> Seq<SNode> {
    match n {
        SNode::Branch { children, .. } => children,
        SNode::Leaf { .. } => Seq::empty(),
    }
}

/// The text span of a node; a branch has none.
pub open spec fn s_text(n: SNode) -> Seq<char> {
    match n {
        SNode::Leaf { text, .. } => text,
        SNode::Branch { .. } => Seq::empty(),
    }
}

/// The first inner node, or the error reported when it is absent.
pub open spec fn s_first(n: SNode) -> Result<SNode, SErr> {
    if s_children(n).len() >= 1 {
        Ok(s_children(n)[0])
    } else {
        Err(SErr::InnerRuleNone)
    }
}

fn first_child(n: &ParseNode) -> (r: Result<&ParseNode, IngreedyError>)
    ensures
        match r {
            Ok(c) => s_first(n@) == Ok::<SNode, SErr>(c@),
            Err(e) => s_first(n@) == Err::<SNode, SErr>(e@),
        },
{
    match n {
        ParseNode::Branch { children, .. } => {
            if children.len() >= 1 {
                proof {
                    lemma_seq_node_view(children@);
                }
                Ok(&children[0])
            } else {
                Err(IngreedyError::InnerRuleNoneError)
            }
        }
        ParseNode::Leaf { .. } => Err(IngreedyError::InnerRuleNoneError),
    }
}

/// The unit system a unit-system rule denotes, or a `WrongRule` error.
pub open spec fn spec_unit_type(n: SNode) -> Result<UnitType, SErr> {
    if n.rule() == RuleId::ImpreciseUnit {
        Ok(UnitType::Imprecise)
    } else if n.rule() == RuleId::MetricUnit {
        Ok(UnitType::Metric)
    } else if n.rule() == RuleId::EnglishUnit {
        Ok(UnitType::English)
    } else {
        Err(SErr::WrongRule { found: spec_rule_name(n.rule()), rule: "unit_type"@ })
    }
}

impl UnitType {
    /// Classifies a unit-system node.
    fn parse(pair: &ParseNode) -> (r: Result<UnitType, IngreedyError>)
        ensures
            match r {
                Ok(ut) => spec_unit_type(pair@) == Ok::<UnitType, SErr>(ut),
                Err(e) => spec_unit_type(pair@) == Err::<UnitType, SErr>(e@),
            },
    {
        let ru = pair.rule();
        if ru == RuleId::ImpreciseUnit {
            Ok(UnitType::Imprecise)
        } else if ru == RuleId::MetricUnit {
            Ok(UnitType::Metric)
        } else if ru == RuleId::EnglishUnit {
            Ok(UnitType::English)
        } else {
            Err(
                IngreedyError::WrongRule {
                    found: rule_name(ru),
                    rule: String::from_str("unit_type"),
                },
            )
        }
    }
}

/// The value of a fraction node's inner node: an ASCII `digits/digits` span
/// or a single unicode fraction glyph.
pub open spec fn spec_parse_fraction(n: SNode) -> Result<Rat, SErr> {
    if n.rule() == RuleId::MulticharacterFraction {
        match spec_mc_value(s_text(n)) {
            Some(v) => Ok(v),
            None => Err(SErr::Numeric),
        }
    } else if n.rule() == RuleId::UnicodeFraction {
        if s_text(n).len() == 1 {
            match spec_glyph_value(s_text(n)[0]) {
                Some((x, y)) => Ok(Rat { num: x, den: y }),
                None => Err(SErr::Numeric),
            }
        } else {
            Err(SErr::Numeric)
        }
    } else {
        Err(SErr::WrongRule { found: spec_rule_name(n.rule()), rule: "fraction"@ })
    }
}

fn parse_fraction(n: &ParseNode) -> (r: Result<Rat, IngreedyError>)
    ensures
        match r {
            Ok(v) => spec_parse_fraction(n@) == Ok::<Rat, SErr>(v),
            Err(e) => spec_parse_fraction(n@) == Err::<Rat, SErr>(e@),
        },
{
    let ru = n.rule();
    if ru == RuleId::MulticharacterFraction {
        match n {
            ParseNode::Leaf { text, .. } => match parse_mc_value(text) {
                Some(v) => Ok(v),
                None => Err(IngreedyError::NumericParseError),
            },
            ParseNode::Branch { .. } => Err(IngreedyError::NumericParseError),
        }
    } else if ru == RuleId::UnicodeFraction {
        match n {
            ParseNode::Leaf { text, .. } => {
                if text.len() == 1 {
                    match glyph_value(text[0]) {
                        Some((x, y)) => Ok(Rat { num: x, den: y }),
                        None => Err(IngreedyError::NumericParseError),
                    }
                } else {
                    Err(IngreedyError::NumericParseError)
                }
            }
            ParseNode::Branch { .. } => Err(IngreedyError::NumericParseError),
        }
    } else {
        Err(
            IngreedyError::WrongRule { found: rule_name(ru), rule: String::from_str("fraction") },
        )
    }
}

/// The running sum of a mixed number's parts: integer and fraction children
/// add into the accumulator, separator children are skipped.
pub open spec fn spec_mixed_fold(children: Seq<SNode>, idx: int, acc: Rat) -> Result<Rat, SErr>
    decreases children.len() - idx,
{
    if idx < 0 || idx >= children.len() {
        Ok(acc)
    } else {
        let c = children[idx];
        if c.rule() == RuleId::Integer {
            match spec_decimal_rat(s_text(c)) {
                Some(v) => match spec_rat_add(acc, v) {
                    Some(a2) => spec_mixed_fold(children, idx + 1, a2),
                    None => Err(SErr::Numeric),
                },
                None => Err(SErr::Numeric),
            }
        } else if c.rule() == RuleId::Fraction {
            match s_first(c) {
                Ok(f) => match spec_parse_fraction(f) {
                    Ok(v) => match spec_rat_add(acc, v) {
                        Some(a2) => spec_mixed_fold(children, idx + 1, a2),
                        None => Err(SErr::Numeric),
                    },
                    Err(e) => Err(e),
                },
                Err(e) => Err(e),
            }
        } else if c.rule() == RuleId::Separator {
            spec_mixed_fold(children, idx + 1, acc)
        } else {
            Err(SErr::WrongRule { found: spec_rule_name(c.rule()), rule: "mixed_number"@ })
        }
    }
}

/// The value of an amount node, dispatching on which literal form matched.
pub open spec fn spec_parse_amount(n: SNode) -> Result<Rat, SErr> {
    if n.rule() == RuleId::Float || n.rule() == RuleId::Integer {
        match spec_decimal_rat(s_text(n)) {
            Some(v) => Ok(v),
            None => Err(SErr::Numeric),
        }
    } else if n.rule() == RuleId::Fraction {
        match s_first(n) {
            Ok(c) => spec_parse_fraction(c),
            Err(e) => Err(e),
        }
    } else if n.rule() == RuleId::MixedNumber {
        spec_mixed_fold(s_children(n), 0, Rat { num: 0, den: 1 })
    } else if n.rule() == RuleId::Number {
        match s_first(n) {
            Ok(c) => match spec_word_value(spec_trimmed(s_text(c))) {
                Some(v) => Ok(Rat { num: v, den: 1 }),
                None => Err(SErr::Numeric),
            },
            Err(e) => Err(e),
        }
    } else {
        Err(SErr::WrongRule { found: spec_rule_name(n.rule()), rule: "amount"@ })
    }
}

fn mixed_fold(children: &Vec<ParseNode>, idx: usize, acc: Rat) -> (r: Result<Rat, IngreedyError>)
    requires
        idx <= children@.len(),
    ensures
        match r {
            Ok(v) => spec_mixed_fold(nodes_view(children@), idx as int, acc) == Ok::<Rat, SErr>(v),
            Err(e) => spec_mixed_fold(nodes_view(children@), idx as int, acc) == Err::<
                Rat,
                SErr,
            >(e@),
        },
    decreases children@.len() - idx,
{
    proof {
        lemma_seq_node_view(children@);
    }
    if idx >= children.len() {
        return Ok(acc);
    }
    let c = &children[idx];
    let ru = c.rule();
    if ru == RuleId::Integer {
        let dv = match c {
            ParseNode::Leaf { text, .. } => parse_decimal(text),
            ParseNode::Branch { .. } => {
                let empty: Vec<char> = Vec::new();
                proof {
                    assert(empty@ =~= s_text(c@));
                }
                parse_decimal(&empty)
            }
        };
        match dv {
            Some(v) => match acc.add(v) {
                Some(a2) => mixed_fold(children, idx + 1, a2),
                None => Err(IngreedyError::NumericParseError),
            },
            None => Err(IngreedyError::NumericParseError),
        }
    } else if ru == RuleId::Fraction {
        match first_child(c) {
            Ok(f) => match parse_fraction(f) {
                Ok(v) => match acc.add(v) {
                    Some(a2) => mixed_fold(children, idx + 1, a2),
                    None => Err(IngreedyError::NumericParseError),
                },
                Err(e) => Err(e),
            },
            Err(e) => Err(e),
        }
    } else if ru == RuleId::Separator {
        mixed_fold(children, idx + 1, acc)
    } else {
        Err(
            IngreedyError::WrongRule {
                found: rule_name(ru),
                rule: String::from_str("mixed_number"),
            },
        )
    }
}

fn parse_amount(n: &ParseNode) -> (r: Result<Rat, IngreedyError>)
    ensures
        match r {
            Ok(v) => spec_parse_amount(n@) == Ok::<Rat, SErr>(v),
            Err(e) => spec_parse_amount(n@) == Err::<Rat, SErr>(e@),
        },
{
    let ru = n.rule();
    if ru == RuleId::Float || ru == RuleId::Integer {
        let dv = match n {
            ParseNode::Leaf { text, .. } => parse_decimal(text),
            ParseNode::Branch { .. } => {
                let empty: Vec<char> = Vec::new();
                proof {
                    assert(empty@ =~= s_text(n@));
                }
                parse_decimal(&empty)
            }
        };
        match dv {
            Some(v) => Ok(v),
            None => Err(IngreedyError::NumericParseError),
        }
    } else if ru == RuleId::Fraction {
        match first_child(n) {
            Ok(c) => parse_fraction(c),
            Err(e) => Err(e),
        }
    } else if ru == RuleId::MixedNumber {
        match n {
            ParseNode::Branch { children, .. } => mixed_fold(children, 0, Rat { num: 0, den: 1 }),
            ParseNode::Leaf { .. } => {
                let empty: Vec<ParseNode> = Vec::new();
                proof {
                    assert(nodes_view(empty@) =~= s_children(n@));
                }
                mixed_fold(&empty, 0, Rat { num: 0, den: 1 })
            }
        }
    } else if ru == RuleId::Number {
        match first_child(n) {
            Ok(c) => {
                let t = match c {
                    ParseNode::Leaf { text, .. } => trimmed(text),
                    ParseNode::Branch { .. } => {
                        let empty: Vec<char> = Vec::new();
                        proof {
                            assert(empty@ =~= s_text(c@));
                            assert(spec_trimmed(empty@) =~= spec_trimmed(s_text(c@)));
                        }
                        trimmed(&empty)
                    }
                };
                match word_value(&t, 0, t.len()) {
                    Some(v) => {
                        proof {
                            assert(t@.subrange(0, t@.len() as int) =~= t@);
                        }
                        Ok(Rat { num: v, den: 1 })
                    }
                    None => {
                        proof {
                            assert(t@.subrange(0, t@.len() as int) =~= t@);
                        }
                        Err(IngreedyError::NumericParseError)
                    }
                }
            }
            Err(e) => Err(e),
        }
    } else {
        Err(IngreedyError::WrongRule { found: rule_name(ru), rule: String::from_str("amount") })
    }
}

/// The fold over the children of a conversion or attached-units node: the
/// primary amount child sets the amount, the unit child sets the unit name
/// and system together, everything else (the conversion pair) is skipped.
pub open spec fn spec_attached_fold(children: Seq<SNode>, idx: int, acc: SQuantity) -> Result<
    SQuantity,
    SErr,
>
    decreases children.len() - idx,
{
    if idx < 0 || idx >= children.len() {
        Ok(acc)
    } else {
        let c = children[idx];
        if c.rule() == RuleId::Amount {
            match s_first(c) {
                Ok(inner) => match spec_parse_amount(inner) {
                    Ok(v) => spec_attached_fold(
                        children,
                        idx + 1,
                        SQuantity { amount: v, unit: acc.unit, unit_type: acc.unit_type },
                    ),
                    Err(e) => Err(e),
                },
                Err(e) => Err(e),
            }
        } else if c.rule() == RuleId::Unit {
            match s_first(c) {
                Ok(sysn) => match spec_unit_type(sysn) {
                    Ok(ut) => match s_first(sysn) {
                        Ok(specific) => spec_attached_fold(
                            children,
                            idx + 1,
                            SQuantity {
                                amount: acc.amount,
                                unit: Some(spec_rule_name(specific.rule())),
                                unit_type: Some(ut),
                            },
                        ),
                        Err(e) => Err(e),
                    },
                    Err(e) => Err(e),
                },
                Err(e) => Err(e),
            }
        } else {
            spec_attached_fold(children, idx + 1, acc)
        }
    }
}

/// A quantity node folded to a quantity record.
pub open spec fn spec_quantity_record(n: SNode) -> Result<SQuantity, SErr>
    decreases n, 0int,
{
    let default = SQuantity { amount: Rat { num: 0, den: 1 }, unit: None, unit_type: None };
    if n.rule() == RuleId::AmountWithConversion || n.rule() == RuleId::AmountWithAttachedUnits {
        spec_attached_fold(s_children(n), 0, default)
    } else if n.rule() == RuleId::AmountWithMultiplier {
        match n {
            SNode::Branch { children, .. } => spec_mult_fold(
                children,
                0,
                Rat { num: 1, den: 1 },
                default,
            ),
            SNode::Leaf { .. } => Ok(default),
        }
    } else if n.rule() == RuleId::AmountImprecise {
        match s_first(n) {
            Ok(sysn) => match spec_unit_type(sysn) {
                Ok(ut) => match s_first(sysn) {
                    Ok(specific) => Ok(
                        SQuantity {
                            amount: Rat { num: 1, den: 1 },
                            unit: Some(spec_rule_name(specific.rule())),
                            unit_type: Some(ut),
                        },
                    ),
                    Err(e) => Err(e),
                },
                Err(e) => Err(e),
            },
            Err(e) => Err(e),
        }
    } else {
        Err(SErr::WrongRule { found: spec_rule_name(n.rule()), rule: "quantity"@ })
    }
}

/// The fold over the children of a multiplier node: the amount child sets
/// the multiplier, the parenthesized quantity is extracted in full and its
/// amount scaled by the multiplier.
pub open spec fn spec_mult_fold(children: Seq<SNode>, idx: int, mult: Rat, acc: SQuantity) -> Result<
    SQuantity,
    SErr,
>
    decreases children, children.len() - idx,
{
    if idx < 0 || idx >= children.len() {
        Ok(acc)
    } else {
        let c = children[idx];
        if c.rule() == RuleId::Amount {
            match s_first(c) {
                Ok(inner) => match spec_parse_amount(inner) {
                    Ok(v) => spec_mult_fold(children, idx + 1, v, acc),
                    Err(e) => Err(e),
                },
                Err(e) => Err(e),
            }
        } else if c.rule() == RuleId::ParenthesizedQuantity {
            match s_first(c) {
                Ok(qnode) => match s_first(qnode) {
                    Ok(form) => match spec_quantity_record(form) {
                        Ok(q) => match spec_rat_mul(q.amount, mult) {
                            Some(a2) => spec_mult_fold(
                                children,
                                idx + 1,
                                mult,
                                SQuantity { amount: a2, unit: q.unit, unit_type: q.unit_type },
                            ),
                            None => Err(SErr::Numeric),
                        },
                        Err(e) => Err(e),
                    },
                    Err(e) => Err(e),
                },
                Err(e) => Err(e),
            }
        } else {
            spec_mult_fold(children, idx + 1, mult, acc)
        }
    }
}

fn attached_fold(children: &Vec<ParseNode>, idx: usize, acc: Quantity) -> (r: Result<
    Quantity,
    IngreedyError,
>)
    requires
        idx <= children@.len(),
    ensures
        match r {
            Ok(q) => spec_attached_fold(nodes_view(children@), idx as int, acc@) == Ok::<
                SQuantity,
                SErr,
            >(q@),
            Err(e) => spec_attached_fold(nodes_view(children@), idx as int, acc@) == Err::<
                SQuantity,
                SErr,
            >(e@),
        },
    decreases children@.len() - idx,
{
    proof {
        lemma_seq_node_view(children@);
    }
    if idx >= children.len() {
        return Ok(acc);
    }
    let c = &children[idx];
    let ru = c.rule();
    if ru == RuleId::Amount {
        match first_child(c) {
            Ok(inner) => match parse_amount(inner) {
                Ok(v) => attached_fold(
                    children,
                    idx + 1,
                    Quantity { amount: v, unit: acc.unit, unit_type: acc.unit_type },
                ),
                Err(e) => Err(e),
            },
            Err(e) => Err(e),
        }
    } else if ru == RuleId::Unit {
        match first_child(c) {
            Ok(sysn) => match UnitType::parse(sysn) {
                Ok(ut) => match first_child(sysn) {
                    Ok(specific) => attached_fold(
                        children,
                        idx + 1,
                        Quantity {
                            amount: acc.amount,
                            unit: Some(rule_name(specific.rule())),
                            unit_type: Some(ut),
                        },
                    ),
                    Err(e) => Err(e),
                },
                Err(e) => Err(e),
            },
            Err(e) => Err(e),
        }
    } else {
        attached_fold(children, idx + 1, acc)
    }
}

impl Quantity {
    /// Folds one quantity-form node into a quantity record.
    fn parse(n: &ParseNode) -> (r: Result<Quantity, IngreedyError>)
        ensures
            match r {
                Ok(q) => spec_quantity_record(n@) == Ok::<SQuantity, SErr>(q@),
                Err(e) => spec_quantity_record(n@) == Err::<SQuantity, SErr>(e@),
            },
        decreases n, 0int,
    {
        let default = Quantity { amount: Rat { num: 0, den: 1 }, unit: None, unit_type: None };
        let ru = n.rule();
        if ru == RuleId::AmountWithConversion || ru == RuleId::AmountWithAttachedUnits {
            match n {
                ParseNode::Branch { children, .. } => attached_fold(children, 0, default),
                ParseNode::Leaf { .. } => {
                    let empty: Vec<ParseNode> = Vec::new();
                    proof {
                        assert(nodes_view(empty@) =~= s_children(n@));
                    }
                    attached_fold(&empty, 0, default)
                }
            }
        } else if ru == RuleId::AmountWithMultiplier {
            match n {
                ParseNode::Branch { children, .. } => mult_fold(
                    children,
                    0,
                    Rat { num: 1, den: 1 },
                    default,
                ),
                ParseNode::Leaf { .. } => Ok(default),
            }
        } else if ru == RuleId::AmountImprecise {
            match first_child(n) {
                Ok(sysn) => match UnitType::parse(sysn) {
                    Ok(ut) => match first_child(sysn) {
                        Ok(specific) => Ok(
                            Quantity {
                                amount: Rat { num: 1, den: 1 },
                                unit: Some(rule_name(specific.rule())),
                                unit_type: Some(ut),
                            },
                        ),
                        Err(e) => Err(e),
                    },
                    Err(e) => Err(e),
                },
                Err(e) => Err(e),
            }
        } else {
            Err(
                IngreedyError::WrongRule {
                    found: rule_name(ru),
                    rule: String::from_str("quantity"),
                },
            )
        }
    }
}

fn mult_fold(children: &Vec<ParseNode>, idx: usize, mult: Rat, acc: Quantity) -> (r: Result<
    Quantity,
    IngreedyError,
>)
    requires
        idx <= children@.len(),
    ensures
        match r {
            Ok(q) => spec_mult_fold(nodes_view(children@), idx as int, mult, acc@) == Ok::<
                SQuantity,
                SErr,
            >(q@),
            Err(e) => spec_mult_fold(nodes_view(children@), idx as int, mult, acc@) == Err::<
                SQuantity,
                SErr,
            >(e@),
        },
    decreases children, children@.len() - idx,
{
    proof {
        lemma_seq_node_view(children@);
    }
    if idx >= children.len() {
        return Ok(acc);
    }
    let c = &children[idx];
    let ru = c.rule();
    if ru == RuleId::Amount {
        match first_child(c) {
            Ok(inner) => match parse_amount(inner) {
                Ok(v) => mult_fold(children, idx + 1, v, acc),
                Err(e) => Err(e),
            },
            Err(e) => Err(e),
        }
    } else if ru == RuleId::ParenthesizedQuantity {
        match c {
            ParseNode::Branch { children: pkids, .. } => {
                if pkids.len() < 1 {
                    proof {
                        assert(s_first(c@) == Err::<SNode, SErr>(SErr::InnerRuleNone));
                    }
                    return Err(IngreedyError::InnerRuleNoneError);
                }
                proof {
                    lemma_seq_node_view(pkids@);
                }
                let qnode = &pkids[0];
                match qnode {
                    ParseNode::Branch { children: qkids, .. } => {
                        if qkids.len() < 1 {
                            return Err(IngreedyError::InnerRuleNoneError);
                        }
                        proof {
                            lemma_seq_node_view(qkids@);
                        }
                        let form = &qkids[0];
                        proof {
                            assert(decreases_to!(children => children[idx as int]));
                            assert(decreases_to!(children[idx as int] => *pkids));
                            assert(decreases_to!(*pkids => pkids[0]));
                            assert(decreases_to!(pkids[0] => *qkids));
                            assert(decreases_to!(*qkids => qkids[0]));
                        }
                        match Quantity::parse(form) {
                            Ok(q) => match q.amount.mul(mult) {
                                Some(a2) => mult_fold(
                                    children,
                                    idx + 1,
                                    mult,
                                    Quantity { amount: a2, unit: q.unit, unit_type: q.unit_type },
                                ),
                                None => Err(IngreedyError::NumericParseError),
                            },
                            Err(e) => Err(e),
                        }
                    }
                    ParseNode::Leaf { .. } => Err(IngreedyError::InnerRuleNoneError),
                }
            }
            ParseNode::Leaf { .. } => Err(IngreedyError::InnerRuleNoneError),
        }
    } else {
        mult_fold(children, idx + 1, mult, acc)
    }
}

/// The fold over the fragments of a multipart quantity, with the merge rule:
/// when the single quantity gathered so far has no unit, its bare amount
/// multiplies into the new fragment and is discarded; otherwise the new
/// fragment is appended.
pub open spec fn spec_frag_fold(children: Seq<SNode>, idx: int, qs: Seq<SQuantity>) -> Result<
    Seq<SQuantity>,
    SErr,
>
    decreases children.len() - idx,
{
    if idx < 0 || idx >= children.len() {
        Ok(qs)
    } else {
        let c = children[idx];
        if c.rule() == RuleId::QuantityFragment {
            match s_first(c) {
                Ok(inner) => {
                    let qres: Result<SQuantity, SErr> = if inner.rule() == RuleId::Amount {
                        match s_first(inner) {
                            Ok(a) => match spec_parse_amount(a) {
                                Ok(v) => Ok(
                                    SQuantity { amount: v, unit: None, unit_type: None },
                                ),
                                Err(e) => Err(e),
                            },
                            Err(e) => Err(e),
                        }
                    } else if inner.rule() == RuleId::Quantity {
                        match s_first(inner) {
                            Ok(form) => spec_quantity_record(form),
                            Err(e) => Err(e),
                        }
                    } else {
                        Err(
                            SErr::WrongRule {
                                found: spec_rule_name(inner.rule()),
                                rule: "quantity_fragment"@,
                            },
                        )
                    };
                    match qres {
                        Ok(q) => {
                            if qs.len() >= 1 && qs[0].unit is None {
                                match spec_rat_mul(q.amount, qs[0].amount) {
                                    Some(a2) => spec_frag_fold(
                                        children,
                                        idx + 1,
                                        seq![
                                            SQuantity {
                                                amount: a2,
                                                unit: q.unit,
                                                unit_type: q.unit_type,
                                            },
                                        ],
                                    ),
                                    None => Err(SErr::Numeric),
                                }
                            } else {
                                spec_frag_fold(children, idx + 1, qs.push(q))
                            }
                        }
                        Err(e) => Err(e),
                    }
                }
                Err(e) => Err(e),
            }
        } else {
            spec_frag_fold(children, idx + 1, qs)
        }
    }
}

/// The fold over the top-level nodes: the multipart quantity fills the
/// quantity list, the ingredient leaf sets the normalized name.
pub open spec fn spec_top_fold(pairs: Seq<SNode>, idx: int, acc: SIngredient) -> Result<
    SIngredient,
    SErr,
>
    decreases pairs.len() - idx,
{
    if idx < 0 || idx >= pairs.len() {
        Ok(acc)
    } else {
        let c = pairs[idx];
        if c.rule() == RuleId::MultipartQuantity {
            match spec_frag_fold(s_children(c), 0, acc.quantities) {
                Ok(qs) => spec_top_fold(
                    pairs,
                    idx + 1,
                    SIngredient { quantities: qs, ingredient: acc.ingredient },
                ),
                Err(e) => Err(e),
            }
        } else if c.rule() == RuleId::Ingredient {
            spec_top_fold(
                pairs,
                idx + 1,
                SIngredient { quantities: acc.quantities, ingredient: Some(strip_of(s_text(c))) },
            )
        } else {
            spec_top_fold(pairs, idx + 1, acc)
        }
    }
}

/// A whole parse tree folded to a record.
pub open spec fn spec_extract(pairs: Seq<SNode>) -> Result<SIngredient, SErr> {
    spec_top_fold(pairs, 0, SIngredient { quantities: Seq::empty(), ingredient: None })
}

/// What `Ingredient::parse` returns on each input: the record the grammar
/// derivation extracts to, or the first error.
pub open spec fn spec_parse_result(s: Seq<char>) -> Result<SIngredient, SErr> {
    match spec_line(s) {
        SLine::Fail(p) => Err(SErr::Syntax { position: p }),
        SLine::Pairs(ns) => spec_extract(ns),
    }
}

fn frag_fold(children: &Vec<ParseNode>, idx: usize, qs: Vec<Quantity>) -> (r: Result<
    Vec<Quantity>,
    IngreedyError,
>)
    requires
        idx <= children@.len(),
    ensures
        match r {
            Ok(v) => spec_frag_fold(nodes_view(children@), idx as int, quantities_view(qs@))
                == Ok::<Seq<SQuantity>, SErr>(quantities_view(v@)),
            Err(e) => spec_frag_fold(nodes_view(children@), idx as int, quantities_view(qs@))
                == Err::<Seq<SQuantity>, SErr>(e@),
        },
    decreases children@.len() - idx,
{
    proof {
        lemma_seq_node_view(children@);
    }
    if idx >= children.len() {
        return Ok(qs);
    }
    let c = &children[idx];
    if c.rule() == RuleId::QuantityFragment {
        match first_child(c) {
            Ok(inner) => {
                let iru = inner.rule();
                let qres: Result<Quantity, IngreedyError> = if iru == RuleId::Amount {
                    match first_child(inner) {
                        Ok(a) => match parse_amount(a) {
                            Ok(v) => Ok(Quantity { amount: v, unit: None, unit_type: None }),
                            Err(e) => Err(e),
                        },
                        Err(e) => Err(e),
                    }
                } else if iru == RuleId::Quantity {
                    match first_child(inner) {
                        Ok(form) => Quantity::parse(form),
                        Err(e) => Err(e),
                    }
                } else {
                    Err(
                        IngreedyError::WrongRule {
                            found: rule_name(iru),
                            rule: String::from_str("quantity_fragment"),
                        },
                    )
                };
                match qres {
                    Ok(q) => {
                        let ghost gqs = quantities_view(qs@);
                        let merge = qs.len() >= 1 && qs[0].unit.is_none();
                        if merge {
                            match q.amount.mul(qs[0].amount) {
                                Some(a2) => {
                                    let q2 = Quantity {
                                        amount: a2,
                                        unit: q.unit,
                                        unit_type: q.unit_type,
                                    };
                                    let ghost gq2 = q2@;
                                    let mut nq: Vec<Quantity> = Vec::new();
                                    nq.push(q2);
                                    proof {
                                        assert(quantities_view(nq@) =~= seq![gq2]);
                                    }
                                    frag_fold(children, idx + 1, nq)
                                }
                                None => Err(IngreedyError::NumericParseError),
                            }
                        } else {
                            let ghost gq = q@;
                            let mut qs2 = qs;
                            qs2.push(q);
                            proof {
                                assert(quantities_view(qs2@) =~= gqs.push(gq));
                            }
                            frag_fold(children, idx + 1, qs2)
                        }
                    }
                    Err(e) => Err(e),
                }
            }
            Err(e) => Err(e),
        }
    } else {
        frag_fold(children, idx + 1, qs)
    }
}

fn top_fold(pairs: &Vec<ParseNode>, idx: usize, acc: Ingredient) -> (r: Result<
    Ingredient,
    IngreedyError,
>)
    requires
        idx <= pairs@.len(),
    ensures
        match r {
            Ok(ing) => spec_top_fold(nodes_view(pairs@), idx as int, acc@) == Ok::<
                SIngredient,
                SErr,
            >(ing@),
            Err(e) => spec_top_fold(nodes_view(pairs@), idx as int, acc@) == Err::<
                SIngredient,
                SErr,
            >(e@),
        },
    decreases pairs@.len() - idx,
{
    proof {
        lemma_seq_node_view(pairs@);
    }
    if idx >= pairs.len() {
        return Ok(acc);
    }
    let c = &pairs[idx];
    let ru = c.rule();
    let Ingredient { quantities, ingredient } = acc;
    if ru == RuleId::MultipartQuantity {
        let folded = match c {
            ParseNode::Branch { children, .. } => frag_fold(children, 0, quantities),
            ParseNode::Leaf { .. } => {
                let empty: Vec<ParseNode> = Vec::new();
                proof {
                    assert(nodes_view(empty@) =~= s_children(c@));
                }
                frag_fold(&empty, 0, quantities)
            }
        };
        match folded {
            Ok(qs) => top_fold(pairs, idx + 1, Ingredient { quantities: qs, ingredient }),
            Err(e) => Err(e),
        }
    } else if ru == RuleId::Ingredient {
        let name = match c {
            ParseNode::Leaf { text, .. } => {
                let tlen = text.len();
                let stripped = if tlen >= 3 && text[0] == 'o' && text[1] == 'f' && text[2] == ' ' {
                    copy_range(text, 3, tlen)
                } else {
                    copy_range(text, 0, tlen)
                };
                proof {
                    assert(text@.subrange(0, text@.len() as int) =~= text@);
                }
                chars_to_string(&stripped)
            }
            ParseNode::Branch { .. } => {
                let empty: Vec<char> = Vec::new();
                proof {
                    assert(empty@ =~= s_text(c@));
                    assert(strip_of(empty@) =~= empty@);
                }
                chars_to_string(&empty)
            }
        };
        top_fold(pairs, idx + 1, Ingredient { quantities, ingredient: Some(name) })
    } else {
        top_fold(pairs, idx + 1, Ingredient { quantities, ingredient })
    }
}

impl Ingredient {
    /// Parses one line of input into the structured record. The result is
    /// completely determined by the characters of `input`: the grammar
    /// derivation and extraction `spec_parse_result` describes, or its first
    /// error — never a partial record.
    pub fn parse(input: &str) -> (r: Result<Ingredient, IngreedyError>)
        ensures
            match r {
                Ok(ing) => spec_parse_result(input@) == Ok::<SIngredient, SErr>(ing@),
                Err(e) => spec_parse_result(input@) == Err::<SIngredient, SErr>(e@),
            },
            r matches Ok(ing) ==> forall|k: int|
                0 <= k < ing@.quantities.len() ==> crate::laws::quantity_inv(
                    #[trigger] ing@.quantities[k],
                ),
            r matches Err(e) ==> (e@ is Syntax || e@ is Numeric),
    {
        proof {
            crate::laws::lemma_parse_record_invariant(input@);
            crate::laws::lemma_parse_error_taxonomy(input@);
        }
        match IngredientParser::parse(input) {
            Ok(ns) => Self::parse_pairs(ns),
            Err(e) => Err(e),
        }
    }

    /// Folds the top-level parse-tree nodes into the record.
    pub fn parse_pairs(pairs: Vec<ParseNode>) -> (r: Result<Ingredient, IngreedyError>)
        ensures
            match r {
                Ok(ing) => spec_extract(nodes_view(pairs@)) == Ok::<SIngredient, SErr>(ing@),
                Err(e) => spec_extract(nodes_view(pairs@)) == Err::<SIngredient, SErr>(e@),
            },
    {
        let acc = Ingredient { quantities: Vec::new(), ingredient: None };
        proof {
            assert(quantities_view(acc.quantities@) =~= Seq::<SQuantity>::empty());
            assert(acc@ =~= (SIngredient { quantities: Seq::empty(), ingredient: None }));
        }
        top_fold(&pairs, 0, acc)
    }
}

} // verus!
