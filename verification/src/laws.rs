//! Laws of the extraction, proved over the same spec functions that the
//! executable functions are verified against: every quantity of a record has
//! its unit name and unit system both present or both absent, and its amount
//! is a well-formed non-negative rational.

use vstd::prelude::*;

use crate::err::SErr;
use crate::extract::{
    SQuantity, s_children, s_text, s_first, spec_unit_type, spec_parse_fraction, spec_mixed_fold,
    spec_parse_amount, spec_attached_fold, spec_quantity_record, spec_mult_fold, spec_frag_fold,
    spec_top_fold, spec_extract, spec_parse_result, SIngredient,
};
use crate::grammar::{
    spec_line, SLine, spec_integer, spec_fraction, spec_mc_fraction, spec_mixed, spec_amount,
    spec_unit, spec_amount_unit, spec_conversion, spec_attached, spec_multiplier, spec_imprecise,
    spec_quantity, spec_fragment, spec_multipart, lemma_integer_advances, lemma_amount_advances,
    lemma_fragment_advances,
};
use crate::lex::{
    spec_glyph_value, spec_match_unit, ws_end, unit_sep_end, frag_sep_end, lemma_ws_end,
    lemma_unit_sep_end, lemma_frag_sep_end,
};
use crate::rat::{Rat, rat_wf, spec_rat_mul, spec_rat_add, lemma_rat_mul_wf, lemma_rat_add_wf};
use crate::record::{
    spec_decimal_rat, spec_mc_value, lemma_pow10_pos, decimal_frac_len, spec_rule_name,
};
use crate::tree::{RuleId, SNode};

verus! {

broadcast use {
    vstd::std_specs::vec::axiom_vec_index_decreases,
    vstd::seq::axiom_seq_index_decreases,
    vstd::seq::axiom_seq_subrange_decreases,
};

/// The invariant of every quantity a record holds: the amount is a
/// well-formed rational, and the unit name and unit system stand together.
pub open spec fn quantity_inv(q: SQuantity) -> bool {
    rat_wf(q.amount) && (q.unit is Some <==> q.unit_type is Some)
}

proof fn lemma_glyph_wf(c: char)
    ensures
        spec_glyph_value(c) matches Some((x, y)) ==> y >= 1,
{
}

proof fn lemma_decimal_wf(t: Seq<char>)
    ensures
        spec_decimal_rat(t) matches Some(v) ==> rat_wf(v),
{
    lemma_pow10_pos(decimal_frac_len(t));
}

proof fn lemma_fraction_value_wf(n: SNode)
    ensures
        spec_parse_fraction(n) matches Ok(v) ==> rat_wf(v),
{
    if n.rule() == RuleId::UnicodeFraction && s_text(n).len() == 1 {
        lemma_glyph_wf(s_text(n)[0]);
    }
}

proof fn lemma_mixed_fold_wf(children: Seq<SNode>, idx: int, acc: Rat)
    requires
        rat_wf(acc),
    ensures
        spec_mixed_fold(children, idx, acc) matches Ok(v) ==> rat_wf(v),
    decreases children.len() - idx,
{
    if 0 <= idx < children.len() {
        let c = children[idx];
        if c.rule() == RuleId::Integer {
            lemma_decimal_wf(s_text(c));
            match spec_decimal_rat(s_text(c)) {
                Some(v) => {
                    lemma_rat_add_wf(acc, v);
                    match spec_rat_add(acc, v) {
                        Some(a2) => lemma_mixed_fold_wf(children, idx + 1, a2),
                        None => {}
                    }
                }
                None => {}
            }
        } else if c.rule() == RuleId::Fraction {
            match s_first(c) {
                Ok(f) => {
                    lemma_fraction_value_wf(f);
                    match spec_parse_fraction(f) {
                        Ok(v) => {
                            lemma_rat_add_wf(acc, v);
                            match spec_rat_add(acc, v) {
                                Some(a2) => lemma_mixed_fold_wf(children, idx + 1, a2),
                                None => {}
                            }
                        }
                        Err(_) => {}
                    }
                }
                Err(_) => {}
            }
        } else if c.rule() == RuleId::Separator {
            lemma_mixed_fold_wf(children, idx + 1, acc);
        }
    }
}

proof fn lemma_parse_amount_wf(n: SNode)
    ensures
        spec_parse_amount(n) matches Ok(v) ==> rat_wf(v),
{
    if n.rule() == RuleId::Float || n.rule() == RuleId::Integer {
        lemma_decimal_wf(s_text(n));
    } else if n.rule() == RuleId::Fraction {
        match s_first(n) {
            Ok(c) => lemma_fraction_value_wf(c),
            Err(_) => {}
        }
    } else if n.rule() == RuleId::MixedNumber {
        lemma_mixed_fold_wf(s_children(n), 0, Rat { num: 0, den: 1 });
    }
}

proof fn lemma_attached_fold_inv(children: Seq<SNode>, idx: int, acc: SQuantity)
    requires
        quantity_inv(acc),
    ensures
        spec_attached_fold(children, idx, acc) matches Ok(q) ==> quantity_inv(q),
    decreases children.len() - idx,
{
    if 0 <= idx < children.len() {
        let c = children[idx];
        if c.rule() == RuleId::Amount {
            match s_first(c) {
                Ok(inner) => {
                    lemma_parse_amount_wf(inner);
                    match spec_parse_amount(inner) {
                        Ok(v) => lemma_attached_fold_inv(
                            children,
                            idx + 1,
                            SQuantity { amount: v, unit: acc.unit, unit_type: acc.unit_type },
                        ),
                        Err(_) => {}
                    }
                }
                Err(_) => {}
            }
        } else if c.rule() == RuleId::Unit {
            match s_first(c) {
                Ok(sysn) => match spec_unit_type(sysn) {
                    Ok(ut) => match s_first(sysn) {
                        Ok(specific) => lemma_attached_fold_inv(
                            children,
                            idx + 1,
                            SQuantity {
                                amount: acc.amount,
                                unit: Some(spec_rule_name(specific.rule())),
                                unit_type: Some(ut),
                            },
                        ),
                        Err(_) => {}
                    },
                    Err(_) => {}
                },
                Err(_) => {}
            }
        } else {
            lemma_attached_fold_inv(children, idx + 1, acc);
        }
    }
}

proof fn lemma_quantity_record_inv(n: SNode)
    ensures
        spec_quantity_record(n) matches Ok(q) ==> quantity_inv(q),
    decreases n, 0int,
{
    let default = SQuantity { amount: Rat { num: 0, den: 1 }, unit: None, unit_type: None };
    if n.rule() == RuleId::AmountWithConversion || n.rule() == RuleId::AmountWithAttachedUnits {
        lemma_attached_fold_inv(s_children(n), 0, default);
    } else if n.rule() == RuleId::AmountWithMultiplier {
        match n {
            SNode::Branch { children, .. } => {
                lemma_mult_fold_inv(children, 0, Rat { num: 1, den: 1 }, default);
            }
            SNode::Leaf { .. } => {}
        }
    }
}

proof fn lemma_mult_fold_inv(children: Seq<SNode>, idx: int, mult: Rat, acc: SQuantity)
    requires
        rat_wf(mult),
        quantity_inv(acc),
    ensures
        spec_mult_fold(children, idx, mult, acc) matches Ok(q) ==> quantity_inv(q),
    decreases children, children.len() - idx,
{
    if 0 <= idx < children.len() {
        let c = children[idx];
        if c.rule() == RuleId::Amount {
            match s_first(c) {
                Ok(inner) => {
                    lemma_parse_amount_wf(inner);
                    match spec_parse_amount(inner) {
                        Ok(v) => lemma_mult_fold_inv(children, idx + 1, v, acc),
                        Err(_) => {}
                    }
                }
                Err(_) => {}
            }
        } else if c.rule() == RuleId::ParenthesizedQuantity {
            match s_first(c) {
                Ok(qnode) => match s_first(qnode) {
                    Ok(form) => {
                        lemma_quantity_record_inv(form);
                        match spec_quantity_record(form) {
                            Ok(q) => {
                                lemma_rat_mul_wf(q.amount, mult);
                                match spec_rat_mul(q.amount, mult) {
                                    Some(a2) => lemma_mult_fold_inv(
                                        children,
                                        idx + 1,
                                        mult,
                                        SQuantity {
                                            amount: a2,
                                            unit: q.unit,
                                            unit_type: q.unit_type,
                                        },
                                    ),
                                    None => {}
                                }
                            }
                            Err(_) => {}
                        }
                    }
                    Err(_) => {}
                },
                Err(_) => {}
            }
        } else {
            lemma_mult_fold_inv(children, idx + 1, mult, acc);
        }
    }
}

proof fn lemma_frag_fold_inv(children: Seq<SNode>, idx: int, qs: Seq<SQuantity>)
    requires
        forall|k: int| 0 <= k < qs.len() ==> quantity_inv(#[trigger] qs[k]),
    ensures
        spec_frag_fold(children, idx, qs) matches Ok(v) ==> forall|k: int|
            0 <= k < v.len() ==> quantity_inv(#[trigger] v[k]),
    decreases children.len() - idx,
{
    if 0 <= idx < children.len() {
        let c = children[idx];
        if c.rule() == RuleId::QuantityFragment {
            match s_first(c) {
                Ok(inner) => {
                    let qres: Result<SQuantity, SErr> = if inner.rule() == RuleId::Amount {
                        match s_first(inner) {
                            Ok(a) => match spec_parse_amount(a) {
                                Ok(v) => Ok(SQuantity { amount: v, unit: None, unit_type: None }),
                                Err(e) => Err(e),
                            },
                            Err(e) => Err(e),
                        }
                    } else if inner.rule() == RuleId::Quantity {
                        match s_first(inner) {
                            Ok(form) => spec_quantity_record(form),
                            Err(e) => Err(e),
                        }
                    } else {
                        Err(
                            SErr::WrongRule {
                                found: spec_rule_name(inner.rule()),
                                rule: "quantity_fragment"@,
                            },
                        )
                    };
                    if inner.rule() == RuleId::Amount {
                        match s_first(inner) {
                            Ok(a) => lemma_parse_amount_wf(a),
                            Err(_) => {}
                        }
                    } else if inner.rule() == RuleId::Quantity {
                        match s_first(inner) {
                            Ok(form) => lemma_quantity_record_inv(form),
                            Err(_) => {}
                        }
                    }
                    match qres {
                        Ok(q) => {
                            if qs.len() >= 1 && qs[0].unit is None {
                                lemma_rat_mul_wf(q.amount, qs[0].amount);
                                match spec_rat_mul(q.amount, qs[0].amount) {
                                    Some(a2) => {
                                        let q2 = SQuantity {
                                            amount: a2,
                                            unit: q.unit,
                                            unit_type: q.unit_type,
                                        };
                                        assert(forall|k: int|
                                            0 <= k < seq![q2].len() ==> quantity_inv(
                                                #[trigger] seq![q2][k],
                                            ));
                                        lemma_frag_fold_inv(children, idx + 1, seq![q2]);
                                    }
                                    None => {}
                                }
                            } else {
                                assert(forall|k: int|
                                    0 <= k < qs.push(q).len() ==> quantity_inv(
                                        #[trigger] qs.push(q)[k],
                                    ));
                                lemma_frag_fold_inv(children, idx + 1, qs.push(q));
                            }
                        }
                        Err(_) => {}
                    }
                }
                Err(_) => {}
            }
        } else {
            lemma_frag_fold_inv(children, idx + 1, qs);
        }
    }
}

proof fn lemma_top_fold_inv(pairs: Seq<SNode>, idx: int, acc: SIngredient)
    requires
        forall|k: int| 0 <= k < acc.quantities.len() ==> quantity_inv(
            #[trigger] acc.quantities[k],
        ),
    ensures
        spec_top_fold(pairs, idx, acc) matches Ok(rec) ==> forall|k: int|
            0 <= k < rec.quantities.len() ==> quantity_inv(#[trigger] rec.quantities[k]),
    decreases pairs.len() - idx,
{
    if 0 <= idx < pairs.len() {
        let c = pairs[idx];
        if c.rule() == RuleId::MultipartQuantity {
            lemma_frag_fold_inv(s_children(c), 0, acc.quantities);
            match spec_frag_fold(s_children(c), 0, acc.quantities) {
                Ok(qs) => lemma_top_fold_inv(
                    pairs,
                    idx + 1,
                    SIngredient { quantities: qs, ingredient: acc.ingredient },
                ),
                Err(_) => {}
            }
        } else if c.rule() == RuleId::Ingredient {
            lemma_top_fold_inv(
                pairs,
                idx + 1,
                SIngredient { quantities: acc.quantities, ingredient: Some(crate::extract::strip_of(s_text(c))) },
            );
        } else {
            lemma_top_fold_inv(pairs, idx + 1, acc);
        }
    }
}

/// Unit classification closure, record side: whatever tree is extracted, a
/// successful record never holds a unit name without its unit system or the
/// other way round, and every amount is a well-formed non-negative rational.
pub proof fn lemma_extract_invariant(pairs: Seq<SNode>)
    ensures
        spec_extract(pairs) matches Ok(rec) ==> forall|k: int|
            0 <= k < rec.quantities.len() ==> quantity_inv(#[trigger] rec.quantities[k]),
{
    lemma_top_fold_inv(
        pairs,
        0,
        SIngredient { quantities: Seq::empty(), ingredient: None },
    );
}

/// The same closure stated of the whole parser: on every input whose parse
/// succeeds, each quantity of the record satisfies the invariant.
pub proof fn lemma_parse_record_invariant(s: Seq<char>)
    ensures
        spec_parse_result(s) matches Ok(rec) ==> forall|k: int|
            0 <= k < rec.quantities.len() ==> quantity_inv(#[trigger] rec.quantities[k]),
{
    match spec_line(s) {
        SLine::Pairs(ns) => lemma_extract_invariant(ns),
        SLine::Fail(_) => {}
    }
}

/// Unit classification closure, spelling side: every unit spelling the
/// grammar accepts carries one of the three unit systems, so its node always
/// classifies, never half.
pub proof fn lemma_unit_spelling_classified(s: Seq<char>, i: int)
    ensures
        spec_match_unit(s, i) matches Some((uid, sys, e)) ==> (sys == RuleId::EnglishUnit || sys
            == RuleId::MetricUnit || sys == RuleId::ImpreciseUnit) && spec_unit_type(
            SNode::Branch {
                rule: sys,
                children: seq![SNode::Leaf { rule: uid, text: s.subrange(i, e) }],
            },
        ) is Ok,
{
}

/// An amount extraction that at worst overflows.
pub open spec fn amount_result_clean(r: Result<Rat, SErr>) -> bool {
    r is Ok || r == Err::<Rat, SErr>(SErr::Numeric)
}

/// A quantity extraction that at worst overflows.
pub open spec fn quantity_result_clean(r: Result<SQuantity, SErr>) -> bool {
    r is Ok || r == Err::<SQuantity, SErr>(SErr::Numeric)
}

/// A fragment-list extraction that at worst overflows.
pub open spec fn quantities_result_clean(r: Result<Seq<SQuantity>, SErr>) -> bool {
    r is Ok || r == Err::<Seq<SQuantity>, SErr>(SErr::Numeric)
}

proof fn lemma_fraction_node_clean(s: Seq<char>, i: int)
    requires
        0 <= i <= s.len(),
    ensures
        spec_fraction(s, i) matches Some((fr, e)) ==> ({
            &&& fr.rule() == RuleId::Fraction
            &&& s_first(fr) matches Ok(c) && amount_result_clean(spec_parse_fraction(c))
        }),
{
    match spec_mc_fraction(s, i) {
        Some((n, e)) => {}
        None => {
            if 0 <= i && i < s.len() && spec_glyph_value(s[i]) is Some {
                let leafn = SNode::Leaf {
                    rule: RuleId::UnicodeFraction,
                    text: s.subrange(i, i + 1),
                };
                assert(s_text(leafn)[0] == s[i]);
            }
        }
    }
}

proof fn lemma_amount_node_clean(s: Seq<char>, i: int)
    requires
        0 <= i <= s.len(),
    ensures
        spec_amount(s, i) matches Some((an, e)) ==> ({
            &&& an.rule() == RuleId::Amount
            &&& s_first(an) matches Ok(inner) && amount_result_clean(spec_parse_amount(inner))
        }),
{
    lemma_fraction_node_clean(s, i);
    match spec_mixed(s, i) {
        Some((mn, e)) => {
            match spec_integer(s, i) {
                Some((intn, a)) => {
                    let k = unit_sep_end(s, a);
                    lemma_integer_advances(s, i);
                    lemma_unit_sep_end(s, a);
                    lemma_fraction_node_clean(s, k);
                    match spec_fraction(s, k) {
                        Some((fr, e2)) => {
                            let sepn = SNode::Leaf {
                                rule: RuleId::Separator,
                                text: s.subrange(a, k),
                            };
                            let cs = seq![intn, sepn, fr];
                            let r0 = Rat { num: 0, den: 1 };
                            assert(cs[0] == intn && cs[1] == sepn && cs[2] == fr);
                            assert(s_children(mn) == cs);
                            match spec_decimal_rat(s_text(intn)) {
                                None => {
                                    assert(spec_mixed_fold(cs, 0, r0) == Err::<Rat, SErr>(
                                        SErr::Numeric,
                                    ));
                                }
                                Some(v) => match spec_rat_add(r0, v) {
                                    None => {
                                        assert(spec_mixed_fold(cs, 0, r0) == Err::<Rat, SErr>(
                                            SErr::Numeric,
                                        ));
                                    }
                                    Some(a1) => {
                                        assert(spec_mixed_fold(cs, 0, r0) == spec_mixed_fold(
                                            cs,
                                            1,
                                            a1,
                                        ));
                                        assert(spec_mixed_fold(cs, 1, a1) == spec_mixed_fold(
                                            cs,
                                            2,
                                            a1,
                                        ));
                                        match s_first(fr) {
                                            Ok(fc) => match spec_parse_fraction(fc) {
                                                Ok(fv) => match spec_rat_add(a1, fv) {
                                                    Some(a2) => {
                                                        assert(spec_mixed_fold(cs, 2, a1)
                                                            == spec_mixed_fold(cs, 3, a2));
                                                        assert(spec_mixed_fold(cs, 3, a2) == Ok::<
                                                            Rat,
                                                            SErr,
                                                        >(a2));
                                                    }
                                                    None => {
                                                        assert(spec_mixed_fold(cs, 2, a1) == Err::<
                                                            Rat,
                                                            SErr,
                                                        >(SErr::Numeric));
                                                    }
                                                },
                                                Err(fe) => {
                                                    assert(fe == SErr::Numeric);
                                                    assert(spec_mixed_fold(cs, 2, a1) == Err::<
                                                        Rat,
                                                        SErr,
                                                    >(fe));
                                                }
                                            },
                                            Err(_) => {}
                                        }
                                    }
                                },
                            }
                        }
                        None => {}
                    }
                }
                None => {}
            }
        }
        None => {}
    }
}

proof fn lemma_unit_node_clean(s: Seq<char>, i: int)
    requires
        0 <= i <= s.len(),
    ensures
        spec_unit(s, i) matches Some((un, e)) ==> ({
            &&& un.rule() == RuleId::Unit
            &&& s_first(un) matches Ok(sysn) && spec_unit_type(sysn) is Ok && s_first(sysn) is Ok
        }),
{
    lemma_unit_spelling_classified(s, i);
}

proof fn lemma_amount_unit_clean(s: Seq<char>, i: int)
    requires
        0 <= i <= s.len(),
    ensures
        spec_amount_unit(s, i) matches Some((an, un, e)) ==> {
            &&& an.rule() == RuleId::Amount
            &&& s_first(an) matches Ok(inner) && amount_result_clean(spec_parse_amount(inner))
            &&& un.rule() == RuleId::Unit
            &&& s_first(un) matches Ok(sysn) && spec_unit_type(sysn) is Ok && s_first(sysn) is Ok
        },
{
    lemma_amount_node_clean(s, i);
    match spec_amount(s, i) {
        Some((an, a)) => {
            lemma_amount_advances(s, i);
            lemma_unit_sep_end(s, a);
            lemma_unit_node_clean(s, unit_sep_end(s, a));
        }
        None => {}
    }
}

/// One step of the attached fold on an amount node then a unit node, for any
/// accumulator: the fold finishes cleanly.
proof fn lemma_attached_pair_fold_clean(cs: Seq<SNode>, an: SNode, un: SNode, acc: SQuantity)
    requires
        cs.len() >= 2 && cs[0] == an && cs[1] == un,
        an.rule() == RuleId::Amount,
        s_first(an) matches Ok(inner) && amount_result_clean(spec_parse_amount(inner)),
        un.rule() == RuleId::Unit,
        s_first(un) matches Ok(sysn) && spec_unit_type(sysn) is Ok && s_first(sysn) is Ok,
        forall|acc2: SQuantity| quantity_result_clean(
            #[trigger] spec_attached_fold(cs, 2, acc2),
        ),
    ensures
        quantity_result_clean(spec_attached_fold(cs, 0, acc)),
{
    match s_first(an) {
        Ok(inner) => match spec_parse_amount(inner) {
            Ok(v) => {
                let acc1 = SQuantity { amount: v, unit: acc.unit, unit_type: acc.unit_type };
                assert(spec_attached_fold(cs, 0, acc) == spec_attached_fold(cs, 1, acc1));
                match s_first(un) {
                    Ok(sysn) => match spec_unit_type(sysn) {
                        Ok(ut) => match s_first(sysn) {
                            Ok(specific) => {
                                let acc2 = SQuantity {
                                    amount: acc1.amount,
                                    unit: Some(spec_rule_name(specific.rule())),
                                    unit_type: Some(ut),
                                };
                                assert(spec_attached_fold(cs, 1, acc1) == spec_attached_fold(
                                    cs,
                                    2,
                                    acc2,
                                ));
                            }
                            Err(_) => {}
                        },
                        Err(_) => {}
                    },
                    Err(_) => {}
                }
            }
            Err(e) => {
                assert(spec_attached_fold(cs, 0, acc) == Err::<SQuantity, SErr>(e));
            }
        },
        Err(_) => {}
    }
}

#[verifier::rlimit(60)]
proof fn lemma_quantity_node_clean(s: Seq<char>, i: int)
    requires
        0 <= i <= s.len(),
    ensures
        spec_quantity(s, i) matches Some((qn, e)) ==> ({
            &&& qn.rule() == RuleId::Quantity
            &&& s_first(qn) matches Ok(form) && quantity_result_clean(spec_quantity_record(form))
        }),
    decreases s.len() - i, 1int,
{
    let default = SQuantity { amount: Rat { num: 0, den: 1 }, unit: None, unit_type: None };
    match spec_conversion(s, i) {
        Some((form, e)) => {
            lemma_amount_unit_clean(s, i);
            match spec_amount_unit(s, i) {
                Some((a1, u1, j1)) => {
                    let k = ws_end(s, j1);
                    let k2 = ws_end(s, k + 1);
                    match spec_amount_unit(s, k2) {
                        Some((a2, u2, j2)) => {
                            let conv = SNode::Branch {
                                rule: RuleId::Conversion,
                                children: seq![a2, u2],
                            };
                            let cs = seq![a1, u1, conv];
                            assert(cs =~= seq![a1, u1] + seq![conv]);
                            assert(cs[2] == conv);
                            assert(forall|acc2: SQuantity|
                                #[trigger] spec_attached_fold(cs, 3, acc2) == Ok::<
                                    SQuantity,
                                    SErr,
                                >(acc2));
                            assert(forall|acc2: SQuantity|
                                #[trigger] spec_attached_fold(cs, 2, acc2) == spec_attached_fold(
                                    cs,
                                    3,
                                    acc2,
                                ));
                            lemma_attached_pair_fold_clean(cs, a1, u1, default);
                        }
                        None => {}
                    }
                }
                None => {}
            }
        }
        None => match spec_attached(s, i) {
            Some((form, e)) => {
                lemma_amount_unit_clean(s, i);
                match spec_amount_unit(s, i) {
                    Some((a1, u1, j1)) => {
                        let cs = seq![a1, u1];
                        assert(forall|acc2: SQuantity|
                            #[trigger] spec_attached_fold(cs, 2, acc2) == Ok::<SQuantity, SErr>(
                                acc2,
                            ));
                        lemma_attached_pair_fold_clean(cs, a1, u1, default);
                    }
                    None => {}
                }
            }
            None => match spec_multiplier(s, i) {
                Some((form, e)) => {
                    lemma_multiplier_node_clean(s, i);
                }
                None => match spec_imprecise(s, i) {
                    Some((form, e)) => {
                        match spec_match_unit(s, i) {
                            Some((uid, sys, e2)) => {
                                lemma_unit_spelling_classified(s, i);
                            }
                            None => {}
                        }
                    }
                    None => {}
                },
            },
        },
    }
}

proof fn lemma_multiplier_node_clean(s: Seq<char>, i: int)
    requires
        0 <= i <= s.len(),
    ensures
        spec_multiplier(s, i) matches Some((mn, e)) ==> quantity_result_clean(
            spec_quantity_record(mn),
        ),
    decreases s.len() - i, 0int,
{
    let default = SQuantity { amount: Rat { num: 0, den: 1 }, unit: None, unit_type: None };
    lemma_amount_node_clean(s, i);
    match spec_amount(s, i) {
        Some((an, a)) => {
            lemma_amount_advances(s, i);
            lemma_ws_end(s, a);
            let k = ws_end(s, a);
            if k < s.len() && s[k] == '(' {
                lemma_ws_end(s, k + 1);
                let k2 = ws_end(s, k + 1);
                lemma_quantity_node_clean(s, k2);
                match spec_quantity(s, k2) {
                    Some((qn, j)) => {
                        let k3 = ws_end(s, j);
                        if k3 < s.len() && s[k3] == ')' {
                            let pq = SNode::Branch {
                                rule: RuleId::ParenthesizedQuantity,
                                children: seq![qn],
                            };
                            let mn = SNode::Branch {
                                rule: RuleId::AmountWithMultiplier,
                                children: seq![an, pq],
                            };
                            let cs = seq![an, pq];
                            assert(s_children(mn) == cs);
                            assert(cs[0] == an && cs[1] == pq);
                            let m1 = Rat { num: 1, den: 1 };
                            match s_first(an) {
                                Ok(inner) => match spec_parse_amount(inner) {
                                    Ok(v) => {
                                        assert(spec_mult_fold(cs, 0, m1, default)
                                            == spec_mult_fold(cs, 1, v, default));
                                        assert(s_first(pq) == Ok::<SNode, SErr>(qn));
                                        match s_first(qn) {
                                            Ok(form) => match spec_quantity_record(form) {
                                                Ok(q) => match spec_rat_mul(q.amount, v) {
                                                    Some(a2) => {
                                                        let q2 = SQuantity {
                                                            amount: a2,
                                                            unit: q.unit,
                                                            unit_type: q.unit_type,
                                                        };
                                                        assert(spec_mult_fold(cs, 1, v, default)
                                                            == spec_mult_fold(cs, 2, v, q2));
                                                        assert(spec_mult_fold(cs, 2, v, q2)
                                                            == Ok::<SQuantity, SErr>(q2));
                                                    }
                                                    None => {
                                                        assert(spec_mult_fold(cs, 1, v, default)
                                                            == Err::<SQuantity, SErr>(
                                                            SErr::Numeric,
                                                        ));
                                                    }
                                                },
                                                Err(qe) => {
                                                    assert(qe == SErr::Numeric);
                                                    assert(spec_mult_fold(cs, 1, v, default)
                                                        == Err::<SQuantity, SErr>(qe));
                                                }
                                            },
                                            Err(_) => {}
                                        }
                                    }
                                    Err(ae) => {
                                        assert(ae == SErr::Numeric);
                                        assert(spec_mult_fold(cs, 0, m1, default) == Err::<
                                            SQuantity,
                                            SErr,
                                        >(ae));
                                    }
                                },
                                Err(_) => {}
                            }
                        }
                    }
                    None => {}
                }
            }
        }
        None => {}
    }
}

proof fn lemma_fragment_node_clean(s: Seq<char>, i: int)
    requires
        0 <= i <= s.len(),
    ensures
        spec_fragment(s, i) matches Some((f, j)) ==> ({
            &&& f.rule() == RuleId::QuantityFragment
            &&& s_first(f) matches Ok(inner) && ({
                ||| inner.rule() == RuleId::Quantity && (s_first(inner) matches Ok(form)
                    && quantity_result_clean(spec_quantity_record(form)))
                ||| inner.rule() == RuleId::Amount && (s_first(inner) matches Ok(a)
                    && amount_result_clean(spec_parse_amount(a)))
            })
        }),
{
    lemma_quantity_node_clean(s, i);
    lemma_amount_node_clean(s, i);
}

/// Skipping a leading element aligns the fold with the tail.
proof fn lemma_frag_fold_shift(f: SNode, tail: Seq<SNode>, j: int, qs: Seq<SQuantity>)
    requires
        0 <= j,
    ensures
        spec_frag_fold(seq![f] + tail, j + 1, qs) == spec_frag_fold(tail, j, qs),
    decreases tail.len() - j,
{
    let cs = seq![f] + tail;
    if j < tail.len() {
        assert(cs[j + 1] == tail[j]);
        let c = tail[j];
        if c.rule() == RuleId::QuantityFragment {
            match s_first(c) {
                Ok(inner) => {
                    let qres: Result<SQuantity, SErr> = if inner.rule() == RuleId::Amount {
                        match s_first(inner) {
                            Ok(a) => match spec_parse_amount(a) {
                                Ok(v) => Ok(SQuantity { amount: v, unit: None, unit_type: None }),
                                Err(e) => Err(e),
                            },
                            Err(e) => Err(e),
                        }
                    } else if inner.rule() == RuleId::Quantity {
                        match s_first(inner) {
                            Ok(form) => spec_quantity_record(form),
                            Err(e) => Err(e),
                        }
                    } else {
                        Err(
                            SErr::WrongRule {
                                found: spec_rule_name(inner.rule()),
                                rule: "quantity_fragment"@,
                            },
                        )
                    };
                    match qres {
                        Ok(q) => {
                            if qs.len() >= 1 && qs[0].unit is None {
                                match spec_rat_mul(q.amount, qs[0].amount) {
                                    Some(a2) => {
                                        lemma_frag_fold_shift(
                                            f,
                                            tail,
                                            j + 1,
                                            seq![
                                                SQuantity {
                                                    amount: a2,
                                                    unit: q.unit,
                                                    unit_type: q.unit_type,
                                                },
                                            ],
                                        );
                                    }
                                    None => {}
                                }
                            } else {
                                lemma_frag_fold_shift(f, tail, j + 1, qs.push(q));
                            }
                        }
                        Err(_) => {}
                    }
                }
                Err(_) => {}
            }
        } else {
            lemma_frag_fold_shift(f, tail, j + 1, qs);
        }
    }
}

/// The fragments the grammar yields fold cleanly from any starting list.
proof fn lemma_multipart_fold_clean(s: Seq<char>, i: int, qs: Seq<SQuantity>)
    requires
        0 <= i <= s.len(),
    ensures
        quantities_result_clean(spec_frag_fold(spec_multipart(s, i).0, 0, qs)),
    decreases s.len() - i,
{
    match spec_fragment(s, i) {
        None => {}
        Some((f, j)) => {
            lemma_fragment_advances(s, i);
            lemma_frag_sep_end(s, j);
            let k = frag_sep_end(s, j);
            let rest = spec_multipart(s, k).0;
            let cs = seq![f] + rest;
            assert(spec_multipart(s, i).0 == cs);
            assert(cs[0] == f);
            lemma_fragment_node_clean(s, i);
            match s_first(f) {
                Ok(inner) => {
                    if inner.rule() == RuleId::Quantity {
                        match s_first(inner) {
                            Ok(form) => match spec_quantity_record(form) {
                                Ok(q) => {
                                    if qs.len() >= 1 && qs[0].unit is None {
                                        match spec_rat_mul(q.amount, qs[0].amount) {
                                            Some(a2) => {
                                                let q2 = SQuantity {
                                                    amount: a2,
                                                    unit: q.unit,
                                                    unit_type: q.unit_type,
                                                };
                                                lemma_frag_fold_shift(f, rest, 0, seq![q2]);
                                                lemma_multipart_fold_clean(s, k, seq![q2]);
                                            }
                                            None => {}
                                        }
                                    } else {
                                        lemma_frag_fold_shift(f, rest, 0, qs.push(q));
                                        lemma_multipart_fold_clean(s, k, qs.push(q));
                                    }
                                }
                                Err(_) => {}
                            },
                            Err(_) => {}
                        }
                    } else {
                        match s_first(inner) {
                            Ok(a) => match spec_parse_amount(a) {
                                Ok(v) => {
                                    let q = SQuantity { amount: v, unit: None, unit_type: None };
                                    if qs.len() >= 1 && qs[0].unit is None {
                                        match spec_rat_mul(q.amount, qs[0].amount) {
                                            Some(a2) => {
                                                let q2 = SQuantity {
                                                    amount: a2,
                                                    unit: q.unit,
                                                    unit_type: q.unit_type,
                                                };
                                                lemma_frag_fold_shift(f, rest, 0, seq![q2]);
                                                lemma_multipart_fold_clean(s, k, seq![q2]);
                                            }
                                            None => {}
                                        }
                                    } else {
                                        lemma_frag_fold_shift(f, rest, 0, qs.push(q));
                                        lemma_multipart_fold_clean(s, k, qs.push(q));
                                    }
                                }
                                Err(_) => {}
                            },
                            Err(_) => {}
                        }
                    }
                }
                Err(_) => {}
            }
        }
    }
}

/// On every input the grammar accepts, extraction yields a record or at
/// worst a numeric overflow: the `WrongRule` and `InnerRuleNoneError`
/// failure classes cannot occur on a tree the grammar engine built.
pub proof fn lemma_accepted_inputs_extract_cleanly(s: Seq<char>)
    ensures
        spec_line(s) matches SLine::Pairs(ns) ==> (spec_extract(ns) is Ok || spec_extract(ns)
            == Err::<SIngredient, SErr>(SErr::Numeric)),
{
    let r = spec_multipart(s, 0);
    let frags = r.0;
    let e = r.1;
    let mq = SNode::Branch { rule: RuleId::MultipartQuantity, children: frags };
    let acc0 = SIngredient { quantities: Seq::empty(), ingredient: None };
    lemma_multipart_fold_clean(s, 0, Seq::empty());
    match spec_line(s) {
        SLine::Pairs(ns) => {
            assert(s_children(mq) == frags);
            assert(ns[0] == mq);
            match spec_frag_fold(frags, 0, Seq::<SQuantity>::empty()) {
                Ok(qs) => {
                    let acc1 = SIngredient { quantities: qs, ingredient: None };
                    assert(spec_top_fold(ns, 0, acc0) == spec_top_fold(ns, 1, acc1));
                    if ns.len() == 2 {
                        let ing = ns[1];
                        assert(ing.rule() == RuleId::Ingredient);
                        let acc2 = SIngredient {
                            quantities: qs,
                            ingredient: Some(crate::extract::strip_of(s_text(ing))),
                        };
                        assert(spec_top_fold(ns, 1, acc1) == spec_top_fold(ns, 2, acc2));
                        assert(spec_top_fold(ns, 2, acc2) == Ok::<SIngredient, SErr>(acc2));
                    } else {
                        assert(ns.len() == 1);
                        assert(spec_top_fold(ns, 1, acc1) == Ok::<SIngredient, SErr>(acc1));
                    }
                }
                Err(fe) => {
                    assert(fe == SErr::Numeric);
                    assert(spec_top_fold(ns, 0, acc0) == Err::<SIngredient, SErr>(fe));
                }
            }
        }
        SLine::Fail(_) => {}
    }
}

/// The error taxonomy of the whole parser: a failed parse is a syntax error
/// or a numeric error, never a structural one.
pub proof fn lemma_parse_error_taxonomy(s: Seq<char>)
    ensures
        spec_parse_result(s) matches Err(e) ==> e is Syntax || e is Numeric,
{
    lemma_accepted_inputs_extract_cleanly(s);
}

} // verus!
