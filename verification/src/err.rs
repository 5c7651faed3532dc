//! The error taxonomy of the parser.

use vstd::prelude::*;

verus! {

/// Why a call failed. `SyntaxError` is the only failure the grammar itself
/// reports; the remaining variants come from the semantic extractor and, on
/// trees the grammar engine built, signal a defect rather than bad input.
#[derive(Debug)]
pub enum IngreedyError {
    /// A node of an unexpected rule stood where another rule was required;
    /// names the offending rule and the expected context.
    WrongRule { found: String, rule: String },
    /// A numeral matched lexically but did not convert to an amount, for
    /// example on overflow or a zero denominator.
    NumericParseError,
    /// A rule that must have at least one inner node had none.
    InnerRuleNoneError,
    /// The grammar could not derive the full input; `position` is the
    /// character index at which matching stopped.
    SyntaxError { position: usize },
}

/// The mathematical shape of an `IngreedyError`.
#[verifier::ext_equal]
pub ghost enum SErr {
    WrongRule { found: Seq<char>, rule: Seq<char> },
    Numeric,
    InnerRuleNone,
    Syntax { position: int },
}

impl View for IngreedyError {
    type V = SErr;

    open spec fn view(&self) -> SErr {
        match self {
            IngreedyError::WrongRule { found, rule } => SErr::WrongRule {
                found: found@,
                rule: rule@,
            },
            IngreedyError::NumericParseError => SErr::Numeric,
            IngreedyError::InnerRuleNoneError => SErr::InnerRuleNone,
            IngreedyError::SyntaxError { position } => SErr::Syntax { position: *position as int },
        }
    }
}

} // verus!
