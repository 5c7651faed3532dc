//! Parses free-text recipe ingredient lines (for example `2 (28 ounce) cans
//! crushed tomatoes`) into a structured record: a list of quantities, each an
//! exact rational amount with an optional canonical unit and unit system, and
//! a residual ingredient-name string.
//!
//! The grammar engine derives the line by a PEG-style grammar and yields a
//! concrete parse tree; the semantic extractor folds the tree into the
//! record, applying the merge and multiplier rules. Both directions are
//! specified against the spec-level grammar `spec_line` and extraction
//! `spec_extract`, so the result of `Ingredient::parse` is a function of the
//! input characters alone.

pub mod chars;
pub mod err;
pub mod extract;
pub mod grammar;
pub mod lex;
pub mod rat;
pub mod record;
pub mod tree;
pub mod laws;

pub use err::IngreedyError;
pub use extract::{Ingredient, Quantity};
pub use grammar::IngredientParser;
pub use rat::Rat;
pub use record::UnitType;
pub use tree::{ParseNode, RuleId};
