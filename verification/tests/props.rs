//! Properties of the parser beyond the acceptance scenarios: determinism,
//! serialization round-tripping, unit classification, malformed input, the
//! error variants, and the numeric edge cases.

use ingreedy::{Ingredient, IngreedyError, ParseNode, Quantity, RuleId, UnitType};

fn amount_of(q: &Quantity) -> f64 {
    q.amount.num as f64 / q.amount.den as f64
}

fn approx(a: f64, b: f64) -> bool {
    (a - b).abs() < 1e-9
}

fn unit_type_name(u: &UnitType) -> &'static str {
    match u {
        UnitType::English => "English",
        UnitType::Metric => "Metric",
        UnitType::Imprecise => "Imprecise",
    }
}

#[test]
fn determinism_repeated_calls() {
    for input in [
        "2 (28 ounce) can crushed tomatoes",
        "1kg / 2lb 4oz potatoes",
        "ground black pepper to taste",
        "5 3/4 pinches potatoes",
    ] {
        let a = Ingredient::parse(input).unwrap();
        let b = Ingredient::parse(input).unwrap();
        assert_eq!(a, b);
    }
}

#[test]
fn serialization_round_trip() {
    let ing = Ingredient::parse("2 (28 ounce) can crushed tomatoes").unwrap();
    let mut quantities = Vec::new();
    for q in &ing.quantities {
        let mut obj = serde_json::Map::new();
        obj.insert(
            "amount".to_string(),
            serde_json::Value::from(amount_of(q)),
        );
        if let Some(u) = &q.unit {
            obj.insert("unit".to_string(), serde_json::Value::from(u.clone()));
        }
        if let Some(t) = &q.unit_type {
            obj.insert(
                "unit_type".to_string(),
                serde_json::Value::from(unit_type_name(t)),
            );
        }
        quantities.push(serde_json::Value::Object(obj));
    }
    let mut root = serde_json::Map::new();
    root.insert(
        "quantities".to_string(),
        serde_json::Value::Array(quantities),
    );
    if let Some(name) = &ing.ingredient {
        root.insert("ingredient".to_string(), serde_json::Value::from(name.clone()));
    }
    let doc = serde_json::Value::Object(root).to_string();

    let back: serde_json::Value = serde_json::from_str(&doc).unwrap();
    let qs = back.get("quantities").unwrap().as_array().unwrap();
    assert_eq!(qs.len(), ing.quantities.len());
    for (v, q) in qs.iter().zip(ing.quantities.iter()) {
        let a = v.get("amount").unwrap().as_f64().unwrap();
        assert!(approx(a, amount_of(q)));
        assert_eq!(
            v.get("unit").map(|u| u.as_str().unwrap().to_string()),
            q.unit
        );
        assert_eq!(
            v.get("unit_type").map(|u| u.as_str().unwrap().to_string()),
            q.unit_type.as_ref().map(|t| unit_type_name(t).to_string())
        );
    }
    assert_eq!(
        back.get("ingredient").map(|s| s.as_str().unwrap().to_string()),
        ing.ingredient
    );
}

#[test]
fn unit_classification_both_or_neither() {
    for input in [
        "1 cup flour",
        "pinch salt",
        "2lb 4oz potatoes",
        "1.5 potatoes",
        "750ml/1 pint 7fl oz hot vegetable stock",
        "12 (6-ounce) boneless skinless chicken breasts",
        "20 gallons",
    ] {
        let ing = Ingredient::parse(input).unwrap();
        for q in &ing.quantities {
            assert_eq!(q.unit.is_some(), q.unit_type.is_some());
            assert!(q.amount.den >= 1);
        }
    }
}

#[test]
fn malformed_unterminated_parenthetical() {
    let r = Ingredient::parse("1 (28 ounce can crushed tomatoes");
    assert!(matches!(r, Err(IngreedyError::SyntaxError { .. })));
}

#[test]
fn malformed_empty_input() {
    let r = Ingredient::parse("");
    assert!(matches!(r, Err(IngreedyError::SyntaxError { position: 0 })));
}

#[test]
fn syntax_error_position_points_at_stuck_text() {
    // the quantity portion consumes `1 `, matching stops at the `(`
    let r = Ingredient::parse("1 (28 ounce can crushed tomatoes");
    assert!(matches!(r, Err(IngreedyError::SyntaxError { position: 2 })));
}

#[test]
fn malformed_leading_parenthesis() {
    let r = Ingredient::parse("(6 ounce) chicken");
    assert!(matches!(r, Err(IngreedyError::SyntaxError { .. })));
}

#[test]
fn numeric_overflow_reported() {
    let r = Ingredient::parse("99999999999999999999999 cups flour");
    assert!(matches!(r, Err(IngreedyError::NumericParseError)));
}

#[test]
fn largest_amount_accepted() {
    let ing = Ingredient::parse("18446744073709551615 potatoes").unwrap();
    assert_eq!(ing.quantities[0].amount.num, u64::MAX);
    assert_eq!(ing.quantities[0].amount.den, 1);
}

#[test]
fn fraction_denominator_zero_rejected() {
    let r = Ingredient::parse("1/0 cups flour");
    assert!(matches!(r, Err(IngreedyError::NumericParseError)));
}

#[test]
fn unicode_fraction_alone() {
    let ing = Ingredient::parse("½ cup sugar").unwrap();
    assert!(approx(amount_of(&ing.quantities[0]), 0.5));
    assert_eq!(ing.quantities[0].unit, Some("cup".to_string()));
    assert_eq!(ing.ingredient, Some("sugar".to_string()));
}

#[test]
fn exact_rational_amounts() {
    let ing = Ingredient::parse("1 2/3 cups flour").unwrap();
    assert_eq!(ing.quantities[0].amount.num, 5);
    assert_eq!(ing.quantities[0].amount.den, 3);
    let ing = Ingredient::parse(".25 cups flour").unwrap();
    assert_eq!(ing.quantities[0].amount.num, 25);
    assert_eq!(ing.quantities[0].amount.den, 100);
}

#[test]
fn of_prefix_only_stripped_at_front() {
    let ing = Ingredient::parse("2 cups of potatoes").unwrap();
    assert_eq!(ing.ingredient, Some("potatoes".to_string()));
    let ing = Ingredient::parse("3 28 ounce cans of crushed tomatoes").unwrap();
    assert_eq!(ing.ingredient, Some("cans of crushed tomatoes".to_string()));
}

#[test]
fn compound_keeps_second_quantity() {
    let ing = Ingredient::parse("750ml/1 pint 7fl oz hot vegetable stock").unwrap();
    assert_eq!(ing.quantities.len(), 2);
    assert!(approx(amount_of(&ing.quantities[0]), 750.));
    assert_eq!(ing.quantities[0].unit, Some("milliliter".to_string()));
    assert!(approx(amount_of(&ing.quantities[1]), 7.));
    assert_eq!(ing.quantities[1].unit, Some("fluid_ounce".to_string()));
}

#[test]
fn wrong_rule_from_foreign_tree() {
    let tree = vec![ParseNode::Branch {
        rule: RuleId::MultipartQuantity,
        children: vec![ParseNode::Branch {
            rule: RuleId::QuantityFragment,
            children: vec![ParseNode::Leaf {
                rule: RuleId::Separator,
                text: vec![' '],
            }],
        }],
    }];
    let r = Ingredient::parse_pairs(tree);
    assert!(matches!(r, Err(IngreedyError::WrongRule { .. })));
}

#[test]
fn inner_rule_missing_from_foreign_tree() {
    let tree = vec![ParseNode::Branch {
        rule: RuleId::MultipartQuantity,
        children: vec![ParseNode::Branch {
            rule: RuleId::QuantityFragment,
            children: vec![],
        }],
    }];
    let r = Ingredient::parse_pairs(tree);
    assert!(matches!(r, Err(IngreedyError::InnerRuleNoneError)));
}

#[test]
fn parse_pairs_of_engine_output_matches_parse() {
    let input = "two five ounce can crushed tomatoes";
    let pairs = ingreedy::IngredientParser::parse(input).unwrap();
    let a = Ingredient::parse_pairs(pairs).unwrap();
    let b = Ingredient::parse(input).unwrap();
    assert_eq!(a, b);
    assert!(approx(amount_of(&a.quantities[0]), 10.));
}

#[test]
fn merge_scales_and_discards_bare_number() {
    let ing = Ingredient::parse("3 28 ounce cans crushed tomatoes").unwrap();
    assert_eq!(ing.quantities.len(), 1);
    assert!(approx(amount_of(&ing.quantities[0]), 84.));
    assert_eq!(ing.quantities[0].unit, Some("ounce".to_string()));
}

#[test]
fn no_quantity_input_keeps_whole_text() {
    let ing = Ingredient::parse("ground black pepper to taste").unwrap();
    assert!(ing.quantities.is_empty());
    assert_eq!(ing.ingredient, Some("ground black pepper to taste".to_string()));
}
