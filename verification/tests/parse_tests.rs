//! The acceptance scenarios: each input line and its expected record.

use ingreedy::{Ingredient, UnitType, Quantity};

/// The amount of a quantity as a floating-point value.
fn amount_of(q: &Quantity) -> f64 {
    q.amount.num as f64 / q.amount.den as f64
}

fn approx(a: f64, b: f64) -> bool {
    (a - b).abs() < 1e-9
}
#[test]
fn test1() {
    let input = "1.0 cup flour";
    let ingredient = Ingredient::parse(input);
    assert!(ingredient.is_ok());
    let ingredient = ingredient.unwrap();
    assert!(approx(amount_of(&ingredient.quantities[0]), 1.));
    assert_eq!(ingredient.quantities[0].unit, Some("cup".to_string()));
    assert_eq!(ingredient.quantities[0].unit_type, Some(UnitType::English));
    assert_eq!(ingredient.ingredient, Some("flour".to_string()));
}
#[test]
fn test2() {
    let input = "1 1/2 cups flour";
    let ingredient = Ingredient::parse(input);
    assert!(ingredient.is_ok());
    let ingredient = ingredient.unwrap();
    assert!(approx(amount_of(&ingredient.quantities[0]), 1.5));
    assert_eq!(ingredient.quantities[0].unit, Some("cup".to_string()));
    assert_eq!(ingredient.quantities[0].unit_type, Some(UnitType::English));
    assert_eq!(ingredient.ingredient, Some("flour".to_string()));
}
#[test]
fn test3() {
    let input = "1 1/2 potatoes";
    let ingredient = Ingredient::parse(input);
    assert!(ingredient.is_ok());
    let ingredient = ingredient.unwrap();
    assert!(approx(amount_of(&ingredient.quantities[0]), 1.5));
    assert_eq!(ingredient.quantities[0].unit, None);
    assert_eq!(ingredient.quantities[0].unit_type, None);
    assert_eq!(ingredient.ingredient, Some("potatoes".to_string()));
}
#[test]
fn test4() {
    let input = "12345 potatoes";
    let ingredient = Ingredient::parse(input);
    assert!(ingredient.is_ok());
    let ingredient = ingredient.unwrap();
    assert!(approx(amount_of(&ingredient.quantities[0]), 12345.));
    assert_eq!(ingredient.quantities[0].unit, None);
    assert_eq!(ingredient.quantities[0].unit_type, None);
    assert_eq!(ingredient.ingredient, Some("potatoes".to_string()));
}
#[test]
fn test5() {
    let input = "1 2/3 cups flour";
    let ingredient = Ingredient::parse(input);
    assert!(ingredient.is_ok());
    let ingredient = ingredient.unwrap();
    assert!(approx(amount_of(&ingredient.quantities[0]), 5. / 3.));
    assert_eq!(ingredient.quantities[0].unit, Some("cup".to_string()));
    assert_eq!(ingredient.quantities[0].unit_type, Some(UnitType::English));
    assert_eq!(ingredient.ingredient, Some("flour".to_string()));
}
#[test]
fn test6() {
    let input = "12 (6-ounce) boneless skinless chicken breasts";
    let ingredient = Ingredient::parse(input);
    assert!(ingredient.is_ok());
    let ingredient = ingredient.unwrap();
    assert!(approx(amount_of(&ingredient.quantities[0]), 72.));
    assert_eq!(ingredient.quantities[0].unit, Some("ounce".to_string()));
    assert_eq!(ingredient.quantities[0].unit_type, Some(UnitType::English));
    assert_eq!(
        ingredient.ingredient,
        Some("boneless skinless chicken breasts".to_string())
    );
}
#[test]
fn test7() {
    let input = "1 (28 ounce) can crushed tomatoes";
    let ingredient = Ingredient::parse(input);
    assert!(ingredient.is_ok());
    let ingredient = ingredient.unwrap();
    assert!(approx(amount_of(&ingredient.quantities[0]), 28.));
    assert_eq!(ingredient.quantities[0].unit, Some("ounce".to_string()));
    assert_eq!(ingredient.quantities[0].unit_type, Some(UnitType::English));
    assert_eq!(
        ingredient.ingredient,
        Some("can crushed tomatoes".to_string())
    );
}
#[test]
fn test8() {
    let input = "1/2 cups flour";
    let ingredient = Ingredient::parse(input);
    assert!(ingredient.is_ok());
    let ingredient = ingredient.unwrap();
    assert!(approx(amount_of(&ingredient.quantities[0]), 0.5));
    assert_eq!(ingredient.quantities[0].unit, Some("cup".to_string()));
    assert_eq!(ingredient.quantities[0].unit_type, Some(UnitType::English));
    assert_eq!(ingredient.ingredient, Some("flour".to_string()));
}
#[test]
fn test9() {
    let input = "12g potatoes";
    let ingredient = Ingredient::parse(input);
    assert!(ingredient.is_ok());
    let ingredient = ingredient.unwrap();
    assert!(approx(amount_of(&ingredient.quantities[0]), 12.));
    assert_eq!(ingredient.quantities[0].unit, Some("gram".to_string()));
    assert_eq!(ingredient.quantities[0].unit_type, Some(UnitType::Metric));
    assert_eq!(ingredient.ingredient, Some("potatoes".to_string()));
}
#[test]
fn test10() {
    let input = "12oz potatoes";
    let ingredient = Ingredient::parse(input);
    assert!(ingredient.is_ok());
    let ingredient = ingredient.unwrap();
    assert!(approx(amount_of(&ingredient.quantities[0]), 12.));
    assert_eq!(ingredient.quantities[0].unit, Some("ounce".to_string()));
    assert_eq!(ingredient.quantities[0].unit_type, Some(UnitType::English));
    assert_eq!(ingredient.ingredient, Some("potatoes".to_string()));
}
#[test]
fn test11() {
    let input = "12oz tequila";
    let ingredient = Ingredient::parse(input);
    assert!(ingredient.is_ok());
    let ingredient = ingredient.unwrap();
    assert!(approx(amount_of(&ingredient.quantities[0]), 12.));
    assert_eq!(ingredient.quantities[0].unit, Some("ounce".to_string()));
    assert_eq!(ingredient.quantities[0].unit_type, Some(UnitType::English));
    assert_eq!(ingredient.ingredient, Some("tequila".to_string()));
}
#[test]
fn test12() {
    let input = "1/2 potato";
    let ingredient = Ingredient::parse(input);
    assert!(ingredient.is_ok());
    let ingredient = ingredient.unwrap();
    assert!(approx(amount_of(&ingredient.quantities[0]), 0.5));
    assert_eq!(ingredient.quantities[0].unit, None);
    assert_eq!(ingredient.quantities[0].unit_type, None);
    assert_eq!(ingredient.ingredient, Some("potato".to_string()));
}
#[test]
fn test13() {
    let input = "1.5 cups flour";
    let ingredient = Ingredient::parse(input);
    assert!(ingredient.is_ok());
    let ingredient = ingredient.unwrap();
    assert!(approx(amount_of(&ingredient.quantities[0]), 1.5));
    assert_eq!(ingredient.quantities[0].unit, Some("cup".to_string()));
    assert_eq!(ingredient.quantities[0].unit_type, Some(UnitType::English));
    assert_eq!(ingredient.ingredient, Some("flour".to_string()));
}
#[test]
fn test14() {
    let input = "1.5 potatoes";
    let ingredient = Ingredient::parse(input);
    assert!(ingredient.is_ok());
    let ingredient = ingredient.unwrap();
    assert!(approx(amount_of(&ingredient.quantities[0]), 1.5));
    assert_eq!(ingredient.quantities[0].unit, None);
    assert_eq!(ingredient.quantities[0].unit_type, None);
    assert_eq!(ingredient.ingredient, Some("potatoes".to_string()));
}
#[test]
fn test15() {
    let input = "1 clove garlic, minced";
    let ingredient = Ingredient::parse(input);
    assert!(ingredient.is_ok());
    let ingredient = ingredient.unwrap();
    assert!(approx(amount_of(&ingredient.quantities[0]), 1.));
    assert_eq!(ingredient.quantities[0].unit, None);
    assert_eq!(ingredient.quantities[0].unit_type, None);
    assert_eq!(
        ingredient.ingredient,
        Some("clove garlic, minced".to_string())
    );
}
#[test]
fn test16() {
    let input = "1 cup flour";
    let ingredient = Ingredient::parse(input);
    assert!(ingredient.is_ok());
    let ingredient = ingredient.unwrap();
    assert!(approx(amount_of(&ingredient.quantities[0]), 1.));
    assert_eq!(ingredient.quantities[0].unit, Some("cup".to_string()));
    assert_eq!(ingredient.quantities[0].unit_type, Some(UnitType::English));
    assert_eq!(ingredient.ingredient, Some("flour".to_string()));
}
#[test]
fn test17() {
    let input = "1 garlic clove, sliced in 1/2";
    let ingredient = Ingredient::parse(input);
    assert!(ingredient.is_ok());
    let ingredient = ingredient.unwrap();
    assert!(approx(amount_of(&ingredient.quantities[0]), 1.));
    assert_eq!(ingredient.quantities[0].unit, None);
    assert_eq!(ingredient.quantities[0].unit_type, None);
    assert_eq!(
        ingredient.ingredient,
        Some("garlic clove, sliced in 1/2".to_string())
    );
}
#[test]
fn test18() {
    let input = "1 tablespoon (3 teaspoons) Sazon seasoning blend (recommended: Goya) with Mexican and Spanish foods in market";
    let ingredient = Ingredient::parse(input);
    assert!(ingredient.is_ok());
    let ingredient = ingredient.unwrap();
    assert!(approx(amount_of(&ingredient.quantities[0]), 1.));
    assert_eq!(
        ingredient.quantities[0].unit,
        Some("tablespoon".to_string())
    );
    assert_eq!(ingredient.quantities[0].unit_type, Some(UnitType::English));
    assert_eq!(
        ingredient.ingredient,
        Some("Sazon seasoning blend (recommended: Goya) with Mexican and Spanish foods in market".to_string())
    );
}
#[test]
fn test19() {
    let input = "2 (28 ounce) can crushed tomatoes";
    let ingredient = Ingredient::parse(input);
    assert!(ingredient.is_ok());
    let ingredient = ingredient.unwrap();
    assert!(approx(amount_of(&ingredient.quantities[0]), 56.));
    assert_eq!(ingredient.quantities[0].unit, Some("ounce".to_string()));
    assert_eq!(ingredient.quantities[0].unit_type, Some(UnitType::English));
    assert_eq!(
        ingredient.ingredient,
        Some("can crushed tomatoes".to_string())
    );
}
#[test]
fn test20() {
    let input = ".25 cups flour";
    let ingredient = Ingredient::parse(input);
    assert!(ingredient.is_ok());
    let ingredient = ingredient.unwrap();
    assert!(approx(amount_of(&ingredient.quantities[0]), 0.25));
    assert_eq!(ingredient.quantities[0].unit, Some("cup".to_string()));
    assert_eq!(ingredient.quantities[0].unit_type, Some(UnitType::English));
    assert_eq!(ingredient.ingredient, Some("flour".to_string()));
}
#[test]
fn test21() {
    let input = "2 cups of potatoes";
    let ingredient = Ingredient::parse(input);
    assert!(ingredient.is_ok());
    let ingredient = ingredient.unwrap();
    assert!(approx(amount_of(&ingredient.quantities[0]), 2.));
    assert_eq!(ingredient.quantities[0].unit, Some("cup".to_string()));
    assert_eq!(ingredient.quantities[0].unit_type, Some(UnitType::English));
    assert_eq!(ingredient.ingredient, Some("potatoes".to_string()));
}
#[test]
fn test22() {
    let input = "2 eggs, beaten";
    let ingredient = Ingredient::parse(input);
    assert!(ingredient.is_ok());
    let ingredient = ingredient.unwrap();
    assert!(approx(amount_of(&ingredient.quantities[0]), 2.));
    assert_eq!(ingredient.quantities[0].unit, None);
    assert_eq!(ingredient.quantities[0].unit_type, None);
    assert_eq!(ingredient.ingredient, Some("eggs, beaten".to_string()));
}
#[test]
fn test23() {
    let input = "3 28 ounce cans of crushed tomatoes";
    let ingredient = Ingredient::parse(input);
    assert!(ingredient.is_ok());
    let ingredient = ingredient.unwrap();
    assert!(approx(amount_of(&ingredient.quantities[0]), 84.));
    assert_eq!(ingredient.quantities[0].unit, Some("ounce".to_string()));
    assert_eq!(ingredient.quantities[0].unit_type, Some(UnitType::English));
    assert_eq!(
        ingredient.ingredient,
        Some("cans of crushed tomatoes".to_string())
    );
}
#[test]
fn test24() {
    let input = "5 3/4 pinches potatoes";
    let ingredient = Ingredient::parse(input);
    assert!(ingredient.is_ok());
    let ingredient = ingredient.unwrap();
    assert!(approx(amount_of(&ingredient.quantities[0]), 5.75));
    assert_eq!(ingredient.quantities[0].unit, Some("pinch".to_string()));
    assert_eq!(
        ingredient.quantities[0].unit_type,
        Some(UnitType::Imprecise)
    );
    assert_eq!(ingredient.ingredient, Some("potatoes".to_string()));
}
#[test]
fn test25() {
    let input = ".5 potatoes";
    let ingredient = Ingredient::parse(input);
    assert!(ingredient.is_ok());
    let ingredient = ingredient.unwrap();
    assert!(approx(amount_of(&ingredient.quantities[0]), 0.5));
    assert_eq!(ingredient.quantities[0].unit, None);
    assert_eq!(ingredient.quantities[0].unit_type, None);
    assert_eq!(ingredient.ingredient, Some("potatoes".to_string()));
}
#[test]
fn test26() {
    let input = "a cup of flour";
    let ingredient = Ingredient::parse(input);
    assert!(ingredient.is_ok());
    let ingredient = ingredient.unwrap();
    assert!(approx(amount_of(&ingredient.quantities[0]), 1.));
    assert_eq!(ingredient.quantities[0].unit, Some("cup".to_string()));
    assert_eq!(ingredient.quantities[0].unit_type, Some(UnitType::English));
    assert_eq!(ingredient.ingredient, Some("flour".to_string()));
}
#[test]
fn test27() {
    let input = "ground black pepper to taste";
    let ingredient = Ingredient::parse(input);
    assert!(ingredient.is_ok());
    let ingredient = ingredient.unwrap();
    assert!(ingredient.quantities.is_empty());
    assert_eq!(
        ingredient.ingredient,
        Some("ground black pepper to taste".to_string())
    );
}
#[test]
fn test28() {
    let input = "one 28 ounce can crushed tomatoes";
    let ingredient = Ingredient::parse(input);
    assert!(ingredient.is_ok());
    let ingredient = ingredient.unwrap();
    assert!(approx(amount_of(&ingredient.quantities[0]), 28.));
    assert_eq!(ingredient.quantities[0].unit, Some("ounce".to_string()));
    assert_eq!(ingredient.quantities[0].unit_type, Some(UnitType::English));
    assert_eq!(
        ingredient.ingredient,
        Some("can crushed tomatoes".to_string())
    );
}
#[test]
fn test29() {
    let input = "one cup flour";
    let ingredient = Ingredient::parse(input);
    assert!(ingredient.is_ok());
    let ingredient = ingredient.unwrap();
    assert!(approx(amount_of(&ingredient.quantities[0]), 1.));
    assert_eq!(ingredient.quantities[0].unit, Some("cup".to_string()));
    assert_eq!(ingredient.quantities[0].unit_type, Some(UnitType::English));
    assert_eq!(ingredient.ingredient, Some("flour".to_string()));
}
#[test]
fn test30() {
    let input = "three 28 ounce cans crushed tomatoes";
    let ingredient = Ingredient::parse(input);
    assert!(ingredient.is_ok());
    let ingredient = ingredient.unwrap();
    assert!(approx(amount_of(&ingredient.quantities[0]), 84.));
    assert_eq!(ingredient.quantities[0].unit, Some("ounce".to_string()));
    assert_eq!(ingredient.quantities[0].unit_type, Some(UnitType::English));
    assert_eq!(
        ingredient.ingredient,
        Some("cans crushed tomatoes".to_string())
    );
}
#[test]
fn test31() {
    let input = "two 28 ounce cans crushed tomatoes";
    let ingredient = Ingredient::parse(input);
    assert!(ingredient.is_ok());
    let ingredient = ingredient.unwrap();
    assert!(approx(amount_of(&ingredient.quantities[0]), 56.));
    assert_eq!(ingredient.quantities[0].unit, Some("ounce".to_string()));
    assert_eq!(ingredient.quantities[0].unit_type, Some(UnitType::English));
    assert_eq!(
        ingredient.ingredient,
        Some("cans crushed tomatoes".to_string())
    );
}
#[test]
fn test32() {
    let input = "two five ounce can crushed tomatoes";
    let ingredient = Ingredient::parse(input);
    assert!(ingredient.is_ok());
    let ingredient = ingredient.unwrap();
    assert!(approx(amount_of(&ingredient.quantities[0]), 10.));
    assert_eq!(ingredient.quantities[0].unit, Some("ounce".to_string()));
    assert_eq!(ingredient.quantities[0].unit_type, Some(UnitType::English));
    assert_eq!(
        ingredient.ingredient,
        Some("can crushed tomatoes".to_string())
    );
}
#[test]
fn test33() {
    let input = "1kg / 2lb 4oz potatoes";
    let ingredient = Ingredient::parse(input);
    assert!(ingredient.is_ok());
    let ingredient = ingredient.unwrap();
    assert!(approx(amount_of(&ingredient.quantities[0]), 1.));
    assert_eq!(ingredient.quantities[0].unit, Some("kilogram".to_string()));
    assert_eq!(ingredient.quantities[0].unit_type, Some(UnitType::Metric));
    assert_eq!(ingredient.ingredient, Some("potatoes".to_string()));
}
#[test]
fn test34() {
    let input = "2lb 4oz potatoes";
    let ingredient = Ingredient::parse(input);
    assert!(ingredient.is_ok());
    let ingredient = ingredient.unwrap();
    assert!(approx(amount_of(&ingredient.quantities[0]), 2.));
    assert_eq!(ingredient.quantities[0].unit, Some("pound".to_string()));
    assert_eq!(ingredient.quantities[0].unit_type, Some(UnitType::English));
    assert!(approx(amount_of(&ingredient.quantities[1]), 4.));
    assert_eq!(ingredient.quantities[1].unit, Some("ounce".to_string()));
    assert_eq!(ingredient.quantities[1].unit_type, Some(UnitType::English));
    assert_eq!(ingredient.ingredient, Some("potatoes".to_string()));
}
#[test]
fn test35() {
    let input = "2lb 4oz (1kg) potatoes";
    let ingredient = Ingredient::parse(input);
    assert!(ingredient.is_ok());
    let ingredient = ingredient.unwrap();
    assert!(approx(amount_of(&ingredient.quantities[0]), 2.));
    assert_eq!(ingredient.quantities[0].unit, Some("pound".to_string()));
    assert_eq!(ingredient.quantities[0].unit_type, Some(UnitType::English));
    assert!(approx(amount_of(&ingredient.quantities[1]), 4.));
    assert_eq!(ingredient.quantities[1].unit, Some("ounce".to_string()));
    assert_eq!(ingredient.quantities[1].unit_type, Some(UnitType::English));
    assert_eq!(ingredient.ingredient, Some("potatoes".to_string()));
}
#[test]
fn test36() {
    let input = "1-1/2 ounce vanilla ice cream";
    let ingredient = Ingredient::parse(input);
    assert!(ingredient.is_ok());
    let ingredient = ingredient.unwrap();
    assert!(approx(amount_of(&ingredient.quantities[0]), 1.5));
    assert_eq!(ingredient.quantities[0].unit, Some("ounce".to_string()));
    assert_eq!(ingredient.quantities[0].unit_type, Some(UnitType::English));
    assert_eq!(ingredient.ingredient, Some("vanilla ice cream".to_string()));
}
#[test]
fn test37() {
    let input = "1-½ ounce vanilla ice cream";
    let ingredient = Ingredient::parse(input);
    assert!(ingredient.is_ok());
    let ingredient = ingredient.unwrap();
    assert!(approx(amount_of(&ingredient.quantities[0]), 1.5));
    assert_eq!(ingredient.quantities[0].unit, Some("ounce".to_string()));
    assert_eq!(ingredient.quantities[0].unit_type, Some(UnitType::English));
    assert_eq!(ingredient.ingredient, Some("vanilla ice cream".to_string()));
}
#[test]
fn test38() {
    let input = "apple";
    let ingredient = Ingredient::parse(input);
    assert!(ingredient.is_ok());
    let ingredient = ingredient.unwrap();
    assert!(ingredient.quantities.is_empty());
    assert_eq!(ingredient.ingredient, Some("apple".to_string()));
}
#[test]
fn test39() {
    let input = "1-½ ounce vanilla ice cream";
    let ingredient = Ingredient::parse(input);
    assert!(ingredient.is_ok());
    let ingredient = ingredient.unwrap();
    assert!(approx(amount_of(&ingredient.quantities[0]), 1.5));
    assert_eq!(ingredient.quantities[0].unit, Some("ounce".to_string()));
    assert_eq!(ingredient.quantities[0].unit_type, Some(UnitType::English));
    assert_eq!(ingredient.ingredient, Some("vanilla ice cream".to_string()));
}
#[test]
fn test40() {
    let input = "3-⅝ ounces, weight feta cheese, crumbled/diced";
    let ingredient = Ingredient::parse(input);
    assert!(ingredient.is_ok());
    let ingredient = ingredient.unwrap();
    assert!(approx(amount_of(&ingredient.quantities[0]), 3.625));
    assert_eq!(ingredient.quantities[0].unit, Some("ounce".to_string()));
    assert_eq!(ingredient.quantities[0].unit_type, Some(UnitType::English));
    assert_eq!(
        ingredient.ingredient,
        Some("weight feta cheese, crumbled/diced".to_string())
    );
}
#[test]
fn test41() {
    let input = "3-⅝ ounces, weight feta cheese, crumbled/diced";
    let ingredient = Ingredient::parse(input);
    assert!(ingredient.is_ok());
    let ingredient = ingredient.unwrap();
    assert!(approx(amount_of(&ingredient.quantities[0]), 3.625));
    assert_eq!(ingredient.quantities[0].unit, Some("ounce".to_string()));
    assert_eq!(ingredient.quantities[0].unit_type, Some(UnitType::English));
    assert_eq!(
        ingredient.ingredient,
        Some("weight feta cheese, crumbled/diced".to_string())
    );
}
#[test]
fn test42() {
    let input = "16-ounce can of sliced pineapple";
    let ingredient = Ingredient::parse(input);
    assert!(ingredient.is_ok());
    let ingredient = ingredient.unwrap();
    assert!(approx(amount_of(&ingredient.quantities[0]), 16.));
    assert_eq!(ingredient.quantities[0].unit, Some("ounce".to_string()));
    assert_eq!(ingredient.quantities[0].unit_type, Some(UnitType::English));
    assert_eq!(
        ingredient.ingredient,
        Some("can of sliced pineapple".to_string())
    );
}
#[test]
fn test43() {
    let input = "750ml/1 pint 7fl oz hot vegetable stock";
    let ingredient = Ingredient::parse(input);
    assert!(ingredient.is_ok());
    let ingredient = ingredient.unwrap();
    assert!(approx(amount_of(&ingredient.quantities[0]), 750.));
    assert_eq!(
        ingredient.quantities[0].unit,
        Some("milliliter".to_string())
    );
    assert_eq!(ingredient.quantities[0].unit_type, Some(UnitType::Metric));
    assert_eq!(
        ingredient.ingredient,
        Some("hot vegetable stock".to_string())
    );
}
#[test]
fn test44() {
    let input = "pinch salt";
    let ingredient = Ingredient::parse(input);
    assert!(ingredient.is_ok());
    let ingredient = ingredient.unwrap();
    assert!(approx(amount_of(&ingredient.quantities[0]), 1.));
    assert_eq!(ingredient.quantities[0].unit, Some("pinch".to_string()));
    assert_eq!(
        ingredient.quantities[0].unit_type,
        Some(UnitType::Imprecise)
    );
    assert_eq!(ingredient.ingredient, Some("salt".to_string()));
}
#[test]
fn test45() {
    let input = "4 (16 ounce) t-bone steaks, at room temperature";
    let ingredient = Ingredient::parse(input);
    assert!(ingredient.is_ok());
    let ingredient = ingredient.unwrap();
    assert!(approx(amount_of(&ingredient.quantities[0]), 64.));
    assert_eq!(ingredient.quantities[0].unit, Some("ounce".to_string()));
    assert_eq!(ingredient.quantities[0].unit_type, Some(UnitType::English));
    assert_eq!(
        ingredient.ingredient,
        Some("t-bone steaks, at room temperature".to_string())
    );
}
#[test]
fn test46() {
    let input = "5g";
    let ingredient = Ingredient::parse(input);
    assert!(ingredient.is_ok());
    let ingredient = ingredient.unwrap();
    assert!(approx(amount_of(&ingredient.quantities[0]), 5.));
    assert_eq!(ingredient.quantities[0].unit, Some("gram".to_string()));
    assert_eq!(ingredient.quantities[0].unit_type, Some(UnitType::Metric));
    assert!(ingredient.ingredient.is_none());
}
#[test]
fn test47() {
    let input = "30 cal";
    let ingredient = Ingredient::parse(input);
    assert!(ingredient.is_ok());
    let ingredient = ingredient.unwrap();
    assert!(approx(amount_of(&ingredient.quantities[0]), 30.));
    assert_eq!(ingredient.quantities[0].unit, Some("calorie".to_string()));
    assert_eq!(ingredient.quantities[0].unit_type, Some(UnitType::English));
    assert!(ingredient.ingredient.is_none());
}
#[test]
fn test48() {
    let input = "2.5 kcal";
    let ingredient = Ingredient::parse(input);
    assert!(ingredient.is_ok());
    let ingredient = ingredient.unwrap();
    assert!(approx(amount_of(&ingredient.quantities[0]), 2.5));
    assert_eq!(ingredient.quantities[0].unit, Some("calorie".to_string()));
    assert_eq!(ingredient.quantities[0].unit_type, Some(UnitType::English));
    assert!(ingredient.ingredient.is_none());
}
#[test]
fn test49() {
    let input = "50 joules";
    let ingredient = Ingredient::parse(input);
    assert!(ingredient.is_ok());
    let ingredient = ingredient.unwrap();
    assert!(approx(amount_of(&ingredient.quantities[0]), 50.));
    assert_eq!(ingredient.quantities[0].unit, Some("joule".to_string()));
    assert_eq!(ingredient.quantities[0].unit_type, Some(UnitType::Metric));
    assert!(ingredient.ingredient.is_none());
}
#[test]
fn test50() {
    let input = "1 kJ";
    let ingredient = Ingredient::parse(input);
    assert!(ingredient.is_ok());
    let ingredient = ingredient.unwrap();
    assert!(approx(amount_of(&ingredient.quantities[0]), 1.));
    assert_eq!(ingredient.quantities[0].unit, Some("kilojoule".to_string()));
    assert_eq!(ingredient.quantities[0].unit_type, Some(UnitType::Metric));
    assert!(ingredient.ingredient.is_none());
}
#[test]
fn test51() {
    let input = "20 gallons";
    let ingredient = Ingredient::parse(input);
    assert!(ingredient.is_ok());
    let ingredient = ingredient.unwrap();
    assert!(approx(amount_of(&ingredient.quantities[0]), 20.));
    assert_eq!(ingredient.quantities[0].unit, Some("gallon".to_string()));
    assert_eq!(ingredient.quantities[0].unit_type, Some(UnitType::English));
    assert!(ingredient.ingredient.is_none());
}
