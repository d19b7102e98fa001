use cheese_shop::shop::{reply_for_folded, AttributeNotFound, AttributeWrite, CheeseShop};
use cheese_shop::value::DynamicValue;

#[test]
fn respond_to_client_ignores_case() {
    let shop = CheeseShop::new(None);
    assert_eq!(shop.respond_to_client("Camembert"), "Oh! The cat's eaten it.");
    assert_eq!(shop.respond_to_client("gouda"), "No");
    assert_eq!(shop.respond_to_client("RED LEICESTER"), "I'm afraid we're fresh out of Red Leicester sir.");
    assert_eq!(
        shop.respond_to_client("Tilsit"),
        "Never at the end of the week, sir. Always get it fresh first thing on Monday."
    );
    assert_eq!(shop.respond_to_client("Bel Paese"), "Sorry.");
    assert_eq!(shop.respond_to_client("stilton"), "Sorry.");
    assert_eq!(shop.respond_to_client("Red Windsor"), "Normally, sir, yes, but today the van broke down.");
}

#[test]
fn reply_for_folded_is_exact() {
    assert_eq!(reply_for_folded("camembert"), "Oh! The cat's eaten it.");
    assert_eq!(reply_for_folded("Camembert"), "No");
}

#[test]
fn new_shop_without_arguments() {
    let shop = CheeseShop::new(None);
    assert_eq!(shop.stock(), 0);
    assert_eq!(CheeseShop::greeting(None), None);
    assert_eq!(CheeseShop::greeting(Some(false)), None);
    assert_eq!(CheeseShop::greeting(Some(true)), Some("Hello hungry customer!"));
    let hungry = CheeseShop::new(Some(true));
    assert_eq!(hungry.stock(), 0);
}

#[test]
fn stock_updates() {
    let mut shop = CheeseShop::new(None);
    assert_eq!(shop.set_stock(4096), "Setting stock to 4096");
    assert_eq!(shop.stock(), 4096);
    assert_eq!(shop.repr(), "CheeseShop(stock=4096)");
    assert_eq!(shop.set_stock(0), "Setting stock to 0");
    assert_eq!(shop.repr(), "CheeseShop(stock=0)");
    assert_eq!(shop.set_stock(u32::MAX), "Setting stock to 4294967295");
}

#[test]
fn has_no_cheese() {
    let shop = CheeseShop::new(None);
    assert_eq!(shop.has_cheese(Some("Cheddar")), (false, "We have no Cheddar".to_string()));
    assert_eq!(shop.has_cheese(None), (false, "No cheese whatsoever.".to_string()));
    assert_eq!(CheeseShop::unavailable_cheese_count(), 45);
}

#[test]
fn virtual_attribute_is_stable() {
    let mut shop = CheeseShop::new(None);
    for _ in 0..3 {
        match shop.get_attribute("cannibalism") {
            Ok(DynamicValue::Str(s)) => assert_eq!(s, "Relatively under control"),
            _ => panic!("cannibalism should be readable"),
        }
        let e = shop.get_attribute("nonexistent");
        assert!(matches!(e, Err(AttributeNotFound)));
        assert_eq!(AttributeNotFound.message(), "Attribute not found. Move along.");
        shop.set_stock(7);
    }
    assert!(matches!(shop.get_attribute("stock"), Ok(DynamicValue::Int(7))));
}

#[test]
fn attribute_writes_are_reported() {
    let mut shop = CheeseShop::new(None);
    match shop.set_attribute("its", &DynamicValue::Str("Monty Python's flying Circus".to_string())) {
        AttributeWrite::Text(line) => {
            assert_eq!(line, "Setting self.its : str = \"Monty Python's flying Circus\"")
        }
        AttributeWrite::Raw(_) => panic!("a string is reported in full"),
    }
    match shop.set_attribute("count", &DynamicValue::Int(3)) {
        AttributeWrite::Raw(start) => assert_eq!(start, "Setting self.count = "),
        AttributeWrite::Text(_) => panic!("an integer is not a string"),
    }
    assert_eq!(shop.stock(), 0);
}
