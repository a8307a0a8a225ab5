use flo_script::symbol::{FloScriptSymbol, SymbolRegistry};

#[test]
fn new_symbols_are_different() {
    let mut registry = SymbolRegistry::new();
    let symbol1 = FloScriptSymbol::new(&mut registry);
    let symbol2 = FloScriptSymbol::new(&mut registry);

    assert!(symbol1 != symbol2);
}

#[test]
fn same_name_is_same_symbol() {
    let mut registry = SymbolRegistry::new();
    let symbol1 = FloScriptSymbol::with_name(&mut registry, "Hello");
    let symbol2 = FloScriptSymbol::with_name(&mut registry, "Hello");

    assert!(symbol1 == symbol2);
}

#[test]
fn different_name_is_different_symbol() {
    let mut registry = SymbolRegistry::new();
    let symbol1 = FloScriptSymbol::with_name(&mut registry, "Hello");
    let symbol2 = FloScriptSymbol::with_name(&mut registry, "World");

    assert!(symbol1 != symbol2);
}

#[test]
fn retrieve_symbol_name() {
    let mut registry = SymbolRegistry::new();
    let symbol1 = FloScriptSymbol::with_name(&mut registry, "Hello");

    assert!(symbol1.name(&registry).is_some());
    assert!(symbol1.name(&registry) == Some("Hello".to_string()));
}

#[test]
fn anonymous_symbols_have_no_name() {
    let mut registry = SymbolRegistry::new();
    let symbol1 = FloScriptSymbol::new(&mut registry);

    assert!(symbol1.name(&registry).is_none());
}

#[test]
fn named_and_anonymous_symbols_never_collide() {
    let mut registry = SymbolRegistry::new();
    let anonymous = FloScriptSymbol::new(&mut registry);
    let named = FloScriptSymbol::with_name(&mut registry, "x");
    let again = FloScriptSymbol::with_name(&mut registry, "x");

    assert!(anonymous != named);
    assert!(named == again);
    assert_eq!(anonymous.id(), 0);
    assert_eq!(named.id(), 1);
    assert_eq!(FloScriptSymbol::with_id(1), named);
    assert_eq!(named.name(&registry), Some("x".to_string()));
}
