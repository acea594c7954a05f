use mm_rules::symbols::{intern_symbol, SymbolTable};

#[test]
fn helper_symbols_are_stable_and_distinct() {
    let a = intern_symbol("n");
    let b = intern_symbol("n");
    assert_eq!(a, b);
    assert_ne!(intern_symbol("n"), intern_symbol("k"));
}

#[test]
fn a_table_interns_each_name_once() {
    let mut table = SymbolTable::new();
    let x = table.intern("x");
    let y = table.intern("y");
    let x_again = table.intern("x");
    assert_eq!(x, x_again);
    assert_ne!(x, y);
    assert_eq!(table.len(), 2);
}

#[test]
fn table_symbols_differ_from_helper_symbols() {
    let mut table = SymbolTable::new();
    let n = table.intern("n");
    assert_ne!(n, intern_symbol("n"));
}
