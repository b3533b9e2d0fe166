use remc::ast::ASTType;
use remc::symbol_table::SymbolTable;

#[test]
fn new_table_is_empty() {
    let table = SymbolTable::new();
    assert!(table.lookup("x").is_none());
}

#[test]
fn insert_then_lookup() {
    let mut table = SymbolTable::new();
    assert!(table.insert("x".to_string(), ASTType::I32));
    let sym = table.lookup("x").unwrap();
    assert_eq!(sym.name, "x");
    assert_eq!(sym.data_type, ASTType::I32);
    assert!(table.lookup("y").is_none());
}

#[test]
fn insert_twice_keeps_first_type() {
    let mut table = SymbolTable::new();
    assert!(table.insert("x".to_string(), ASTType::I32));
    assert!(!table.insert("x".to_string(), ASTType::Void));
    assert_eq!(table.lookup("x").unwrap().data_type, ASTType::I32);
}

#[test]
fn insert_keeps_other_names() {
    let mut table = SymbolTable::new();
    assert!(table.insert("a".to_string(), ASTType::I32));
    assert!(table.insert("b".to_string(), ASTType::Void));
    assert_eq!(table.lookup("a").unwrap().data_type, ASTType::I32);
    assert_eq!(table.lookup("b").unwrap().data_type, ASTType::Void);
}

#[test]
fn clear_forgets_everything() {
    let mut table = SymbolTable::new();
    table.insert("x".to_string(), ASTType::I32);
    table.insert("y".to_string(), ASTType::I32);
    table.clear();
    assert!(table.lookup("x").is_none());
    assert!(table.lookup("y").is_none());
    assert!(table.insert("x".to_string(), ASTType::Void));
    assert_eq!(table.lookup("x").unwrap().data_type, ASTType::Void);
}
