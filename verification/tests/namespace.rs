use rule_defs::namespace::bind_all;
use rule_defs::namespace::load_symbols;
use rule_defs::namespace::BindingError;
use rule_defs::namespace::ModuleNamespace;
use starlark::collections::SmallMap;

fn symbols(entries: &[(&str, u64)]) -> SmallMap<String, u64> {
    let mut map: SmallMap<String, u64> = SmallMap::new();
    for (name, handle) in entries {
        map.insert((*name).to_owned(), *handle);
    }
    map
}

#[test]
fn test_load_symbols() {
    let mut defines = ModuleNamespace::new();
    assert_eq!(defines.bind("y", 2), Ok(()));
    assert_eq!(load_symbols(symbols(&[("x", 1), ("z", 3)]), &mut defines), Ok(()));
    defines.finish();
    let x: u64 = defines.get("x").unwrap();
    let y: u64 = defines.get("y").unwrap();
    let z: u64 = defines.get("z").unwrap();
    assert_eq!(x, 1);
    assert_eq!(z, 3);
    assert_eq!(x + y + z, 6);
}

#[test]
fn load_symbols_of_nothing_is_a_no_op() {
    let mut module = ModuleNamespace::new();
    assert_eq!(module.bind("y", 2), Ok(()));
    assert_eq!(load_symbols(SmallMap::new(), &mut module), Ok(()));
    assert!(module.mutable());
    assert_eq!(module.get("y"), Some(2));
    assert_eq!(module.get("x"), None);
}

#[test]
fn load_symbols_into_a_finished_module_fails() {
    let mut module = ModuleNamespace::new();
    assert_eq!(module.bind("y", 2), Ok(()));
    module.finish();
    let r = load_symbols(symbols(&[("x", 1), ("z", 3)]), &mut module);
    assert_eq!(r, Err(BindingError { name: "x".to_owned() }));
    assert_eq!(module.get("x"), None);
    assert_eq!(module.get("z"), None);
    assert_eq!(module.get("y"), Some(2));
    assert!(!module.mutable());
}

#[test]
fn load_symbols_of_nothing_into_a_finished_module_succeeds() {
    let mut module = ModuleNamespace::new();
    module.finish();
    assert_eq!(load_symbols(SmallMap::new(), &mut module), Ok(()));
}

#[test]
fn load_symbols_later_binding_wins() {
    let mut module = ModuleNamespace::new();
    assert_eq!(module.bind("x", 10), Ok(()));
    assert_eq!(load_symbols(symbols(&[("x", 1), ("z", 3)]), &mut module), Ok(()));
    assert_eq!(module.get("x"), Some(1));
    assert_eq!(module.bind("z", 30), Ok(()));
    assert_eq!(module.get("z"), Some(30));
    assert_eq!(module.get("x"), Some(1));
}

#[test]
fn load_symbols_follows_the_order_of_the_map() {
    let mut map: SmallMap<String, u64> = SmallMap::new();
    map.insert_unique_unchecked("x".to_owned(), 1);
    map.insert_unique_unchecked("z".to_owned(), 3);
    map.insert_unique_unchecked("x".to_owned(), 7);
    let mut module = ModuleNamespace::new();
    assert_eq!(load_symbols(map, &mut module), Ok(()));
    assert_eq!(module.get("x"), Some(7));
    assert_eq!(module.get("z"), Some(3));
}

#[test]
fn bind_all_binds_first_to_last() {
    let mut module = ModuleNamespace::new();
    let entries = vec![("a".to_owned(), 1), ("b".to_owned(), 2), ("a".to_owned(), 3)];
    assert_eq!(bind_all(entries, &mut module), Ok(()));
    assert_eq!(module.get("a"), Some(3));
    assert_eq!(module.get("b"), Some(2));
    assert_eq!(module.get("c"), None);
}

#[test]
fn bind_all_into_a_finished_module_names_the_first_entry() {
    let mut module = ModuleNamespace::new();
    module.finish();
    let entries = vec![("first".to_owned(), 1), ("second".to_owned(), 2)];
    assert_eq!(bind_all(entries, &mut module), Err(BindingError { name: "first".to_owned() }));
    assert_eq!(module.get("first"), None);
    assert_eq!(bind_all(Vec::new(), &mut module), Ok(()));
}

#[test]
fn new_namespace_is_mutable_and_empty() {
    let module = ModuleNamespace::new();
    assert!(module.mutable());
    assert_eq!(module.get("x"), None);
    assert_eq!(module.get(""), None);
}

#[test]
fn bind_after_finish_fails_and_changes_nothing() {
    let mut module = ModuleNamespace::new();
    assert_eq!(module.bind("x", 1), Ok(()));
    module.finish();
    assert_eq!(module.bind("x", 2), Err(BindingError { name: "x".to_owned() }));
    assert_eq!(module.bind("w", 5), Err(BindingError { name: "w".to_owned() }));
    assert_eq!(module.get("x"), Some(1));
    assert_eq!(module.get("w"), None);
}

#[test]
fn names_are_told_apart_exactly() {
    let mut module = ModuleNamespace::new();
    assert_eq!(module.bind("x", 1), Ok(()));
    assert_eq!(module.bind("xx", 2), Ok(()));
    assert_eq!(module.bind("", 3), Ok(()));
    assert_eq!(module.get("x"), Some(1));
    assert_eq!(module.get("xx"), Some(2));
    assert_eq!(module.get(""), Some(3));
    assert_eq!(module.get("X"), None);
}
