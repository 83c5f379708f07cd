use rule_defs::registry::extra_functions;
use rule_defs::registry::extra_functions_group;
use rule_defs::registry::register_rule_defs;
use rule_defs::registry::BuiltinGroup;
use rule_defs::registry::ExtensionRegistry;
use rule_defs::registry::GlobalsBuilder;
use rule_defs::registry::NameCollision;

fn group(name: &str, functions: &[&str]) -> BuiltinGroup {
    BuiltinGroup {
        name: name.to_owned(),
        functions: functions.iter().map(|f| (*f).to_owned()).collect(),
    }
}

fn collision(name: &str, group: &str) -> NameCollision {
    NameCollision { name: name.to_owned(), group: group.to_owned() }
}

#[test]
fn two_groups_that_define_foo_fail_at_construction() {
    let first = group("first", &["foo"]);
    let second = group("second", &["foo"]);
    let r = ExtensionRegistry::compose(&[&first, &second]);
    assert_eq!(r.err(), Some(collision("foo", "second")));
}

#[test]
fn compose_lays_the_groups_out_in_order() {
    let first = group("first", &["a", "b"]);
    let second = group("second", &[]);
    let third = group("third", &["c"]);
    let registry = ExtensionRegistry::compose(&[&first, &second, &third]).unwrap();
    assert_eq!(registry.len(), 3);
    assert_eq!(registry.lookup("a"), Some(0));
    assert_eq!(registry.lookup("b"), Some(1));
    assert_eq!(registry.lookup("c"), Some(2));
    assert_eq!(registry.lookup("d"), None);
    assert_eq!(registry.lookup(""), None);
    assert_eq!(registry.name_at(0), Some("a"));
    assert_eq!(registry.name_at(2), Some("c"));
    assert_eq!(registry.name_at(3), None);
}

#[test]
fn compose_of_no_groups_is_empty() {
    let registry = ExtensionRegistry::compose(&[]).unwrap();
    assert_eq!(registry.len(), 0);
    assert_eq!(registry.lookup("foo"), None);
    assert_eq!(registry.name_at(0), None);
}

#[test]
fn compose_reports_the_first_taken_name() {
    let first = group("first", &["a", "b", "c"]);
    let second = group("second", &["d", "c", "a"]);
    let third = group("third", &["a"]);
    let r = ExtensionRegistry::compose(&[&first, &second, &third]);
    assert_eq!(r.err(), Some(collision("c", "second")));
}

#[test]
fn a_name_twice_in_one_group_collides() {
    let only = group("only", &["a", "b", "a"]);
    let r = ExtensionRegistry::compose(&[&only]);
    assert_eq!(r.err(), Some(collision("a", "only")));
}

#[test]
fn register_returns_the_offset_of_the_group() {
    let mut builder = GlobalsBuilder::new();
    assert_eq!(builder.register(&group("first", &["a", "b"])), Ok(0));
    assert_eq!(builder.register(&group("second", &["c"])), Ok(2));
    assert_eq!(builder.register(&group("third", &[])), Ok(3));
    assert_eq!(builder.register(&group("fourth", &["d"])), Ok(3));
    let registry = builder.build();
    assert_eq!(registry.len(), 4);
    assert_eq!(registry.lookup("d"), Some(3));
}

#[test]
fn a_failed_registration_registers_nothing() {
    let mut builder = GlobalsBuilder::new();
    assert_eq!(builder.register(&group("first", &["a", "b"])), Ok(0));
    assert_eq!(
        builder.register(&group("second", &["c", "b", "d"])),
        Err(collision("b", "second"))
    );
    assert_eq!(builder.register(&group("third", &["c"])), Ok(2));
    let registry = builder.build();
    assert_eq!(registry.len(), 3);
    assert_eq!(registry.lookup("c"), Some(2));
    assert_eq!(registry.lookup("d"), None);
}

#[test]
fn register_all_stops_at_the_first_group_that_does_not_fit() {
    let mut builder = GlobalsBuilder::new();
    let first = group("first", &["a"]);
    let second = group("second", &["a"]);
    let third = group("third", &["z"]);
    assert_eq!(builder.register_all(&[&first, &second, &third]), Err(collision("a", "second")));
    let registry = builder.build();
    assert_eq!(registry.len(), 1);
    assert_eq!(registry.lookup("a"), Some(0));
    assert_eq!(registry.lookup("z"), None);
}

#[test]
fn extra_functions_group_lists_the_four_functions() {
    let extra = extra_functions_group();
    assert_eq!(extra.name, "extra_functions");
    assert_eq!(extra.functions, vec!["load_symbols", "regex_match", "warning", "soft_error"]);
}

#[test]
fn extra_functions_registers_them() {
    let mut builder = GlobalsBuilder::new();
    assert_eq!(builder.register(&group("first", &["rule"])), Ok(0));
    assert_eq!(extra_functions(&mut builder), Ok(1));
    assert_eq!(extra_functions(&mut builder), Err(collision("load_symbols", "extra_functions")));
    let registry = builder.build();
    assert_eq!(registry.len(), 5);
    assert_eq!(registry.lookup("load_symbols"), Some(1));
    assert_eq!(registry.lookup("regex_match"), Some(2));
    assert_eq!(registry.lookup("warning"), Some(3));
    assert_eq!(registry.lookup("soft_error"), Some(4));
}

#[test]
fn register_rule_defs_assembles_the_five_groups() {
    let mut globals = GlobalsBuilder::new();
    let r = register_rule_defs(
        &mut globals,
        &group("attrs", &["attrs"]),
        &group("rule_function", &["rule"]),
        &group("cmd_args", &["cmd_args"]),
        &group("providers", &["DefaultInfo", "RunInfo"]),
    );
    assert_eq!(r, Ok(()));
    let registry = globals.build();
    assert_eq!(registry.len(), 9);
    assert_eq!(registry.lookup("attrs"), Some(0));
    assert_eq!(registry.lookup("rule"), Some(1));
    assert_eq!(registry.lookup("cmd_args"), Some(2));
    assert_eq!(registry.lookup("DefaultInfo"), Some(3));
    assert_eq!(registry.lookup("RunInfo"), Some(4));
    assert_eq!(registry.lookup("load_symbols"), Some(5));
    assert_eq!(registry.lookup("regex_match"), Some(6));
    assert_eq!(registry.lookup("warning"), Some(7));
    assert_eq!(registry.lookup("soft_error"), Some(8));
}

#[test]
fn register_rule_defs_fails_when_a_sibling_takes_an_extra_name() {
    let mut globals = GlobalsBuilder::new();
    let r = register_rule_defs(
        &mut globals,
        &group("attrs", &["attrs"]),
        &group("rule_function", &["rule", "warning"]),
        &group("cmd_args", &["cmd_args"]),
        &group("providers", &[]),
    );
    assert_eq!(r, Err(collision("warning", "extra_functions")));
    assert_eq!(globals.build().len(), 4);
}

#[test]
fn register_rule_defs_fails_when_two_siblings_share_a_name() {
    let mut globals = GlobalsBuilder::new();
    let r = register_rule_defs(
        &mut globals,
        &group("attrs", &["foo"]),
        &group("rule_function", &["rule"]),
        &group("cmd_args", &["foo"]),
        &group("providers", &["DefaultInfo"]),
    );
    assert_eq!(r, Err(collision("foo", "cmd_args")));
    let registry = globals.build();
    assert_eq!(registry.len(), 2);
    assert_eq!(registry.lookup("load_symbols"), None);
}
