use sanctifier::storage_collision::{scan_storage_collisions, StorageVisitor};

#[test]
fn same_key_twice_in_one_storage_collides() {
    let source = "fn f(env: Env) {\n    env.storage().persistent().set(&\"x\", &1);\n    env.storage().persistent().get(&\"x\");\n}\n";
    let found = scan_storage_collisions(source);
    assert_eq!(found.len(), 2);
    assert_eq!(found[0].key_value, "x");
    assert_eq!(found[0].key_type, "storage::set (persistent)");
    assert_eq!(found[0].location, "storage-op:2");
    assert_eq!(
        found[0].message,
        "Potential persistent storage key collision: value 'x' is also used in: storage-op (line 3)"
    );
    assert_eq!(found[1].key_type, "storage::get (persistent)");
    assert_eq!(found[1].location, "storage-op:3");
    assert_eq!(
        found[1].message,
        "Potential persistent storage key collision: value 'x' is also used in: storage-op (line 2)"
    );
}

#[test]
fn same_key_in_different_storages_does_not_collide() {
    let source = "fn f(env: Env) {\n    env.storage().persistent().set(&KEY, &1);\n    env.storage().temporary().set(&KEY, &1);\n}\n";
    assert_eq!(scan_storage_collisions(source).len(), 0);
}

#[test]
fn constants_and_symbols_collide_by_value() {
    let source = "const A: &str = \"bal\";\nconst B: &str = \"bal\";\nfn f(env: Env) {\n    let s = symbol_short!(\"bal\");\n}\n";
    let found = scan_storage_collisions(source);
    assert_eq!(found.len(), 3);
    assert_eq!(found[0].key_type, "const (unknown)");
    assert_eq!(found[0].location, "A:1");
    assert_eq!(
        found[0].message,
        "Potential unknown storage key collision: value 'bal' is also used in: B (line 2), inline (line 4)"
    );
    assert_eq!(found[2].key_type, "symbol_short! (unknown)");
    assert_eq!(found[2].location, "inline:4");
}

#[test]
fn unparsable_source_has_no_collisions() {
    assert_eq!(scan_storage_collisions("const = ;").len(), 0);
}

#[test]
fn fresh_visitor_reports_nothing() {
    let mut v = StorageVisitor::new();
    v.final_check();
    assert_eq!(v.collisions.len(), 0);
}
