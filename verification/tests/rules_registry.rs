use sanctifier::rules::arithmetic_overflow::{operator_of, ArithmeticOverflowRule};
use sanctifier::rules::auth_gap::AuthGapRule;
use sanctifier::rules::deprecated_host_fns::DeprecatedHostFnRule;
use sanctifier::rules::unhandled_result::UnhandledResultRule;
use sanctifier::rules::{Rule, RuleRegistry, RuleViolation, Severity};

#[test]
fn auth_gap_flags_unauthenticated_mutation() {
    let source = "impl Token {\n    pub fn store(env: Env, v: u32) {\n        env.storage().persistent().set(&KEY, &v);\n    }\n}\n";
    let issues = AuthGapRule::new().check(source);
    assert_eq!(issues.len(), 1);
    assert_eq!(issues[0].rule_name, "auth_gap");
    assert_eq!(issues[0].severity, Severity::Warning);
    assert_eq!(
        issues[0].message,
        "Function 'store' performs storage mutation without authentication"
    );
    assert_eq!(issues[0].location, "store");
    assert_eq!(
        issues[0].suggestion.as_deref(),
        Some("Add require_auth() or require_auth_for_args() before storage operations")
    );
}

#[test]
fn auth_gap_accepts_authenticated_mutation() {
    let source = "impl Token {\n    pub fn store(env: Env, admin: Address, v: u32) {\n        admin.require_auth();\n        env.storage().instance().set(&KEY, &v);\n    }\n}\n";
    assert_eq!(AuthGapRule::new().check(source).len(), 0);
}

#[test]
fn auth_gap_flags_functions_that_also_read() {
    let source = "impl Token {\n    pub fn bump(env: Env) {\n        let v: u32 = env.storage().instance().get(&KEY).unwrap();\n        env.storage().instance().set(&KEY, &(v + 1));\n    }\n}\n";
    let issues = AuthGapRule::new().check(source);
    assert_eq!(issues.len(), 1);
    assert_eq!(issues[0].location, "bump");
}

#[test]
fn auth_gap_ignores_private_functions_and_bad_source() {
    let private = "impl Token {\n    fn store(env: Env, v: u32) {\n        env.storage().temporary().remove(&KEY);\n    }\n}\n";
    assert_eq!(AuthGapRule::new().check(private).len(), 0);
    assert_eq!(AuthGapRule::new().check("impl {{{").len(), 0);
}

#[test]
fn auth_gap_looks_inside_branches() {
    let source = "impl Token {\n    pub fn maybe(env: Env, b: bool) {\n        if b {\n            env.storage().persistent().update(&KEY, |v| v);\n        }\n    }\n}\n";
    let issues = AuthGapRule::new().check(source);
    assert_eq!(issues.len(), 1);
    assert_eq!(issues[0].location, "maybe");
}

#[test]
fn arithmetic_overflow_reports_each_operator_once_per_function() {
    let source = "fn add(a: u64, b: u64) -> u64 {\n    a + b + a\n}\n";
    let issues = ArithmeticOverflowRule::new().check(source);
    assert_eq!(issues.len(), 1);
    assert_eq!(issues[0].rule_name, "arithmetic_overflow");
    assert_eq!(issues[0].message, "Unchecked '+' operation could overflow");
    assert_eq!(issues[0].location, "add:2");
    assert_eq!(
        issues[0].suggestion.as_deref(),
        Some("Use .checked_add(rhs) or .saturating_add(rhs) to handle overflow")
    );
}

#[test]
fn arithmetic_overflow_reports_distinct_operators_and_functions() {
    let source = "impl C {\n    pub fn f(a: u64) -> u64 {\n        let mut x = a * 2;\n        x -= 1;\n        x\n    }\n}\nfn g(a: u64) -> u64 {\n    a * 3\n}\n";
    let issues = ArithmeticOverflowRule::new().check(source);
    assert_eq!(issues.len(), 3);
    assert_eq!(issues[0].message, "Unchecked '*' operation could overflow");
    assert_eq!(issues[0].location, "f:3");
    assert_eq!(issues[1].message, "Unchecked '-=' operation could overflow");
    assert_eq!(issues[1].location, "f:4");
    assert_eq!(
        issues[1].suggestion.as_deref(),
        Some("Replace a -= b with a = a.checked_sub(b).expect(\"underflow\")")
    );
    assert_eq!(issues[2].location, "g:9");
}

#[test]
fn arithmetic_overflow_skips_string_operands_and_constants() {
    let source = "const N: u32 = 1 + 2;\nfn s(x: String) -> String {\n    x + \"tail\"\n}\n";
    assert_eq!(ArithmeticOverflowRule::new().check(source).len(), 0);
}

#[test]
fn unhandled_result_flags_ignored_call() {
    let source = "impl C {\n    pub fn run(env: Env) {\n        do_work(1);\n    }\n}\nfn do_work(x: u32) -> Result<(), E> {\n    Ok(())\n}\n";
    let issues = UnhandledResultRule::new().check(source);
    assert_eq!(issues.len(), 1);
    assert_eq!(issues[0].rule_name, "unhandled_result");
    assert_eq!(issues[0].message, "Result returned from 'do_work (1)' is not handled");
    assert_eq!(issues[0].location, "run:3");
    assert_eq!(
        issues[0].suggestion.as_deref(),
        Some("Use ?, match, or .unwrap()/.expect() to handle the Result")
    );
}

#[test]
fn unhandled_result_accepts_handled_calls() {
    let source = "impl C {\n    pub fn run(env: Env) {\n        do_work(1).unwrap();\n        let x = Ok(2);\n        match work() { _ => {} }\n    }\n    pub fn inner() -> Result<(), E> {\n        do_work(3);\n        Ok(())\n    }\n    fn private() {\n        do_work(4);\n    }\n}\n";
    assert_eq!(UnhandledResultRule::new().check(source).len(), 0);
}

#[test]
fn rule_names_and_descriptions() {
    assert_eq!(AuthGapRule::new().name(), "auth_gap");
    assert_eq!(ArithmeticOverflowRule::new().name(), "arithmetic_overflow");
    assert_eq!(UnhandledResultRule::new().name(), "unhandled_result");
    assert_eq!(DeprecatedHostFnRule::new().name(), "deprecated_host_fns");
    assert_eq!(DeprecatedHostFnRule::new().description(), "");
    assert_eq!(
        AuthGapRule::default().description(),
        "Detects public functions that perform storage mutations without authentication checks"
    );
    assert_eq!(
        ArithmeticOverflowRule::default().description(),
        "Detects unchecked arithmetic operations that could overflow or underflow"
    );
    assert_eq!(
        UnhandledResultRule::default().description(),
        "Detects unhandled Result types in public contract functions"
    );
}

#[test]
fn registry_runs_rules_in_order() {
    let source = "impl C {\n    pub fn f(env: Env, a: u64) {\n        env.storage().persistent().set(&K, &(a + 1));\n        let v = env.get_ledger_version();\n    }\n}\n";
    let mut registry = RuleRegistry::new();
    assert_eq!(registry.run_all(source).len(), 0);
    registry.register(Box::new(AuthGapRule::new()));
    registry.register(Box::new(ArithmeticOverflowRule::new()));
    registry.register(Box::new(DeprecatedHostFnRule::new()));
    let found = registry.run_all(source);
    let names: Vec<&str> = found.iter().map(|v| v.rule_name.as_str()).collect();
    assert_eq!(names, vec!["auth_gap", "arithmetic_overflow", "deprecated_host_fns"]);
}

#[test]
fn default_registry_holds_deprecated_rule() {
    let source = "fn f(env: Env) { let t = env.get_ledger_timestamp(); let u = a + b; }";
    let found = RuleRegistry::with_default_rules().run_all(source);
    assert_eq!(found.len(), 1);
    assert_eq!(found[0].rule_name, "deprecated_host_fns");
}

#[test]
fn violation_builders() {
    let v = RuleViolation::new("r", Severity::Error, "m".to_string(), "l".to_string());
    assert_eq!(v.rule_name, "r");
    assert_eq!(v.severity, Severity::Error);
    assert!(v.suggestion.is_none());
    let v = v.with_suggestion("s".to_string());
    assert_eq!(v.suggestion.as_deref(), Some("s"));
    assert_eq!(v.message, "m");
    assert_eq!(v.location, "l");
    assert_eq!(Severity::default(), Severity::Info);
}

#[test]
fn unhandled_result_ignores_calls_known_not_to_return_result() {
    let source = "pub fn f() {\n    helper(2);\n    unit();\n    let x = Some(1);\n}\nfn helper(x: u32) -> u32 {\n    x\n}\nfn unit() {}\n";
    assert_eq!(UnhandledResultRule::new().check(source).len(), 0);
}

#[test]
fn unhandled_result_flags_calls_of_unknown_functions() {
    let source = "pub fn f() { g(); } pub fn h() -> Result<(), E> { g(); Ok(()) } fn p() { g(); }";
    let issues = UnhandledResultRule::new().check(source);
    assert_eq!(issues.len(), 1);
    assert_eq!(issues[0].rule_name, "unhandled_result");
    assert_eq!(issues[0].message, "Result returned from 'g ()' is not handled");
    assert!(issues[0].location.starts_with("f:"));
    let with_vec = UnhandledResultRule::new().check("pub fn f() {\n    let v = Vec::new();\n}\n");
    assert_eq!(with_vec.len(), 1);
    assert_eq!(with_vec[0].message, "Result returned from 'Vec :: new ()' is not handled");
}

#[test]
fn unhandled_result_shortens_long_calls_at_a_character_boundary() {
    let arg = "é".repeat(60);
    let source = format!("pub fn f() {{\n    sav(\"{}\");\n}}\nfn sav(s: &str) -> Result<(), E> {{\n    Ok(())\n}}\n", arg);
    let issues = UnhandledResultRule::new().check(&source);
    assert_eq!(issues.len(), 1);
    let message = &issues[0].message;
    assert!(message.starts_with("Result returned from 'sav (\"é"));
    assert!(message.ends_with("...' is not handled"));
    let shown = &message["Result returned from '".len()..message.len() - "...' is not handled".len()];
    assert_eq!(shown.len(), 76);
    assert_eq!(issues[0].location, "f:2");
}

#[test]
fn operator_read_back_from_message() {
    let issues = ArithmeticOverflowRule::new().check("fn f(mut a: u64) {\n    a *= 2;\n}\n");
    assert_eq!(operator_of(&issues[0].message).as_deref(), Some("*="));
    assert_eq!(operator_of("Unchecked '/' operation could overflow"), None);
}

#[test]
fn arithmetic_in_types_and_patterns_is_reported() {
    let source = "fn f() {\n    let b: [u8; 32 * 2] = [0; 64];\n    enum E {\n        A = 1 + 2,\n    }\n    let g = |x: [u8; 3 - 1]| x;\n}\n";
    let issues = ArithmeticOverflowRule::new().check(source);
    let found: Vec<(&str, &str)> = issues.iter().map(|v| (v.message.as_str(), v.location.as_str())).collect();
    assert_eq!(
        found,
        vec![
            ("Unchecked '*' operation could overflow", "f:2"),
            ("Unchecked '+' operation could overflow", "f:4"),
            ("Unchecked '-' operation could overflow", "f:6"),
        ]
    );
}
