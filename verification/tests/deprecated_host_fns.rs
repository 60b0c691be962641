use sanctifier::rules::deprecated_host_fns::DeprecatedHostFnRule;
use sanctifier::rules::Rule;

#[test]
fn test_deprecated_host_fn_detection() {
    let source = r#"
            #[contractimpl]
            impl MyContract {
                pub fn test_fn(env: Env) {
                    let version = env.get_ledger_version();
                    let seq = env.get_ledger_sequence();
                    let ts = env.get_ledger_timestamp();
                    let addr = env.get_current_contract_address();
                }
            }
        "#;

    let rule = DeprecatedHostFnRule::new();
    let issues = rule.check(source);

    assert_eq!(issues.len(), 4);
    assert!(issues[0].message.contains("get_ledger_version"));
    assert!(issues[1].message.contains("get_ledger_sequence"));
    assert!(issues[2].message.contains("get_ledger_timestamp"));
    assert!(issues[3].message.contains("get_current_contract_address"));
}

#[test]
fn test_no_deprecated_calls() {
    let source = r#"
            #[contractimpl]
            impl MyContract {
                pub fn test_fn(env: Env) {
                    let version = env.ledger().version();
                    let seq = env.ledger().sequence();
                    let ts = env.ledger().timestamp();
                    let addr = env.current_contract_address();
                }
            }
        "#;

    let rule = DeprecatedHostFnRule::new();
    let issues = rule.check(source);

    assert_eq!(issues.len(), 0);
}

#[test]
fn deprecated_call_message_and_location() {
    let source = "fn f(env: Env) {\n    let a = env.get_invoking_contract_address();\n}\n";
    let issues = DeprecatedHostFnRule::new().check(source);
    assert_eq!(issues.len(), 1);
    assert_eq!(issues[0].rule_name, "deprecated_host_fns");
    assert_eq!(
        issues[0].message,
        "Usage of deprecated host function `get_invoking_contract_address`. Use `env.invoker()` instead."
    );
    assert_eq!(issues[0].location, "line:2");
    assert!(issues[0].suggestion.is_none());
}

#[test]
fn deprecated_rule_ignores_unparsable_source() {
    assert_eq!(DeprecatedHostFnRule::new().check("fn (").len(), 0);
}
