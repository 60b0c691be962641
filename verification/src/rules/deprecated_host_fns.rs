//! Flags calls of Soroban host functions that newer SDKs deprecate.
use vstd::prelude::*;
use crate::rules::{Rule, RuleViolation, Severity, ViolationView, violations_view};
use crate::syntax::model::{ExprKind, SourceFile};
use crate::syntax::parse::{parse_rust_source, parse_source};
use crate::syntax::visit::{Visited, visit_file, visit_source_file};
use crate::text::{decimal, eq_str, push_decimal};

verus! {

/// The replacement of a deprecated Soroban host function (v20+), by method name.
pub open spec fn deprecated_replacement(method: Seq<char>) -> Option<Seq<char>> {
    if method == "get_ledger_version"@ {
        Some("env.ledger().version()"@)
    } else if method == "get_ledger_sequence"@ {
        Some("env.ledger().sequence()"@)
    } else if method == "get_ledger_timestamp"@ {
        Some("env.ledger().timestamp()"@)
    } else if method == "get_current_contract_address"@ {
        Some("env.current_contract_address()"@)
    } else if method == "get_invoking_contract_address"@ {
        Some("env.invoker()"@)
    } else {
        None
    }
}

/// The finding for a call of the deprecated `method` on line `line`.
pub open spec fn deprecated_violation(method: Seq<char>, replacement: Seq<char>, line: nat) -> ViolationView {
    ViolationView {
        rule_name: "deprecated_host_fns"@,
        severity: Severity::Warning,
        message: "Usage of deprecated host function `"@ + method + "`. Use `"@ + replacement + "` instead."@,
        location: "line:"@ + decimal(line),
        suggestion: None,
    }
}

/// The finding for one visited node: a method call of a deprecated host function.
pub open spec fn deprecated_node_findings<'a>(node: Visited<'a>) -> Seq<ViolationView> {
    match node {
        Visited::Expr { expr, .. } => match &expr.kind {
            ExprKind::MethodCall { method, method_line, .. } => match deprecated_replacement(method@) {
                Some(replacement) => seq![deprecated_violation(method@, replacement, *method_line as nat)],
                None => Seq::empty(),
            },
            _ => Seq::empty(),
        },
        _ => Seq::empty(),
    }
}

/// The findings for visited nodes, in visiting order.
pub open spec fn deprecated_findings<'a>(nodes: Seq<Visited<'a>>) -> Seq<ViolationView>
    decreases nodes.len(),
{
    if nodes.len() == 0 {
        Seq::empty()
    } else {
        deprecated_findings(nodes.drop_last()) + deprecated_node_findings(nodes.last())
    }
}

/// The findings of the rule for a parsed file.
pub open spec fn deprecated_file_findings(file: SourceFile) -> Seq<ViolationView> {
    deprecated_findings(visit_file(&file))
}

/// Flags every method call, anywhere in the file, whose name is a deprecated
/// Soroban host function, naming its replacement.
pub struct DeprecatedHostFnRule;

/// The replacement for `method` if it names a deprecated host function.
fn replacement_for(method: &String) -> (r: Option<&'static str>)
    ensures
        match r {
            Some(t) => deprecated_replacement(method@) == Some(t@),
            None => deprecated_replacement(method@) is None,
        },
{
    if eq_str(method, "get_ledger_version") {
        Some("env.ledger().version()")
    } else if eq_str(method, "get_ledger_sequence") {
        Some("env.ledger().sequence()")
    } else if eq_str(method, "get_ledger_timestamp") {
        Some("env.ledger().timestamp()")
    } else if eq_str(method, "get_current_contract_address") {
        Some("env.current_contract_address()")
    } else if eq_str(method, "get_invoking_contract_address") {
        Some("env.invoker()")
    } else {
        None
    }
}

impl DeprecatedHostFnRule {
    pub fn new() -> Self {
        DeprecatedHostFnRule
    }

    /// The findings for an already parsed file.
    pub fn check_file(&self, file: &SourceFile) -> (r: Vec<RuleViolation>)
        ensures
            violations_view(r@) == deprecated_file_findings(*file),
    {
        let nodes = visit_source_file(file);
        let mut out: Vec<RuleViolation> = Vec::new();
        let mut i: usize = 0;
        while i < nodes.len()
            invariant
                i <= nodes@.len(),
                nodes@ == visit_file(file),
                violations_view(out@) == deprecated_findings(nodes@.subrange(0, i as int)),
            decreases nodes@.len() - i,
        {
            let ghost before = out@;
            proof {
                assert(nodes@.subrange(0, i + 1).drop_last() =~= nodes@.subrange(0, i as int));
            }
            match nodes[i] {
                Visited::Expr { expr, .. } => match &expr.kind {
                    ExprKind::MethodCall { method, method_line, .. } => match replacement_for(method) {
                        Some(replacement) => {
                            let mut message = String::from_str("Usage of deprecated host function `");
                            message.append(method.as_str());
                            message.append("`. Use `");
                            message.append(replacement);
                            message.append("` instead.");
                            let mut location = String::from_str("line:");
                            push_decimal(&mut location, *method_line);
                            out.push(RuleViolation {
                                rule_name: String::from_str("deprecated_host_fns"),
                                severity: Severity::Warning,
                                message,
                                location,
                                suggestion: None,
                            });
                        },
                        None => {},
                    },
                    _ => {},
                },
                _ => {},
            }
            proof {
                assert(violations_view(out@) =~= violations_view(before)
                    + deprecated_node_findings(nodes@[i as int]));
            }
            i = i + 1;
        }
        proof {
            assert(nodes@.subrange(0, nodes@.len() as int) =~= nodes@);
        }
        out
    }
}

impl Rule for DeprecatedHostFnRule {
    open spec fn rule_name(&self) -> Seq<char> {
        "deprecated_host_fns"@
    }

    open spec fn violations(&self, source: Seq<char>) -> Seq<ViolationView> {
        match parse_rust_source(source) {
            Some(file) => deprecated_file_findings(file),
            None => Seq::empty(),
        }
    }

    fn name(&self) -> (r: &str) {
        "deprecated_host_fns"
    }

    fn check(&self, source: &str) -> (r: Vec<RuleViolation>) {
        match parse_source(source) {
            Some(file) => self.check_file(&file),
            None => Vec::new(),
        }
    }
}

/// Every call of a deprecated host function is reported once, with the
/// replacement that reads the same ledger value or address: the version, the
/// sequence number and the timestamp each through its own `env.ledger()`
/// accessor, the contract's own address through `env.current_contract_address()`,
/// and the invoker through `env.invoker()`.  Any other method gives no finding.
pub proof fn lemma_each_deprecated_call_names_its_replacement<'a>(node: Visited<'a>)
    requires
        node matches Visited::Expr { expr, .. } && expr.kind is MethodCall,
    ensures
        ({
            let expr = node->Expr_expr;
            let m = expr.kind->MethodCall_method@;
            let line = expr.kind->MethodCall_method_line as nat;
            let says = |replacement: Seq<char>|
                deprecated_node_findings(node) == seq![ViolationView {
                    rule_name: "deprecated_host_fns"@,
                    severity: Severity::Warning,
                    message: "Usage of deprecated host function `"@ + m + "`. Use `"@ + replacement + "` instead."@,
                    location: "line:"@ + decimal(line),
                    suggestion: None,
                }];
            &&& m == "get_ledger_version"@ ==> says("env.ledger().version()"@)
            &&& m == "get_ledger_sequence"@ ==> says("env.ledger().sequence()"@)
            &&& m == "get_ledger_timestamp"@ ==> says("env.ledger().timestamp()"@)
            &&& m == "get_current_contract_address"@ ==> says("env.current_contract_address()"@)
            &&& m == "get_invoking_contract_address"@ ==> says("env.invoker()"@)
            &&& !(m == "get_ledger_version"@ || m == "get_ledger_sequence"@ || m == "get_ledger_timestamp"@
                || m == "get_current_contract_address"@ || m == "get_invoking_contract_address"@)
                ==> deprecated_node_findings(node) == Seq::<ViolationView>::empty()
        }),
{
    reveal_strlit("get_ledger_version");
    reveal_strlit("get_ledger_sequence");
    reveal_strlit("get_ledger_timestamp");
    reveal_strlit("get_current_contract_address");
    reveal_strlit("get_invoking_contract_address");
    assert("get_ledger_version"@.len() == 18 && "get_ledger_sequence"@.len() == 19);
    assert("get_ledger_timestamp"@.len() == 20 && "get_current_contract_address"@.len() == 28);
    assert("get_invoking_contract_address"@.len() == 29);
}

} // verus!
