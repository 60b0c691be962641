//! Flags unchecked `+`, `-`, `*` and their compound assignments in functions.
use vstd::prelude::*;
use crate::rules::{Rule, RuleViolation, Severity, ViolationView, violations_view};
use crate::syntax::model::{BinaryOp, ExprKind, ExprNode, LitValue, SourceFile};
use crate::syntax::parse::{parse_rust_source, parse_source};
use crate::syntax::visit::{Visited, visit_file, visit_source_file};
use crate::text::{decimal, push_decimal};

verus! {

/// The operator text and the fix suggested for an operator that can overflow.
pub open spec fn op_class(op: BinaryOp) -> Option<(Seq<char>, Seq<char>)> {
    match op {
        BinaryOp::Add => Some(("+"@, "Use .checked_add(rhs) or .saturating_add(rhs) to handle overflow"@)),
        BinaryOp::Sub => Some(("-"@, "Use .checked_sub(rhs) or .saturating_sub(rhs) to handle underflow"@)),
        BinaryOp::Mul => Some(("*"@, "Use .checked_mul(rhs) or .saturating_mul(rhs) to handle overflow"@)),
        BinaryOp::AddAssign => Some(("+="@, "Replace a += b with a = a.checked_add(b).expect(\"overflow\")"@)),
        BinaryOp::SubAssign => Some(("-="@, "Replace a -= b with a = a.checked_sub(b).expect(\"underflow\")"@)),
        BinaryOp::MulAssign => Some(("*="@, "Replace a *= b with a = a.checked_mul(b).expect(\"overflow\")"@)),
        BinaryOp::Other => None,
    }
}

/// Whether an expression is a string literal.
pub open spec fn is_string_literal(e: ExprNode) -> bool {
    e.kind matches ExprKind::Lit(LitValue::Str(_))
}

/// For an unchecked operation inside a function, with no string literal
/// operand: the function name, the operator text, the suggestion and the line
/// of the left operand.
pub open spec fn unchecked_op<'a>(node: Visited<'a>) -> Option<(Seq<char>, Seq<char>, Seq<char>, nat)> {
    match node {
        Visited::Expr { expr, current_fn: Some(fn_name) } => match &expr.kind {
            ExprKind::Binary { left, op, right } => match op_class(*op) {
                Some((op_text, suggestion)) => if !is_string_literal(**left) && !is_string_literal(**right) {
                    Some((fn_name@, op_text, suggestion, left.line as nat))
                } else {
                    None
                },
                None => None,
            },
            _ => None,
        },
        _ => None,
    }
}

/// The (function, operator) pairs of the unchecked operations among `nodes`.
pub open spec fn op_keys<'a>(nodes: Seq<Visited<'a>>) -> Seq<(Seq<char>, Seq<char>)>
    decreases nodes.len(),
{
    if nodes.len() == 0 {
        Seq::empty()
    } else {
        op_keys(nodes.drop_last()) + match unchecked_op(nodes.last()) {
            Some(o) => seq![(o.0, o.1)],
            None => Seq::empty(),
        }
    }
}

/// The finding for an unchecked operation.
pub open spec fn overflow_violation(fn_name: Seq<char>, op_text: Seq<char>, suggestion: Seq<char>, line: nat) -> ViolationView {
    ViolationView {
        rule_name: "arithmetic_overflow"@,
        severity: Severity::Warning,
        message: "Unchecked '"@ + op_text + "' operation could overflow"@,
        location: fn_name + ":"@ + decimal(line),
        suggestion: Some(suggestion),
    }
}

/// The findings among `nodes`: the first unchecked use of each operator in each
/// function, in visiting order.
pub open spec fn overflow_findings<'a>(nodes: Seq<Visited<'a>>) -> Seq<ViolationView>
    decreases nodes.len(),
{
    if nodes.len() == 0 {
        Seq::empty()
    } else {
        overflow_findings(nodes.drop_last()) + match unchecked_op(nodes.last()) {
            Some(o) => if op_keys(nodes.drop_last()).contains((o.0, o.1)) {
                Seq::empty()
            } else {
                seq![overflow_violation(o.0, o.1, o.2, o.3)]
            },
            None => Seq::empty(),
        }
    }
}

/// The findings of the rule for a parsed file.
pub open spec fn overflow_file_findings(file: SourceFile) -> Seq<ViolationView> {
    overflow_findings(visit_file(&file))
}

/// The operator text and suggested fix for an operator that can overflow.
fn classify_op(op: &BinaryOp) -> (r: Option<(&'static str, &'static str)>)
    ensures
        match r {
            Some((a, b)) => op_class(*op) == Some((a@, b@)),
            None => op_class(*op) is None,
        },
{
    match op {
        BinaryOp::Add => Some(("+", "Use .checked_add(rhs) or .saturating_add(rhs) to handle overflow")),
        BinaryOp::Sub => Some(("-", "Use .checked_sub(rhs) or .saturating_sub(rhs) to handle underflow")),
        BinaryOp::Mul => Some(("*", "Use .checked_mul(rhs) or .saturating_mul(rhs) to handle overflow")),
        BinaryOp::AddAssign => Some(("+=", "Replace a += b with a = a.checked_add(b).expect(\"overflow\")")),
        BinaryOp::SubAssign => Some(("-=", "Replace a -= b with a = a.checked_sub(b).expect(\"underflow\")")),
        BinaryOp::MulAssign => Some(("*=", "Replace a *= b with a = a.checked_mul(b).expect(\"overflow\")")),
        BinaryOp::Other => None,
    }
}

/// Whether an expression is a string literal.
fn expr_is_string_literal(e: &ExprNode) -> (r: bool)
    ensures
        r == is_string_literal(*e),
{
    match &e.kind {
        ExprKind::Lit(LitValue::Str(_)) => true,
        _ => false,
    }
}

/// The (function, operator) pairs in `v`, each as text.
pub open spec fn keys_view(v: Seq<(String, String)>) -> Seq<(Seq<char>, Seq<char>)> {
    v.map_values(|p: (String, String)| (p.0@, p.1@))
}

/// Whether the pair (`fn_name`, `op_text`) is in `seen`.
fn seen_contains(seen: &Vec<(String, String)>, fn_name: &String, op_text: &str) -> (r: bool)
    ensures
        r == keys_view(seen@).contains((fn_name@, op_text@)),
{
    let op = String::from_str(op_text);
    let mut i: usize = 0;
    while i < seen.len()
        invariant
            i <= seen@.len(),
            op@ == op_text@,
            forall|k: int| 0 <= k < i ==> keys_view(seen@)[k] != (fn_name@, op_text@),
        decreases seen@.len() - i,
    {
        if seen[i].0 == *fn_name && seen[i].1 == op {
            proof {
                assert(keys_view(seen@)[i as int] == (fn_name@, op_text@));
            }
            return true;
        }
        i = i + 1;
    }
    false
}

/// Flags, inside free functions and `impl` methods, the first unchecked use of
/// An unchecked operation met inside function `f`: the first `+`, `-`, `*`,
/// `+=`, `-=` or `*=` of each kind in each function, with no string literal
/// operand, is reported with the operator's own text and fix, at the line of its
/// left operand; a repeat of the same operator in the same function, and any
/// other operator, adds nothing.
pub proof fn lemma_first_use_of_each_operator_is_reported<'a>(prefix: Seq<Visited<'a>>, node: Visited<'a>)
    requires
        node matches Visited::Expr { expr, current_fn: Some(_) } && expr.kind matches ExprKind::Binary {
            left,
            right,
            ..
        } && !(left.kind matches ExprKind::Lit(LitValue::Str(_))) && !(right.kind matches ExprKind::Lit(
            LitValue::Str(_),
        )),
    ensures
        ({
            let f = node->Expr_current_fn->Some_0@;
            let expr = node->Expr_expr;
            let op = expr.kind->Binary_op;
            let line = expr.kind->Binary_left.line as nat;
            let after = overflow_findings(prefix.push(node));
            let before = overflow_findings(prefix);
            let reported = |t: Seq<char>, fix: Seq<char>|
                if op_keys(prefix).contains((f, t)) {
                    after == before
                } else {
                    after =~= before.push(ViolationView {
                        rule_name: "arithmetic_overflow"@,
                        severity: Severity::Warning,
                        message: "Unchecked '"@ + t + "' operation could overflow"@,
                        location: f + ":"@ + decimal(line),
                        suggestion: Some(fix),
                    })
                };
            &&& op == BinaryOp::Add ==> reported("+"@, "Use .checked_add(rhs) or .saturating_add(rhs) to handle overflow"@)
            &&& op == BinaryOp::Sub ==> reported("-"@, "Use .checked_sub(rhs) or .saturating_sub(rhs) to handle underflow"@)
            &&& op == BinaryOp::Mul ==> reported("*"@, "Use .checked_mul(rhs) or .saturating_mul(rhs) to handle overflow"@)
            &&& op == BinaryOp::AddAssign ==> reported("+="@, "Replace a += b with a = a.checked_add(b).expect(\"overflow\")"@)
            &&& op == BinaryOp::SubAssign ==> reported("-="@, "Replace a -= b with a = a.checked_sub(b).expect(\"underflow\")"@)
            &&& op == BinaryOp::MulAssign ==> reported("*="@, "Replace a *= b with a = a.checked_mul(b).expect(\"overflow\")"@)
            &&& op == BinaryOp::Other ==> after == before
        }),
{
    assert(prefix.push(node).drop_last() =~= prefix);
    assert(prefix.push(node).last() == node);
}

/// Outside any function nothing is reported, and neither is an operation with a
/// string literal operand (string concatenation).
pub proof fn lemma_nothing_outside_functions_or_on_strings<'a>(prefix: Seq<Visited<'a>>, node: Visited<'a>)
    requires
        (node matches Visited::Expr { current_fn: None, .. }) || (node matches Visited::Expr { expr, .. }
            && expr.kind matches ExprKind::Binary { left, right, .. } && (left.kind matches ExprKind::Lit(
            LitValue::Str(_),
        ) || right.kind matches ExprKind::Lit(LitValue::Str(_)))) || !(node is Expr),
    ensures
        overflow_findings(prefix.push(node)) == overflow_findings(prefix),
{
    assert(prefix.push(node).drop_last() =~= prefix);
    assert(prefix.push(node).last() == node);
    assert(overflow_findings(prefix.push(node)) =~= overflow_findings(prefix));
}

/// The message of a finding about the operator `op_text`.
pub open spec fn overflow_message(op_text: Seq<char>) -> Seq<char> {
    "Unchecked '"@ + op_text + "' operation could overflow"@
}

/// Whether `op_text` is one of the operators the rule reports.
pub open spec fn is_reported_operator(op_text: Seq<char>) -> bool {
    ||| op_text == "+"@
    ||| op_text == "-"@
    ||| op_text == "*"@
    ||| op_text == "+="@
    ||| op_text == "-="@
    ||| op_text == "*="@
}

/// The operator a finding of this rule is about, read back from its message;
/// `None` for a message that is not one of the rule's.
pub fn operator_of(message: &str) -> (r: Option<String>)
    ensures
        match r {
            Some(op) => is_reported_operator(op@) && message@ == overflow_message(op@),
            None => forall|op: Seq<char>| is_reported_operator(op) ==> message@ != overflow_message(op),
        },
{
    let ops: [&'static str; 6] = ["+", "-", "*", "+=", "-=", "*="];
    let mut i: usize = 0;
    while i < 6
        invariant
            0 <= i <= 6,
            ops@ == seq!["+", "-", "*", "+=", "-=", "*="],
            forall|j: int| 0 <= j < i ==> message@ != #[trigger] overflow_message(ops@[j]@),
        decreases 6 - i,
    {
        let mut expected = String::from_str("Unchecked '");
        expected.append(ops[i]);
        expected.append("' operation could overflow");
        if crate::text::eq_str(&expected, message) {
            return Some(String::from_str(ops[i]));
        }
        i = i + 1;
    }
    proof {
        assert forall|op: Seq<char>| is_reported_operator(op) implies message@ != overflow_message(op) by {
            if op == "+"@ { assert(overflow_message(ops@[0]@) == overflow_message(op)); }
            if op == "-"@ { assert(overflow_message(ops@[1]@) == overflow_message(op)); }
            if op == "*"@ { assert(overflow_message(ops@[2]@) == overflow_message(op)); }
            if op == "+="@ { assert(overflow_message(ops@[3]@) == overflow_message(op)); }
            if op == "-="@ { assert(overflow_message(ops@[4]@) == overflow_message(op)); }
            if op == "*="@ { assert(overflow_message(ops@[5]@) == overflow_message(op)); }
        }
    }
    None
}

/// each of `+ - * += -= *=` per function, unless an operand is a string literal.
pub struct ArithmeticOverflowRule;

impl ArithmeticOverflowRule {
    pub fn new() -> Self {
        ArithmeticOverflowRule
    }

    /// The findings for an already parsed file.
    pub fn check_file(&self, file: &SourceFile) -> (r: Vec<RuleViolation>)
        ensures
            violations_view(r@) == overflow_file_findings(*file),
    {
        let nodes = visit_source_file(file);
        let mut seen: Vec<(String, String)> = Vec::new();
        let mut out: Vec<RuleViolation> = Vec::new();
        let mut i: usize = 0;
        while i < nodes.len()
            invariant
                i <= nodes@.len(),
                nodes@ == visit_file(file),
                forall|k: (Seq<char>, Seq<char>)| keys_view(seen@).contains(k)
                    <==> op_keys(nodes@.subrange(0, i as int)).contains(k),
                violations_view(out@) == overflow_findings(nodes@.subrange(0, i as int)),
            decreases nodes@.len() - i,
        {
            let ghost prefix = nodes@.subrange(0, i as int);
            let ghost before = out@;
            let ghost seen_before = seen@;
            proof {
                assert(nodes@.subrange(0, i + 1).drop_last() =~= prefix);
                assert(nodes@.subrange(0, i + 1).last() == nodes@[i as int]);
            }
            match nodes[i] {
                Visited::Expr { expr, current_fn: Some(fn_name) } => match &expr.kind {
                    ExprKind::Binary { left, op, right } => match classify_op(op) {
                        Some((op_text, suggestion)) => {
                            if !expr_is_string_literal(left) && !expr_is_string_literal(right) {
                                if !seen_contains(&seen, fn_name, op_text) {
                                    seen.push((fn_name.clone(), String::from_str(op_text)));
                                    let mut message = String::from_str("Unchecked '");
                                    message.append(op_text);
                                    message.append("' operation could overflow");
                                    let mut location = fn_name.clone();
                                    location.append(":");
                                    push_decimal(&mut location, left.line);
                                    let v = RuleViolation::new("arithmetic_overflow", Severity::Warning, message, location)
                                        .with_suggestion(String::from_str(suggestion));
                                    out.push(v);
                                    proof {
                                        assert(keys_view(seen@) =~= keys_view(seen_before).push((fn_name@, op_text@)));
                                        assert(violations_view(out@) =~= violations_view(before).push(v@));
                                    }
                                }
                            }
                        },
                        None => {},
                    },
                    _ => {},
                },
                _ => {},
            }
            assert(seen_before.len() <= seen@.len() && forall|x: int| 0 <= x < seen_before.len() ==> seen@[x] == seen_before[x]);
            proof {
                let ghost next = nodes@.subrange(0, i + 1);
                assert(op_keys(next) == op_keys(prefix) + match unchecked_op(nodes@[i as int]) {
                    Some(o) => seq![(o.0, o.1)],
                    None => Seq::<(Seq<char>, Seq<char>)>::empty(),
                });
                assert forall|k: (Seq<char>, Seq<char>)| keys_view(seen@).contains(k)
                    <==> op_keys(next).contains(k) by {
                    if keys_view(seen@).contains(k) {
                        let idx = choose|idx: int| 0 <= idx < keys_view(seen@).len() && keys_view(seen@)[idx] == k;
                        if idx < seen_before.len() {
                            assert(keys_view(seen_before)[idx] == k);
                            assert(keys_view(seen_before).contains(k));
                            let j = choose|j: int| 0 <= j < op_keys(prefix).len() && op_keys(prefix)[j] == k;
                            assert(op_keys(next)[j] == k);
                        } else {
                            assert(op_keys(next)[op_keys(prefix).len() as int] == k);
                        }
                    }
                    if op_keys(next).contains(k) {
                        let j = choose|j: int| 0 <= j < op_keys(next).len() && op_keys(next)[j] == k;
                        if j < op_keys(prefix).len() {
                            assert(op_keys(prefix)[j] == k);
                            assert(op_keys(prefix).contains(k));
                            assert(keys_view(seen_before).contains(k));
                            let idx = choose|idx: int| 0 <= idx < keys_view(seen_before).len() && keys_view(seen_before)[idx] == k;
                            assert(0 <= idx < seen_before.len());
                            assert(seen@[idx] == seen_before[idx]);
                            assert(keys_view(seen_before)[idx] == (seen_before[idx].0@, seen_before[idx].1@));
                            assert(keys_view(seen@)[idx] == (seen@[idx].0@, seen@[idx].1@));
                            assert(keys_view(seen@)[idx] == k);
                        } else {
                            if !keys_view(seen_before).contains(k) {
                                assert(keys_view(seen@)[seen_before.len() as int] == k);
                            } else {
                                let idx = choose|idx: int| 0 <= idx < keys_view(seen_before).len() && keys_view(seen_before)[idx] == k;
                                assert(0 <= idx < seen_before.len());
                                assert(seen@[idx] == seen_before[idx]);
                                assert(keys_view(seen_before)[idx] == (seen_before[idx].0@, seen_before[idx].1@));
                                assert(keys_view(seen@)[idx] == (seen@[idx].0@, seen@[idx].1@));
                                assert(keys_view(seen@)[idx] == k);
                            }
                        }
                    }
                }
                assert(violations_view(out@) =~= overflow_findings(next));
            }
            i = i + 1;
        }
        proof {
            assert(nodes@.subrange(0, nodes@.len() as int) =~= nodes@);
        }
        out
    }
}

impl Default for ArithmeticOverflowRule {
    fn default() -> (r: Self)
        ensures
            r == ArithmeticOverflowRule,
    {
        Self::new()
    }
}

impl Rule for ArithmeticOverflowRule {
    open spec fn rule_name(&self) -> Seq<char> {
        "arithmetic_overflow"@
    }

    open spec fn violations(&self, source: Seq<char>) -> Seq<ViolationView> {
        match parse_rust_source(source) {
            Some(file) => overflow_file_findings(file),
            None => Seq::empty(),
        }
    }

    fn name(&self) -> (r: &str) {
        "arithmetic_overflow"
    }

    fn description(&self) -> (r: &str)
        ensures
            r@ == "Detects unchecked arithmetic operations that could overflow or underflow"@,
    {
        "Detects unchecked arithmetic operations that could overflow or underflow"
    }

    fn check(&self, source: &str) -> (r: Vec<RuleViolation>) {
        match parse_source(source) {
            Some(file) => self.check_file(&file),
            None => Vec::new(),
        }
    }
}

} // verus!
