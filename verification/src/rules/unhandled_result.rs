//! Flags calls in public functions whose `Result` is dropped without handling.
use vstd::prelude::*;
use crate::rules::{Rule, RuleViolation, Severity, ViolationView, violations_view};
use crate::rules::auth_gap::path_last_ident;
use crate::syntax::model::{ExprKind, ExprNode, FnItem, MatchArm, SourceFile, StmtNode, SynPath};
use crate::syntax::parse::{parse_rust_source, parse_source};
use crate::syntax::visit::{Visited, visit_file, visit_source_file};
use crate::text::{decimal, eq_str, push_decimal};
use vstd::utf8::{decode_utf8, encode_utf8, is_char_boundary};

verus! {

broadcast use vstd::utf8::encode_utf8_decode_utf8;

/// Whether a return type path ends in `Result`.
pub open spec fn ends_in_result(p: Option<SynPath>) -> bool {
    match p {
        Some(path) => path_last_ident(path) == Some("Result"@),
        None => false,
    }
}

/// Whether a method name handles a `Result`.
pub open spec fn is_handling_method(m: Seq<char>) -> bool {
    ||| m == "unwrap"@
    ||| m == "expect"@
    ||| m == "unwrap_or"@
    ||| m == "unwrap_or_else"@
    ||| m == "unwrap_or_default"@
    ||| m == "ok"@
    ||| m == "err"@
    ||| m == "is_ok"@
    ||| m == "is_err"@
    ||| m == "map"@
    ||| m == "map_err"@
    ||| m == "and_then"@
    ||| m == "or_else"@
    ||| m == "unwrap_unchecked"@
    ||| m == "expect_unchecked"@
}

/// Whether a callee is a path whose last segment is `Ok` or `Err`.
pub open spec fn calls_ok_or_err(func: ExprNode) -> bool {
    match func.kind {
        ExprKind::Path(p) => path_last_ident(p) == Some("Ok"@) || path_last_ident(p) == Some("Err"@),
        _ => false,
    }
}

/// Whether an expression handles the `Result` it produces: `?`, `match`, a
/// handling method, a call of `Ok`/`Err`, or an assignment of such.
pub open spec fn is_handled(e: &ExprNode) -> bool
    decreases e,
{
    match &e.kind {
        ExprKind::Try(_) => true,
        ExprKind::Match { .. } => true,
        ExprKind::MethodCall { method, .. } => is_handling_method(method@),
        ExprKind::Assign { right, .. } => is_handled(right),
        ExprKind::Call { func, .. } => calls_ok_or_err(**func),
        _ => false,
    }
}

/// Whether `name` is known not to return a `Result`: among the functions `rf`
/// of the file (each name with whether its return type ends in `Result`), some
/// function of that name is declared with another return type and none with a
/// `Result`.
pub open spec fn known_not_result(rf: Seq<(Seq<char>, bool)>, name: Seq<char>) -> bool {
    rf.contains((name, false)) && !rf.contains((name, true))
}

/// Whether a call is taken to return a `Result`: its callee is a path whose last
/// segment is none of `Ok`, `Err`, `Some`, `None`, `panic`, and does not name a
/// function of the file known not to return a `Result`.  The return type of a
/// function declared elsewhere is unknown, so a call of it counts.
pub open spec fn call_returns_result(func: ExprNode, rf: Seq<(Seq<char>, bool)>) -> bool {
    match func.kind {
        ExprKind::Path(p) => match path_last_ident(p) {
            Some(name) => !(name == "Ok"@ || name == "Err"@ || name == "Some"@ || name == "None"@
                || name == "panic"@) && !known_not_result(rf, name),
            None => false,
        },
        _ => false,
    }
}

/// The functions among `nodes`, each name with whether its return type ends in
/// `Result`, in visiting order.
pub open spec fn file_fns<'a>(nodes: Seq<Visited<'a>>) -> Seq<(Seq<char>, bool)>
    decreases nodes.len(),
{
    if nodes.len() == 0 {
        Seq::empty()
    } else {
        file_fns(nodes.drop_last()) + match nodes.last() {
            Visited::Fn { item, .. } => seq![(item.name@, ends_in_result(item.return_path))],
            _ => Seq::empty(),
        }
    }
}

/// The unhandled calls (token text and line) in an expression of a function
/// that returns a `Result` (`in_result_fn`) or not, and is public or not.
pub open spec fn expr_issues(e: &ExprNode, in_result_fn: bool, is_pub: bool, rf: Seq<(Seq<char>, bool)>) -> Seq<(Seq<char>, nat)>
    decreases e, 0nat,
{
    match &e.kind {
        ExprKind::Call { func, args } => if is_handled(e) {
            Seq::empty()
        } else {
            (if call_returns_result(**func, rf) && !in_result_fn && is_pub {
                seq![(e.text@, e.line as nat)]
            } else {
                Seq::empty()
            }) + exprs_issues(args@, in_result_fn, is_pub, rf)
        },
        ExprKind::MethodCall { receiver, args, .. } => (if !is_handled(e) {
            expr_issues(receiver, in_result_fn, is_pub, rf)
        } else {
            Seq::empty()
        }) + exprs_issues(args@, in_result_fn, is_pub, rf),
        ExprKind::Try(x) => expr_issues(x, true, is_pub, rf),
        ExprKind::Match { arms, .. } => arms_issues(arms@, in_result_fn, is_pub, rf),
        ExprKind::If { cond, then_branch, else_branch } => expr_issues(cond, in_result_fn, is_pub, rf)
            + stmts_issues(then_branch.stmts@, in_result_fn, is_pub, rf) + match else_branch {
            Some(x) => expr_issues(x, in_result_fn, is_pub, rf),
            None => Seq::empty(),
        },
        ExprKind::Block(b) => stmts_issues(b.stmts@, in_result_fn, is_pub, rf),
        ExprKind::Assign { right, .. } => expr_issues(right, in_result_fn, is_pub, rf),
        _ => Seq::empty(),
    }
}

/// The unhandled calls in a sequence of expressions.
pub open spec fn exprs_issues(s: Seq<ExprNode>, in_result_fn: bool, is_pub: bool, rf: Seq<(Seq<char>, bool)>) -> Seq<(Seq<char>, nat)>
    decreases s, 1nat,
{
    if s.len() == 0 {
        Seq::empty()
    } else {
        exprs_issues(s.drop_last(), in_result_fn, is_pub, rf) + expr_issues(&s.last(), in_result_fn, is_pub, rf)
    }
}

/// The unhandled calls in the bodies of match arms.
pub open spec fn arms_issues(s: Seq<MatchArm>, in_result_fn: bool, is_pub: bool, rf: Seq<(Seq<char>, bool)>) -> Seq<(Seq<char>, nat)>
    decreases s, 1nat,
{
    if s.len() == 0 {
        Seq::empty()
    } else {
        arms_issues(s.drop_last(), in_result_fn, is_pub, rf) + expr_issues(&s.last().body, in_result_fn, is_pub, rf)
    }
}

/// The unhandled calls in a statement (expressions and `let` initialisers).
pub open spec fn stmt_issues(st: &StmtNode, in_result_fn: bool, is_pub: bool, rf: Seq<(Seq<char>, bool)>) -> Seq<(Seq<char>, nat)>
    decreases st, 0nat,
{
    match st {
        StmtNode::Expr(e) => expr_issues(e, in_result_fn, is_pub, rf),
        StmtNode::Local { init, .. } => match init {
            Some(x) => expr_issues(x, in_result_fn, is_pub, rf),
            None => Seq::empty(),
        },
        _ => Seq::empty(),
    }
}

/// The unhandled calls in a sequence of statements.
pub open spec fn stmts_issues(s: Seq<StmtNode>, in_result_fn: bool, is_pub: bool, rf: Seq<(Seq<char>, bool)>) -> Seq<(Seq<char>, nat)>
    decreases s, 1nat,
{
    if s.len() == 0 {
        Seq::empty()
    } else {
        stmts_issues(s.drop_last(), in_result_fn, is_pub, rf) + stmt_issues(&s.last(), in_result_fn, is_pub, rf)
    }
}

/// Nothing is reported in a function that returns a `Result` itself or is not
/// public, whatever expression is scanned.
pub proof fn lemma_expr_quiet(e: &ExprNode, in_result_fn: bool, is_pub: bool, rf: Seq<(Seq<char>, bool)>)
    requires
        in_result_fn || !is_pub,
    ensures
        expr_issues(e, in_result_fn, is_pub, rf) == Seq::<(Seq<char>, nat)>::empty(),
    decreases e, 0nat,
{
    match &e.kind {
        ExprKind::Call { func, args } => {
            if !is_handled(e) {
                lemma_exprs_quiet(args@, in_result_fn, is_pub, rf);
                assert(expr_issues(e, in_result_fn, is_pub, rf) =~= Seq::<(Seq<char>, nat)>::empty());
            }
        },
        ExprKind::MethodCall { receiver, args, .. } => {
            lemma_expr_quiet(receiver, in_result_fn, is_pub, rf);
            lemma_exprs_quiet(args@, in_result_fn, is_pub, rf);
            assert(expr_issues(e, in_result_fn, is_pub, rf) =~= Seq::<(Seq<char>, nat)>::empty());
        },
        ExprKind::Try(x) => {
            lemma_expr_quiet(x, true, is_pub, rf);
        },
        ExprKind::Match { arms, .. } => {
            lemma_arms_quiet(arms@, in_result_fn, is_pub, rf);
        },
        ExprKind::If { cond, then_branch, else_branch } => {
            lemma_expr_quiet(cond, in_result_fn, is_pub, rf);
            lemma_stmts_quiet(then_branch.stmts@, in_result_fn, is_pub, rf);
            match else_branch {
                Some(x) => lemma_expr_quiet(x, in_result_fn, is_pub, rf),
                None => {},
            }
            assert(expr_issues(e, in_result_fn, is_pub, rf) =~= Seq::<(Seq<char>, nat)>::empty());
        },
        ExprKind::Block(b) => {
            lemma_stmts_quiet(b.stmts@, in_result_fn, is_pub, rf);
        },
        ExprKind::Assign { right, .. } => {
            lemma_expr_quiet(right, in_result_fn, is_pub, rf);
        },
        _ => {},
    }
}

/// `lemma_expr_quiet` for a sequence of expressions.
pub proof fn lemma_exprs_quiet(s: Seq<ExprNode>, in_result_fn: bool, is_pub: bool, rf: Seq<(Seq<char>, bool)>)
    requires
        in_result_fn || !is_pub,
    ensures
        exprs_issues(s, in_result_fn, is_pub, rf) == Seq::<(Seq<char>, nat)>::empty(),
    decreases s, 1nat,
{
    if s.len() > 0 {
        lemma_exprs_quiet(s.drop_last(), in_result_fn, is_pub, rf);
        lemma_expr_quiet(&s.last(), in_result_fn, is_pub, rf);
        assert(exprs_issues(s, in_result_fn, is_pub, rf) =~= Seq::<(Seq<char>, nat)>::empty());
    }
}

/// `lemma_expr_quiet` for the bodies of match arms.
pub proof fn lemma_arms_quiet(s: Seq<MatchArm>, in_result_fn: bool, is_pub: bool, rf: Seq<(Seq<char>, bool)>)
    requires
        in_result_fn || !is_pub,
    ensures
        arms_issues(s, in_result_fn, is_pub, rf) == Seq::<(Seq<char>, nat)>::empty(),
    decreases s, 1nat,
{
    if s.len() > 0 {
        lemma_arms_quiet(s.drop_last(), in_result_fn, is_pub, rf);
        lemma_expr_quiet(&s.last().body, in_result_fn, is_pub, rf);
        assert(arms_issues(s, in_result_fn, is_pub, rf) =~= Seq::<(Seq<char>, nat)>::empty());
    }
}

/// `lemma_expr_quiet` for a statement.
pub proof fn lemma_stmt_quiet(st: &StmtNode, in_result_fn: bool, is_pub: bool, rf: Seq<(Seq<char>, bool)>)
    requires
        in_result_fn || !is_pub,
    ensures
        stmt_issues(st, in_result_fn, is_pub, rf) == Seq::<(Seq<char>, nat)>::empty(),
    decreases st, 0nat,
{
    match st {
        StmtNode::Expr(e) => lemma_expr_quiet(e, in_result_fn, is_pub, rf),
        StmtNode::Local { init, .. } => match init {
            Some(x) => lemma_expr_quiet(x, in_result_fn, is_pub, rf),
            None => {},
        },
        _ => {},
    }
}

/// `lemma_expr_quiet` for a sequence of statements.
pub proof fn lemma_stmts_quiet(s: Seq<StmtNode>, in_result_fn: bool, is_pub: bool, rf: Seq<(Seq<char>, bool)>)
    requires
        in_result_fn || !is_pub,
    ensures
        stmts_issues(s, in_result_fn, is_pub, rf) == Seq::<(Seq<char>, nat)>::empty(),
    decreases s, 1nat,
{
    if s.len() > 0 {
        lemma_stmts_quiet(s.drop_last(), in_result_fn, is_pub, rf);
        lemma_stmt_quiet(&s.last(), in_result_fn, is_pub, rf);
        assert(stmts_issues(s, in_result_fn, is_pub, rf) =~= Seq::<(Seq<char>, nat)>::empty());
    }
}

/// A `Result` consumed by a handling method is handled: for a call of `unwrap`,
/// `expect`, `unwrap_or`, `unwrap_or_else`, `unwrap_or_default`, `ok`, `err`,
/// `is_ok`, `is_err`, `map`, `map_err`, `and_then`, `or_else`,
/// `unwrap_unchecked` or `expect_unchecked`, nothing in the receiver is reported,
/// only what the method's own arguments contain.  So a public function whose
/// body is `g(x).expect("..");` has no finding.
pub proof fn lemma_handling_methods_consume_the_result(e: &ExprNode, in_result_fn: bool, is_pub: bool, rf: Seq<(Seq<char>, bool)>)
    requires
        e.kind matches ExprKind::MethodCall { method, .. } && (method@ == "unwrap"@ || method@ == "expect"@
            || method@ == "unwrap_or"@ || method@ == "unwrap_or_else"@ || method@ == "unwrap_or_default"@
            || method@ == "ok"@ || method@ == "err"@ || method@ == "is_ok"@ || method@ == "is_err"@
            || method@ == "map"@ || method@ == "map_err"@ || method@ == "and_then"@ || method@ == "or_else"@
            || method@ == "unwrap_unchecked"@ || method@ == "expect_unchecked"@),
    ensures
        expr_issues(e, in_result_fn, is_pub, rf) == exprs_issues(e.kind->MethodCall_args@, in_result_fn, is_pub, rf),
{
    assert(is_handled(e));
    assert(expr_issues(e, in_result_fn, is_pub, rf) =~= exprs_issues(e.kind->MethodCall_args@, in_result_fn, is_pub, rf));
}

/// A `Result` propagated with `?` is handled, and so is everything inside the
/// operand: an expression `x?` reports nothing.  Calls of `Ok(..)` and `Err(..)`
/// build a `Result` rather than drop one, and are not reported either.
pub proof fn lemma_question_mark_and_constructors_report_nothing(e: &ExprNode, in_result_fn: bool, is_pub: bool, rf: Seq<(Seq<char>, bool)>)
    ensures
        e.kind is Try ==> expr_issues(e, in_result_fn, is_pub, rf) == Seq::<(Seq<char>, nat)>::empty(),
        e.kind matches ExprKind::Call { func, .. } && func.kind matches ExprKind::Path(p) && p.segments@.len() > 0
            && (p.segments@.last().ident@ == "Ok"@ || p.segments@.last().ident@ == "Err"@)
            ==> expr_issues(e, in_result_fn, is_pub, rf) == Seq::<(Seq<char>, nat)>::empty(),
{
    match &e.kind {
        ExprKind::Try(x) => {
            lemma_expr_quiet(x, true, is_pub, rf);
        },
        _ => {},
    }
}

/// In a public function that does not return a `Result`, a call of a path is
/// reported (its tokens and line, before whatever its arguments report) unless
/// it calls `Some`, `None` or `panic`, or a function that the file declares only
/// with another return type, when it reports only what its arguments contain;
/// or it builds a `Result` with `Ok` or `Err`, when it reports nothing.
pub proof fn lemma_unhandled_calls_are_reported(e: &ExprNode, rf: Seq<(Seq<char>, bool)>)
    requires
        e.kind matches ExprKind::Call { func, .. } && func.kind matches ExprKind::Path(p) && p.segments@.len() > 0,
    ensures
        ({
            let args = e.kind->Call_args@;
            let n = e.kind->Call_func.kind->Path_0.segments@.last().ident@;
            let declared_otherwise = rf.contains((n, false)) && !rf.contains((n, true));
            let builds = n == "Ok"@ || n == "Err"@;
            let exempt = n == "Some"@ || n == "None"@ || n == "panic"@;
            &&& builds ==> expr_issues(e, false, true, rf) == Seq::<(Seq<char>, nat)>::empty()
            &&& !builds && !exempt && !declared_otherwise ==> expr_issues(e, false, true, rf)
                == seq![(e.text@, e.line as nat)] + exprs_issues(args, false, true, rf)
            &&& !builds && (exempt || declared_otherwise) ==> expr_issues(e, false, true, rf) == exprs_issues(
                args,
                false,
                true,
                rf,
            )
        }),
{
    let args = e.kind->Call_args@;
    assert(seq![(e.text@, e.line as nat)] + exprs_issues(args, false, true, rf) =~= seq![(e.text@, e.line as nat)] + exprs_issues(args, false, true, rf));
    assert(Seq::<(Seq<char>, nat)>::empty() + exprs_issues(args, false, true, rf) =~= exprs_issues(args, false, true, rf));
}

/// Each unhandled call of `s` with the function name `name`.
pub open spec fn named_issues(name: Seq<char>, s: Seq<(Seq<char>, nat)>) -> Seq<(Seq<char>, Seq<char>, nat)> {
    s.map_values(|p: (Seq<char>, nat)| (name, p.0, p.1))
}

/// The unhandled calls of a function, each with the function's name.
pub open spec fn fn_issues(f: FnItem, rf: Seq<(Seq<char>, bool)>) -> Seq<(Seq<char>, Seq<char>, nat)> {
    named_issues(f.name@, stmts_issues(f.body.stmts@, ends_in_result(f.return_path), f.is_pub, rf))
}

/// The unhandled calls of the functions that a visitor reaches outside any other
/// function's body, in visiting order.
pub open spec fn node_issues<'a>(nodes: Seq<Visited<'a>>, rf: Seq<(Seq<char>, bool)>) -> Seq<(Seq<char>, Seq<char>, nat)>
    decreases nodes.len(),
{
    if nodes.len() == 0 {
        Seq::empty()
    } else {
        node_issues(nodes.drop_last(), rf) + match nodes.last() {
            Visited::Fn { item, current_fn: None } => fn_issues(*item, rf),
            _ => Seq::empty(),
        }
    }
}

/// The largest character boundary of `bytes` at or below `k`.
pub open spec fn boundary_at_most(bytes: Seq<u8>, k: nat) -> nat
    decreases k,
{
    if k == 0 || is_char_boundary(bytes, k as int) {
        k
    } else {
        boundary_at_most(bytes, (k - 1) as nat)
    }
}

/// `text` shortened for a message: past 80 bytes, its characters within the
/// first 77 bytes (cut at the last character boundary there) and `...`.
pub open spec fn shortened(text: Seq<char>) -> Seq<char> {
    if encode_utf8(text).len() > 80 {
        decode_utf8(encode_utf8(text).subrange(0, boundary_at_most(encode_utf8(text), 77) as int)) + "..."@
    } else {
        text
    }
}

/// The finding for an unhandled call with token text `text` on line `line` of
/// the function `fn_name`.
pub open spec fn unhandled_violation(fn_name: Seq<char>, text: Seq<char>, line: nat) -> ViolationView {
    ViolationView {
        rule_name: "unhandled_result"@,
        severity: Severity::Warning,
        message: "Result returned from '"@ + shortened(text) + "' is not handled"@,
        location: fn_name + ":"@ + decimal(line),
        suggestion: Some("Use ?, match, or .unwrap()/.expect() to handle the Result"@),
    }
}

/// The finding for each unhandled call of `s`.
pub open spec fn issue_violations(s: Seq<(Seq<char>, Seq<char>, nat)>) -> Seq<ViolationView> {
    s.map_values(|p: (Seq<char>, Seq<char>, nat)| unhandled_violation(p.0, p.1, p.2))
}

/// The findings of the rule for a parsed file.
pub open spec fn unhandled_file_findings(file: SourceFile) -> Seq<ViolationView> {
    let nodes = visit_file(&file);
    issue_violations(node_issues(nodes, file_fns(nodes)))
}

/// The unhandled calls found so far, each with its function name.
pub open spec fn found_view(v: Seq<(String, String, usize)>) -> Seq<(Seq<char>, Seq<char>, nat)> {
    v.map_values(|p: (String, String, usize)| (p.0@, p.1@, p.2 as nat))
}

proof fn lemma_found_view_push(v: Seq<(String, String, usize)>, x: (String, String, usize))
    ensures
        found_view(v.push(x)) == found_view(v).push((x.0@, x.1@, x.2 as nat)),
{
    assert(found_view(v.push(x)) =~= found_view(v).push((x.0@, x.1@, x.2 as nat)));
}

proof fn lemma_named_issues_extend(name: Seq<char>, s: Seq<(Seq<char>, nat)>, j: int)
    requires
        0 <= j < s.len(),
    ensures
        named_issues(name, s.subrange(0, j + 1)) == named_issues(name, s.subrange(0, j)).push(
            (name, s[j].0, s[j].1),
        ),
{
    assert(named_issues(name, s.subrange(0, j + 1)) =~= named_issues(name, s.subrange(0, j)).push(
        (name, s[j].0, s[j].1),
    ));
}

proof fn lemma_issue_violations_extend(s: Seq<(Seq<char>, Seq<char>, nat)>, k: int)
    requires
        0 <= k < s.len(),
    ensures
        issue_violations(s.subrange(0, k + 1)) == issue_violations(s.subrange(0, k)).push(
            unhandled_violation(s[k].0, s[k].1, s[k].2),
        ),
{
    assert(issue_violations(s.subrange(0, k + 1)) =~= issue_violations(s.subrange(0, k)).push(
        unhandled_violation(s[k].0, s[k].1, s[k].2),
    ));
}

proof fn lemma_violations_view_push(v: Seq<RuleViolation>, x: RuleViolation)
    ensures
        violations_view(v.push(x)) == violations_view(v).push(x@),
{
    assert(violations_view(v.push(x)) =~= violations_view(v).push(x@));
}

/// Whether `e` handles its `Result`.
fn expr_is_handled(e: &ExprNode) -> (r: bool)
    ensures
        r == is_handled(e),
    decreases e,
{
    match &e.kind {
        ExprKind::Try(_) => true,
        ExprKind::Match { .. } => true,
        ExprKind::MethodCall { method, .. } => {
            eq_str(method, "unwrap") || eq_str(method, "expect") || eq_str(method, "unwrap_or")
                || eq_str(method, "unwrap_or_else") || eq_str(method, "unwrap_or_default")
                || eq_str(method, "ok") || eq_str(method, "err") || eq_str(method, "is_ok")
                || eq_str(method, "is_err") || eq_str(method, "map") || eq_str(method, "map_err")
                || eq_str(method, "and_then") || eq_str(method, "or_else")
                || eq_str(method, "unwrap_unchecked") || eq_str(method, "expect_unchecked")
        },
        ExprKind::Assign { right, .. } => {
            proof { assert(decreases_to!(*e => e.kind)); assert(decreases_to!(e.kind => e.kind->Assign_right)); }
            expr_is_handled(right)
        },
        ExprKind::Call { func, .. } => {
            match &func.kind {
                ExprKind::Path(p) => {
                    let n = p.segments.len();
                    n > 0 && (eq_str(&p.segments[n - 1].ident, "Ok") || eq_str(&p.segments[n - 1].ident, "Err"))
                },
                _ => false,
            }
        },
        _ => false,
    }
}

/// The text of each function name in `v`, with its flag.
pub open spec fn fns_of(v: Seq<(String, bool)>) -> Seq<(Seq<char>, bool)> {
    v.map_values(|p: (String, bool)| (p.0@, p.1))
}

/// Whether `(name, flag)` is one of `rf`.
fn has_fn(rf: &Vec<(String, bool)>, name: &String, flag: bool) -> (r: bool)
    ensures
        r == fns_of(rf@).contains((name@, flag)),
{
    let mut i: usize = 0;
    while i < rf.len()
        invariant
            i <= rf@.len(),
            forall|j: int| 0 <= j < i ==> #[trigger] fns_of(rf@)[j] != (name@, flag),
        decreases rf@.len() - i,
    {
        if rf[i].1 == flag && eq_str(&rf[i].0, name.as_str()) {
            proof {
                assert(fns_of(rf@)[i as int] == (name@, flag));
            }
            return true;
        }
        proof {
            assert(fns_of(rf@)[i as int] == (rf@[i as int].0@, rf@[i as int].1));
        }
        i = i + 1;
    }
    false
}

/// Whether a call with callee `func` is taken to return a `Result`.
fn returns_result(func: &ExprNode, rf: &Vec<(String, bool)>) -> (r: bool)
    ensures
        r == call_returns_result(*func, fns_of(rf@)),
{
    match &func.kind {
        ExprKind::Path(p) => {
            let n = p.segments.len();
            if n == 0 {
                false
            } else {
                let name = &p.segments[n - 1].ident;
                !(eq_str(name, "Ok") || eq_str(name, "Err") || eq_str(name, "Some")
                    || eq_str(name, "None") || eq_str(name, "panic"))
                    && !(has_fn(rf, name, false) && !has_fn(rf, name, true))
            }
        },
        _ => false,
    }
}

/// The text and line of each unhandled call, as found so far.
pub open spec fn raw_view(v: Seq<(String, usize)>) -> Seq<(Seq<char>, nat)> {
    v.map_values(|p: (String, usize)| (p.0@, p.1 as nat))
}

/// Appends the unhandled calls of an expression to `out`.
pub fn check_expr(e: &ExprNode, in_result_fn: bool, is_pub: bool, rf: &Vec<(String, bool)>, out: &mut Vec<(String, usize)>)
    ensures
        raw_view(final(out)@) == raw_view(old(out)@) + expr_issues(e, in_result_fn, is_pub, fns_of(rf@)),
        in_result_fn || !is_pub ==> raw_view(final(out)@) == raw_view(old(out)@),
    decreases e, 0nat,
{
    let ghost start = out@;
    match &e.kind {
        ExprKind::Call { func, args } => {
            if expr_is_handled(e) {
                proof { assert(raw_view(out@) =~= raw_view(start) + expr_issues(e, in_result_fn, is_pub, fns_of(rf@))); }
                return;
            }
            if returns_result(func, rf) && !in_result_fn && is_pub {
                out.push((e.text.clone(), e.line));
            }
            let ghost mid = out@;
            proof { assert(decreases_to!(*e => e.kind)); assert(decreases_to!(e.kind => e.kind->Call_args)); assert(decreases_to!(e.kind->Call_args => args@)); }
            check_exprs(args, in_result_fn, is_pub, rf, out);
        },
        ExprKind::MethodCall { receiver, args, .. } => {
            proof { assert(decreases_to!(*e => e.kind)); assert(decreases_to!(e.kind => e.kind->receiver)); assert(decreases_to!(e.kind => e.kind->MethodCall_args)); assert(decreases_to!(e.kind->MethodCall_args => args@)); }
            if !expr_is_handled(e) {
                check_expr(receiver, in_result_fn, is_pub, rf, out);
            }
            check_exprs(args, in_result_fn, is_pub, rf, out);
        },
        ExprKind::Try(x) => {
            proof { assert(decreases_to!(*e => e.kind)); assert(decreases_to!(e.kind => e.kind->Try_0)); }
            check_expr(x, true, is_pub, rf, out);
        },
        ExprKind::Match { arms, .. } => {
            proof { assert(decreases_to!(*e => e.kind)); assert(decreases_to!(e.kind => e.kind->arms)); assert(decreases_to!(e.kind->arms => arms@)); }
            check_arms(arms, in_result_fn, is_pub, rf, out);
        },
        ExprKind::If { cond, then_branch, else_branch } => {
            proof { assert(decreases_to!(*e => e.kind)); assert(decreases_to!(e.kind => e.kind->cond)); assert(decreases_to!(e.kind => e.kind->then_branch)); assert(decreases_to!(e.kind->then_branch => then_branch.stmts)); assert(decreases_to!(then_branch.stmts => then_branch.stmts@)); }
            check_expr(cond, in_result_fn, is_pub, rf, out);
            check_block(&then_branch.stmts, in_result_fn, is_pub, rf, out);
            match else_branch {
                Some(x) => {
                    proof { assert(decreases_to!(e.kind => e.kind->else_branch)); assert(decreases_to!(e.kind->else_branch => e.kind->else_branch->0)); }
                    check_expr(x, in_result_fn, is_pub, rf, out);
                },
                None => {},
            }
        },
        ExprKind::Block(b) => {
            proof { assert(decreases_to!(*e => e.kind)); assert(decreases_to!(e.kind => e.kind->Block_0)); assert(decreases_to!(e.kind->Block_0 => b.stmts)); assert(decreases_to!(b.stmts => b.stmts@)); }
            check_block(&b.stmts, in_result_fn, is_pub, rf, out);
        },
        ExprKind::Assign { right, .. } => {
            proof { assert(decreases_to!(*e => e.kind)); assert(decreases_to!(e.kind => e.kind->Assign_right)); }
            check_expr(right, in_result_fn, is_pub, rf, out);
        },
        _ => {},
    }
    proof {
        assert(raw_view(out@) =~= raw_view(start) + expr_issues(e, in_result_fn, is_pub, fns_of(rf@)));
        if in_result_fn || !is_pub {
            lemma_expr_quiet(e, in_result_fn, is_pub, fns_of(rf@));
            assert(raw_view(out@) =~= raw_view(start));
        }
    }
}

/// Appends the unhandled calls of each expression of `v` to `out`.
fn check_exprs(v: &Vec<ExprNode>, in_result_fn: bool, is_pub: bool, rf: &Vec<(String, bool)>, out: &mut Vec<(String, usize)>)
    ensures
        raw_view(final(out)@) == raw_view(old(out)@) + exprs_issues(v@, in_result_fn, is_pub, fns_of(rf@)),
    decreases v@, 1nat,
{
    let ghost start = out@;
    let mut i: usize = 0;
    while i < v.len()
        invariant
            i <= v@.len(),
            raw_view(out@) == raw_view(start) + exprs_issues(v@.subrange(0, i as int), in_result_fn, is_pub, fns_of(rf@)),
        decreases v@.len() - i,
    {
        proof {
            assert(decreases_to!(v@ => v@[i as int]));
            assert(v@.subrange(0, i + 1).drop_last() =~= v@.subrange(0, i as int));
        }
        check_expr(&v[i], in_result_fn, is_pub, rf, out);
        proof {
            assert(raw_view(out@) =~= raw_view(start) + exprs_issues(v@.subrange(0, i + 1), in_result_fn, is_pub, fns_of(rf@)));
        }
        i = i + 1;
    }
    proof {
        assert(v@.subrange(0, v@.len() as int) =~= v@);
    }
}

/// Appends the unhandled calls in the bodies of the arms of `v` to `out`.
fn check_arms(v: &Vec<MatchArm>, in_result_fn: bool, is_pub: bool, rf: &Vec<(String, bool)>, out: &mut Vec<(String, usize)>)
    ensures
        raw_view(final(out)@) == raw_view(old(out)@) + arms_issues(v@, in_result_fn, is_pub, fns_of(rf@)),
    decreases v@, 1nat,
{
    let ghost start = out@;
    let mut i: usize = 0;
    while i < v.len()
        invariant
            i <= v@.len(),
            raw_view(out@) == raw_view(start) + arms_issues(v@.subrange(0, i as int), in_result_fn, is_pub, fns_of(rf@)),
        decreases v@.len() - i,
    {
        proof {
            assert(decreases_to!(v@ => v@[i as int]));
            assert(decreases_to!(v@[i as int] => v@[i as int].body));
            assert(v@.subrange(0, i + 1).drop_last() =~= v@.subrange(0, i as int));
        }
        check_expr(&v[i].body, in_result_fn, is_pub, rf, out);
        proof {
            assert(raw_view(out@) =~= raw_view(start) + arms_issues(v@.subrange(0, i + 1), in_result_fn, is_pub, fns_of(rf@)));
        }
        i = i + 1;
    }
    proof {
        assert(v@.subrange(0, v@.len() as int) =~= v@);
    }
}

/// Appends the unhandled calls of a statement to `out`.
fn check_statement(st: &StmtNode, in_result_fn: bool, is_pub: bool, rf: &Vec<(String, bool)>, out: &mut Vec<(String, usize)>)
    ensures
        raw_view(final(out)@) == raw_view(old(out)@) + stmt_issues(st, in_result_fn, is_pub, fns_of(rf@)),
    decreases st, 0nat,
{
    match st {
        StmtNode::Expr(e) => {
            proof { assert(decreases_to!(*st => st->Expr_0)); }
            check_expr(e, in_result_fn, is_pub, rf, out);
        },
        StmtNode::Local { init, .. } => {
            match init {
                Some(x) => {
                    proof { assert(decreases_to!(*st => st->Local_init)); assert(decreases_to!(st->Local_init => st->Local_init->0)); }
                    check_expr(x, in_result_fn, is_pub, rf, out);
                },
                None => {
                    proof { assert(raw_view(out@) =~= raw_view(out@) + Seq::<(Seq<char>, nat)>::empty()); }
                },
            }
        },
        _ => {
            proof { assert(raw_view(out@) =~= raw_view(out@) + Seq::<(Seq<char>, nat)>::empty()); }
        },
    }
}

/// Appends the unhandled calls of a block's statements to `out`.
pub fn check_block(v: &Vec<StmtNode>, in_result_fn: bool, is_pub: bool, rf: &Vec<(String, bool)>, out: &mut Vec<(String, usize)>)
    ensures
        raw_view(final(out)@) == raw_view(old(out)@) + stmts_issues(v@, in_result_fn, is_pub, fns_of(rf@)),
    decreases v@, 1nat,
{
    let ghost start = out@;
    let mut i: usize = 0;
    while i < v.len()
        invariant
            i <= v@.len(),
            raw_view(out@) == raw_view(start) + stmts_issues(v@.subrange(0, i as int), in_result_fn, is_pub, fns_of(rf@)),
        decreases v@.len() - i,
    {
        proof {
            assert(decreases_to!(v@ => v@[i as int]));
            assert(v@.subrange(0, i + 1).drop_last() =~= v@.subrange(0, i as int));
        }
        check_statement(&v[i], in_result_fn, is_pub, rf, out);
        proof {
            assert(raw_view(out@) =~= raw_view(start) + stmts_issues(v@.subrange(0, i + 1), in_result_fn, is_pub, fns_of(rf@)));
        }
        i = i + 1;
    }
    proof {
        assert(v@.subrange(0, v@.len() as int) =~= v@);
    }
}

/// Whether a return type path ends in `Result`.
fn returns_result_type(p: &Option<SynPath>) -> (r: bool)
    ensures
        r == ends_in_result(*p),
{
    match p {
        Some(path) => {
            let n = path.segments.len();
            n > 0 && eq_str(&path.segments[n - 1].ident, "Result")
        },
        None => false,
    }
}

/// `text` shortened for a message.
fn shorten(text: &String) -> (r: String)
    ensures
        r@ == shortened(text@),
{
    let s = text.as_str();
    let byte_len = s.as_bytes().len();
    if byte_len > 80 {
        let mut b: usize = 77;
        while b > 0 && !s.is_char_boundary(b)
            invariant
                b <= 77,
                byte_len == encode_utf8(text@).len(),
                s@ == text@,
                boundary_at_most(encode_utf8(text@), 77) == boundary_at_most(encode_utf8(text@), b as nat),
            decreases b,
        {
            b = b - 1;
        }
        proof {
            vstd::utf8::encode_utf8_valid_utf8(text@);
            vstd::utf8::is_char_boundary_start_end_of_seq(encode_utf8(text@));
            assert(boundary_at_most(encode_utf8(text@), b as nat) == b);
        }
        let (head, _) = s.split_at(b);
        let mut out = String::from_str(head);
        out.append("...");
        proof {
            vstd::utf8::encode_utf8_decode_utf8(head@);
        }
        out
    } else {
        text.clone()
    }
}

/// The functions among `nodes`, each name with whether its return type ends in
/// `Result`.
fn file_functions<'a>(nodes: &Vec<Visited<'a>>) -> (r: Vec<(String, bool)>)
    ensures
        fns_of(r@) == file_fns(nodes@),
{
    let mut r: Vec<(String, bool)> = Vec::new();
    let mut i: usize = 0;
    while i < nodes.len()
        invariant
            i <= nodes@.len(),
            fns_of(r@) == file_fns(nodes@.subrange(0, i as int)),
        decreases nodes@.len() - i,
    {
        proof {
            assert(nodes@.subrange(0, i + 1).drop_last() =~= nodes@.subrange(0, i as int));
        }
        let ghost before = r@;
        match nodes[i] {
            Visited::Fn { item, .. } => {
                let flag = returns_result_type(&item.return_path);
                r.push((item.name.clone(), flag));
                proof {
                    assert(fns_of(r@) =~= fns_of(before).push((item.name@, flag)));
                }
            },
            _ => {},
        }
        proof {
            assert(fns_of(r@) =~= file_fns(nodes@.subrange(0, i + 1)));
        }
        i = i + 1;
    }
    proof {
        assert(nodes@.subrange(0, nodes@.len() as int) =~= nodes@);
    }
    r
}

/// Flags, in public functions that do not themselves return a `Result`, calls
/// that may return a `Result` (every call but those of `Ok`, `Err`, `Some`,
/// `None`, `panic` and of functions of the file known to return something else)
/// whose result is neither propagated, matched nor handled by a method.
pub struct UnhandledResultRule;

impl UnhandledResultRule {
    pub fn new() -> Self {
        UnhandledResultRule
    }

    /// The findings for an already parsed file.
    pub fn check_file(&self, file: &SourceFile) -> (r: Vec<RuleViolation>)
        ensures
            violations_view(r@) == unhandled_file_findings(*file),
    {
        let nodes = visit_source_file(file);
        let rf = file_functions(&nodes);
        let ghost names = fns_of(rf@);
        let mut raws: Vec<(String, String, usize)> = Vec::new();
        let mut i: usize = 0;
        while i < nodes.len()
            invariant
                i <= nodes@.len(),
                nodes@ == visit_file(file),
                names == fns_of(rf@),
                names == file_fns(visit_file(file)),
                found_view(raws@)
                    == node_issues(nodes@.subrange(0, i as int), names),
            decreases nodes@.len() - i,
        {
            proof {
                assert(nodes@.subrange(0, i + 1).drop_last() =~= nodes@.subrange(0, i as int));
            }
            let ghost before = raws@;
            match nodes[i] {
                Visited::Fn { item, current_fn: None } => {
                    let mut found: Vec<(String, usize)> = Vec::new();
                    let in_result_fn = returns_result_type(&item.return_path);
                    check_block(&item.body.stmts, in_result_fn, item.is_pub, &rf, &mut found);
                    proof {
                        assert(raw_view(found@) =~= stmts_issues(item.body.stmts@, in_result_fn, item.is_pub, names));
                    }
                    let mut j: usize = 0;
                    while j < found.len()
                        invariant
                            j <= found@.len(),
                            found_view(raws@)
                                == found_view(before)
                                + named_issues(item.name@, raw_view(found@).subrange(0, j as int)),
                        decreases found@.len() - j,
                    {
                        let ghost mid = raws@;
                        let entry = (item.name.clone(), found[j].0.clone(), found[j].1);
                        raws.push(entry);
                        proof {
                            lemma_found_view_push(mid, entry);
                            lemma_named_issues_extend(item.name@, raw_view(found@), j as int);
                            assert(raw_view(found@)[j as int] == (found@[j as int].0@, found@[j as int].1 as nat));
                            assert(found_view(raws@)
                                =~= found_view(before)
                                + named_issues(item.name@, raw_view(found@).subrange(0, j + 1)));
                        }
                        j = j + 1;
                    }
                    proof {
                        assert(raw_view(found@).subrange(0, found@.len() as int) =~= raw_view(found@));
                    }
                },
                _ => {},
            }
            proof {
                assert(found_view(raws@)
                    =~= node_issues(nodes@.subrange(0, i + 1), names));
            }
            i = i + 1;
        }
        proof {
            assert(nodes@.subrange(0, nodes@.len() as int) =~= nodes@);
        }
        let ghost issues = node_issues(visit_file(file), file_fns(visit_file(file)));
        let mut out: Vec<RuleViolation> = Vec::new();
        let mut k: usize = 0;
        while k < raws.len()
            invariant
                k <= raws@.len(),
                issues == node_issues(visit_file(file), file_fns(visit_file(file))),
                issues == found_view(raws@),
                violations_view(out@) == issue_violations(issues.subrange(0, k as int)),
            decreases raws@.len() - k,
        {
            let ghost before = out@;
            proof {
                assert(issues[k as int] == (raws@[k as int].0@, raws@[k as int].1@, raws@[k as int].2 as nat));
            }
            let short = shorten(&raws[k].1);
            let mut message = String::from_str("Result returned from '");
            message.append(short.as_str());
            message.append("' is not handled");
            let mut location = raws[k].0.clone();
            location.append(":");
            push_decimal(&mut location, raws[k].2);
            let v = RuleViolation::new("unhandled_result", Severity::Warning, message, location)
                .with_suggestion(String::from_str("Use ?, match, or .unwrap()/.expect() to handle the Result"));
            out.push(v);
            proof {
                lemma_violations_view_push(before, v);
                lemma_issue_violations_extend(issues, k as int);
                assert(v@ == unhandled_violation(issues[k as int].0, issues[k as int].1, issues[k as int].2));
                assert(violations_view(out@) =~= issue_violations(issues.subrange(0, k + 1)));
            }
            k = k + 1;
        }
        proof {
            assert(issues.subrange(0, issues.len() as int) =~= issues);
        }
        out
    }
}

impl Default for UnhandledResultRule {
    fn default() -> (r: Self)
        ensures
            r == UnhandledResultRule,
    {
        Self::new()
    }
}

impl Rule for UnhandledResultRule {
    open spec fn rule_name(&self) -> Seq<char> {
        "unhandled_result"@
    }

    open spec fn violations(&self, source: Seq<char>) -> Seq<ViolationView> {
        match parse_rust_source(source) {
            Some(file) => unhandled_file_findings(file),
            None => Seq::empty(),
        }
    }

    fn name(&self) -> (r: &str) {
        "unhandled_result"
    }

    fn description(&self) -> (r: &str)
        ensures
            r@ == "Detects unhandled Result types in public contract functions"@,
    {
        "Detects unhandled Result types in public contract functions"
    }

    fn check(&self, source: &str) -> (r: Vec<RuleViolation>) {
        match parse_source(source) {
            Some(file) => self.check_file(&file),
            None => Vec::new(),
        }
    }
}

} // verus!
