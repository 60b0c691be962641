//! Flags public contract methods that write storage without an authorisation
//! check.
use vstd::prelude::*;
use crate::rules::{Rule, RuleViolation, Severity, ViolationView, violations_view};
use crate::syntax::model::{
    BlockNode, ExprKind, ExprNode, ImplItemNode, ItemNode, MatchArm, SourceFile, StmtNode, SynPath,
};
use crate::syntax::parse::{parse_rust_source, parse_source};
use crate::text::{contains, eq_str, has_substring};

verus! {

/// What a function body does to contract storage, as far as the rule can see.
#[derive(Clone, Copy)]
pub struct AuthFlags {
    pub has_mutation: bool,
    pub has_read: bool,
    pub has_auth: bool,
}

/// No storage access and no authorisation seen.
pub open spec fn no_flags() -> AuthFlags {
    AuthFlags { has_mutation: false, has_read: false, has_auth: false }
}

/// What either of two code fragments does.
pub open spec fn join_flags(a: AuthFlags, b: AuthFlags) -> AuthFlags {
    AuthFlags {
        has_mutation: a.has_mutation || b.has_mutation,
        has_read: a.has_read || b.has_read,
        has_auth: a.has_auth || b.has_auth,
    }
}

/// Whether `name` is an authorisation call: `require_auth` or `require_auth_for_args`.
pub open spec fn is_auth_name(name: Seq<char>) -> bool {
    name == "require_auth"@ || name == "require_auth_for_args"@
}

/// Whether `text` names a storage handle: it contains `storage`, `persistent`,
/// `temporary` or `instance`.
pub open spec fn mentions_storage(text: Seq<char>) -> bool {
    has_substring(text, "storage"@) || has_substring(text, "persistent"@)
        || has_substring(text, "temporary"@) || has_substring(text, "instance"@)
}

/// Whether `p` is the single identifier `name`, without `::` or generic arguments.
pub open spec fn path_is_ident(p: SynPath, name: Seq<char>) -> bool {
    &&& !p.leading_colon
    &&& p.segments@.len() == 1
    &&& !p.segments@[0].has_arguments
    &&& p.segments@[0].ident@ == name
}

/// The identifier of the last segment of a path, if it has segments.
pub open spec fn path_last_ident(p: SynPath) -> Option<Seq<char>> {
    if p.segments@.len() == 0 {
        None
    } else {
        Some(p.segments@.last().ident@)
    }
}

/// What a call does by itself: calling a path whose last segment is an
/// authorisation function counts as an authorisation check.
pub open spec fn call_flags(func: ExprNode) -> AuthFlags {
    match func.kind {
        ExprKind::Path(p) => match path_last_ident(p) {
            Some(name) => AuthFlags { has_auth: is_auth_name(name), ..no_flags() },
            None => no_flags(),
        },
        _ => no_flags(),
    }
}

/// What a method call does by itself.  The storage test reads the tokens of the
/// whole call followed by ` . receiver`.
pub open spec fn method_flags(method: Seq<char>, text: Seq<char>) -> AuthFlags {
    let receiver_text = text + " . receiver"@;
    AuthFlags {
        has_mutation: (method == "set"@ || method == "update"@ || method == "remove"@)
            && mentions_storage(receiver_text),
        has_read: method == "get"@ && mentions_storage(receiver_text),
        has_auth: is_auth_name(method),
    }
}

/// What an expression does: calls (with their arguments), method calls (with
/// receiver and arguments), blocks, `if` and `match` (scrutinee and arm bodies).
pub open spec fn expr_flags(e: &ExprNode) -> AuthFlags
    decreases e, 0nat,
{
    match &e.kind {
        ExprKind::Call { func, args } => join_flags(call_flags(**func), exprs_flags(args@)),
        ExprKind::MethodCall { receiver, method, args, .. } => join_flags(
            method_flags(method@, e.text@),
            join_flags(expr_flags(receiver), exprs_flags(args@)),
        ),
        ExprKind::Block(b) => stmts_flags(b.stmts@),
        ExprKind::If { cond, then_branch, else_branch } => join_flags(
            expr_flags(cond),
            join_flags(
                stmts_flags(then_branch.stmts@),
                match else_branch {
                    Some(x) => expr_flags(x),
                    None => no_flags(),
                },
            ),
        ),
        ExprKind::Match { scrutinee, arms } => join_flags(expr_flags(scrutinee), arms_flags(arms@)),
        _ => no_flags(),
    }
}

/// What a sequence of expressions does.
pub open spec fn exprs_flags(s: Seq<ExprNode>) -> AuthFlags
    decreases s, 1nat,
{
    if s.len() == 0 {
        no_flags()
    } else {
        join_flags(exprs_flags(s.drop_last()), expr_flags(&s.last()))
    }
}

/// What the bodies of match arms do.
pub open spec fn arms_flags(s: Seq<MatchArm>) -> AuthFlags
    decreases s, 1nat,
{
    if s.len() == 0 {
        no_flags()
    } else {
        join_flags(arms_flags(s.drop_last()), expr_flags(&s.last().body))
    }
}

/// What a statement does: expressions, `let` initialisers, and the macros
/// `require_auth!` and `require_auth_for_args!` as authorisation checks.
pub open spec fn stmt_flags(st: &StmtNode) -> AuthFlags
    decreases st, 0nat,
{
    match st {
        StmtNode::Expr(e) => expr_flags(e),
        StmtNode::Local { init, .. } => match init {
            Some(x) => expr_flags(x),
            None => no_flags(),
        },
        StmtNode::Macro(p) => AuthFlags {
            has_auth: path_is_ident(*p, "require_auth"@) || path_is_ident(*p, "require_auth_for_args"@),
            ..no_flags()
        },
        StmtNode::Item(_) => no_flags(),
    }
}

/// What a sequence of statements does.
pub open spec fn stmts_flags(s: Seq<StmtNode>) -> AuthFlags
    decreases s, 1nat,
{
    if s.len() == 0 {
        no_flags()
    } else {
        join_flags(stmts_flags(s.drop_last()), stmt_flags(&s.last()))
    }
}

/// Whether a function body is an authentication gap: it mutates storage and
/// checks no authorisation.
pub open spec fn is_auth_gap(body: BlockNode) -> bool {
    let f = stmts_flags(body.stmts@);
    f.has_mutation && !f.has_auth
}

/// Text that contains `t` still contains it with more text appended.
proof fn lemma_substring_of_extension(a: Seq<char>, b: Seq<char>, t: Seq<char>)
    requires
        has_substring(a, t),
    ensures
        has_substring(a + b, t),
{
    let i = choose|i: int| 0 <= i && i + t.len() <= a.len() && #[trigger] a.subrange(i, i + t.len()) == t;
    assert((a + b).subrange(i, i + t.len()) =~= a.subrange(i, i + t.len()));
}

/// A call of `set`, `update` or `remove` whose text names a storage handle
/// (`storage`, `persistent`, `temporary` or `instance`) is a storage mutation:
/// the function that makes it is counted as mutating storage, whatever else the
/// call contains; without an authorisation check it is a gap.
pub proof fn lemma_storage_writes_are_mutations(e: ExprNode)
    requires
        e.kind matches ExprKind::MethodCall { method, .. } && (method@ == "set"@ || method@ == "update"@
            || method@ == "remove"@),
        has_substring(e.text@, "storage"@) || has_substring(e.text@, "persistent"@) || has_substring(
            e.text@,
            "temporary"@,
        ) || has_substring(e.text@, "instance"@),
    ensures
        expr_flags(&e).has_mutation,
{
    let r = " . receiver"@;
    if has_substring(e.text@, "storage"@) {
        lemma_substring_of_extension(e.text@, r, "storage"@);
    }
    if has_substring(e.text@, "persistent"@) {
        lemma_substring_of_extension(e.text@, r, "persistent"@);
    }
    if has_substring(e.text@, "temporary"@) {
        lemma_substring_of_extension(e.text@, r, "temporary"@);
    }
    if has_substring(e.text@, "instance"@) {
        lemma_substring_of_extension(e.text@, r, "instance"@);
    }
}

/// A body made of one such storage write and nothing that checks authorisation
/// is an authentication gap.
pub proof fn lemma_lone_storage_write_is_gap(body: BlockNode, e: ExprNode)
    requires
        body.stmts@ == seq![StmtNode::Expr(e)],
        e.kind matches ExprKind::MethodCall { method, .. } && (method@ == "set"@ || method@ == "update"@
            || method@ == "remove"@),
        has_substring(e.text@, "storage"@) || has_substring(e.text@, "persistent"@) || has_substring(
            e.text@,
            "temporary"@,
        ) || has_substring(e.text@, "instance"@),
        !expr_flags(&e).has_auth,
    ensures
        is_auth_gap(body),
{
    lemma_storage_writes_are_mutations(e);
    let s = body.stmts@;
    assert(s.drop_last() =~= Seq::<StmtNode>::empty());
    assert(stmts_flags(s.drop_last()) == no_flags());
    assert(s.last() == StmtNode::Expr(e));
    assert(stmt_flags(&s.last()) == expr_flags(&e));
    assert(stmts_flags(s) == join_flags(stmts_flags(s.drop_last()), stmt_flags(&s.last())));
}

/// Calling `require_auth` or `require_auth_for_args`, as a method or as a
/// function, is an authorisation check: a body that makes such a call anywhere
/// among its statements is never a gap.
pub proof fn lemma_auth_calls_are_checks(e: ExprNode)
    requires
        (e.kind matches ExprKind::MethodCall { method, .. } && (method@ == "require_auth"@
            || method@ == "require_auth_for_args"@)) || (e.kind matches ExprKind::Call { func, .. }
            && func.kind matches ExprKind::Path(p) && p.segments@.len() > 0 && (
        p.segments@.last().ident@ == "require_auth"@ || p.segments@.last().ident@ == "require_auth_for_args"@)),
    ensures
        expr_flags(&e).has_auth,
{
}

/// Scanning more code only ever raises the flags: what was seen before stays seen.
pub proof fn lemma_flags_only_raised(before: AuthFlags, e: ExprNode)
    ensures
        before.has_mutation ==> join_flags(before, expr_flags(&e)).has_mutation,
        before.has_read ==> join_flags(before, expr_flags(&e)).has_read,
        before.has_auth ==> join_flags(before, expr_flags(&e)).has_auth,
{
}

/// The finding for the function `name`.
pub open spec fn auth_gap_violation(name: Seq<char>) -> ViolationView {
    ViolationView {
        rule_name: "auth_gap"@,
        severity: Severity::Warning,
        message: "Function '"@ + name + "' performs storage mutation without authentication"@,
        location: name,
        suggestion: Some("Add require_auth() or require_auth_for_args() before storage operations"@),
    }
}

/// The findings for the items of an `impl` block: its public methods that are gaps.
pub open spec fn impl_gaps(s: Seq<ImplItemNode>) -> Seq<ViolationView>
    decreases s.len(),
{
    if s.len() == 0 {
        Seq::empty()
    } else {
        impl_gaps(s.drop_last()) + match s.last() {
            ImplItemNode::Fn(f) => if f.is_pub && is_auth_gap(f.body) {
                seq![auth_gap_violation(f.name@)]
            } else {
                Seq::empty()
            },
            _ => Seq::empty(),
        }
    }
}

/// The findings for the top-level items of a file (only `impl` blocks are read).
pub open spec fn item_gaps(s: Seq<ItemNode>) -> Seq<ViolationView>
    decreases s.len(),
{
    if s.len() == 0 {
        Seq::empty()
    } else {
        item_gaps(s.drop_last()) + match s.last() {
            ItemNode::Impl(items) => impl_gaps(items@),
            _ => Seq::empty(),
        }
    }
}

/// Adds what a call's callee does by itself to `flags`.
fn add_call_flags(func: &ExprNode, flags: &mut AuthFlags)
    ensures
        *final(flags) == join_flags(*old(flags), call_flags(*func)),
{
    match &func.kind {
        ExprKind::Path(p) => {
            let n = p.segments.len();
            if n > 0 {
                let ident = &p.segments[n - 1].ident;
                if eq_str(ident, "require_auth") || eq_str(ident, "require_auth_for_args") {
                    flags.has_auth = true;
                }
            }
        },
        _ => {},
    }
}

/// Whether `text` names a storage handle.
fn text_mentions_storage(text: &str) -> (r: bool)
    ensures
        r == mentions_storage(text@),
{
    contains(text, "storage") || contains(text, "persistent") || contains(text, "temporary")
        || contains(text, "instance")
}

/// Adds what a method call does by itself to `flags`.
fn add_method_flags(method: &String, text: &String, flags: &mut AuthFlags)
    ensures
        *final(flags) == join_flags(*old(flags), method_flags(method@, text@)),
{
    let mut receiver_text = text.clone();
    receiver_text.append(" . receiver");
    if eq_str(method, "set") || eq_str(method, "update") || eq_str(method, "remove") {
        if text_mentions_storage(receiver_text.as_str()) {
            flags.has_mutation = true;
        }
    }
    if eq_str(method, "get") {
        if text_mentions_storage(receiver_text.as_str()) {
            flags.has_read = true;
        }
    }
    if eq_str(method, "require_auth") || eq_str(method, "require_auth_for_args") {
        flags.has_auth = true;
    }
}

/// Adds what an expression does to `flags`.
pub fn check_expr(e: &ExprNode, flags: &mut AuthFlags)
    ensures
        *final(flags) == join_flags(*old(flags), expr_flags(e)),
        old(flags).has_mutation ==> final(flags).has_mutation,
        old(flags).has_read ==> final(flags).has_read,
        old(flags).has_auth ==> final(flags).has_auth,
    decreases e, 0nat,
{
    match &e.kind {
        ExprKind::Call { func, args } => {
            add_call_flags(func, flags);
            proof { assert(decreases_to!(*e => e.kind)); assert(decreases_to!(e.kind => e.kind->Call_args)); assert(decreases_to!(e.kind->Call_args => args@)); }
            check_exprs(args, flags);
        },
        ExprKind::MethodCall { receiver, method, args, .. } => {
            add_method_flags(method, &e.text, flags);
            proof { assert(decreases_to!(*e => e.kind)); assert(decreases_to!(e.kind => e.kind->receiver)); assert(decreases_to!(e.kind => e.kind->MethodCall_args)); assert(decreases_to!(e.kind->MethodCall_args => args@)); }
            check_expr(receiver, flags);
            check_exprs(args, flags);
        },
        ExprKind::Block(b) => {
            proof { assert(decreases_to!(*e => e.kind)); assert(decreases_to!(e.kind => e.kind->Block_0)); assert(decreases_to!(e.kind->Block_0 => b.stmts)); assert(decreases_to!(b.stmts => b.stmts@)); }
            check_fn_body(&b.stmts, flags);
        },
        ExprKind::If { cond, then_branch, else_branch } => {
            proof { assert(decreases_to!(*e => e.kind)); assert(decreases_to!(e.kind => e.kind->cond)); assert(decreases_to!(e.kind => e.kind->then_branch)); assert(decreases_to!(e.kind->then_branch => then_branch.stmts)); assert(decreases_to!(then_branch.stmts => then_branch.stmts@)); }
            check_expr(cond, flags);
            check_fn_body(&then_branch.stmts, flags);
            match else_branch {
                Some(x) => {
                    proof { assert(decreases_to!(e.kind => e.kind->else_branch)); assert(decreases_to!(e.kind->else_branch => e.kind->else_branch->0)); }
                    check_expr(x, flags);
                },
                None => {},
            }
        },
        ExprKind::Match { scrutinee, arms } => {
            proof { assert(decreases_to!(*e => e.kind)); assert(decreases_to!(e.kind => e.kind->scrutinee)); assert(decreases_to!(e.kind => e.kind->arms)); assert(decreases_to!(e.kind->arms => arms@)); }
            check_expr(scrutinee, flags);
            check_arms(arms, flags);
        },
        _ => {},
    }
}

/// Adds what each expression of `v` does to `flags`.
fn check_exprs(v: &Vec<ExprNode>, flags: &mut AuthFlags)
    ensures
        *final(flags) == join_flags(*old(flags), exprs_flags(v@)),
    decreases v@, 1nat,
{
    let ghost start = *flags;
    let mut i: usize = 0;
    while i < v.len()
        invariant
            i <= v@.len(),
            *flags == join_flags(start, exprs_flags(v@.subrange(0, i as int))),
        decreases v@.len() - i,
    {
        proof {
            assert(decreases_to!(v@ => v@[i as int]));
            assert(v@.subrange(0, i + 1).drop_last() =~= v@.subrange(0, i as int));
        }
        check_expr(&v[i], flags);
        i = i + 1;
    }
    proof {
        assert(v@.subrange(0, v@.len() as int) =~= v@);
    }
}

/// Adds what the bodies of the arms of `v` do to `flags`.
fn check_arms(v: &Vec<MatchArm>, flags: &mut AuthFlags)
    ensures
        *final(flags) == join_flags(*old(flags), arms_flags(v@)),
    decreases v@, 1nat,
{
    let ghost start = *flags;
    let mut i: usize = 0;
    while i < v.len()
        invariant
            i <= v@.len(),
            *flags == join_flags(start, arms_flags(v@.subrange(0, i as int))),
        decreases v@.len() - i,
    {
        proof {
            assert(decreases_to!(v@ => v@[i as int]));
            assert(decreases_to!(v@[i as int] => v@[i as int].body));
            assert(v@.subrange(0, i + 1).drop_last() =~= v@.subrange(0, i as int));
        }
        check_expr(&v[i].body, flags);
        i = i + 1;
    }
    proof {
        assert(v@.subrange(0, v@.len() as int) =~= v@);
    }
}

/// Adds what a statement does to `flags`.
fn check_stmt(st: &StmtNode, flags: &mut AuthFlags)
    ensures
        *final(flags) == join_flags(*old(flags), stmt_flags(st)),
    decreases st, 0nat,
{
    match st {
        StmtNode::Expr(e) => {
            proof { assert(decreases_to!(*st => st->Expr_0)); }
            check_expr(e, flags);
        },
        StmtNode::Local { init, .. } => {
            match init {
                Some(x) => {
                    proof { assert(decreases_to!(*st => st->Local_init)); assert(decreases_to!(st->Local_init => st->Local_init->0)); }
                    check_expr(x, flags);
                },
                None => {},
            }
        },
        StmtNode::Macro(p) => {
            if is_ident(p, "require_auth") || is_ident(p, "require_auth_for_args") {
                flags.has_auth = true;
            }
        },
        StmtNode::Item(_) => {},
    }
}

/// Whether `p` is the single identifier `name`.
fn is_ident(p: &SynPath, name: &str) -> (r: bool)
    ensures
        r == path_is_ident(*p, name@),
{
    !p.leading_colon && p.segments.len() == 1 && !p.segments[0].has_arguments
        && eq_str(&p.segments[0].ident, name)
}

/// Adds what a function body does to `flags`.
pub fn check_fn_body(v: &Vec<StmtNode>, flags: &mut AuthFlags)
    ensures
        *final(flags) == join_flags(*old(flags), stmts_flags(v@)),
    decreases v@, 1nat,
{
    let ghost start = *flags;
    let mut i: usize = 0;
    while i < v.len()
        invariant
            i <= v@.len(),
            *flags == join_flags(start, stmts_flags(v@.subrange(0, i as int))),
        decreases v@.len() - i,
    {
        proof {
            assert(decreases_to!(v@ => v@[i as int]));
            assert(v@.subrange(0, i + 1).drop_last() =~= v@.subrange(0, i as int));
        }
        check_stmt(&v[i], flags);
        i = i + 1;
    }
    proof {
        assert(v@.subrange(0, v@.len() as int) =~= v@);
    }
}

/// The findings of the rule for a parsed file.
pub open spec fn auth_gap_file_findings(file: SourceFile) -> Seq<ViolationView> {
    item_gaps(file.items@)
}

/// Flags public methods of `impl` blocks that mutate contract storage without an
/// authorisation check.
pub struct AuthGapRule;

impl AuthGapRule {
    pub fn new() -> Self {
        AuthGapRule
    }

    /// The finding for one public method, if it is a gap.
    fn check_impl_fn(&self, name: &String, body: &BlockNode, out: &mut Vec<RuleViolation>)
        ensures
            violations_view(final(out)@) == violations_view(old(out)@) + (if is_auth_gap(*body) {
                seq![auth_gap_violation(name@)]
            } else {
                Seq::empty()
            }),
    {
        let mut flags = AuthFlags { has_mutation: false, has_read: false, has_auth: false };
        check_fn_body(&body.stmts, &mut flags);
        if flags.has_mutation && !flags.has_auth {
            let ghost before = out@;
            let mut message = String::from_str("Function '");
            message.append(name.as_str());
            message.append("' performs storage mutation without authentication");
            let v = RuleViolation::new("auth_gap", Severity::Warning, message, name.clone())
                .with_suggestion(String::from_str("Add require_auth() or require_auth_for_args() before storage operations"));
            out.push(v);
            proof {
                assert(violations_view(out@) =~= violations_view(before) + seq![auth_gap_violation(name@)]);
            }
        } else {
            proof {
                assert(violations_view(out@) =~= violations_view(out@) + Seq::<ViolationView>::empty());
            }
        }
    }

    /// The findings for an already parsed file.
    pub fn check_file(&self, file: &SourceFile) -> (r: Vec<RuleViolation>)
        ensures
            violations_view(r@) == auth_gap_file_findings(*file),
    {
        let mut gaps: Vec<RuleViolation> = Vec::new();
        let items = &file.items;
        let mut i: usize = 0;
        while i < items.len()
            invariant
                i <= items@.len(),
                items@ == file.items@,
                violations_view(gaps@) == item_gaps(items@.subrange(0, i as int)),
            decreases items@.len() - i,
        {
            let ghost before = gaps@;
            proof {
                assert(items@.subrange(0, i + 1).drop_last() =~= items@.subrange(0, i as int));
            }
            match &items[i] {
                ItemNode::Impl(impl_items) => {
                    let mut j: usize = 0;
                    while j < impl_items.len()
                        invariant
                            j <= impl_items@.len(),
                            violations_view(gaps@) == violations_view(before) + impl_gaps(impl_items@.subrange(0, j as int)),
                        decreases impl_items@.len() - j,
                    {
                        proof {
                            assert(impl_items@.subrange(0, j + 1).drop_last() =~= impl_items@.subrange(0, j as int));
                        }
                        let ghost inner = gaps@;
                        match &impl_items[j] {
                            ImplItemNode::Fn(f) => {
                                if f.is_pub {
                                    self.check_impl_fn(&f.name, &f.body, &mut gaps);
                                }
                            },
                            _ => {},
                        }
                        proof {
                            assert(violations_view(gaps@) =~= violations_view(before) + impl_gaps(impl_items@.subrange(0, j + 1)));
                        }
                        j = j + 1;
                    }
                    proof {
                        assert(impl_items@.subrange(0, impl_items@.len() as int) =~= impl_items@);
                    }
                },
                _ => {},
            }
            proof {
                assert(violations_view(gaps@) =~= item_gaps(items@.subrange(0, i + 1)));
            }
            i = i + 1;
        }
        proof {
            assert(items@.subrange(0, items@.len() as int) =~= items@);
        }
        gaps
    }
}

impl Default for AuthGapRule {
    fn default() -> (r: Self)
        ensures
            r == AuthGapRule,
    {
        Self::new()
    }
}

impl Rule for AuthGapRule {
    open spec fn rule_name(&self) -> Seq<char> {
        "auth_gap"@
    }

    open spec fn violations(&self, source: Seq<char>) -> Seq<ViolationView> {
        match parse_rust_source(source) {
            Some(file) => auth_gap_file_findings(file),
            None => Seq::empty(),
        }
    }

    fn name(&self) -> (r: &str) {
        "auth_gap"
    }

    fn description(&self) -> (r: &str)
        ensures
            r@ == "Detects public functions that perform storage mutations without authentication checks"@,
    {
        "Detects public functions that perform storage mutations without authentication checks"
    }

    fn check(&self, source: &str) -> (r: Vec<RuleViolation>) {
        match parse_source(source) {
            Some(file) => self.check_file(&file),
            None => Vec::new(),
        }
    }
}

} // verus!
