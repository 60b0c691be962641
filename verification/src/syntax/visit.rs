//! The order in which a syntax visitor meets the nodes of a source file.
use vstd::prelude::*;
use crate::syntax::model::{MatchArm, BlockNode, ExprNode, ExprKind, FnItem, ImplItemNode, ItemNode, SourceFile, StmtNode, TraitItemNode};

verus! {

/// A node met by the visitor, with the name of the function whose body it is in
/// (the innermost free function or `impl` method; trait methods and closures do
/// not count).
pub enum Visited<'a> {
    /// Any expression.
    Expr { expr: &'a ExprNode, current_fn: Option<&'a String> },
    /// A free function or an `impl` method, met before its body.
    Fn { item: &'a FnItem, current_fn: Option<&'a String> },
    /// A `const` item (not an associated one), met before its value.
    Const { name: &'a String, expr: &'a ExprNode, line: usize },
}

/// The nodes met under an expression, the expression first, then its attribute
/// values (pre-order, children in source order).
pub open spec fn visit_expr<'a>(e: &'a ExprNode, cur: Option<&'a String>) -> Seq<Visited<'a>>
    decreases e, 0nat,
{
    seq![Visited::Expr { expr: e, current_fn: cur }] + visit_exprs(e.attrs@, cur) + match &e.kind {
        ExprKind::Call { func, args } => visit_expr(func, cur) + visit_exprs(args@, cur),
        ExprKind::MethodCall { receiver, turbofish, args, .. } => visit_expr(receiver, cur)
            + visit_exprs(turbofish@, cur) + visit_exprs(args@, cur),
        ExprKind::Binary { left, right, .. } => visit_expr(left, cur) + visit_expr(right, cur),
        ExprKind::Path(p) => visit_exprs(p.arg_exprs@, cur),
        ExprKind::Lit(_) => Seq::empty(),
        ExprKind::Block(b) => visit_stmts(b.stmts@, cur),
        ExprKind::If { cond, then_branch, else_branch } => visit_expr(cond, cur) + visit_stmts(then_branch.stmts@, cur)
            + match else_branch {
            Some(x) => visit_expr(x, cur),
            None => Seq::empty(),
        },
        ExprKind::Match { scrutinee, arms } => visit_expr(scrutinee, cur) + visit_arms(arms@, cur),
        ExprKind::Try(x) => visit_expr(x, cur),
        ExprKind::Assign { left, right } => visit_expr(left, cur) + visit_expr(right, cur),
        ExprKind::Reference(x) => visit_expr(x, cur),
        ExprKind::Paren(x) => visit_expr(x, cur),
        ExprKind::Macro { .. } => Seq::empty(),
        ExprKind::Other(children) => visit_exprs(children@, cur),
    }
}

/// The nodes met under a sequence of expressions, in order.
pub open spec fn visit_exprs<'a>(s: Seq<ExprNode>, cur: Option<&'a String>) -> Seq<Visited<'a>>
    decreases s, 1nat,
{
    if s.len() == 0 {
        Seq::empty()
    } else {
        visit_exprs(s.drop_last(), cur) + visit_expr(&s.last(), cur)
    }
}

/// The nodes met under an optional expression.
pub open spec fn visit_opt_expr<'a>(o: Option<ExprNode>, cur: Option<&'a String>) -> Seq<Visited<'a>>
    decreases o, 0nat,
{
    match o {
        Some(x) => visit_expr(&x, cur),
        None => Seq::empty(),
    }
}

/// The nodes met under a sequence of match arms: for each, its pattern, guard
/// and body.
pub open spec fn visit_arms<'a>(s: Seq<MatchArm>, cur: Option<&'a String>) -> Seq<Visited<'a>>
    decreases s, 1nat,
{
    if s.len() == 0 {
        Seq::empty()
    } else {
        visit_arms(s.drop_last(), cur) + visit_exprs(s.last().pat@, cur) + visit_opt_expr(s.last().guard, cur)
            + visit_expr(&s.last().body, cur)
    }
}

/// The nodes met under a statement.
pub open spec fn visit_stmt<'a>(st: &'a StmtNode, cur: Option<&'a String>) -> Seq<Visited<'a>>
    decreases st, 0nat,
{
    match st {
        StmtNode::Local { pat, init, diverge } => visit_exprs(pat@, cur) + visit_opt_expr(*init, cur)
            + visit_opt_expr(*diverge, cur),
        StmtNode::Item(i) => visit_item(i, cur),
        StmtNode::Expr(e) => visit_expr(e, cur),
        StmtNode::Macro(_) => Seq::empty(),
    }
}

/// The nodes met under a sequence of statements.
pub open spec fn visit_stmts<'a>(s: Seq<StmtNode>, cur: Option<&'a String>) -> Seq<Visited<'a>>
    decreases s, 1nat,
{
    if s.len() == 0 {
        Seq::empty()
    } else {
        visit_stmts(s.drop_last(), cur) + visit_stmt(&s.last(), cur)
    }
}

/// The nodes met under a function: the function, then its signature and its
/// body, in which it is the current function.
pub open spec fn visit_fn<'a>(f: &'a FnItem, cur: Option<&'a String>) -> Seq<Visited<'a>>
    decreases f, 0nat,
{
    seq![Visited::Fn { item: f, current_fn: cur }] + visit_exprs(f.sig@, Some(&f.name)) + visit_stmts(
        f.body.stmts@,
        Some(&f.name),
    )
}

/// The nodes met under an item.
pub open spec fn visit_item<'a>(i: &'a ItemNode, cur: Option<&'a String>) -> Seq<Visited<'a>>
    decreases i, 0nat,
{
    match i {
        ItemNode::Fn(f) => visit_fn(f, cur),
        ItemNode::Impl(items) => visit_impl_items(items@, cur),
        ItemNode::Const { name, ty, expr, line } => seq![Visited::Const { name: name, expr: expr, line: *line }]
            + visit_exprs(ty@, cur) + visit_expr(expr, cur),
        ItemNode::Static(v) => visit_exprs(v@, cur),
        ItemNode::Mod(items) => visit_items(items@, cur),
        ItemNode::Trait(items) => visit_trait_items(items@, cur),
        ItemNode::Other(v) => visit_exprs(v@, cur),
    }
}

/// The nodes met under a sequence of items.
pub open spec fn visit_items<'a>(s: Seq<ItemNode>, cur: Option<&'a String>) -> Seq<Visited<'a>>
    decreases s, 1nat,
{
    if s.len() == 0 {
        Seq::empty()
    } else {
        visit_items(s.drop_last(), cur) + visit_item(&s.last(), cur)
    }
}

/// The nodes met under an item of an `impl` block.
pub open spec fn visit_impl_item<'a>(i: &'a ImplItemNode, cur: Option<&'a String>) -> Seq<Visited<'a>>
    decreases i, 0nat,
{
    match i {
        ImplItemNode::Fn(f) => visit_fn(f, cur),
        ImplItemNode::Const(v) => visit_exprs(v@, cur),
        ImplItemNode::Other(v) => visit_exprs(v@, cur),
    }
}

/// The nodes met under the items of an `impl` block.
pub open spec fn visit_impl_items<'a>(s: Seq<ImplItemNode>, cur: Option<&'a String>) -> Seq<Visited<'a>>
    decreases s, 1nat,
{
    if s.len() == 0 {
        Seq::empty()
    } else {
        visit_impl_items(s.drop_last(), cur) + visit_impl_item(&s.last(), cur)
    }
}

/// The nodes met under an item of a trait (signatures, default bodies and values).
pub open spec fn visit_trait_item<'a>(i: &'a TraitItemNode, cur: Option<&'a String>) -> Seq<Visited<'a>>
    decreases i, 0nat,
{
    match i {
        TraitItemNode::Fn { sig, body } => visit_exprs(sig@, cur) + match body {
            Some(b) => visit_stmts(b.stmts@, cur),
            None => Seq::empty(),
        },
        TraitItemNode::Const(v) => visit_exprs(v@, cur),
        TraitItemNode::Other(v) => visit_exprs(v@, cur),
    }
}

/// The nodes met under the items of a trait.
pub open spec fn visit_trait_items<'a>(s: Seq<TraitItemNode>, cur: Option<&'a String>) -> Seq<Visited<'a>>
    decreases s, 1nat,
{
    if s.len() == 0 {
        Seq::empty()
    } else {
        visit_trait_items(s.drop_last(), cur) + visit_trait_item(&s.last(), cur)
    }
}

/// The nodes met in a whole file, outside any function at first.
pub open spec fn visit_file<'a>(f: &'a SourceFile) -> Seq<Visited<'a>> {
    visit_items(f.items@, None)
}

/// Appends the nodes met under `e` to `out`.
pub fn collect_expr<'a>(e: &'a ExprNode, cur: Option<&'a String>, out: &mut Vec<Visited<'a>>)
    ensures
        final(out)@ == old(out)@ + visit_expr(e, cur),
    decreases e, 0nat,
{
    let ghost start = out@;
    out.push(Visited::Expr { expr: e, current_fn: cur });
    proof { assert(decreases_to!(*e => e.attrs)); assert(decreases_to!(e.attrs => e.attrs@)); }
    collect_exprs(&e.attrs, cur, out);
    let ghost mid = out@;
    match &e.kind {
        ExprKind::Call { func, args } => {
            proof { assert(decreases_to!(*e => e.kind)); assert(decreases_to!(e.kind => e.kind->Call_func)); }
            collect_expr(func, cur, out);
            proof { assert(decreases_to!(e.kind => e.kind->Call_args)); assert(decreases_to!(e.kind->Call_args => args@)); }
            collect_exprs(args, cur, out);
        },
        ExprKind::MethodCall { receiver, turbofish, args, .. } => {
            proof { assert(decreases_to!(*e => e.kind)); assert(decreases_to!(e.kind => e.kind->receiver)); }
            collect_expr(receiver, cur, out);
            proof { assert(decreases_to!(e.kind => e.kind->turbofish)); assert(decreases_to!(e.kind->turbofish => turbofish@)); }
            collect_exprs(turbofish, cur, out);
            proof { assert(decreases_to!(e.kind => e.kind->MethodCall_args)); assert(decreases_to!(e.kind->MethodCall_args => args@)); }
            collect_exprs(args, cur, out);
        },
        ExprKind::Binary { left, right, .. } => {
            proof { assert(decreases_to!(*e => e.kind)); assert(decreases_to!(e.kind => e.kind->Binary_left)); assert(decreases_to!(e.kind => e.kind->Binary_right)); }
            collect_expr(left, cur, out);
            collect_expr(right, cur, out);
        },
        ExprKind::Path(p) => {
            proof { assert(decreases_to!(*e => e.kind)); assert(decreases_to!(e.kind => e.kind->Path_0)); assert(decreases_to!(e.kind->Path_0 => p.arg_exprs)); assert(decreases_to!(p.arg_exprs => p.arg_exprs@)); }
            collect_exprs(&p.arg_exprs, cur, out);
        },
        ExprKind::Lit(_) => {},
        ExprKind::Block(b) => {
            proof { assert(decreases_to!(*e => e.kind)); assert(decreases_to!(e.kind => e.kind->Block_0)); assert(decreases_to!(e.kind->Block_0 => b.stmts)); assert(decreases_to!(b.stmts => b.stmts@)); }
            collect_stmts(&b.stmts, cur, out);
        },
        ExprKind::If { cond, then_branch, else_branch } => {
            proof { assert(decreases_to!(*e => e.kind)); assert(decreases_to!(e.kind => e.kind->cond)); assert(decreases_to!(e.kind => e.kind->then_branch)); assert(decreases_to!(e.kind->then_branch => then_branch.stmts)); assert(decreases_to!(then_branch.stmts => then_branch.stmts@)); }
            collect_expr(cond, cur, out);
            collect_stmts(&then_branch.stmts, cur, out);
            match else_branch {
                Some(x) => {
                    proof { assert(decreases_to!(e.kind => e.kind->else_branch)); assert(decreases_to!(e.kind->else_branch => e.kind->else_branch->0)); }
                    collect_expr(x, cur, out);
                },
                None => {},
            }
        },
        ExprKind::Match { scrutinee, arms } => {
            proof { assert(decreases_to!(*e => e.kind)); assert(decreases_to!(e.kind => e.kind->scrutinee)); assert(decreases_to!(e.kind => e.kind->arms)); assert(decreases_to!(e.kind->arms => arms@)); }
            collect_expr(scrutinee, cur, out);
            collect_arms(arms, cur, out);
        },
        ExprKind::Try(x) => {
            proof { assert(decreases_to!(*e => e.kind)); assert(decreases_to!(e.kind => e.kind->Try_0)); }
            collect_expr(x, cur, out);
        },
        ExprKind::Assign { left, right } => {
            proof { assert(decreases_to!(*e => e.kind)); assert(decreases_to!(e.kind => e.kind->Assign_left)); assert(decreases_to!(e.kind => e.kind->Assign_right)); }
            collect_expr(left, cur, out);
            collect_expr(right, cur, out);
        },
        ExprKind::Reference(x) => {
            proof { assert(decreases_to!(*e => e.kind)); assert(decreases_to!(e.kind => e.kind->Reference_0)); }
            collect_expr(x, cur, out);
        },
        ExprKind::Paren(x) => {
            proof { assert(decreases_to!(*e => e.kind)); assert(decreases_to!(e.kind => e.kind->Paren_0)); }
            collect_expr(x, cur, out);
        },
        ExprKind::Macro { .. } => {},
        ExprKind::Other(children) => {
            proof { assert(decreases_to!(*e => e.kind)); assert(decreases_to!(e.kind => e.kind->Other_0)); assert(decreases_to!(e.kind->Other_0 => children@)); }
            collect_exprs(children, cur, out);
        },
    }
    proof {
        assert(out@ =~= start + visit_expr(e, cur));
    }
}

/// Appends the nodes met under each expression of `v`, in order, to `out`.
pub fn collect_exprs<'a>(v: &'a Vec<ExprNode>, cur: Option<&'a String>, out: &mut Vec<Visited<'a>>)
    ensures
        final(out)@ == old(out)@ + visit_exprs(v@, cur),
    decreases v@, 1nat,
{
    let ghost start = out@;
    let mut i: usize = 0;
    while i < v.len()
        invariant
            i <= v@.len(),
            out@ == start + visit_exprs(v@.subrange(0, i as int), cur),
        decreases v@.len() - i,
    {
        proof {
            assert(decreases_to!(v@ => v@[i as int]));
            assert(v@.subrange(0, i + 1).drop_last() =~= v@.subrange(0, i as int));
        }
        collect_expr(&v[i], cur, out);
        proof {
            assert(out@ =~= start + visit_exprs(v@.subrange(0, i + 1), cur));
        }
        i = i + 1;
    }
    proof {
        assert(v@.subrange(0, v@.len() as int) =~= v@);
    }
}

/// Appends the nodes met under an optional expression to `out`.
pub fn collect_opt_expr<'a>(o: &'a Option<ExprNode>, cur: Option<&'a String>, out: &mut Vec<Visited<'a>>)
    ensures
        final(out)@ == old(out)@ + visit_opt_expr(*o, cur),
    decreases *o, 0nat,
{
    match o {
        Some(x) => {
            proof { assert(decreases_to!(*o => o->0)); }
            collect_expr(x, cur, out);
        },
        None => {
            proof { assert(out@ =~= out@ + Seq::<Visited<'a>>::empty()); }
        },
    }
}

/// Appends the nodes met under each arm of `v`, in order, to `out`.
pub fn collect_arms<'a>(v: &'a Vec<MatchArm>, cur: Option<&'a String>, out: &mut Vec<Visited<'a>>)
    ensures
        final(out)@ == old(out)@ + visit_arms(v@, cur),
    decreases v@, 1nat,
{
    let ghost start = out@;
    let mut i: usize = 0;
    while i < v.len()
        invariant
            i <= v@.len(),
            out@ == start + visit_arms(v@.subrange(0, i as int), cur),
        decreases v@.len() - i,
    {
        proof {
            assert(decreases_to!(v@ => v@[i as int]));
            assert(decreases_to!(v@[i as int] => v@[i as int].pat));
            assert(decreases_to!(v@[i as int].pat => v@[i as int].pat@));
            assert(decreases_to!(v@[i as int] => v@[i as int].guard));
            assert(decreases_to!(v@[i as int] => v@[i as int].body));
            assert(v@.subrange(0, i + 1).drop_last() =~= v@.subrange(0, i as int));
        }
        let arm = &v[i];
        collect_exprs(&arm.pat, cur, out);
        collect_opt_expr(&arm.guard, cur, out);
        collect_expr(&arm.body, cur, out);
        proof {
            assert(out@ =~= start + visit_arms(v@.subrange(0, i + 1), cur));
        }
        i = i + 1;
    }
    proof {
        assert(v@.subrange(0, v@.len() as int) =~= v@);
    }
}

/// Appends the nodes met under a statement to `out`.
pub fn collect_stmt<'a>(st: &'a StmtNode, cur: Option<&'a String>, out: &mut Vec<Visited<'a>>)
    ensures
        final(out)@ == old(out)@ + visit_stmt(st, cur),
    decreases st, 0nat,
{
    let ghost start = out@;
    match st {
        StmtNode::Local { pat, init, diverge } => {
            proof { assert(decreases_to!(*st => st->Local_pat)); assert(decreases_to!(st->Local_pat => pat@)); assert(decreases_to!(*st => st->Local_init)); assert(decreases_to!(*st => st->Local_diverge)); }
            collect_exprs(pat, cur, out);
            collect_opt_expr(init, cur, out);
            collect_opt_expr(diverge, cur, out);
        },
        StmtNode::Item(i) => {
            proof { assert(decreases_to!(*st => st->Item_0)); }
            collect_item(i, cur, out);
        },
        StmtNode::Expr(e) => {
            proof { assert(decreases_to!(*st => st->Expr_0)); }
            collect_expr(e, cur, out);
        },
        StmtNode::Macro(_) => {},
    }
    proof {
        assert(out@ =~= start + visit_stmt(st, cur));
    }
}

/// Appends the nodes met under each statement of `v`, in order, to `out`.
pub fn collect_stmts<'a>(v: &'a Vec<StmtNode>, cur: Option<&'a String>, out: &mut Vec<Visited<'a>>)
    ensures
        final(out)@ == old(out)@ + visit_stmts(v@, cur),
    decreases v@, 1nat,
{
    let ghost start = out@;
    let mut i: usize = 0;
    while i < v.len()
        invariant
            i <= v@.len(),
            out@ == start + visit_stmts(v@.subrange(0, i as int), cur),
        decreases v@.len() - i,
    {
        proof {
            assert(decreases_to!(v@ => v@[i as int]));
            assert(v@.subrange(0, i + 1).drop_last() =~= v@.subrange(0, i as int));
        }
        collect_stmt(&v[i], cur, out);
        proof {
            assert(out@ =~= start + visit_stmts(v@.subrange(0, i + 1), cur));
        }
        i = i + 1;
    }
    proof {
        assert(v@.subrange(0, v@.len() as int) =~= v@);
    }
}

/// Appends the nodes met under a function to `out`.
pub fn collect_fn<'a>(f: &'a FnItem, cur: Option<&'a String>, out: &mut Vec<Visited<'a>>)
    ensures
        final(out)@ == old(out)@ + visit_fn(f, cur),
    decreases f, 0nat,
{
    let ghost start = out@;
    out.push(Visited::Fn { item: f, current_fn: cur });
    proof { assert(decreases_to!(*f => f.sig)); assert(decreases_to!(f.sig => f.sig@)); }
    collect_exprs(&f.sig, Some(&f.name), out);
    proof { assert(decreases_to!(*f => f.body)); assert(decreases_to!(f.body => f.body.stmts)); assert(decreases_to!(f.body.stmts => f.body.stmts@)); }
    collect_stmts(&f.body.stmts, Some(&f.name), out);
    proof {
        assert(out@ =~= start + visit_fn(f, cur));
    }
}

/// Appends the nodes met under an item to `out`.
pub fn collect_item<'a>(i: &'a ItemNode, cur: Option<&'a String>, out: &mut Vec<Visited<'a>>)
    ensures
        final(out)@ == old(out)@ + visit_item(i, cur),
    decreases i, 0nat,
{
    let ghost start = out@;
    match i {
        ItemNode::Fn(f) => {
            proof { assert(decreases_to!(*i => i->Fn_0)); }
            collect_fn(f, cur, out);
        },
        ItemNode::Impl(items) => {
            proof { assert(decreases_to!(*i => i->Impl_0)); assert(decreases_to!(i->Impl_0 => items@)); }
            collect_impl_items(items, cur, out);
        },
        ItemNode::Const { name, ty, expr, line } => {
            out.push(Visited::Const { name: name, expr: expr, line: *line });
            proof { assert(decreases_to!(*i => i->Const_ty)); assert(decreases_to!(i->Const_ty => ty@)); }
            collect_exprs(ty, cur, out);
            proof { assert(decreases_to!(*i => i->Const_expr)); }
            collect_expr(expr, cur, out);
        },
        ItemNode::Static(v) => {
            proof { assert(decreases_to!(*i => i->Static_0)); assert(decreases_to!(i->Static_0 => v@)); }
            collect_exprs(v, cur, out);
        },
        ItemNode::Mod(items) => {
            proof { assert(decreases_to!(*i => i->Mod_0)); assert(decreases_to!(i->Mod_0 => items@)); }
            collect_items(items, cur, out);
        },
        ItemNode::Trait(items) => {
            proof { assert(decreases_to!(*i => i->Trait_0)); assert(decreases_to!(i->Trait_0 => items@)); }
            collect_trait_items(items, cur, out);
        },
        ItemNode::Other(v) => {
            proof { assert(decreases_to!(*i => i->Other_0)); assert(decreases_to!(i->Other_0 => v@)); }
            collect_exprs(v, cur, out);
        },
    }
    proof {
        assert(out@ =~= start + visit_item(i, cur));
    }
}

/// Appends the nodes met under each item of `v`, in order, to `out`.
pub fn collect_items<'a>(v: &'a Vec<ItemNode>, cur: Option<&'a String>, out: &mut Vec<Visited<'a>>)
    ensures
        final(out)@ == old(out)@ + visit_items(v@, cur),
    decreases v@, 1nat,
{
    let ghost start = out@;
    let mut i: usize = 0;
    while i < v.len()
        invariant
            i <= v@.len(),
            out@ == start + visit_items(v@.subrange(0, i as int), cur),
        decreases v@.len() - i,
    {
        proof {
            assert(decreases_to!(v@ => v@[i as int]));
            assert(v@.subrange(0, i + 1).drop_last() =~= v@.subrange(0, i as int));
        }
        collect_item(&v[i], cur, out);
        proof {
            assert(out@ =~= start + visit_items(v@.subrange(0, i + 1), cur));
        }
        i = i + 1;
    }
    proof {
        assert(v@.subrange(0, v@.len() as int) =~= v@);
    }
}

/// Appends the nodes met under an item of an `impl` block to `out`.
pub fn collect_impl_item<'a>(i: &'a ImplItemNode, cur: Option<&'a String>, out: &mut Vec<Visited<'a>>)
    ensures
        final(out)@ == old(out)@ + visit_impl_item(i, cur),
    decreases i, 0nat,
{
    let ghost start = out@;
    match i {
        ImplItemNode::Fn(f) => {
            proof { assert(decreases_to!(*i => i->Fn_0)); }
            collect_fn(f, cur, out);
        },
        ImplItemNode::Const(v) => {
            proof { assert(decreases_to!(*i => i->Const_0)); assert(decreases_to!(i->Const_0 => v@)); }
            collect_exprs(v, cur, out);
        },
        ImplItemNode::Other(v) => {
            proof { assert(decreases_to!(*i => i->Other_0)); assert(decreases_to!(i->Other_0 => v@)); }
            collect_exprs(v, cur, out);
        },
    }
    proof {
        assert(out@ =~= start + visit_impl_item(i, cur));
    }
}

/// Appends the nodes met under each item of an `impl` block, in order, to `out`.
pub fn collect_impl_items<'a>(v: &'a Vec<ImplItemNode>, cur: Option<&'a String>, out: &mut Vec<Visited<'a>>)
    ensures
        final(out)@ == old(out)@ + visit_impl_items(v@, cur),
    decreases v@, 1nat,
{
    let ghost start = out@;
    let mut i: usize = 0;
    while i < v.len()
        invariant
            i <= v@.len(),
            out@ == start + visit_impl_items(v@.subrange(0, i as int), cur),
        decreases v@.len() - i,
    {
        proof {
            assert(decreases_to!(v@ => v@[i as int]));
            assert(v@.subrange(0, i + 1).drop_last() =~= v@.subrange(0, i as int));
        }
        collect_impl_item(&v[i], cur, out);
        proof {
            assert(out@ =~= start + visit_impl_items(v@.subrange(0, i + 1), cur));
        }
        i = i + 1;
    }
    proof {
        assert(v@.subrange(0, v@.len() as int) =~= v@);
    }
}

/// Appends the nodes met under an item of a trait to `out`.
pub fn collect_trait_item<'a>(i: &'a TraitItemNode, cur: Option<&'a String>, out: &mut Vec<Visited<'a>>)
    ensures
        final(out)@ == old(out)@ + visit_trait_item(i, cur),
    decreases i, 0nat,
{
    let ghost start = out@;
    match i {
        TraitItemNode::Fn { sig, body } => {
            proof { assert(decreases_to!(*i => i->sig)); assert(decreases_to!(i->sig => sig@)); }
            collect_exprs(sig, cur, out);
            match body {
                Some(b) => {
                    proof { assert(decreases_to!(*i => i->body)); assert(decreases_to!(i->body => i->body->0)); assert(decreases_to!(i->body->0 => b.stmts)); assert(decreases_to!(b.stmts => b.stmts@)); }
                    collect_stmts(&b.stmts, cur, out);
                },
                None => {},
            }
        },
        TraitItemNode::Const(v) => {
            proof { assert(decreases_to!(*i => i->Const_0)); assert(decreases_to!(i->Const_0 => v@)); }
            collect_exprs(v, cur, out);
        },
        TraitItemNode::Other(v) => {
            proof { assert(decreases_to!(*i => i->Other_0)); assert(decreases_to!(i->Other_0 => v@)); }
            collect_exprs(v, cur, out);
        },
    }
    proof {
        assert(out@ =~= start + visit_trait_item(i, cur));
    }
}

/// Appends the nodes met under each item of a trait, in order, to `out`.
pub fn collect_trait_items<'a>(v: &'a Vec<TraitItemNode>, cur: Option<&'a String>, out: &mut Vec<Visited<'a>>)
    ensures
        final(out)@ == old(out)@ + visit_trait_items(v@, cur),
    decreases v@, 1nat,
{
    let ghost start = out@;
    let mut i: usize = 0;
    while i < v.len()
        invariant
            i <= v@.len(),
            out@ == start + visit_trait_items(v@.subrange(0, i as int), cur),
        decreases v@.len() - i,
    {
        proof {
            assert(decreases_to!(v@ => v@[i as int]));
            assert(v@.subrange(0, i + 1).drop_last() =~= v@.subrange(0, i as int));
        }
        collect_trait_item(&v[i], cur, out);
        proof {
            assert(out@ =~= start + visit_trait_items(v@.subrange(0, i + 1), cur));
        }
        i = i + 1;
    }
    proof {
        assert(v@.subrange(0, v@.len() as int) =~= v@);
    }
}

/// The nodes of a whole file in the order a syntax visitor meets them.
pub fn visit_source_file<'a>(f: &'a SourceFile) -> (r: Vec<Visited<'a>>)
    ensures
        r@ == visit_file(f),
{
    let mut out: Vec<Visited<'a>> = Vec::new();
    collect_items(&f.items, None, &mut out);
    proof {
        assert(out@ =~= visit_file(f));
    }
    out
}

} // verus!
