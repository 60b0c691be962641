//! Parsing Rust source text with `syn` into the library's syntax model.
//!
//! Everything here is trusted: each function converts one `syn` node into the
//! matching model node, field by field, and makes no decision of its own.
//! Patterns, types, generics and attributes are not carried over as such; the
//! expressions inside them (array lengths, const arguments, enum discriminants,
//! range and const patterns, `name = value` attribute values) are, in the order
//! a `syn` visitor meets them.  Not carried over: the tokens of macros, and the
//! attributes of statement macros, of patterns and of the fields of struct
//! literals.
use vstd::prelude::*;
use crate::syntax::model::{
    MatchArm, BinaryOp, BlockNode, ExprNode, ExprKind, FnItem, ImplItemNode, ItemNode, LitValue, PathSegment, SourceFile,
    StmtNode, SynPath, TraitItemNode,
};
use quote::ToTokens;
use syn::spanned::Spanned;

verus! {

#[verifier::external_type_specification]
#[verifier::external_body]
pub struct ExSynItem(syn::Item);

#[verifier::external_type_specification]
#[verifier::external_body]
pub struct ExSynExpr(syn::Expr);

#[verifier::external_type_specification]
#[verifier::external_body]
pub struct ExSynStmt(syn::Stmt);

#[verifier::external_type_specification]
#[verifier::external_body]
pub struct ExSynBlock(syn::Block);

#[verifier::external_type_specification]
#[verifier::external_body]
pub struct ExSynImplItem(syn::ImplItem);

#[verifier::external_type_specification]
#[verifier::external_body]
pub struct ExSynTraitItem(syn::TraitItem);

#[verifier::external_type_specification]
#[verifier::external_body]
pub struct ExSynPath(syn::Path);

#[verifier::external_type_specification]
#[verifier::external_body]
pub struct ExSynLit(syn::Lit);

#[verifier::external_type_specification]
#[verifier::external_body]
pub struct ExSynBinOp(syn::BinOp);

#[verifier::external_type_specification]
#[verifier::external_body]
pub struct ExSynArm(syn::Arm);

#[verifier::external_type_specification]
#[verifier::external_body]
pub struct ExSynVisibility(syn::Visibility);

#[verifier::external_type_specification]
#[verifier::external_body]
pub struct ExSynSignature(syn::Signature);

#[verifier::external_type_specification]
#[verifier::external_body]
pub struct ExSynItemImpl(syn::ItemImpl);

#[verifier::external_type_specification]
#[verifier::external_body]
pub struct ExSynItemTrait(syn::ItemTrait);

#[verifier::external_type_specification]
#[verifier::external_body]
pub struct ExSynFields(syn::Fields);

#[verifier::external_type_specification]
#[verifier::external_body]
pub struct ExSynReturnType(syn::ReturnType);

#[verifier::external_type_specification]
#[verifier::external_body]
pub struct ExSynGenerics(syn::Generics);

#[verifier::external_type_specification]
#[verifier::external_body]
pub struct ExSynType(syn::Type);

#[verifier::external_type_specification]
#[verifier::external_body]
pub struct ExSynAngleArgs(syn::AngleBracketedGenericArguments);

#[verifier::external_type_specification]
#[verifier::external_body]
pub struct ExSynPat(syn::Pat);

#[verifier::external_type_specification]
#[verifier::external_body]
pub struct ExSynTypeParamBound(syn::TypeParamBound);

#[verifier::external_type_specification]
#[verifier::external_body]
pub struct ExSynVariant(syn::Variant);

#[verifier::external_type_specification]
#[verifier::external_body]
pub struct ExSynGenericParam(syn::GenericParam);

#[verifier::external_type_specification]
#[verifier::external_body]
pub struct ExSynWhereClause(syn::WhereClause);

#[verifier::external_type_specification]
#[verifier::external_body]
pub struct ExSynAttribute(syn::Attribute);

#[verifier::external_type_specification]
#[verifier::external_body]
pub struct ExSynForeignItem(syn::ForeignItem);

#[verifier::external_type_specification]
#[verifier::external_body]
pub struct ExSynField(syn::Field);

/// The syntax model of the Rust source text `source`, as `syn` 2 parses it as a
/// whole file (`syn::parse_str::<syn::File>`), or `None` where `syn` refuses it.
///
/// Line numbers come from `proc-macro2` with span locations, which keeps one
/// source map per thread and grows it with every parse; its byte offsets are
/// `u32`, so once about 4 GiB of text has been parsed on one thread the lines
/// stop being a function of the text alone.  The claim that the model depends
/// on the text alone holds below that limit.
pub uninterp spec fn parse_rust_source(source: Seq<char>) -> Option<SourceFile>;

/// Parses `source` as a Rust file with `syn::parse_str::<syn::File>` and converts
/// the tree into the syntax model.  Claimed: the result is `parse_rust_source` of
/// the text, which depends on the text alone.
#[verifier::external_body]
pub fn parse_source(source: &str) -> (r: Option<SourceFile>)
    ensures
        r == parse_rust_source(source@),
{
    match syn::parse_str::<syn::File>(source) {
        Ok(file) => Some(SourceFile { items: with_attrs_item(&file.attrs, items_from_syn(&file.items)) }),
        Err(_) => None,
    }
}

/// Converts a list of items, in order.
#[verifier::external_body]
fn items_from_syn(items: &Vec<syn::Item>) -> Vec<ItemNode> {
    items.iter().map(item_from_syn).collect()
}

/// Converts an item (functions, impl blocks, constants, statics).
#[verifier::external_body]
fn item_from_syn(i: &syn::Item) -> ItemNode {
    match i {
        syn::Item::Fn(f) => ItemNode::Fn(fn_from_syn(&f.attrs, &f.vis, &f.sig, &f.block)),
        syn::Item::Impl(b) => ItemNode::Impl(impl_items_from_syn(b)),
        syn::Item::Const(c) => ItemNode::Const {
            name: c.ident.to_string(),
            ty: join(vec![attr_exprs(&c.attrs), generics_exprs(&c.generics), type_exprs(&c.ty)]),
            expr: expr_from_syn(&c.expr),
            line: c.span().start().line,
        },
        syn::Item::Static(s) => ItemNode::Static(join(vec![attr_exprs(&s.attrs), type_exprs(&s.ty), vec![expr_from_syn(&s.expr)]])),
        _ => item_from_syn_rest(i),
    }
}

/// Converts an item (inline modules, traits; every other item is `Other`).
#[verifier::external_body]
fn item_from_syn_rest(i: &syn::Item) -> ItemNode {
    match i {
        syn::Item::Mod(m) => match &m.content {
            Some((_, items)) => ItemNode::Mod(with_attrs_item(&m.attrs, items_from_syn(items))),
            None => ItemNode::Other(attr_exprs(&m.attrs)),
        },
        syn::Item::Trait(t) => ItemNode::Trait(trait_items_from_syn(t)),
        _ => ItemNode::Other(item_other_exprs(i)),
    }
}

/// Converts a function from its attributes, visibility, signature and body.
#[verifier::external_body]
fn fn_from_syn(attrs: &Vec<syn::Attribute>, vis: &syn::Visibility, sig: &syn::Signature, body: &syn::Block) -> FnItem {
    FnItem {
        is_pub: matches!(vis, syn::Visibility::Public(_)),
        name: sig.ident.to_string(),
        return_path: match &sig.output {
            syn::ReturnType::Type(_, ty) => match &**ty {
                syn::Type::Path(tp) => Some(path_from_syn(&tp.path)),
                _ => None,
            },
            syn::ReturnType::Default => None,
        },
        sig: join(vec![attr_exprs(attrs), sig_exprs(sig)]),
        body: block_from_syn(body),
    }
}

/// Converts an item of an `impl` block.
#[verifier::external_body]
fn impl_item_from_syn(i: &syn::ImplItem) -> ImplItemNode {
    match i {
        syn::ImplItem::Fn(f) => ImplItemNode::Fn(fn_from_syn(&f.attrs, &f.vis, &f.sig, &f.block)),
        syn::ImplItem::Const(c) => ImplItemNode::Const(
            join(vec![attr_exprs(&c.attrs), generics_exprs(&c.generics), type_exprs(&c.ty), vec![expr_from_syn(&c.expr)]]),
        ),
        syn::ImplItem::Type(t) => ImplItemNode::Other(join(vec![attr_exprs(&t.attrs), generics_exprs(&t.generics), type_exprs(&t.ty)])),
        syn::ImplItem::Macro(m) => ImplItemNode::Other(attr_exprs(&m.attrs)),
        _ => ImplItemNode::Other(Vec::new()),
    }
}

/// Converts an item of a trait.
#[verifier::external_body]
fn trait_item_from_syn(i: &syn::TraitItem) -> TraitItemNode {
    match i {
        syn::TraitItem::Fn(f) => TraitItemNode::Fn {
            sig: join(vec![attr_exprs(&f.attrs), sig_exprs(&f.sig)]),
            body: f.default.as_ref().map(block_from_syn),
        },
        syn::TraitItem::Macro(m) => TraitItemNode::Other(attr_exprs(&m.attrs)),
        _ => trait_item_from_syn_b(i),
    }
}

/// Converts an item of a trait (constants, associated types, others).
#[verifier::external_body]
fn trait_item_from_syn_b(i: &syn::TraitItem) -> TraitItemNode {
    match i {
        syn::TraitItem::Const(c) => TraitItemNode::Const(join(vec![
            attr_exprs(&c.attrs),
            generics_exprs(&c.generics),
            type_exprs(&c.ty),
            c.default.iter().map(|(_, e)| expr_from_syn(e)).collect(),
        ])),
        syn::TraitItem::Type(t) => TraitItemNode::Other(join(vec![
            attr_exprs(&t.attrs),
            generics_exprs(&t.generics),
            t.bounds.iter().flat_map(bound_exprs).collect(),
            t.default.iter().flat_map(|(_, ty)| type_exprs(ty)).collect(),
        ])),
        _ => TraitItemNode::Other(Vec::new()),
    }
}

/// Converts a block, statement by statement.
#[verifier::external_body]
fn block_from_syn(b: &syn::Block) -> BlockNode {
    BlockNode { stmts: b.stmts.iter().map(stmt_from_syn).collect() }
}

/// Converts a statement.
#[verifier::external_body]
fn stmt_from_syn(s: &syn::Stmt) -> StmtNode {
    match s {
        syn::Stmt::Local(l) => StmtNode::Local {
            pat: join(vec![attr_exprs(&l.attrs), pat_exprs(&l.pat)]),
            init: l.init.as_ref().map(|i| expr_from_syn(&i.expr)),
            diverge: l.init.as_ref().and_then(|i| i.diverge.as_ref()).map(|(_, e)| expr_from_syn(e)),
        },
        syn::Stmt::Item(i) => StmtNode::Item(item_from_syn(i)),
        syn::Stmt::Expr(e, _) => StmtNode::Expr(expr_from_syn(e)),
        syn::Stmt::Macro(m) => StmtNode::Macro(path_from_syn(&m.mac.path)),
    }
}

/// Converts a path: its leading `::` and, per segment, the identifier and
/// whether generic arguments follow it.
#[verifier::external_body]
fn path_from_syn(p: &syn::Path) -> SynPath {
    SynPath {
        leading_colon: p.leading_colon.is_some(),
        segments: p.segments.iter().map(|s| PathSegment {
            ident: s.ident.to_string(),
            has_arguments: !s.arguments.is_none(),
        }).collect(),
        arg_exprs: path_arg_exprs(p),
    }
}

/// Converts a literal: a string literal's value, an integer literal's base-10
/// digits, a boolean.
#[verifier::external_body]
fn lit_from_syn(l: &syn::Lit) -> LitValue {
    match l {
        syn::Lit::Str(s) => LitValue::Str(s.value()),
        syn::Lit::Int(i) => LitValue::Int(i.base10_digits().to_string()),
        syn::Lit::Bool(b) => LitValue::Bool(b.value),
        _ => LitValue::Other,
    }
}

/// Converts a binary operator.
#[verifier::external_body]
fn binop_from_syn(op: &syn::BinOp) -> BinaryOp {
    match op {
        syn::BinOp::Add(_) => BinaryOp::Add,
        syn::BinOp::Sub(_) => BinaryOp::Sub,
        syn::BinOp::Mul(_) => BinaryOp::Mul,
        syn::BinOp::AddAssign(_) => BinaryOp::AddAssign,
        syn::BinOp::SubAssign(_) => BinaryOp::SubAssign,
        syn::BinOp::MulAssign(_) => BinaryOp::MulAssign,
        _ => BinaryOp::Other,
    }
}

/// Converts a match arm: its guard and its body.
#[verifier::external_body]
fn arm_from_syn(a: &syn::Arm) -> MatchArm {
    MatchArm {
        pat: join(vec![attr_exprs(&a.attrs), pat_exprs(&a.pat)]),
        guard: a.guard.as_ref().map(|(_, g)| expr_from_syn(g)),
        body: expr_from_syn(&a.body),
    }
}

/// Converts an expression: its kind, the line of its first token, and its tokens
/// as a token stream prints them.
#[verifier::external_body]
fn expr_from_syn(e: &syn::Expr) -> ExprNode {
    ExprNode {
        attrs: expr_attrs(e),
        kind: kind_from_syn(e),
        line: e.span().start().line,
        text: e.to_token_stream().to_string(),
    }
}

/// The values of the `name = value` attributes of an expression.
#[verifier::external_body]
fn expr_attrs(e: &syn::Expr) -> Vec<ExprNode> {
    match e {
        syn::Expr::Array(x) => attr_exprs(&x.attrs),
        syn::Expr::Assign(x) => attr_exprs(&x.attrs),
        syn::Expr::Async(x) => attr_exprs(&x.attrs),
        syn::Expr::Await(x) => attr_exprs(&x.attrs),
        syn::Expr::Binary(x) => attr_exprs(&x.attrs),
        syn::Expr::Block(x) => attr_exprs(&x.attrs),
        syn::Expr::Break(x) => attr_exprs(&x.attrs),
        syn::Expr::Call(x) => attr_exprs(&x.attrs),
        syn::Expr::Cast(x) => attr_exprs(&x.attrs),
        syn::Expr::Closure(x) => attr_exprs(&x.attrs),
        _ => expr_attrs_b(e),
    }
}

/// The values of the `name = value` attributes of an expression (continued).
#[verifier::external_body]
fn expr_attrs_b(e: &syn::Expr) -> Vec<ExprNode> {
    match e {
        syn::Expr::Const(x) => attr_exprs(&x.attrs),
        syn::Expr::Continue(x) => attr_exprs(&x.attrs),
        syn::Expr::Field(x) => attr_exprs(&x.attrs),
        syn::Expr::ForLoop(x) => attr_exprs(&x.attrs),
        syn::Expr::Group(x) => attr_exprs(&x.attrs),
        syn::Expr::If(x) => attr_exprs(&x.attrs),
        syn::Expr::Index(x) => attr_exprs(&x.attrs),
        syn::Expr::Infer(x) => attr_exprs(&x.attrs),
        syn::Expr::Let(x) => attr_exprs(&x.attrs),
        syn::Expr::Lit(x) => attr_exprs(&x.attrs),
        _ => expr_attrs_c(e),
    }
}

/// The values of the `name = value` attributes of an expression (continued).
#[verifier::external_body]
fn expr_attrs_c(e: &syn::Expr) -> Vec<ExprNode> {
    match e {
        syn::Expr::Loop(x) => attr_exprs(&x.attrs),
        syn::Expr::Macro(x) => attr_exprs(&x.attrs),
        syn::Expr::Match(x) => attr_exprs(&x.attrs),
        syn::Expr::MethodCall(x) => attr_exprs(&x.attrs),
        syn::Expr::Paren(x) => attr_exprs(&x.attrs),
        syn::Expr::Path(x) => attr_exprs(&x.attrs),
        syn::Expr::Range(x) => attr_exprs(&x.attrs),
        syn::Expr::RawAddr(x) => attr_exprs(&x.attrs),
        syn::Expr::Reference(x) => attr_exprs(&x.attrs),
        syn::Expr::Repeat(x) => attr_exprs(&x.attrs),
        _ => expr_attrs_d(e),
    }
}

/// The values of the `name = value` attributes of an expression (continued).
#[verifier::external_body]
fn expr_attrs_d(e: &syn::Expr) -> Vec<ExprNode> {
    match e {
        syn::Expr::Return(x) => attr_exprs(&x.attrs),
        syn::Expr::Struct(x) => attr_exprs(&x.attrs),
        syn::Expr::Try(x) => attr_exprs(&x.attrs),
        syn::Expr::TryBlock(x) => attr_exprs(&x.attrs),
        syn::Expr::Tuple(x) => attr_exprs(&x.attrs),
        syn::Expr::Unary(x) => attr_exprs(&x.attrs),
        syn::Expr::Unsafe(x) => attr_exprs(&x.attrs),
        syn::Expr::While(x) => attr_exprs(&x.attrs),
        syn::Expr::Yield(x) => attr_exprs(&x.attrs),
        _ => Vec::new(),
    }
}

/// Converts a block standing as a sub-expression into a `BlockNode` expression.
#[verifier::external_body]
fn block_expr_from_syn(b: &syn::Block) -> ExprNode {
    ExprNode {
        attrs: Vec::new(),
        kind: ExprKind::Block(block_from_syn(b)),
        line: b.span().start().line,
        text: b.to_token_stream().to_string(),
    }
}

/// Converts the kind of an expression (calls, method calls, binary operations,
/// paths, literals).
#[verifier::external_body]
fn kind_from_syn(e: &syn::Expr) -> ExprKind {
    match e {
        syn::Expr::Call(c) => ExprKind::Call {
            func: Box::new(expr_from_syn(&c.func)),
            args: c.args.iter().map(expr_from_syn).collect(),
        },
        syn::Expr::Binary(b) => ExprKind::Binary {
            left: Box::new(expr_from_syn(&b.left)),
            op: binop_from_syn(&b.op),
            right: Box::new(expr_from_syn(&b.right)),
        },
        syn::Expr::Path(p) => ExprKind::Path(path_from_syn(&p.path)),
        syn::Expr::Lit(l) => ExprKind::Lit(lit_from_syn(&l.lit)),
        _ => kind_from_syn_b(e),
    }
}

/// Converts the kind of an expression (method calls).
#[verifier::external_body]
fn kind_from_syn_b(e: &syn::Expr) -> ExprKind {
    match e {
        syn::Expr::MethodCall(m) => ExprKind::MethodCall {
            receiver: Box::new(expr_from_syn(&m.receiver)),
            method: m.method.to_string(),
            method_line: m.method.span().start().line,
            turbofish: m.turbofish.as_ref().map(angle_args_exprs).unwrap_or_default(),
            args: m.args.iter().map(expr_from_syn).collect(),
        },
        _ => kind_from_syn_c(e),
    }
}

/// Converts the kind of an expression (blocks, `if`, `match`).
#[verifier::external_body]
fn kind_from_syn_c(e: &syn::Expr) -> ExprKind {
    match e {
        syn::Expr::Block(b) => ExprKind::Block(block_from_syn(&b.block)),
        syn::Expr::If(i) => ExprKind::If {
            cond: Box::new(expr_from_syn(&i.cond)),
            then_branch: block_from_syn(&i.then_branch),
            else_branch: i.else_branch.as_ref().map(|(_, x)| Box::new(expr_from_syn(x))),
        },
        syn::Expr::Match(m) => ExprKind::Match {
            scrutinee: Box::new(expr_from_syn(&m.expr)),
            arms: m.arms.iter().map(arm_from_syn).collect(),
        },
        _ => kind_from_syn_d(e),
    }
}

/// Converts the kind of an expression (`?`, assignments, references,
/// parentheses, macros; every other kind keeps its sub-expressions).
#[verifier::external_body]
fn kind_from_syn_d(e: &syn::Expr) -> ExprKind {
    match e {
        syn::Expr::Try(t) => ExprKind::Try(Box::new(expr_from_syn(&t.expr))),
        syn::Expr::Assign(a) => ExprKind::Assign {
            left: Box::new(expr_from_syn(&a.left)),
            right: Box::new(expr_from_syn(&a.right)),
        },
        syn::Expr::Reference(r) => ExprKind::Reference(Box::new(expr_from_syn(&r.expr))),
        syn::Expr::Paren(p) => ExprKind::Paren(Box::new(expr_from_syn(&p.expr))),
        syn::Expr::Macro(m) => ExprKind::Macro {
            path: path_from_syn(&m.mac.path),
            tokens: m.mac.tokens.to_string(),
        },
        _ => ExprKind::Other(children_from_syn(e)),
    }
}

/// The sub-expressions of other kinds of expression, in source order (unary,
/// field, cast, index, await, group).
#[verifier::external_body]
fn children_from_syn(e: &syn::Expr) -> Vec<ExprNode> {
    match e {
        syn::Expr::Unary(x) => vec![expr_from_syn(&x.expr)],
        syn::Expr::Field(x) => vec![expr_from_syn(&x.base)],
        syn::Expr::Cast(x) => join(vec![vec![expr_from_syn(&x.expr)], type_exprs(&x.ty)]),
        syn::Expr::Index(x) => vec![expr_from_syn(&x.expr), expr_from_syn(&x.index)],
        syn::Expr::Await(x) => vec![expr_from_syn(&x.base)],
        syn::Expr::Group(x) => vec![expr_from_syn(&x.expr)],
        _ => children_from_syn_b(e),
    }
}

/// The sub-expressions of other kinds of expression (arrays, tuples, struct
/// literals, ranges, repeats).
#[verifier::external_body]
fn children_from_syn_b(e: &syn::Expr) -> Vec<ExprNode> {
    match e {
        syn::Expr::Array(x) => x.elems.iter().map(expr_from_syn).collect(),
        syn::Expr::Tuple(x) => x.elems.iter().map(expr_from_syn).collect(),
        syn::Expr::Struct(x) => join(vec![
            path_arg_exprs(&x.path),
            x.fields.iter().map(|f| &f.expr).chain(x.rest.as_deref()).map(expr_from_syn).collect(),
        ]),
        syn::Expr::Range(x) => x.start.as_deref().into_iter().chain(x.end.as_deref()).map(expr_from_syn).collect(),
        syn::Expr::Repeat(x) => vec![expr_from_syn(&x.expr), expr_from_syn(&x.len)],
        _ => children_from_syn_c(e),
    }
}

/// The sub-expressions of other kinds of expression (`return`, `break`,
/// `yield`, `let`, closures, raw addresses).
#[verifier::external_body]
fn children_from_syn_c(e: &syn::Expr) -> Vec<ExprNode> {
    match e {
        syn::Expr::Return(x) => x.expr.as_deref().map(expr_from_syn).into_iter().collect(),
        syn::Expr::Break(x) => x.expr.as_deref().map(expr_from_syn).into_iter().collect(),
        syn::Expr::Yield(x) => x.expr.as_deref().map(expr_from_syn).into_iter().collect(),
        syn::Expr::Let(x) => join(vec![pat_exprs(&x.pat), vec![expr_from_syn(&x.expr)]]),
        syn::Expr::Closure(_) => closure_children(e),
        syn::Expr::RawAddr(x) => vec![expr_from_syn(&x.expr)],
        _ => children_from_syn_d(e),
    }
}

/// The sub-expressions of other kinds of expression (loops and the kinds made of
/// one block); the remaining kinds have none.
#[verifier::external_body]
fn children_from_syn_d(e: &syn::Expr) -> Vec<ExprNode> {
    match e {
        syn::Expr::ForLoop(x) => join(vec![pat_exprs(&x.pat), vec![expr_from_syn(&x.expr), block_expr_from_syn(&x.body)]]),
        syn::Expr::While(x) => vec![expr_from_syn(&x.cond), block_expr_from_syn(&x.body)],
        syn::Expr::Loop(x) => vec![block_expr_from_syn(&x.body)],
        syn::Expr::Async(x) => vec![block_expr_from_syn(&x.block)],
        syn::Expr::Unsafe(x) => vec![block_expr_from_syn(&x.block)],
        syn::Expr::Const(x) => vec![block_expr_from_syn(&x.block)],
        syn::Expr::TryBlock(x) => vec![block_expr_from_syn(&x.block)],
        _ => Vec::new(),
    }
}

/// The lists `parts`, one after another.
pub open spec fn concat_all(parts: Seq<Seq<ExprNode>>) -> Seq<ExprNode>
    decreases parts.len(),
{
    if parts.len() == 0 {
        Seq::empty()
    } else {
        parts[0] + concat_all(parts.drop_first())
    }
}

/// Each list of `parts` by its elements.
pub open spec fn parts_view(parts: Seq<Vec<ExprNode>>) -> Seq<Seq<ExprNode>> {
    parts.map_values(|v: Vec<ExprNode>| v@)
}

/// Joins lists of converted expressions, in order.
fn join(parts: Vec<Vec<ExprNode>>) -> (r: Vec<ExprNode>)
    ensures
        r@ == concat_all(parts_view(parts@)),
{
    let ghost all = parts_view(parts@);
    let mut rest = parts;
    let mut out: Vec<ExprNode> = Vec::new();
    while rest.len() > 0
        invariant
            out@ + concat_all(parts_view(rest@)) == concat_all(all),
        decreases rest@.len(),
    {
        let ghost before = rest@;
        let mut first = rest.remove(0);
        proof {
            assert(parts_view(rest@) =~= parts_view(before).drop_first());
            assert(parts_view(before)[0] == first@);
        }
        let ghost out_before = out@;
        out.append(&mut first);
        proof {
            assert(out@ + concat_all(parts_view(rest@)) =~= out_before + concat_all(parts_view(before)));
        }
    }
    proof {
        assert(concat_all(parts_view(rest@)) =~= Seq::<ExprNode>::empty());
        assert(out@ =~= out@ + Seq::<ExprNode>::empty());
    }
    out
}

/// The items of an `impl` block, after an `Other` item holding the expressions
/// inside its header (generics, trait path, self type).
#[verifier::external_body]
fn impl_items_from_syn(b: &syn::ItemImpl) -> Vec<ImplItemNode> {
    let header = join(vec![
        attr_exprs(&b.attrs),
        generics_exprs(&b.generics),
        b.trait_.iter().flat_map(|(_, p, _)| path_arg_exprs(p)).collect(),
        type_exprs(&b.self_ty),
    ]);
    std::iter::once(ImplItemNode::Other(header)).chain(b.items.iter().map(impl_item_from_syn)).collect()
}

/// The items of a trait, after an `Other` item holding the expressions inside
/// its header (generics, supertraits).
#[verifier::external_body]
fn trait_items_from_syn(t: &syn::ItemTrait) -> Vec<TraitItemNode> {
    let header = join(vec![attr_exprs(&t.attrs), generics_exprs(&t.generics), t.supertraits.iter().flat_map(bound_exprs).collect()]);
    std::iter::once(TraitItemNode::Other(header)).chain(t.items.iter().map(trait_item_from_syn)).collect()
}

/// The expressions nested in an item other than a function, `impl` block,
/// constant, static, module or trait.
#[verifier::external_body]
fn item_other_exprs(i: &syn::Item) -> Vec<ExprNode> {
    match i {
        syn::Item::Struct(s) => join(vec![attr_exprs(&s.attrs), generics_exprs(&s.generics), fields_exprs(&s.fields)]),
        syn::Item::Enum(e) => join(vec![attr_exprs(&e.attrs), generics_exprs(&e.generics), e.variants.iter().flat_map(variant_exprs).collect()]),
        syn::Item::Type(t) => join(vec![attr_exprs(&t.attrs), generics_exprs(&t.generics), type_exprs(&t.ty)]),
        _ => item_other_exprs_b(i),
    }
}

/// The expressions nested in unions, trait aliases and foreign blocks, with
/// their attributes.
#[verifier::external_body]
fn item_other_exprs_b(i: &syn::Item) -> Vec<ExprNode> {
    match i {
        syn::Item::Union(u) => join(vec![attr_exprs(&u.attrs), generics_exprs(&u.generics), u.fields.named.iter().flat_map(field_exprs).collect()]),
        syn::Item::TraitAlias(t) => join(vec![attr_exprs(&t.attrs), generics_exprs(&t.generics), t.bounds.iter().flat_map(bound_exprs).collect()]),
        syn::Item::ForeignMod(m) => join(vec![attr_exprs(&m.attrs), m.items.iter().flat_map(foreign_item_exprs).collect()]),
        _ => item_other_exprs_c(i),
    }
}

/// The expressions inside an enum variant: its attributes, its field types, then
/// its discriminant.
#[verifier::external_body]
fn variant_exprs(v: &syn::Variant) -> Vec<ExprNode> {
    join(vec![attr_exprs(&v.attrs), fields_exprs(&v.fields), v.discriminant.iter().map(|(_, d)| expr_from_syn(d)).collect()])
}

/// The expressions inside the attributes of `use`, `extern crate` and macro items.
#[verifier::external_body]
fn item_other_exprs_c(i: &syn::Item) -> Vec<ExprNode> {
    match i {
        syn::Item::Use(x) => attr_exprs(&x.attrs),
        syn::Item::ExternCrate(x) => attr_exprs(&x.attrs),
        syn::Item::Macro(x) => attr_exprs(&x.attrs),
        _ => Vec::new(),
    }
}

/// The expressions inside an item of a foreign block: its attributes, then its
/// signature or type.
#[verifier::external_body]
fn foreign_item_exprs(f: &syn::ForeignItem) -> Vec<ExprNode> {
    match f {
        syn::ForeignItem::Fn(x) => join(vec![attr_exprs(&x.attrs), sig_exprs(&x.sig)]),
        syn::ForeignItem::Static(x) => join(vec![attr_exprs(&x.attrs), type_exprs(&x.ty)]),
        syn::ForeignItem::Type(x) => attr_exprs(&x.attrs),
        syn::ForeignItem::Macro(x) => attr_exprs(&x.attrs),
        _ => Vec::new(),
    }
}

/// The values of the `name = value` attributes among `attrs`, in order.
#[verifier::external_body]
fn attr_exprs(attrs: &Vec<syn::Attribute>) -> Vec<ExprNode> {
    attrs.iter().flat_map(|a| match &a.meta {
        syn::Meta::NameValue(nv) => vec![expr_from_syn(&nv.value)],
        _ => Vec::new(),
    }).collect()
}

/// `items`, after an `Other` item holding the values of `attrs`.
#[verifier::external_body]
fn with_attrs_item(attrs: &Vec<syn::Attribute>, items: Vec<ItemNode>) -> Vec<ItemNode> {
    std::iter::once(ItemNode::Other(attr_exprs(attrs))).chain(items).collect()
}

/// The sub-expressions of a closure: those inside its parameter patterns and
/// return type, then its body.
#[verifier::external_body]
fn closure_children(e: &syn::Expr) -> Vec<ExprNode> {
    match e {
        syn::Expr::Closure(x) => join(vec![
            x.inputs.iter().flat_map(pat_exprs).collect(),
            return_exprs(&x.output),
            vec![expr_from_syn(&x.body)],
        ]),
        _ => Vec::new(),
    }
}

/// The expressions inside fields: each field's attributes, then its type.
#[verifier::external_body]
fn fields_exprs(fields: &syn::Fields) -> Vec<ExprNode> {
    fields.iter().flat_map(field_exprs).collect()
}

/// The expressions inside a field: its attributes, then its type.
#[verifier::external_body]
fn field_exprs(f: &syn::Field) -> Vec<ExprNode> {
    join(vec![attr_exprs(&f.attrs), type_exprs(&f.ty)])
}

/// The expressions inside a signature: generics, parameter attributes, patterns
/// and types, return type.
#[verifier::external_body]
fn sig_exprs(sig: &syn::Signature) -> Vec<ExprNode> {
    let inputs = sig.inputs.iter().flat_map(|a| match a {
        syn::FnArg::Receiver(r) => join(vec![attr_exprs(&r.attrs), type_exprs(&r.ty)]),
        syn::FnArg::Typed(t) => join(vec![attr_exprs(&t.attrs), pat_exprs(&t.pat), type_exprs(&t.ty)]),
    }).collect();
    join(vec![generics_exprs(&sig.generics), inputs, return_exprs(&sig.output)])
}

/// The expressions inside a return type.
#[verifier::external_body]
fn return_exprs(r: &syn::ReturnType) -> Vec<ExprNode> {
    match r {
        syn::ReturnType::Type(_, ty) => type_exprs(ty),
        syn::ReturnType::Default => Vec::new(),
    }
}

/// The expressions inside generics: those of each parameter, then those of the
/// `where` clause.
#[verifier::external_body]
fn generics_exprs(g: &syn::Generics) -> Vec<ExprNode> {
    join(vec![g.params.iter().flat_map(generic_param_exprs).collect(), g.where_clause.iter().flat_map(where_exprs).collect()])
}

/// The expressions inside a generic parameter: bounds, default types, const
/// parameter types and defaults.
#[verifier::external_body]
fn generic_param_exprs(p: &syn::GenericParam) -> Vec<ExprNode> {
    match p {
        syn::GenericParam::Type(t) => join(vec![
            attr_exprs(&t.attrs),
            t.bounds.iter().flat_map(bound_exprs).collect(),
            t.default.iter().flat_map(type_exprs).collect(),
        ]),
        syn::GenericParam::Const(c) => join(vec![attr_exprs(&c.attrs), type_exprs(&c.ty), c.default.iter().map(expr_from_syn).collect()]),
        syn::GenericParam::Lifetime(l) => attr_exprs(&l.attrs),
    }
}

/// The expressions inside the type predicates of a `where` clause.
#[verifier::external_body]
fn where_exprs(w: &syn::WhereClause) -> Vec<ExprNode> {
    w.predicates.iter().flat_map(|p| match p {
        syn::WherePredicate::Type(t) => join(vec![type_exprs(&t.bounded_ty), t.bounds.iter().flat_map(bound_exprs).collect()]),
        _ => Vec::new(),
    }).collect()
}

/// The expressions inside the generic arguments of a trait bound.
#[verifier::external_body]
fn bound_exprs(b: &syn::TypeParamBound) -> Vec<ExprNode> {
    match b {
        syn::TypeParamBound::Trait(t) => path_arg_exprs(&t.path),
        _ => Vec::new(),
    }
}

/// The expressions inside a type: array lengths and those inside element
/// types and generic arguments.
#[verifier::external_body]
fn type_exprs(t: &syn::Type) -> Vec<ExprNode> {
    match t {
        syn::Type::Array(a) => join(vec![type_exprs(&a.elem), vec![expr_from_syn(&a.len)]]),
        syn::Type::Slice(x) => type_exprs(&x.elem),
        syn::Type::Ptr(x) => type_exprs(&x.elem),
        syn::Type::Reference(x) => type_exprs(&x.elem),
        syn::Type::Paren(x) => type_exprs(&x.elem),
        syn::Type::Group(x) => type_exprs(&x.elem),
        syn::Type::Tuple(x) => x.elems.iter().flat_map(type_exprs).collect(),
        _ => type_exprs_b(t),
    }
}

/// The expressions inside path types, function pointer types and trait bounds.
#[verifier::external_body]
fn type_exprs_b(t: &syn::Type) -> Vec<ExprNode> {
    match t {
        syn::Type::Path(x) => join(vec![x.qself.iter().flat_map(|q| type_exprs(&q.ty)).collect(), path_arg_exprs(&x.path)]),
        syn::Type::BareFn(x) => join(vec![x.inputs.iter().flat_map(|a| type_exprs(&a.ty)).collect(), return_exprs(&x.output)]),
        syn::Type::ImplTrait(x) => x.bounds.iter().flat_map(bound_exprs).collect(),
        syn::Type::TraitObject(x) => x.bounds.iter().flat_map(bound_exprs).collect(),
        _ => Vec::new(),
    }
}

/// The expressions inside the generic arguments of each segment of a path.
#[verifier::external_body]
fn path_arg_exprs(p: &syn::Path) -> Vec<ExprNode> {
    p.segments.iter().flat_map(|s| match &s.arguments {
        syn::PathArguments::AngleBracketed(a) => angle_args_exprs(a),
        syn::PathArguments::Parenthesized(a) => join(vec![a.inputs.iter().flat_map(type_exprs).collect(), return_exprs(&a.output)]),
        syn::PathArguments::None => Vec::new(),
    }).collect()
}

/// The expressions inside angle-bracketed generic arguments.
#[verifier::external_body]
fn angle_args_exprs(a: &syn::AngleBracketedGenericArguments) -> Vec<ExprNode> {
    a.args.iter().flat_map(|g| match g {
        syn::GenericArgument::Type(t) => type_exprs(t),
        syn::GenericArgument::Const(e) => vec![expr_from_syn(e)],
        syn::GenericArgument::AssocType(x) => join(vec![x.generics.iter().flat_map(angle_args_exprs).collect(), type_exprs(&x.ty)]),
        syn::GenericArgument::AssocConst(x) => join(vec![x.generics.iter().flat_map(angle_args_exprs).collect(), vec![expr_from_syn(&x.value)]]),
        syn::GenericArgument::Constraint(x) => join(vec![x.generics.iter().flat_map(angle_args_exprs).collect(), x.bounds.iter().flat_map(bound_exprs).collect()]),
        _ => Vec::new(),
    }).collect()
}

/// The expressions inside a pattern: range bounds, const blocks, and those
/// inside sub-patterns, paths and type annotations.
#[verifier::external_body]
fn pat_exprs(p: &syn::Pat) -> Vec<ExprNode> {
    match p {
        syn::Pat::Const(x) => vec![block_expr_from_syn(&x.block)],
        syn::Pat::Ident(x) => x.subpat.iter().flat_map(|(_, s)| pat_exprs(s)).collect(),
        syn::Pat::Or(x) => x.cases.iter().flat_map(pat_exprs).collect(),
        syn::Pat::Paren(x) => pat_exprs(&x.pat),
        syn::Pat::Reference(x) => pat_exprs(&x.pat),
        _ => pat_exprs_b(p),
    }
}

/// The expressions inside slice, struct, tuple and typed patterns.
#[verifier::external_body]
fn pat_exprs_b(p: &syn::Pat) -> Vec<ExprNode> {
    match p {
        syn::Pat::Slice(x) => x.elems.iter().flat_map(pat_exprs).collect(),
        syn::Pat::Struct(x) => join(vec![path_arg_exprs(&x.path), x.fields.iter().flat_map(|f| pat_exprs(&f.pat)).collect()]),
        syn::Pat::Tuple(x) => x.elems.iter().flat_map(pat_exprs).collect(),
        syn::Pat::TupleStruct(x) => join(vec![path_arg_exprs(&x.path), x.elems.iter().flat_map(pat_exprs).collect()]),
        syn::Pat::Type(x) => join(vec![pat_exprs(&x.pat), type_exprs(&x.ty)]),
        _ => pat_exprs_c(p),
    }
}

/// The expressions inside path and range patterns.
#[verifier::external_body]
fn pat_exprs_c(p: &syn::Pat) -> Vec<ExprNode> {
    match p {
        syn::Pat::Path(x) => join(vec![x.qself.iter().flat_map(|q| type_exprs(&q.ty)).collect(), path_arg_exprs(&x.path)]),
        syn::Pat::Range(x) => x.start.iter().chain(x.end.iter()).map(|e| expr_from_syn(e)).collect(),
        _ => Vec::new(),
    }
}

} // verus!
