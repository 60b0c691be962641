//! The library's own model of the parts of a Rust source file that the rules read.
use vstd::prelude::*;

verus! {

/// One segment of a path: its identifier and whether it carries generic arguments.
pub struct PathSegment {
    pub ident: String,
    pub has_arguments: bool,
}

/// A path such as the callee `Symbol::new` or a macro name, with the
/// expressions inside its generic arguments (array lengths, const arguments), in
/// source order.
pub struct SynPath {
    pub leading_colon: bool,
    pub segments: Vec<PathSegment>,
    pub arg_exprs: Vec<ExprNode>,
}

/// A literal: the value of a string literal, the base-10 digits of an integer
/// literal, a boolean, or any other literal.
pub enum LitValue {
    Str(String),
    Int(String),
    Bool(bool),
    Other,
}

/// The binary operators that the rules tell apart.
pub enum BinaryOp {
    Add,
    Sub,
    Mul,
    AddAssign,
    SubAssign,
    MulAssign,
    Other,
}

/// An expression: the values of its `name = value` attributes, its kind, the
/// line on which it starts, and its token text (the tokens printed with single
/// spaces, as token streams print).
pub struct ExprNode {
    pub attrs: Vec<ExprNode>,
    pub kind: ExprKind,
    pub line: usize,
    pub text: String,
}

/// The kinds of expression the rules look into; `Other` keeps, in source order,
/// the sub-expressions (blocks as `BlockNode` expressions, and the expressions
/// inside patterns and types) of every other kind.  A method call keeps the
/// expressions inside its turbofish.
pub enum ExprKind {
    Call { func: Box<ExprNode>, args: Vec<ExprNode> },
    MethodCall {
        receiver: Box<ExprNode>,
        method: String,
        method_line: usize,
        turbofish: Vec<ExprNode>,
        args: Vec<ExprNode>,
    },
    Binary { left: Box<ExprNode>, op: BinaryOp, right: Box<ExprNode> },
    Path(SynPath),
    Lit(LitValue),
    Block(BlockNode),
    If { cond: Box<ExprNode>, then_branch: BlockNode, else_branch: Option<Box<ExprNode>> },
    Match { scrutinee: Box<ExprNode>, arms: Vec<MatchArm> },
    Try(Box<ExprNode>),
    Assign { left: Box<ExprNode>, right: Box<ExprNode> },
    Reference(Box<ExprNode>),
    Paren(Box<ExprNode>),
    Macro { path: SynPath, tokens: String },
    Other(Vec<ExprNode>),
}

/// A match arm: the expressions inside its pattern, its guard and its body.
pub struct MatchArm {
    pub pat: Vec<ExprNode>,
    pub guard: Option<ExprNode>,
    pub body: ExprNode,
}

/// A block of statements.
pub struct BlockNode {
    pub stmts: Vec<StmtNode>,
}

/// A statement: a `let` with the expressions inside its pattern and type, its
/// initialiser and `else` branch; a nested item; an expression; or a macro
/// invocation in statement position.
pub enum StmtNode {
    Local { pat: Vec<ExprNode>, init: Option<ExprNode>, diverge: Option<ExprNode> },
    Item(ItemNode),
    Expr(ExprNode),
    Macro(SynPath),
}

/// A function with a body: whether it is `pub`, its name, the path of its return
/// type when that type is a path, the expressions inside its signature (generics,
/// parameter patterns and types, return type), and its body.
pub struct FnItem {
    pub is_pub: bool,
    pub name: String,
    pub return_path: Option<SynPath>,
    pub sig: Vec<ExprNode>,
    pub body: BlockNode,
}

/// An item of a file, module or block.  A constant keeps the expressions inside
/// its generics and type; a static keeps those inside its type, then its value;
/// an `impl` block or a trait starts with an `Other` item holding the expressions
/// inside its header; every other item keeps the expressions nested in it (field
/// types, enum discriminants, aliased types, foreign signatures).
pub enum ItemNode {
    Fn(FnItem),
    Impl(Vec<ImplItemNode>),
    Const { name: String, ty: Vec<ExprNode>, expr: ExprNode, line: usize },
    Static(Vec<ExprNode>),
    Mod(Vec<ItemNode>),
    Trait(Vec<TraitItemNode>),
    Other(Vec<ExprNode>),
}

/// An item of an `impl` block: a method; a constant with the expressions inside
/// its generics and type, then its value; or the expressions nested in any
/// other item.
pub enum ImplItemNode {
    Fn(FnItem),
    Const(Vec<ExprNode>),
    Other(Vec<ExprNode>),
}

/// An item of a trait: a method with the expressions inside its signature and
/// its default body; a constant with the expressions inside its generics and
/// type, then its default value; or the expressions nested in any other item.
pub enum TraitItemNode {
    Fn { sig: Vec<ExprNode>, body: Option<BlockNode> },
    Const(Vec<ExprNode>),
    Other(Vec<ExprNode>),
}

/// A parsed source file.
pub struct SourceFile {
    pub items: Vec<ItemNode>,
}

} // verus!
