//! The C syntax tree that the code generator reads: the parts of a parsed
//! translation unit that it compiles, and a catch-all for everything else.

use vstd::prelude::*;

verus! {

/// Base of an integer literal.
#[derive(Debug, Clone, Copy, PartialEq, Eq, Structural)]
pub enum Base {
    Decimal,
    Octal,
    Hexadecimal,
    Binary,
}

/// Numeric and character constants.
#[derive(Debug)]
pub enum Literal {
    /// The digits of the literal, without any base prefix or suffix.
    Integer(Base, String),
    Float,
    /// The literal as written, quotes included.
    Character(String),
}

/// Unary operators.
#[derive(Debug, Clone, Copy, PartialEq, Eq, Structural)]
pub enum UnaryOp {
    PostIncrement,
    PostDecrement,
    PreIncrement,
    PreDecrement,
    Address,
    Indirection,
    Plus,
    Minus,
    Complement,
    Negate,
}

/// Binary operators.
#[derive(Debug, Clone, Copy, PartialEq, Eq, Structural)]
pub enum BinaryOp {
    Index,
    Multiply,
    Divide,
    Modulo,
    Plus,
    Minus,
    ShiftLeft,
    ShiftRight,
    Less,
    Greater,
    LessOrEqual,
    GreaterOrEqual,
    Equals,
    NotEquals,
    BitwiseAnd,
    BitwiseXor,
    BitwiseOr,
    LogicalAnd,
    LogicalOr,
    Assign,
    AssignMultiply,
    AssignDivide,
    AssignModulo,
    AssignPlus,
    AssignMinus,
    AssignShiftLeft,
    AssignShiftRight,
    AssignBitwiseAnd,
    AssignBitwiseXor,
    AssignBitwiseOr,
}

/// Expressions.
#[derive(Debug)]
pub enum Expr {
    Identifier(String),
    Literal(Literal),
    UnaryOp(UnaryOp, Box<Expr>),
    BinaryOp(BinaryOp, Box<Expr>, Box<Expr>),
    /// Callee and arguments.
    Call(Box<Expr>, Vec<Expr>),
    /// Any other form of expression (casts, members, strings, ...).
    Other,
}

/// Value assigned in a declaration.
#[derive(Debug)]
pub enum Init {
    Expression(Box<Expr>),
    List,
}

/// Name part of a declarator.
#[derive(Debug)]
pub enum DeclrKind {
    Abstract,
    Identifier(String),
    Declarator(Box<Declr>),
}

/// One parameter of a function declarator.
#[derive(Debug)]
pub struct ParameterDeclaration {
    pub declarator: Option<Declr>,
}

/// Pointer, array and function parts of a declarator.
#[derive(Debug)]
pub enum DerivedDeclr {
    /// A `( parameters )` part.
    Function(Vec<ParameterDeclaration>),
    /// Pointers, arrays and old-style parameter lists.
    Other,
}

/// A declarator: the declared name and what is derived from it.
#[derive(Debug)]
pub struct Declr {
    pub kind: DeclrKind,
    pub derived: Vec<DerivedDeclr>,
}

/// One declared name, with its optional initializer.
#[derive(Debug)]
pub struct InitDecl {
    pub declarator: Declr,
    pub initializer: Option<Init>,
}

/// A declaration of one or more names.
#[derive(Debug)]
pub struct Decl {
    pub declarators: Vec<InitDecl>,
}

/// First part of a `for` statement.
#[derive(Debug)]
pub enum ForInit {
    Empty,
    Expression(Box<Expr>),
    Declaration(Decl),
    StaticAssert,
}

/// Statements.
#[derive(Debug)]
pub enum Stmt {
    Compound(Vec<BlockEntry>),
    Expression(Option<Box<Expr>>),
    If {
        condition: Box<Expr>,
        then_statement: Box<Stmt>,
        else_statement: Option<Box<Stmt>>,
    },
    While { expression: Box<Expr>, statement: Box<Stmt> },
    DoWhile { statement: Box<Stmt>, expression: Box<Expr> },
    For {
        initializer: ForInit,
        condition: Option<Box<Expr>>,
        step: Option<Box<Expr>>,
        statement: Box<Stmt>,
    },
    Continue,
    Break,
    Return(Option<Box<Expr>>),
    /// Labels, `switch`, `goto`, inline assembly.
    Other,
}

/// Element of a compound statement.
#[derive(Debug)]
pub enum BlockEntry {
    Declaration(Decl),
    Statement(Stmt),
    StaticAssert,
}

/// A function definition.
#[derive(Debug)]
pub struct FunctionDefinition {
    pub declarator: Declr,
    pub statement: Stmt,
}

/// Top-level element of a C program.
#[derive(Debug)]
pub enum TopLevel {
    Declaration(Decl),
    FunctionDefinition(FunctionDefinition),
    StaticAssert,
}

/// An entire C source file.
#[derive(Debug)]
pub struct TranslationUnit(pub Vec<TopLevel>);

/// The name by which a unary operator is reported.
pub open spec fn unary_operator_name(op: UnaryOp) -> Seq<char> {
    match op {
        UnaryOp::PostIncrement => "PostIncrement"@,
        UnaryOp::PostDecrement => "PostDecrement"@,
        UnaryOp::PreIncrement => "PreIncrement"@,
        UnaryOp::PreDecrement => "PreDecrement"@,
        UnaryOp::Address => "Address"@,
        UnaryOp::Indirection => "Indirection"@,
        UnaryOp::Plus => "Plus"@,
        UnaryOp::Minus => "Minus"@,
        UnaryOp::Complement => "Complement"@,
        UnaryOp::Negate => "Negate"@,
    }
}

/// The name by which a unary operator is reported.
pub fn unary_operator_name_str(op: UnaryOp) -> (r: &'static str)
    ensures
        r@ == unary_operator_name(op),
{
    match op {
        UnaryOp::PostIncrement => "PostIncrement",
        UnaryOp::PostDecrement => "PostDecrement",
        UnaryOp::PreIncrement => "PreIncrement",
        UnaryOp::PreDecrement => "PreDecrement",
        UnaryOp::Address => "Address",
        UnaryOp::Indirection => "Indirection",
        UnaryOp::Plus => "Plus",
        UnaryOp::Minus => "Minus",
        UnaryOp::Complement => "Complement",
        UnaryOp::Negate => "Negate",
    }
}

/// The name by which a binary operator is reported.
pub open spec fn binary_operator_name(op: BinaryOp) -> Seq<char> {
    match op {
        BinaryOp::Index => "Index"@,
        BinaryOp::Multiply => "Multiply"@,
        BinaryOp::Divide => "Divide"@,
        BinaryOp::Modulo => "Modulo"@,
        BinaryOp::Plus => "Plus"@,
        BinaryOp::Minus => "Minus"@,
        BinaryOp::ShiftLeft => "ShiftLeft"@,
        BinaryOp::ShiftRight => "ShiftRight"@,
        BinaryOp::Less => "Less"@,
        BinaryOp::Greater => "Greater"@,
        BinaryOp::LessOrEqual => "LessOrEqual"@,
        BinaryOp::GreaterOrEqual => "GreaterOrEqual"@,
        BinaryOp::Equals => "Equals"@,
        BinaryOp::NotEquals => "NotEquals"@,
        BinaryOp::BitwiseAnd => "BitwiseAnd"@,
        BinaryOp::BitwiseXor => "BitwiseXor"@,
        BinaryOp::BitwiseOr => "BitwiseOr"@,
        BinaryOp::LogicalAnd => "LogicalAnd"@,
        BinaryOp::LogicalOr => "LogicalOr"@,
        BinaryOp::Assign => "Assign"@,
        BinaryOp::AssignMultiply => "AssignMultiply"@,
        BinaryOp::AssignDivide => "AssignDivide"@,
        BinaryOp::AssignModulo => "AssignModulo"@,
        BinaryOp::AssignPlus => "AssignPlus"@,
        BinaryOp::AssignMinus => "AssignMinus"@,
        BinaryOp::AssignShiftLeft => "AssignShiftLeft"@,
        BinaryOp::AssignShiftRight => "AssignShiftRight"@,
        BinaryOp::AssignBitwiseAnd => "AssignBitwiseAnd"@,
        BinaryOp::AssignBitwiseXor => "AssignBitwiseXor"@,
        BinaryOp::AssignBitwiseOr => "AssignBitwiseOr"@,
    }
}

/// The name by which a binary operator is reported.
pub fn binary_operator_name_str(op: BinaryOp) -> (r: &'static str)
    ensures
        r@ == binary_operator_name(op),
{
    match op {
        BinaryOp::Index => "Index",
        BinaryOp::Multiply => "Multiply",
        BinaryOp::Divide => "Divide",
        BinaryOp::Modulo => "Modulo",
        BinaryOp::Plus => "Plus",
        BinaryOp::Minus => "Minus",
        BinaryOp::ShiftLeft => "ShiftLeft",
        BinaryOp::ShiftRight => "ShiftRight",
        BinaryOp::Less => "Less",
        BinaryOp::Greater => "Greater",
        BinaryOp::LessOrEqual => "LessOrEqual",
        BinaryOp::GreaterOrEqual => "GreaterOrEqual",
        BinaryOp::Equals => "Equals",
        BinaryOp::NotEquals => "NotEquals",
        BinaryOp::BitwiseAnd => "BitwiseAnd",
        BinaryOp::BitwiseXor => "BitwiseXor",
        BinaryOp::BitwiseOr => "BitwiseOr",
        BinaryOp::LogicalAnd => "LogicalAnd",
        BinaryOp::LogicalOr => "LogicalOr",
        BinaryOp::Assign => "Assign",
        BinaryOp::AssignMultiply => "AssignMultiply",
        BinaryOp::AssignDivide => "AssignDivide",
        BinaryOp::AssignModulo => "AssignModulo",
        BinaryOp::AssignPlus => "AssignPlus",
        BinaryOp::AssignMinus => "AssignMinus",
        BinaryOp::AssignShiftLeft => "AssignShiftLeft",
        BinaryOp::AssignShiftRight => "AssignShiftRight",
        BinaryOp::AssignBitwiseAnd => "AssignBitwiseAnd",
        BinaryOp::AssignBitwiseXor => "AssignBitwiseXor",
        BinaryOp::AssignBitwiseOr => "AssignBitwiseOr",
    }
}

/// Number of expression nodes in an expression.
pub open spec fn expr_size(e: Expr) -> nat
    decreases e,
{
    match e {
        Expr::UnaryOp(_, a) => 1 + expr_size(*a),
        Expr::BinaryOp(_, a, b) => 1 + expr_size(*a) + expr_size(*b),
        Expr::Call(f, args) => 1 + expr_size(*f) + exprs_size(args@),
        _ => 1,
    }
}

/// Number of expression nodes in a sequence of expressions.
pub open spec fn exprs_size(es: Seq<Expr>) -> nat
    decreases es,
{
    if es.len() == 0 {
        0
    } else {
        exprs_size(es.drop_last()) + expr_size(es.last())
    }
}

/// Number of expression nodes in the initializers of a declaration, plus
/// one per declared name.
pub open spec fn decl_size(d: Decl) -> nat {
    init_decls_size(d.declarators@)
}

/// Number of expression nodes in the initializers of a sequence of
/// declarators, plus one per declarator.
pub open spec fn init_decls_size(ds: Seq<InitDecl>) -> nat
    decreases ds.len(),
{
    if ds.len() == 0 {
        0
    } else {
        init_decls_size(ds.drop_last()) + 1 + match ds.last().initializer {
            Some(Init::Expression(x)) => expr_size(*x),
            _ => 0,
        }
    }
}

/// Number of expression nodes in an optional expression.
pub open spec fn opt_expr_size(e: Option<Box<Expr>>) -> nat {
    match e {
        Some(x) => expr_size(*x),
        None => 0,
    }
}

/// Number of expression nodes and declarators in a `for` initializer.
pub open spec fn for_init_size(init: ForInit) -> nat {
    match init {
        ForInit::Expression(x) => expr_size(*x),
        ForInit::Declaration(d) => decl_size(d),
        _ => 0,
    }
}

/// Number of statement and expression nodes in a statement.
pub open spec fn stmt_size(st: Stmt) -> nat
    decreases st,
{
    match st {
        Stmt::Compound(items) => 1 + items_size(items@),
        Stmt::Expression(x) => 1 + opt_expr_size(x),
        Stmt::Return(x) => 1 + opt_expr_size(x),
        Stmt::If { condition, then_statement, else_statement } => 1 + expr_size(*condition)
            + stmt_size(*then_statement) + match else_statement {
            Some(x) => stmt_size(*x),
            None => 0,
        },
        Stmt::While { expression, statement } => 1 + expr_size(*expression) + stmt_size(
            *statement,
        ),
        Stmt::DoWhile { statement, expression } => 1 + expr_size(*expression) + stmt_size(
            *statement,
        ),
        Stmt::For { initializer, condition, step, statement } => 1 + for_init_size(initializer)
            + opt_expr_size(condition) + opt_expr_size(step) + stmt_size(*statement),
        _ => 1,
    }
}

/// Number of statement and expression nodes in a sequence of block items,
/// plus one per item.
pub open spec fn items_size(items: Seq<BlockEntry>) -> nat
    decreases items,
{
    if items.len() == 0 {
        0
    } else {
        items_size(items.drop_last()) + 1 + match items.last() {
            BlockEntry::Declaration(d) => decl_size(d),
            BlockEntry::Statement(st) => stmt_size(st),
            BlockEntry::StaticAssert => 0,
        }
    }
}

/// Number of statement and expression nodes in the function bodies of a
/// sequence of top-level declarations.
pub open spec fn bodies_size(exts: Seq<TopLevel>) -> nat
    decreases exts.len(),
{
    if exts.len() == 0 {
        0
    } else {
        bodies_size(exts.drop_last()) + match exts.last() {
            TopLevel::FunctionDefinition(f) => stmt_size(f.statement),
            _ => 0,
        }
    }
}

/// Number of statement and expression nodes in the function bodies of a
/// translation unit.
pub open spec fn unit_size(u: TranslationUnit) -> nat {
    bodies_size(u.0@)
}

} // verus!
