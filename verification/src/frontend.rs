//! The C parser: `lang_c` reads the source text, and its syntax tree is
//! carried over, node for node, into the library's own syntax tree.

use vstd::prelude::*;
use lang_c::ast as lc;
use lang_c::ast::BinaryOperator as LcBin;
use lang_c::ast::Statement as LcStmt;
use lang_c::ast::UnaryOperator as LcUn;
use crate::ast::{
    BinaryOp, BlockEntry, Literal, Decl, Declr, DeclrKind,
    DerivedDeclr, Expr, TopLevel, ForInit, FunctionDefinition,
    InitDecl, Init, Base, ParameterDeclaration, Stmt, TranslationUnit,
    UnaryOp,
};

verus! {

#[verifier::external_type_specification]
#[verifier::external_body]
pub struct ExLcParse(lang_c::driver::Parse);

#[verifier::external_type_specification]
#[verifier::external_body]
pub struct ExLcConfig(lang_c::driver::Config);

#[verifier::external_type_specification]
#[verifier::external_body]
pub struct ExLcFlavor(lang_c::driver::Flavor);

#[verifier::external_type_specification]
#[verifier::external_body]
pub struct ExLcExternalDeclaration(lang_c::ast::ExternalDeclaration);

#[verifier::external_type_specification]
#[verifier::external_body]
pub struct ExLcDeclaration(lang_c::ast::Declaration);

#[verifier::external_type_specification]
#[verifier::external_body]
pub struct ExLcInitDeclarator(lang_c::ast::InitDeclarator);

#[verifier::external_type_specification]
#[verifier::external_body]
pub struct ExLcInitializer(lang_c::ast::Initializer);

#[verifier::external_type_specification]
#[verifier::external_body]
pub struct ExLcDeclarator(lang_c::ast::Declarator);

#[verifier::external_type_specification]
#[verifier::external_body]
pub struct ExLcDeclaratorKind(lang_c::ast::DeclaratorKind);

#[verifier::external_type_specification]
#[verifier::external_body]
pub struct ExLcDerivedDeclarator(lang_c::ast::DerivedDeclarator);

#[verifier::external_type_specification]
#[verifier::external_body]
pub struct ExLcStatement(lang_c::ast::Statement);

#[verifier::external_type_specification]
#[verifier::external_body]
pub struct ExLcBlockItem(lang_c::ast::BlockItem);

#[verifier::external_type_specification]
#[verifier::external_body]
pub struct ExLcIfStatement(lang_c::ast::IfStatement);

#[verifier::external_type_specification]
#[verifier::external_body]
pub struct ExLcWhileStatement(lang_c::ast::WhileStatement);

#[verifier::external_type_specification]
#[verifier::external_body]
pub struct ExLcDoWhileStatement(lang_c::ast::DoWhileStatement);

#[verifier::external_type_specification]
#[verifier::external_body]
pub struct ExLcForStatement(lang_c::ast::ForStatement);

#[verifier::external_type_specification]
#[verifier::external_body]
pub struct ExLcForInitializer(lang_c::ast::ForInitializer);

#[verifier::external_type_specification]
#[verifier::external_body]
pub struct ExLcExpression(lang_c::ast::Expression);

#[verifier::external_type_specification]
#[verifier::external_body]
pub struct ExLcConstant(lang_c::ast::Constant);

#[verifier::external_type_specification]
#[verifier::external_body]
pub struct ExLcIntegerBase(lang_c::ast::IntegerBase);

#[verifier::external_type_specification]
#[verifier::external_body]
pub struct ExLcUnaryOperator(lang_c::ast::UnaryOperator);

#[verifier::external_type_specification]
#[verifier::external_body]
pub struct ExLcBinaryOperator(lang_c::ast::BinaryOperator);

/// The C dialects `lang_c` parses with the preprocessor configurations it
/// offers: C11 with GNU extensions, and C11 with GNU and Clang extensions.
#[derive(Clone, Copy, Debug, PartialEq, Eq, Structural)]
pub enum Dialect {
    GnuC11,
    ClangC11,
}

/// The syntax tree that `lang_c` builds for a preprocessed C source text in
/// a dialect, carried over into the library's syntax tree; `None` where
/// `lang_c` reports a syntax error.
pub uninterp spec fn c_translation_unit(source: Seq<char>, dialect: Dialect) -> Option<
    TranslationUnit,
>;

/// The dialect of `lang_c::driver::Config::default()`: Clang C11 when built
/// for macOS, GNU C11 elsewhere.  Which of the two comes back depends on the
/// target the program was built for, so nothing is stated of it.
#[verifier::external_body]
pub(crate) fn default_dialect() -> (r: Dialect) {
    dialect_of(&lang_c::driver::Config::default().flavor)
}

/// Parses a preprocessed C source with `lang_c::driver::parse_preprocessed`,
/// under the configuration of `lang_c` for the dialect.  Claimed: the call
/// succeeds exactly when the named result is `Some`, and then yields that
/// syntax tree.  The text of a syntax error is not stated: it is the `Debug`
/// rendering of `lang_c`'s `SyntaxError`, whose set of expected tokens is a
/// `HashSet` printed in the order it is walked.
#[verifier::external_body]
pub(crate) fn parse_c_source(source: &str, dialect: Dialect) -> (r: Result<TranslationUnit, String>)
    ensures
        r is Ok <==> c_translation_unit(source@, dialect) is Some,
        r matches Ok(u) ==> c_translation_unit(source@, dialect) == Some(u),
{
    let config = config_of(dialect);
    match lang_c::driver::parse_preprocessed(&config, source.to_string()) {
        Ok(parse) => Ok(unit_of(&parse)),
        Err(e) => Err(format!("{e:?}")),
    }
}

/// The `lang_c` configuration of a dialect: `Config::with_gcc()` or
/// `Config::with_clang()`.
#[verifier::external_body]
fn config_of(dialect: Dialect) -> lang_c::driver::Config {
    match dialect {
        Dialect::GnuC11 => lang_c::driver::Config::with_gcc(),
        Dialect::ClangC11 => lang_c::driver::Config::with_clang(),
    }
}

/// Carries the language flavour of `Config::default()` over: Clang C11, or
/// else GNU C11, the only other flavour `Config::default()` gives (strict
/// C11, which it never gives, would also land in the second arm).
#[verifier::external_body]
fn dialect_of(flavor: &lang_c::driver::Flavor) -> Dialect {
    match flavor {
        lang_c::driver::Flavor::ClangC11 => Dialect::ClangC11,
        _ => Dialect::GnuC11,
    }
}

/// Carries the translation unit of a `lang_c` parse over, one top-level
/// item for one.
#[verifier::external_body]
fn unit_of(parse: &lang_c::driver::Parse) -> TranslationUnit {
    TranslationUnit(parse.unit.0.iter().map(|x| external_of(&x.node)).collect())
}

/// Carries a `lang_c` top-level item over, variant for variant.
#[verifier::external_body]
fn external_of(e: &lc::ExternalDeclaration) -> TopLevel {
    match e {
        lc::ExternalDeclaration::Declaration(d) => TopLevel::Declaration(
            declaration_of(&d.node),
        ),
        lc::ExternalDeclaration::FunctionDefinition(f) => TopLevel::FunctionDefinition(
            FunctionDefinition {
                declarator: declarator_of(&f.node.declarator.node),
                statement: statement_of(&f.node.statement.node),
            },
        ),
        lc::ExternalDeclaration::StaticAssert(_) => TopLevel::StaticAssert,
    }
}

/// Carries a `lang_c` declaration over: its init-declarators, in order.
#[verifier::external_body]
fn declaration_of(d: &lc::Declaration) -> Decl {
    Decl { declarators: d.declarators.iter().map(|i| init_declarator_of(&i.node)).collect() }
}

/// Carries a `lang_c` init-declarator over: its declarator and initializer.
#[verifier::external_body]
fn init_declarator_of(i: &lc::InitDeclarator) -> InitDecl {
    InitDecl {
        declarator: declarator_of(&i.declarator.node),
        initializer: i.initializer.as_ref().map(|x| initializer_of(&x.node)),
    }
}

/// Carries a `lang_c` initializer over, variant for variant.
#[verifier::external_body]
fn initializer_of(i: &lc::Initializer) -> Init {
    match i {
        lc::Initializer::Expression(e) => Init::Expression(expr_box(&e.node)),
        lc::Initializer::List(_) => Init::List,
    }
}

/// Carries a `lang_c` declarator over: its name part and its derived parts.
#[verifier::external_body]
fn declarator_of(d: &lc::Declarator) -> Declr {
    Declr {
        kind: declarator_kind_of(&d.kind.node),
        derived: d.derived.iter().map(|x| derived_of(&x.node)).collect(),
    }
}

/// Carries the name part of a `lang_c` declarator over, variant for variant.
#[verifier::external_body]
fn declarator_kind_of(k: &lc::DeclaratorKind) -> DeclrKind {
    match k {
        lc::DeclaratorKind::Abstract => DeclrKind::Abstract,
        lc::DeclaratorKind::Identifier(id) => DeclrKind::Identifier(id.node.name.clone()),
        lc::DeclaratorKind::Declarator(d) => DeclrKind::Declarator(
            Box::new(declarator_of(&d.node)),
        ),
    }
}

/// Carries a derived part of a `lang_c` declarator over: a function part
/// keeps the declarators of its parameters, the other parts are `Other`.
#[verifier::external_body]
fn derived_of(d: &lc::DerivedDeclarator) -> DerivedDeclr {
    match d {
        lc::DerivedDeclarator::Function(f) => DerivedDeclr::Function(
            f.node.parameters.iter().map(|p| ParameterDeclaration {
                declarator: p.node.declarator.as_ref().map(|x| declarator_of(&x.node)),
            }).collect(),
        ),
        _ => DerivedDeclr::Other,
    }
}

/// Carries a `lang_c` statement over, variant for variant: blocks,
/// expression statements and the compound statements here, the jumps below.
#[verifier::external_body]
fn statement_of(s: &LcStmt) -> Stmt {
    match s {
        LcStmt::Compound(v) => Stmt::Compound(v.iter().map(|i| block_item_of(&i.node)).collect()),
        LcStmt::Expression(e) => Stmt::Expression(e.as_ref().map(|x| expr_box(&x.node))),
        LcStmt::If(i) => if_of(&i.node),
        LcStmt::While(w) => while_of(&w.node),
        LcStmt::DoWhile(d) => do_while_of(&d.node),
        LcStmt::For(f) => for_of(&f.node),
        _ => jump_of(s),
    }
}

/// Carries the `lang_c` jump statements over, variant for variant; the
/// kinds the code generator does not compile become `Stmt::Other`.
#[verifier::external_body]
fn jump_of(s: &LcStmt) -> Stmt {
    match s {
        LcStmt::Continue => Stmt::Continue,
        LcStmt::Break => Stmt::Break,
        LcStmt::Return(e) => Stmt::Return(e.as_ref().map(|x| expr_box(&x.node))),
        _ => Stmt::Other,
    }
}

/// Carries a `lang_c` block item over, variant for variant.
#[verifier::external_body]
fn block_item_of(i: &lc::BlockItem) -> BlockEntry {
    match i {
        lc::BlockItem::Declaration(d) => BlockEntry::Declaration(declaration_of(&d.node)),
        lc::BlockItem::Statement(s) => BlockEntry::Statement(statement_of(&s.node)),
        lc::BlockItem::StaticAssert(_) => BlockEntry::StaticAssert,
    }
}

/// Carries a `lang_c` `if` statement over, field for field.
#[verifier::external_body]
fn if_of(i: &lc::IfStatement) -> Stmt {
    Stmt::If {
        condition: expr_box(&i.condition.node),
        then_statement: stmt_box(&i.then_statement.node),
        else_statement: i.else_statement.as_ref().map(|x| stmt_box(&x.node)),
    }
}

/// Carries a `lang_c` `while` statement over, field for field.
#[verifier::external_body]
fn while_of(w: &lc::WhileStatement) -> Stmt {
    Stmt::While { expression: expr_box(&w.expression.node), statement: stmt_box(&w.statement.node) }
}

/// Carries a `lang_c` `do`-`while` statement over, field for field.
#[verifier::external_body]
fn do_while_of(d: &lc::DoWhileStatement) -> Stmt {
    Stmt::DoWhile { statement: stmt_box(&d.statement.node), expression: expr_box(&d.expression.node) }
}

/// Carries a `lang_c` `for` statement over, field for field.
#[verifier::external_body]
fn for_of(f: &lc::ForStatement) -> Stmt {
    Stmt::For {
        initializer: for_initializer_of(&f.initializer.node),
        condition: f.condition.as_ref().map(|x| expr_box(&x.node)),
        step: f.step.as_ref().map(|x| expr_box(&x.node)),
        statement: stmt_box(&f.statement.node),
    }
}

/// Carries the initializer of a `lang_c` `for` statement over, variant for variant.
#[verifier::external_body]
fn for_initializer_of(i: &lc::ForInitializer) -> ForInit {
    match i {
        lc::ForInitializer::Empty => ForInit::Empty,
        lc::ForInitializer::Expression(e) => ForInit::Expression(expr_box(&e.node)),
        lc::ForInitializer::Declaration(d) => ForInit::Declaration(declaration_of(&d.node)),
        lc::ForInitializer::StaticAssert(_) => ForInit::StaticAssert,
    }
}

/// Carries a `lang_c` statement over into a box.
#[verifier::external_body]
fn stmt_box(s: &LcStmt) -> Box<Stmt> {
    Box::new(statement_of(s))
}

/// Carries a `lang_c` expression over into a box.
#[verifier::external_body]
fn expr_box(e: &lc::Expression) -> Box<Expr> {
    Box::new(expression_of(e))
}

/// Carries a `lang_c` expression over, variant for variant: names,
/// constants and calls here, the operators below.
#[verifier::external_body]
fn expression_of(e: &lc::Expression) -> Expr {
    match e {
        lc::Expression::Identifier(id) => Expr::Identifier(id.node.name.clone()),
        lc::Expression::Constant(c) => Expr::Literal(constant_of(&c.node)),
        lc::Expression::Call(c) => Expr::Call(
            expr_box(&c.node.callee.node),
            c.node.arguments.iter().map(|a| expression_of(&a.node)).collect(),
        ),
        _ => operator_expression_of(e),
    }
}

/// Carries the `lang_c` operator expressions over, variant for variant;
/// the forms the code generator does not compile become `Expr::Other`.
#[verifier::external_body]
fn operator_expression_of(e: &lc::Expression) -> Expr {
    match e {
        lc::Expression::UnaryOperator(u) => Expr::UnaryOp(
            unary_of(&u.node.operator.node),
            expr_box(&u.node.operand.node),
        ),
        lc::Expression::BinaryOperator(b) => Expr::BinaryOp(
            binary_of(&b.node.operator.node),
            expr_box(&b.node.lhs.node),
            expr_box(&b.node.rhs.node),
        ),
        _ => Expr::Other,
    }
}

/// Carries a `lang_c` constant over: an integer keeps its base and its
/// digits, a character its quoted text.
#[verifier::external_body]
fn constant_of(c: &lc::Constant) -> Literal {
    match c {
        lc::Constant::Integer(i) => Literal::Integer(base_of(&i.base), i.number.to_string()),
        lc::Constant::Float(_) => Literal::Float,
        lc::Constant::Character(text) => Literal::Character(text.clone()),
    }
}

/// Carries the base of a `lang_c` integer literal over, variant for variant.
#[verifier::external_body]
fn base_of(b: &lc::IntegerBase) -> Base {
    match b {
        lc::IntegerBase::Decimal => Base::Decimal,
        lc::IntegerBase::Octal => Base::Octal,
        lc::IntegerBase::Hexadecimal => Base::Hexadecimal,
        lc::IntegerBase::Binary => Base::Binary,
    }
}

/// Carries a `lang_c` unary operator over, variant for variant.
#[verifier::external_body]
fn unary_of(u: &LcUn) -> UnaryOp {
    match u {
        LcUn::PostIncrement => UnaryOp::PostIncrement,
        LcUn::PostDecrement => UnaryOp::PostDecrement,
        LcUn::PreIncrement => UnaryOp::PreIncrement,
        LcUn::PreDecrement => UnaryOp::PreDecrement,
        LcUn::Address => UnaryOp::Address,
        LcUn::Indirection => UnaryOp::Indirection,
        LcUn::Plus => UnaryOp::Plus,
        LcUn::Minus => UnaryOp::Minus,
        LcUn::Complement => UnaryOp::Complement,
        LcUn::Negate => UnaryOp::Negate,
    }
}

/// Carries a `lang_c` binary operator over, variant for variant: the
/// arithmetic, shift and comparison operators here, the others below.
#[verifier::external_body]
fn binary_of(b: &LcBin) -> BinaryOp {
    match b {
        LcBin::Index => BinaryOp::Index,
        LcBin::Multiply => BinaryOp::Multiply,
        LcBin::Divide => BinaryOp::Divide,
        LcBin::Modulo => BinaryOp::Modulo,
        LcBin::Plus => BinaryOp::Plus,
        LcBin::Minus => BinaryOp::Minus,
        LcBin::ShiftLeft => BinaryOp::ShiftLeft,
        LcBin::ShiftRight => BinaryOp::ShiftRight,
        LcBin::Less => BinaryOp::Less,
        LcBin::Greater => BinaryOp::Greater,
        LcBin::LessOrEqual => BinaryOp::LessOrEqual,
        LcBin::GreaterOrEqual => BinaryOp::GreaterOrEqual,
        _ => logical_binary_of(b),
    }
}

/// Carries the equality, bitwise and logical `lang_c` binary operators
/// over, variant for variant; the assignments go on below.
#[verifier::external_body]
fn logical_binary_of(b: &LcBin) -> BinaryOp {
    match b {
        LcBin::Equals => BinaryOp::Equals,
        LcBin::NotEquals => BinaryOp::NotEquals,
        LcBin::BitwiseAnd => BinaryOp::BitwiseAnd,
        LcBin::BitwiseXor => BinaryOp::BitwiseXor,
        LcBin::BitwiseOr => BinaryOp::BitwiseOr,
        LcBin::LogicalAnd => BinaryOp::LogicalAnd,
        LcBin::LogicalOr => BinaryOp::LogicalOr,
        LcBin::Assign => BinaryOp::Assign,
        _ => assigning_binary_of(b),
    }
}

/// Carries the compound-assignment `lang_c` binary operators over,
/// variant for variant; the last arm is the one left, `AssignBitwiseOr`.
#[verifier::external_body]
fn assigning_binary_of(b: &LcBin) -> BinaryOp {
    match b {
        LcBin::AssignMultiply => BinaryOp::AssignMultiply,
        LcBin::AssignDivide => BinaryOp::AssignDivide,
        LcBin::AssignModulo => BinaryOp::AssignModulo,
        LcBin::AssignPlus => BinaryOp::AssignPlus,
        LcBin::AssignMinus => BinaryOp::AssignMinus,
        LcBin::AssignShiftLeft => BinaryOp::AssignShiftLeft,
        LcBin::AssignShiftRight => BinaryOp::AssignShiftRight,
        LcBin::AssignBitwiseAnd => BinaryOp::AssignBitwiseAnd,
        LcBin::AssignBitwiseXor => BinaryOp::AssignBitwiseXor,
        _ => BinaryOp::AssignBitwiseOr,
    }
}

} // verus!
