//! The code-generation scheme: for each construct of the C syntax tree, the
//! instructions, labels and data words that the generator appends, and the
//! fault it reports instead where it cannot compile the construct.

use vstd::prelude::*;
use crate::abi::{
    ones_complement_word, sign_extended_immediate, ENTALK_MAX, ENTALK_MIN, PROG_ORG, STACK_INIT,
};
use crate::ast::{
    BinaryOp, BlockEntry, Decl, Declr, DeclrKind, DerivedDeclr,
    Expr, TopLevel, ForInit, FunctionDefinition, Init,
    ParameterDeclaration, Stmt, TranslationUnit, UnaryOp, binary_operator_name,
    decl_size, expr_size, stmt_size, unary_operator_name, unit_size,
};
use crate::constant::constant_value;
use crate::error::Fault;
use crate::model::{CompilerState, Outcome, bind, lookup};
use crate::text::{decimal, octal, zero_padded};

verus! {

/// The 12-bit one's complement immediate that ENTALK takes for a negative
/// value `v` (with `-2047 <= v < 0`).
pub open spec fn entalk_negative_immediate(v: int) -> nat {
    (0o7777 + v) as nat
}

/// The ENTALK immediate written for a value of the immediate range.
pub open spec fn entalk_immediate(v: int) -> nat {
    if v >= 0 {
        v as nat
    } else {
        entalk_negative_immediate(v)
    }
}

/// A constant of the ENTALK range loads, through the immediate written for
/// it, the very word that a DATA constant of it would hold.
pub proof fn lemma_entalk_immediate_loads_word(v: int)
    requires
        ENTALK_MIN <= v <= ENTALK_MAX,
    ensures
        sign_extended_immediate(entalk_immediate(v) as int) == ones_complement_word(v),
{
}

/// The operand to store into: only a plain variable can be assigned.
pub open spec fn lvalue_of(s: CompilerState, e: Expr) -> Result<Seq<char>, Fault> {
    match e {
        Expr::Identifier(name) => s.resolve_var(name@),
        _ => Err(Fault::Unsupported("non-identifier lvalue"@)),
    }
}

/// For a comparison operator: whether the operands are swapped before the
/// single CMAL, and the conditional jump taken when the comparison holds.
pub open spec fn comparison_shape(op: BinaryOp) -> (bool, Seq<char>) {
    match op {
        BinaryOp::Equals => (false, "JPALZ "@),
        BinaryOp::NotEquals => (false, "JPALNZ "@),
        BinaryOp::Less => (true, "JPALP "@),
        BinaryOp::Greater => (false, "JPALP "@),
        BinaryOp::LessOrEqual => (false, "JPALNG "@),
        _ => (true, "JPALNG "@),
    }
}

/// Whether a binary operator is a comparison.
pub open spec fn is_comparison(op: BinaryOp) -> bool {
    ||| op == BinaryOp::Equals
    ||| op == BinaryOp::NotEquals
    ||| op == BinaryOp::Less
    ||| op == BinaryOp::LessOrEqual
    ||| op == BinaryOp::Greater
    ||| op == BinaryOp::GreaterOrEqual
}

/// The instruction that combines AL with a word in memory, for the
/// operators compiled as "left into a temporary, right into AL, combine".
pub open spec fn combining_instruction(op: BinaryOp) -> Option<Seq<char>> {
    match op {
        BinaryOp::Plus => Some("ADDAL "@),
        BinaryOp::Multiply => Some("MULAL "@),
        BinaryOp::BitwiseAnd => Some("SLCL "@),
        BinaryOp::BitwiseOr => Some("SLSET "@),
        BinaryOp::BitwiseXor => Some("SLCP "@),
        _ => None,
    }
}

/// The budget of counter increments that compiling `e` may take.
pub open spec fn expr_budget(e: Expr) -> nat {
    4 * expr_size(e)
}

impl CompilerState {
    /// Load the constant `v` into AL.
    pub open spec fn load_const(self, v: int) -> (CompilerState, Outcome) {
        if v < -131071 || v > 131071 {
            (self, Err(Fault::ConstantOutOfRange(v)))
        } else if -2047 <= v <= 2047 {
            if v >= 0 {
                (self.emit("ENTALK "@ + decimal(v as nat)), Ok(()))
            } else {
                (self.emit("ENTALK &O"@ + octal(entalk_negative_immediate(v))), Ok(()))
            }
        } else {
            let (s1, lbl) = self.alloc_const(ones_complement_word(v) as nat);
            (s1.emit("ENTAL "@ + lbl), Ok(()))
        }
    }

    /// Sign-extend AL into AU:AL (before a DIVA).
    pub open spec fn sign_extend_al(self) -> CompilerState {
        let (s1, saved) = self.alloc_temp();
        let (s2, pos_l) = s1.fresh_label("__sep"@);
        let (s3, end_l) = s2.fresh_label("__see"@);
        let s4 = s3.emit("STRAL "@ + saved).emit("JPALP "@ + pos_l).emit("JPALZ "@ + pos_l);
        let (s5, neg_zero) = s4.alloc_const(0o777777);
        s5.emit("ENTAU "@ + neg_zero).emit("ENTAL "@ + saved).emit("JP "@ + end_l).set_label(
            pos_l,
        ).emit("ENTAU __zero"@).emit("ENTAL "@ + saved).set_label(end_l)
    }

    /// Compile an expression, leaving its value in AL.
    pub open spec fn expr(self, e: Expr) -> (CompilerState, Outcome)
        decreases e, 3nat, 0nat,
    {
        match e {
            Expr::Literal(c) => match constant_value(c) {
                Ok(v) => self.load_const(v),
                Err(f) => (self, Err(f)),
            },
            Expr::Identifier(name) => match self.resolve_var(name@) {
                Ok(lbl) => (self.emit("ENTAL "@ + lbl), Ok(())),
                Err(f) => (self, Err(f)),
            },
            Expr::UnaryOp(_, _) => self.unary(e),
            Expr::BinaryOp(_, _, _) => self.binop(e),
            Expr::Call(_, _) => self.call(e),
            Expr::Other => (self, Err(Fault::Unsupported("expression not yet supported"@))),
        }
    }

    /// Compile a unary operator expression `e`.
    pub open spec fn unary(self, e: Expr) -> (CompilerState, Outcome)
        decreases e, 2nat, 0nat,
    {
        match e {
            Expr::UnaryOp(op, a) => match op {
                UnaryOp::Minus | UnaryOp::Complement => {
                    // One's complement negation: CPAL.
                    let (s1, r1) = self.expr(*a);
                    if r1 is Err {
                        (s1, r1)
                    } else {
                        (s1.emit("CPAL"@), Ok(()))
                    }
                },
                UnaryOp::Negate => {
                    // Logical NOT: 1 if AL == 0, else 0.
                    let (s1, r1) = self.expr(*a);
                    if r1 is Err {
                        (s1, r1)
                    } else {
                        let (s2, true_l) = s1.fresh_label("__lnot_t"@);
                        let (s3, end_l) = s2.fresh_label("__lnot_e"@);
                        (
                            s3.emit("JPALZ "@ + true_l).emit("ENTALK 0"@).emit(
                                "JP "@ + end_l,
                            ).set_label(true_l).emit("ENTALK 1"@).set_label(end_l),
                            Ok(()),
                        )
                    }
                },
                UnaryOp::Plus => self.expr(*a),
                UnaryOp::PreIncrement => match *a {
                    Expr::Identifier(name) => match self.resolve_var(name@) {
                        Ok(lbl) => (
                            self.emit("ENTAL "@ + lbl).emit("ADDALK 1"@).emit("STRAL "@ + lbl),
                            Ok(()),
                        ),
                        Err(f) => (self, Err(f)),
                    },
                    _ => (self, Err(Fault::Unsupported("++<non-ident>"@))),
                },
                UnaryOp::PostIncrement => match *a {
                    Expr::Identifier(name) => match self.resolve_var(name@) {
                        Ok(lbl) => {
                            let (s1, saved) = self.alloc_temp();
                            (
                                s1.emit("ENTAL "@ + lbl).emit("STRAL "@ + saved).emit(
                                    "ADDALK 1"@,
                                ).emit("STRAL "@ + lbl).emit("ENTAL "@ + saved),
                                Ok(()),
                            )
                        },
                        Err(f) => (self, Err(f)),
                    },
                    _ => (self, Err(Fault::Unsupported("<non-ident>++"@))),
                },
                UnaryOp::PreDecrement => match *a {
                    Expr::Identifier(name) => match self.resolve_var(name@) {
                        Ok(lbl) => {
                            let (s1, one) = self.alloc_const(1);
                            (
                                s1.emit("ENTAL "@ + lbl).emit("SUBAL "@ + one).emit(
                                    "STRAL "@ + lbl,
                                ),
                                Ok(()),
                            )
                        },
                        Err(f) => (self, Err(f)),
                    },
                    _ => (self, Err(Fault::Unsupported("--<non-ident>"@))),
                },
                UnaryOp::PostDecrement => match *a {
                    Expr::Identifier(name) => match self.resolve_var(name@) {
                        Ok(lbl) => {
                            let (s1, one) = self.alloc_const(1);
                            let (s2, saved) = s1.alloc_temp();
                            (
                                s2.emit("ENTAL "@ + lbl).emit("STRAL "@ + saved).emit(
                                    "SUBAL "@ + one,
                                ).emit("STRAL "@ + lbl).emit("ENTAL "@ + saved),
                                Ok(()),
                            )
                        },
                        Err(f) => (self, Err(f)),
                    },
                    _ => (self, Err(Fault::Unsupported("<non-ident>--"@))),
                },
                _ => (self, Err(Fault::Unsupported("unary op "@ + unary_operator_name(op)))),
            },
            _ => (self, Ok(())),
        }
    }

    /// Compile a binary operator expression `e`.
    pub open spec fn binop(self, e: Expr) -> (CompilerState, Outcome)
        decreases e, 2nat, 0nat,
    {
        match e {
            Expr::BinaryOp(op, lhs, rhs) => {
                if combining_instruction(op) is Some {
                    self.combine(e)
                } else if is_comparison(op) {
                    self.comparison(e)
                } else {
                    match op {
                        BinaryOp::Assign => {
                            let (s1, r1) = self.expr(*rhs);
                            if r1 is Err {
                                (s1, r1)
                            } else {
                                match lvalue_of(s1, *lhs) {
                                    Ok(lbl) => (s1.emit("STRAL "@ + lbl), Ok(())),
                                    Err(f) => (s1, Err(f)),
                                }
                            }
                        },
                        BinaryOp::AssignPlus => self.compound_assign(e, "ADDAL "@, false),
                        BinaryOp::AssignMinus => self.compound_assign(e, "SUBAL "@, false),
                        BinaryOp::AssignMultiply => self.compound_assign(
                            e,
                            "MULAL "@,
                            false,
                        ),
                        BinaryOp::AssignDivide => self.compound_assign(e, "DIVA "@, true),
                        BinaryOp::Minus => {
                            let (s1, r1) = self.expr(*lhs);
                            if r1 is Err {
                                (s1, r1)
                            } else {
                                let (s2, lhs_t) = s1.alloc_temp();
                                let (s3, r3) = s2.emit("STRAL "@ + lhs_t).expr(*rhs);
                                if r3 is Err {
                                    (s3, r3)
                                } else {
                                    let (s4, rhs_t) = s3.alloc_temp();
                                    (
                                        s4.emit("STRAL "@ + rhs_t).emit("ENTAL "@ + lhs_t).emit(
                                            "SUBAL "@ + rhs_t,
                                        ),
                                        Ok(()),
                                    )
                                }
                            }
                        },
                        BinaryOp::Divide | BinaryOp::Modulo => {
                            let (s1, r1) = self.expr(*rhs);
                            if r1 is Err {
                                (s1, r1)
                            } else {
                                let (s2, rhs_t) = s1.alloc_temp();
                                let (s3, r3) = s2.emit("STRAL "@ + rhs_t).expr(*lhs);
                                if r3 is Err {
                                    (s3, r3)
                                } else {
                                    let s4 = s3.sign_extend_al().emit("DIVA "@ + rhs_t);
                                    if op == BinaryOp::Divide {
                                        // AL = quotient
                                        (s4, Ok(()))
                                    } else {
                                        // AU = remainder
                                        let (s5, rem_t) = s4.alloc_temp();
                                        (
                                            s5.emit("STRAU "@ + rem_t).emit("ENTAL "@ + rem_t),
                                            Ok(()),
                                        )
                                    }
                                }
                            }
                        },
                        BinaryOp::ShiftLeft | BinaryOp::ShiftRight => self.shift(e),
                        BinaryOp::LogicalAnd => {
                            let (s1, false_l) = self.fresh_label("__land_f"@);
                            let (s2, end_l) = s1.fresh_label("__land_e"@);
                            let (s3, r3) = s2.expr(*lhs);
                            if r3 is Err {
                                (s3, r3)
                            } else {
                                let (s4, r4) = s3.emit("JPALZ "@ + false_l).expr(*rhs);
                                if r4 is Err {
                                    (s4, r4)
                                } else {
                                    (
                                        s4.emit("JPALZ "@ + false_l).emit("ENTALK 1"@).emit(
                                            "JP "@ + end_l,
                                        ).set_label(false_l).emit("ENTALK 0"@).set_label(end_l),
                                        Ok(()),
                                    )
                                }
                            }
                        },
                        BinaryOp::LogicalOr => {
                            let (s1, true_l) = self.fresh_label("__lor_t"@);
                            let (s2, end_l) = s1.fresh_label("__lor_e"@);
                            let (s3, r3) = s2.expr(*lhs);
                            if r3 is Err {
                                (s3, r3)
                            } else {
                                let (s4, r4) = s3.emit("JPALNZ "@ + true_l).expr(*rhs);
                                if r4 is Err {
                                    (s4, r4)
                                } else {
                                    (
                                        s4.emit("JPALNZ "@ + true_l).emit("ENTALK 0"@).emit(
                                            "JP "@ + end_l,
                                        ).set_label(true_l).emit("ENTALK 1"@).set_label(end_l),
                                        Ok(()),
                                    )
                                }
                            }
                        },
                        _ => (
                            self,
                            Err(Fault::Unsupported("binary op "@ + binary_operator_name(op))),
                        ),
                    }
                }
            },
            _ => (self, Ok(())),
        }
    }

    /// Left operand into a temporary, right operand into AL, then combine.
    pub open spec fn combine(self, e: Expr) -> (CompilerState, Outcome)
        decreases e, 1nat, 0nat,
    {
        match e {
            Expr::BinaryOp(op, lhs, rhs) => {
                let (s1, r1) = self.expr(*lhs);
                if r1 is Err {
                    (s1, r1)
                } else {
                    let (s2, t) = s1.alloc_temp();
                    let (s3, r3) = s2.emit("STRAL "@ + t).expr(*rhs);
                    if r3 is Err {
                        (s3, r3)
                    } else {
                        (s3.emit(combining_instruction(op)->0 + t), Ok(()))
                    }
                }
            },
            _ => (self, Ok(())),
        }
    }

    /// `lhs op= rhs`: the right value into a temporary, then
    /// `lhs = lhs op temporary`; `instr` is the combining instruction and
    /// a space, and a division first sign-extends the left value.
    pub open spec fn compound_assign(self, e: Expr, instr: Seq<char>, divides: bool) -> (
        CompilerState,
        Outcome,
    )
        decreases e, 1nat, 0nat,
    {
        match e {
            Expr::BinaryOp(_, lhs, rhs) => {
                let (s1, r1) = self.expr(*rhs);
                if r1 is Err {
                    (s1, r1)
                } else {
                    let (s2, rhs_t) = s1.alloc_temp();
                    let s3 = s2.emit("STRAL "@ + rhs_t);
                    match lvalue_of(s3, *lhs) {
                        Ok(lbl) => {
                            let s4 = s3.emit("ENTAL "@ + lbl);
                            let s5 = if divides {
                                s4.sign_extend_al()
                            } else {
                                s4
                            };
                            (s5.emit(instr + rhs_t).emit("STRAL "@ + lbl), Ok(()))
                        },
                        Err(f) => (s3, Err(f)),
                    }
                }
            },
            _ => (self, Ok(())),
        }
    }

    /// A shift by a constant amount.
    pub open spec fn shift(self, e: Expr) -> (CompilerState, Outcome)
        decreases e, 1nat, 0nat,
    {
        match e {
            Expr::BinaryOp(op, lhs, rhs) => match *rhs {
                Expr::Literal(c) => match constant_value(c) {
                    Ok(v) => {
                        let (s1, r1) = self.expr(*lhs);
                        if r1 is Err {
                            (s1, r1)
                        } else {
                            let instr = if op == BinaryOp::ShiftLeft {
                                "LSHAL "@
                            } else {
                                "RSHAL "@
                            };
                            (s1.emit(instr + decimal((v as u32) as nat)), Ok(()))
                        }
                    },
                    Err(f) => (self, Err(f)),
                },
                _ => (self, Err(Fault::Unsupported("variable shift amounts not yet supported"@))),
            },
            _ => (self, Ok(())),
        }
    }

    /// A comparison, leaving 1 in AL when it holds and 0 otherwise.  The
    /// CMAL flags are consumed by exactly one conditional jump.
    pub open spec fn comparison(self, e: Expr) -> (CompilerState, Outcome)
        decreases e, 1nat, 0nat,
    {
        match e {
            Expr::BinaryOp(op, lhs, rhs) => {
                let (s1, r1) = self.expr(*lhs);
                if r1 is Err {
                    (s1, r1)
                } else {
                    let (s2, lhs_t) = s1.alloc_temp();
                    let (s3, r3) = s2.emit("STRAL "@ + lhs_t).expr(*rhs);
                    if r3 is Err {
                        (s3, r3)
                    } else {
                        let (s4, rhs_t) = s3.alloc_temp();
                        let s5 = s4.emit("STRAL "@ + rhs_t);
                        let (s6, true_l) = s5.fresh_label("__ct"@);
                        let (s7, end_l) = s6.fresh_label("__ce"@);
                        let (swap, jump) = comparison_shape(op);
                        let (first, second) = if swap {
                            (rhs_t, lhs_t)
                        } else {
                            (lhs_t, rhs_t)
                        };
                        (
                            s7.emit("ENTAL "@ + first).emit("CMAL "@ + second).emit(
                                jump + true_l,
                            ).emit("ENTALK 0"@).emit("JP "@ + end_l).set_label(true_l).emit(
                                "ENTALK 1"@,
                            ).set_label(end_l),
                            Ok(()),
                        )
                    }
                }
            },
            _ => (self, Ok(())),
        }
    }

    /// A call: the built-in `putchar` and `getchar`, or a known function
    /// whose arguments go to its static parameter slots.
    pub open spec fn call(self, e: Expr) -> (CompilerState, Outcome)
        decreases e, 2nat, 0nat,
    {
        match e {
            Expr::Call(callee, args) => match *callee {
                Expr::Identifier(name) => {
                    if name@ == "putchar"@ {
                        if args@.len() != 1 {
                            (self, Err(Fault::Unsupported("putchar needs 1 arg"@)))
                        } else {
                            let (s1, r1) = self.expr(args@[0]);
                            if r1 is Err {
                                (s1, r1)
                            } else {
                                (
                                    s1.emit("STRAL __outwd"@).emit("OUT 0"@).emit(
                                        "DATA __outwd"@,
                                    ).emit("DATA __outwd"@).emit("SKPOIN 0"@).emit(
                                        "JP LOK-1"@,
                                    ),
                                    Ok(()),
                                )
                            }
                        }
                    } else if name@ == "getchar"@ {
                        (
                            self.emit("SIL 0"@).emit("IN 0"@).emit("DATA __inwd"@).emit(
                                "DATA __inwd"@,
                            ).emit("SKPIIN 0"@).emit("JP LOK-1"@).emit("ENTAL __inwd"@),
                            Ok(()),
                        )
                    } else {
                        match lookup(self.functions, name@) {
                            None => (self, Err(Fault::UndefinedFunc(name@))),
                            Some(n) => if args@.len() != n {
                                (
                                    self,
                                    Err(
                                        Fault::Unsupported(
                                            name@ + ": expected "@ + decimal(n) + " args, got "@
                                                + decimal(args@.len()),
                                        ),
                                    ),
                                )
                            } else {
                                let (s1, r1) = self.call_args(e, 0);
                                if r1 is Err {
                                    (s1, r1)
                                } else {
                                    (s1.emit("RJP __fn_"@ + name@), Ok(()))
                                }
                            },
                        }
                    }
                },
                _ => (self, Err(Fault::Unsupported("indirect function call"@))),
            },
            _ => (self, Ok(())),
        }
    }

    /// Evaluate the arguments of the call `e` from the `i`-th on, storing
    /// each into the callee's parameter slot.
    pub open spec fn call_args(self, e: Expr, i: nat) -> (CompilerState, Outcome)
        decreases e, 0nat, (match e {
            Expr::Call(_, args) => args@.len() - i,
            _ => 0,
        }),
    {
        match e {
            Expr::Call(callee, args) => {
                if i >= args@.len() {
                    (self, Ok(()))
                } else {
                    let name = match *callee {
                        Expr::Identifier(name) => name@,
                        _ => seq![],
                    };
                    let (s1, r1) = self.expr(args@[i as int]);
                    if r1 is Err {
                        (s1, r1)
                    } else {
                        s1.emit("STRAL __p_"@ + name + "_"@ + decimal(i)).call_args(e, i + 1)
                    }
                }
            },
            _ => (self, Ok(())),
        }
    }
}

/// The budget of counter increments that compiling `st` may take.
pub open spec fn stmt_budget(st: Stmt) -> nat {
    4 * stmt_size(st)
}

/// The budget of counter increments that compiling `d` may take.
pub open spec fn decl_budget(d: Decl) -> nat {
    4 * decl_size(d)
}

/// The name a declarator declares.
pub open spec fn decl_name(d: Declr) -> Result<Seq<char>, Fault>
    decreases d,
{
    match d.kind {
        DeclrKind::Identifier(name) => Ok(name@),
        DeclrKind::Declarator(inner) => decl_name(*inner),
        DeclrKind::Abstract => Err(Fault::Unsupported("abstract declarator"@)),
    }
}

/// The names of the parameters from the `i`-th on, skipping those that
/// declare no name.
pub open spec fn named_params(params: Seq<ParameterDeclaration>, i: nat) -> Seq<Seq<char>>
    decreases params.len() - i,
{
    if i >= params.len() {
        seq![]
    } else {
        let rest = named_params(params, i + 1);
        match params[i as int].declarator {
            Some(d) => match decl_name(d) {
                Ok(name) => seq![name] + rest,
                Err(_) => rest,
            },
            None => rest,
        }
    }
}

/// The parameter names of the first function part of `derived` from the
/// `j`-th on; none when there is no function part.
pub open spec fn params_from(derived: Seq<DerivedDeclr>, j: nat) -> Seq<Seq<char>>
    decreases derived.len() - j,
{
    if j >= derived.len() {
        seq![]
    } else {
        match derived[j as int] {
            DerivedDeclr::Function(params) => named_params(params@, 0),
            DerivedDeclr::Other => params_from(derived, j + 1),
        }
    }
}

/// The parameter names of a function declarator.
pub open spec fn param_names(d: Declr) -> Seq<Seq<char>> {
    params_from(d.derived@, 0)
}

impl CompilerState {
    /// Declare the names of `d` from the `i`-th declarator on: a local slot
    /// inside a function, a global slot outside, each initialised by its
    /// initializer expression.
    pub open spec fn decl_items(self, d: Decl, i: nat) -> (CompilerState, Outcome)
        decreases d.declarators@.len() - i,
    {
        if i >= d.declarators@.len() {
            (self, Ok(()))
        } else {
            let idecl = d.declarators@[i as int];
            match decl_name(idecl.declarator) {
                Err(f) => (self, Err(f)),
                Ok(name) => {
                    let (s1, lbl) = match self.current_fn {
                        Some(fn_name) => {
                            let l = "__l_"@ + fn_name + "_"@ + name;
                            (
                                CompilerState { locals: bind(self.locals, name, l), ..self }.data_decl(
                                    l,
                                    0,
                                ),
                                l,
                            )
                        },
                        None => {
                            let l = "__g_"@ + name;
                            (
                                CompilerState {
                                    globals: bind(self.globals, name, l),
                                    ..self
                                }.data_decl(l, 0),
                                l,
                            )
                        },
                    };
                    match idecl.initializer {
                        None => s1.decl_items(d, i + 1),
                        Some(Init::Expression(x)) => {
                            let (s2, r2) = s1.expr(*x);
                            if r2 is Err {
                                (s2, r2)
                            } else {
                                s2.emit("STRAL "@ + lbl).decl_items(d, i + 1)
                            }
                        },
                        Some(Init::List) => (
                            s1,
                            Err(Fault::Unsupported("complex initializer"@)),
                        ),
                    }
                },
            }
        }
    }

    /// Compile a declaration.
    pub open spec fn decl(self, d: Decl) -> (CompilerState, Outcome) {
        self.decl_items(d, 0)
    }

    /// The state with a (break, continue) label pair pushed.
    pub open spec fn push_loop(self, brk: Seq<char>, cont: Seq<char>) -> CompilerState {
        CompilerState { loop_labels: self.loop_labels.push((brk, cont)), ..self }
    }

    /// The state with the innermost loop's label pair popped.
    pub open spec fn pop_loop(self) -> CompilerState {
        if self.loop_labels.len() == 0 {
            self
        } else {
            CompilerState { loop_labels: self.loop_labels.drop_last(), ..self }
        }
    }

    /// Compile a statement.
    pub open spec fn stmt(self, st: Stmt) -> (CompilerState, Outcome)
        decreases st, 1nat, 0nat,
    {
        match st {
            Stmt::Compound(_) => self.stmt_items(st, 0),
            Stmt::Return(value) => {
                let (s1, r1) = match value {
                    Some(x) => self.expr(*x),
                    None => (self.emit("ENTALK 0"@), Ok(())),
                };
                if r1 is Err {
                    (s1, r1)
                } else {
                    match s1.current_fn {
                        Some(fn_name) => (s1.emit("JP __fn_"@ + fn_name + "_ret"@), Ok(())),
                        None => (s1, Err(Fault::Unsupported("return outside function"@))),
                    }
                }
            },
            Stmt::If { condition, then_statement, else_statement } => {
                let (s1, else_l) = self.fresh_label("__ife"@);
                let (s2, end_l) = s1.fresh_label("__ifd"@);
                let (s3, r3) = s2.expr(*condition);
                if r3 is Err {
                    (s3, r3)
                } else {
                    let (s4, r4) = s3.emit("JPALZ "@ + else_l).stmt(*then_statement);
                    if r4 is Err {
                        (s4, r4)
                    } else {
                        let s5 = if else_statement is Some {
                            s4.emit("JP "@ + end_l)
                        } else {
                            s4
                        };
                        let s6 = s5.set_label(else_l);
                        match else_statement {
                            Some(es) => {
                                let (s7, r7) = s6.stmt(*es);
                                if r7 is Err {
                                    (s7, r7)
                                } else {
                                    (s7.set_label(end_l), Ok(()))
                                }
                            },
                            None => (s6, Ok(())),
                        }
                    }
                }
            },
            Stmt::While { expression, statement } => {
                let (s1, cond_l) = self.fresh_label("__whc"@);
                let (s2, end_l) = s1.fresh_label("__whe"@);
                let (s3, r3) = s2.set_label(cond_l).expr(*expression);
                if r3 is Err {
                    (s3, r3)
                } else {
                    let (s4, r4) = s3.emit("JPALZ "@ + end_l).push_loop(end_l, cond_l).stmt(
                        *statement,
                    );
                    if r4 is Err {
                        (s4, r4)
                    } else {
                        (s4.pop_loop().emit("JP "@ + cond_l).set_label(end_l), Ok(()))
                    }
                }
            },
            Stmt::For { initializer, condition, step, statement } => {
                let (s1, r1) = match initializer {
                    ForInit::Empty => (self, Ok(())),
                    ForInit::Expression(x) => self.expr(*x),
                    ForInit::Declaration(d) => self.decl(d),
                    ForInit::StaticAssert => (
                        self,
                        Err(Fault::Unsupported("complex for-init"@)),
                    ),
                };
                if r1 is Err {
                    (s1, r1)
                } else {
                    let (s2, cond_l) = s1.fresh_label("__forc"@);
                    // `continue` jumps to the step, so that it still runs.
                    let (s3, step_l) = s2.fresh_label("__fors"@);
                    let (s4, end_l) = s3.fresh_label("__fore"@);
                    let s5 = s4.set_label(cond_l);
                    let (s6, r6) = match condition {
                        Some(c) => {
                            let (t, rt) = s5.expr(*c);
                            if rt is Err {
                                (t, rt)
                            } else {
                                (t.emit("JPALZ "@ + end_l), Ok(()))
                            }
                        },
                        None => (s5, Ok(())),
                    };
                    if r6 is Err {
                        (s6, r6)
                    } else {
                        let (s7, r7) = s6.push_loop(end_l, step_l).stmt(*statement);
                        if r7 is Err {
                            (s7, r7)
                        } else {
                            let s8 = s7.pop_loop().set_label(step_l);
                            let (s9, r9) = match step {
                                Some(x) => s8.expr(*x),
                                None => (s8, Ok(())),
                            };
                            if r9 is Err {
                                (s9, r9)
                            } else {
                                (s9.emit("JP "@ + cond_l).set_label(end_l), Ok(()))
                            }
                        }
                    }
                }
            },
            Stmt::DoWhile { statement, expression } => {
                let (s1, top_l) = self.fresh_label("__dot"@);
                // `continue` re-evaluates the condition, `break` exits.
                let (s2, cond_l) = s1.fresh_label("__doc"@);
                let (s3, end_l) = s2.fresh_label("__doe"@);
                let (s4, r4) = s3.set_label(top_l).push_loop(end_l, cond_l).stmt(*statement);
                if r4 is Err {
                    (s4, r4)
                } else {
                    let (s5, r5) = s4.pop_loop().set_label(cond_l).expr(*expression);
                    if r5 is Err {
                        (s5, r5)
                    } else {
                        (s5.emit("JPALNZ "@ + top_l).set_label(end_l), Ok(()))
                    }
                }
            },
            Stmt::Break => if self.loop_labels.len() == 0 {
                (self, Err(Fault::Unsupported("break outside loop"@)))
            } else {
                (self.emit("JP "@ + self.loop_labels.last().0), Ok(()))
            },
            Stmt::Continue => if self.loop_labels.len() == 0 {
                (self, Err(Fault::Unsupported("continue outside loop"@)))
            } else {
                (self.emit("JP "@ + self.loop_labels.last().1), Ok(()))
            },
            Stmt::Expression(value) => match value {
                Some(x) => self.expr(*x),
                None => (self, Ok(())),
            },
            Stmt::Other => (self, Err(Fault::Unsupported("statement not yet supported"@))),
        }
    }

    /// Compile the block items of the compound statement `st` from the
    /// `i`-th on.
    pub open spec fn stmt_items(self, st: Stmt, i: nat) -> (CompilerState, Outcome)
        decreases st, 0nat, (match st {
            Stmt::Compound(items) => items@.len() - i,
            _ => 0,
        }),
    {
        match st {
            Stmt::Compound(items) => {
                if i >= items@.len() {
                    (self, Ok(()))
                } else {
                    let (s1, r1) = match items@[i as int] {
                        BlockEntry::Declaration(d) => self.decl(d),
                        BlockEntry::Statement(inner) => self.stmt(inner),
                        BlockEntry::StaticAssert => (
                            self,
                            Err(Fault::Unsupported("unknown block item"@)),
                        ),
                    };
                    if r1 is Err {
                        (s1, r1)
                    } else {
                        s1.stmt_items(st, i + 1)
                    }
                }
            },
            _ => (self, Ok(())),
        }
    }
}

/// The budget of counter increments that compiling `u` may take.
pub open spec fn unit_budget(u: TranslationUnit) -> nat {
    4 * unit_size(u)
}

/// Lines of text, each followed by a newline.
pub open spec fn joined_lines(lines: Seq<Seq<char>>) -> Seq<char>
    decreases lines.len(),
{
    if lines.len() == 0 {
        seq![]
    } else {
        joined_lines(lines.drop_last()) + lines.last() + "\n"@
    }
}

/// The runtime prologue: origin, start address, the entry code that sets up
/// the stack pointer and calls `main`, and the runtime words.  The initial
/// stack pointer lies outside ENTALK's immediate range, so the entry code
/// loads it from the DATA word `__spinit`.
pub open spec fn prologue() -> Seq<char> {
    "ORG &O"@ + zero_padded(octal(PROG_ORG as nat), 6) + "\n"@ + "SADD __start\n\n"@
        + ">__start ENTAL __spinit\n"@ + "STRAL __sp\n"@
        + "RJP __fn_main\n"@ + "STOP 1\n\n"@ + ">__outwd DATA 0\n"@ + ">__inwd DATA 0\n"@
        + ">__zero DATA 0\n"@ + ">__sp DATA 0\n"@ + ">__spinit DATA "@ + decimal(
        ones_complement_word(STACK_INIT as int) as nat,
    ) + "\n\n"@
}

/// The entry word of a compiled function: `RJP` stores the return address
/// into it.
pub open spec fn entry_line(name: Seq<char>) -> Seq<char> {
    ">__fn_"@ + name + " DATA 0"@
}

/// The canonical return point of a compiled function: an indirect jump
/// through the entry word.
pub open spec fn return_line(name: Seq<char>) -> Seq<char> {
    ">__fn_"@ + name + "_ret IJP __fn_"@ + name
}

impl CompilerState {
    /// Bind the parameters from the `i`-th on to their static slots
    /// `__p_FUNC_N`, declaring each slot.
    pub open spec fn param_slots(self, fn_name: Seq<char>, params: Seq<Seq<char>>, i: nat) -> CompilerState
        decreases params.len() - i,
    {
        if i >= params.len() {
            self
        } else {
            let slot = "__p_"@ + fn_name + "_"@ + decimal(i);
            CompilerState { locals: bind(self.locals, params[i as int], slot), ..self }.data_decl(
                slot,
                0,
            ).param_slots(fn_name, params, i + 1)
        }
    }

    /// Compile a function definition: its entry word (the return-address
    /// slot), its parameter slots, its body, and the canonical return point.
    pub open spec fn function(self, f: FunctionDefinition) -> (CompilerState, Outcome) {
        match decl_name(f.declarator) {
            Err(e) => (self, Err(e)),
            Ok(name) => {
                let params = param_names(f.declarator);
                let s1 = CompilerState { functions: bind(self.functions, name, params.len()), ..self };
                let fn_lbl = "__fn_"@ + name;
                let s2 = CompilerState { locals: seq![], current_fn: Some(name), ..s1 }.emit(
                    ">"@ + fn_lbl + " DATA 0"@,
                );
                let (s3, r3) = s2.param_slots(name, params, 0).stmt(f.statement);
                if r3 is Err {
                    (s3, r3)
                } else {
                    let s4 = s3.set_label(fn_lbl + "_ret"@).emit("IJP "@ + fn_lbl);
                    (CompilerState { locals: s1.locals, current_fn: s1.current_fn, ..s4 }, Ok(()))
                }
            },
        }
    }

    /// Pass 1: record the name and arity of every function defined from the
    /// `i`-th top-level declaration on, so that calls may precede definitions.
    pub open spec fn signatures(self, u: TranslationUnit, i: nat) -> (CompilerState, Outcome)
        decreases u.0@.len() - i,
    {
        if i >= u.0@.len() {
            (self, Ok(()))
        } else {
            match u.0@[i as int] {
                TopLevel::FunctionDefinition(f) => match decl_name(f.declarator) {
                    Err(e) => (self, Err(e)),
                    Ok(name) => CompilerState {
                        functions: bind(self.functions, name, param_names(f.declarator).len()),
                        ..self
                    }.signatures(u, i + 1),
                },
                _ => self.signatures(u, i + 1),
            }
        }
    }

    /// Register the names of the declarators of `d`, from the `j`-th on, as
    /// globals `__g_NAME`.
    pub open spec fn global_declarators(self, d: Decl, j: nat) -> (CompilerState, Outcome)
        decreases d.declarators@.len() - j,
    {
        if j >= d.declarators@.len() {
            (self, Ok(()))
        } else {
            match decl_name(d.declarators@[j as int].declarator) {
                Err(e) => (self, Err(e)),
                Ok(name) => CompilerState {
                    globals: bind(self.globals, name, "__g_"@ + name),
                    ..self
                }.global_declarators(d, j + 1),
            }
        }
    }

    /// Pass 2: register the global variables declared from the `i`-th
    /// top-level declaration on.
    pub open spec fn global_names(self, u: TranslationUnit, i: nat) -> (CompilerState, Outcome)
        decreases u.0@.len() - i,
    {
        if i >= u.0@.len() {
            (self, Ok(()))
        } else {
            match u.0@[i as int] {
                TopLevel::Declaration(d) => {
                    let (s1, r1) = self.global_declarators(d, 0);
                    if r1 is Err {
                        (s1, r1)
                    } else {
                        s1.global_names(u, i + 1)
                    }
                },
                _ => self.global_names(u, i + 1),
            }
        }
    }

    /// Pass 3: one zero DATA word for each global from the `i`-th on.
    pub open spec fn globals_data(self, globals: Seq<(Seq<char>, Seq<char>)>, i: nat) -> CompilerState
        decreases globals.len() - i,
    {
        if i >= globals.len() {
            self
        } else {
            self.data_decl(globals[i as int].1, 0).globals_data(globals, i + 1)
        }
    }

    /// Pass 4: compile the function definitions from the `i`-th top-level
    /// declaration on.
    pub open spec fn function_bodies(self, u: TranslationUnit, i: nat) -> (CompilerState, Outcome)
        decreases u.0@.len() - i,
    {
        if i >= u.0@.len() {
            (self, Ok(()))
        } else {
            match u.0@[i as int] {
                TopLevel::FunctionDefinition(f) => {
                    let (s1, r1) = self.function(f);
                    if r1 is Err {
                        (s1, r1)
                    } else {
                        s1.function_bodies(u, i + 1)
                    }
                },
                _ => self.function_bodies(u, i + 1),
            }
        }
    }

    /// Compile a translation unit in four passes: function signatures,
    /// global names, global data words, function bodies.
    pub open spec fn unit(self, u: TranslationUnit) -> (CompilerState, Outcome) {
        let (s1, r1) = self.signatures(u, 0);
        if r1 is Err {
            (s1, r1)
        } else {
            let (s2, r2) = s1.global_names(u, 0);
            if r2 is Err {
                (s2, r2)
            } else {
                s2.globals_data(s2.globals, 0).function_bodies(u, 0)
            }
        }
    }

    /// The complete assembly text: the prologue, the code, the static data
    /// and the END directive.
    pub open spec fn output(self) -> Seq<char> {
        prologue() + joined_lines(self.final_code()) + "\n"@ + joined_lines(self.data) + "\nEND\n"@
    }
}

/// The assembly text for a translation unit, or why it cannot be compiled.
pub open spec fn compiled_program(u: TranslationUnit) -> Result<Seq<char>, Fault> {
    let (s, r) = CompilerState::initial().unit(u);
    match r {
        Ok(()) => Ok(s.output()),
        Err(f) => Err(f),
    }
}

/// Every program the compiler produces opens with the runtime prologue and
/// closes with the END directive.
pub proof fn lemma_program_frame(u: TranslationUnit)
    ensures
        compiled_program(u) matches Ok(text) ==> prologue().is_prefix_of(text) && "\nEND\n"@.is_suffix_of(text),
{
    let (s, r) = CompilerState::initial().unit(u);
    if r is Ok {
        let text = s.output();
        let body = joined_lines(s.final_code()) + "\n"@ + joined_lines(s.data);
        let end = "\nEND\n"@;
        assert(text =~= prologue() + body + end);
        assert(prologue() =~= text.subrange(0, prologue().len() as int));
        assert(end =~= text.subrange(text.len() - end.len(), text.len() as int));
    }
}

} // verus!
