//! Code generator: walks a C syntax tree and emits UNIVAC 1219 assembly text.
//!
//! Calling convention (non-recursive, static allocation):
//!   * Each function gets a return-address slot at its entry label.
//!     `RJP FUNC` stores the return address there; `IJP FUNC` returns.
//!   * Arguments are passed in static memory slots `__p_FUNCNAME_N`.
//!   * The return value is left in AL.
//!   * Local variables are static slots `__l_FUNCNAME_VARNAME`.
//!   * Everything lives in one ORG block (page 1, 0o010000 to 0o017777).

use vstd::prelude::*;
use crate::abi::{fits_entalk, to_univac_ones_complement, INT_MAX, INT_MIN, PROG_ORG, STACK_INIT};
use crate::ast::{BinaryOp, BlockEntry, Decl, Declr, DeclrKind,
    DerivedDeclr, Expr, ForInit, InitDecl, Init, Stmt,
    UnaryOp, binary_operator_name_str, decl_size, expr_size, exprs_size, init_decls_size,
    items_size, stmt_size, unary_operator_name_str, TopLevel, FunctionDefinition,
    TranslationUnit, bodies_size, unit_size};
use crate::constant::parse_constant;
use crate::error::{CompileError, Fault, outcome_of};
use crate::model::{CompilerState, bind, has_key, key_position, lookup};
use crate::scheme::{entalk_negative_immediate, expr_budget, lvalue_of, combining_instruction,
    comparison_shape, is_comparison, decl_budget, decl_name, named_params, param_names,
    params_from, stmt_budget, unit_budget, joined_lines, prologue, entry_line, return_line};
use crate::size::{lemma_bodies_size_prefix, lemma_exprs_size_prefix,
    lemma_init_decls_size_prefix, lemma_items_size_prefix};
use crate::text::{concat, concat3, decimal_string, octal_string, zero_padded_string};

verus! {

/// Model of a list of strings.
pub open spec fn strings_view(v: Seq<String>) -> Seq<Seq<char>> {
    v.map_values(|s: String| s@)
}

/// Model of a list of name/label bindings.
pub open spec fn bindings_view(v: Seq<(String, String)>) -> Seq<(Seq<char>, Seq<char>)> {
    v.map_values(|p: (String, String)| (p.0@, p.1@))
}

/// Model of a list of name/arity bindings.
pub open spec fn arities_view(v: Seq<(String, usize)>) -> Seq<(Seq<char>, nat)> {
    v.map_values(|p: (String, usize)| (p.0@, p.1 as nat))
}

/// Model of an optional string.
pub open spec fn opt_view(o: Option<String>) -> Option<Seq<char>> {
    match o {
        Some(s) => Some(s@),
        None => None,
    }
}

/// Compiler state: the emitted code and data, counters for fresh names, and
/// the scopes of variables, functions and loops.
pub struct Compiler {
    code: Vec<String>,
    data: Vec<String>,
    label_cnt: usize,
    tmp_cnt: usize,
    const_cnt: usize,
    current_fn: Option<String>,
    locals: Vec<(String, String)>,
    globals: Vec<(String, String)>,
    functions: Vec<(String, usize)>,
    // Stack of (break_label, continue_label) for nested loops.
    loop_labels: Vec<(String, String)>,
    pending_label: Option<String>,
}

impl View for Compiler {
    type V = CompilerState;

    closed spec fn view(&self) -> CompilerState {
        CompilerState {
            code: strings_view(self.code@),
            data: strings_view(self.data@),
            label_cnt: self.label_cnt as nat,
            tmp_cnt: self.tmp_cnt as nat,
            const_cnt: self.const_cnt as nat,
            current_fn: opt_view(self.current_fn),
            locals: bindings_view(self.locals@),
            globals: bindings_view(self.globals@),
            functions: arities_view(self.functions@),
            loop_labels: bindings_view(self.loop_labels@),
            pending_label: opt_view(self.pending_label),
        }
    }
}

/// The position of the first binding of `name`, if any.
fn find_binding(list: &Vec<(String, String)>, name: &String) -> (r: Option<usize>)
    ensures
        match r {
            Some(i) => key_position(bindings_view(list@), name@, i as int),
            None => !has_key(bindings_view(list@), name@),
        },
{
    let ghost m = bindings_view(list@);
    let mut i: usize = 0;
    while i < list.len()
        invariant
            i <= list@.len(),
            m == bindings_view(list@),
            forall|j: int| 0 <= j < i ==> m[j].0 != name@,
        decreases list.len() - i,
    {
        if list[i].0 == *name {
            return Some(i);
        }
        i = i + 1;
    }
    None
}

/// The position of the first arity binding of `name`, if any.
fn find_arity(list: &Vec<(String, usize)>, name: &String) -> (r: Option<usize>)
    ensures
        match r {
            Some(i) => key_position(arities_view(list@), name@, i as int),
            None => !has_key(arities_view(list@), name@),
        },
{
    let ghost m = arities_view(list@);
    let mut i: usize = 0;
    while i < list.len()
        invariant
            i <= list@.len(),
            m == arities_view(list@),
            forall|j: int| 0 <= j < i ==> m[j].0 != name@,
        decreases list.len() - i,
    {
        if list[i].0 == *name {
            return Some(i);
        }
        i = i + 1;
    }
    None
}

/// The label bound to `name`, if any.
fn lookup_binding(list: &Vec<(String, String)>, name: &String) -> (r: Option<String>)
    ensures
        opt_view(r) == lookup(bindings_view(list@), name@),
{
    match find_binding(list, name) {
        Some(i) => {
            let ghost m = bindings_view(list@);
            assert(has_key(m, name@));
            let ghost j = choose|j: int| key_position(m, name@, j);
            assert(j == i as int);
            Some(list[i].1.clone())
        },
        None => None,
    }
}

/// Bind `name` to `label`, replacing an existing binding in place.
fn bind_label(list: &mut Vec<(String, String)>, name: String, label: String)
    ensures
        bindings_view(final(list)@) == bind(bindings_view(old(list)@), name@, label@),
{
    let ghost m = bindings_view(list@);
    match find_binding(list, &name) {
        Some(i) => {
            assert(has_key(m, name@));
            let ghost j = choose|j: int| key_position(m, name@, j);
            assert(j == i as int);
            list.set(i, (name, label));
            assert(bindings_view(list@) =~= m.update(i as int, (name@, label@)));
        },
        None => {
            list.push((name, label));
            assert(bindings_view(list@) =~= m.push((name@, label@)));
        },
    }
}

/// Bind `name` to the arity `n`, replacing an existing binding in place.
fn bind_arity(list: &mut Vec<(String, usize)>, name: String, n: usize)
    ensures
        arities_view(final(list)@) == bind(arities_view(old(list)@), name@, n as nat),
{
    let ghost m = arities_view(list@);
    match find_arity(list, &name) {
        Some(i) => {
            assert(has_key(m, name@));
            let ghost j = choose|j: int| key_position(m, name@, j);
            assert(j == i as int);
            list.set(i, (name, n));
            assert(arities_view(list@) =~= m.update(i as int, (name@, n as nat)));
        },
        None => {
            list.push((name, n));
            assert(arities_view(list@) =~= m.push((name@, n as nat)));
        },
    }
}

impl Compiler {
    /// A compiler with no code, no data and empty scopes.
    pub fn new() -> (r: Compiler)
        ensures
            r@ == CompilerState::initial(),
    {
        let r = Compiler {
            code: Vec::new(),
            data: Vec::new(),
            label_cnt: 0,
            tmp_cnt: 0,
            const_cnt: 0,
            current_fn: None,
            locals: Vec::new(),
            globals: Vec::new(),
            functions: Vec::new(),
            loop_labels: Vec::new(),
            pending_label: None,
        };
        assert(r@.code =~= seq![]);
        assert(r@.data =~= seq![]);
        assert(r@.locals =~= seq![]);
        assert(r@.globals =~= seq![]);
        assert(r@.functions =~= seq![]);
        assert(r@.loop_labels =~= seq![]);
        r
    }

    // ── label / emit helpers ──────────────────────────────────────────────

    fn fresh_label(&mut self, prefix: &str) -> (r: String)
        requires
            old(self)@.label_cnt < usize::MAX,
        ensures
            (final(self)@, r@) == old(self)@.fresh_label(prefix@),
            old(self)@.keeps_output(final(self)@),
    {
        let n = self.label_cnt;
        self.label_cnt = self.label_cnt + 1;
        let digits = decimal_string(n as u64);
        concat(prefix, digits.as_str())
    }

    fn set_label(&mut self, label: String)
        ensures
            final(self)@ == old(self)@.set_label(label@),
            old(self)@.keeps_output(final(self)@),
    {
        let ghost old_code = self.code@;
        match self.pending_label.take() {
            Some(prev) => {
                // Two labels with no instruction between them: emit a harmless
                // DATA 0 to anchor the first one.
                self.code.push(concat3(">", prev.as_str(), " DATA 0"));
                assert(strings_view(self.code@) =~= strings_view(old_code).push(
                    ">"@ + prev@ + " DATA 0"@,
                ));
            },
            None => {},
        }
        self.pending_label = Some(label);
    }

    fn emit(&mut self, instr: &str)
        ensures
            final(self)@ == old(self)@.emit(instr@),
            old(self)@.keeps_output(final(self)@),
    {
        let ghost old_code = self.code@;
        let line = match self.pending_label.take() {
            Some(lbl) => {
                let mut s = concat3(">", lbl.as_str(), " ");
                s.append(instr);
                s
            },
            None => String::from_str(instr),
        };
        let ghost l = line@;
        self.code.push(line);
        assert(strings_view(self.code@) =~= strings_view(old_code).push(l));
    }

    fn emit_data_decl(&mut self, label: &str, value: u32)
        ensures
            final(self)@ == old(self)@.data_decl(label@, value as nat),
            old(self)@.keeps_output(final(self)@),
    {
        let ghost old_data = self.data@;
        let mut line = concat3(">", label, " DATA ");
        let digits = decimal_string(value as u64);
        line.append(digits.as_str());
        let ghost l = line@;
        self.data.push(line);
        assert(strings_view(self.data@) =~= strings_view(old_data).push(l));
    }

    // ── allocation helpers ────────────────────────────────────────────────

    fn alloc_temp(&mut self) -> (r: String)
        requires
            old(self)@.tmp_cnt < usize::MAX,
        ensures
            (final(self)@, r@) == old(self)@.alloc_temp(),
            old(self)@.keeps_output(final(self)@),
    {
        let digits = decimal_string(self.tmp_cnt as u64);
        let label = concat("__t", digits.as_str());
        self.tmp_cnt = self.tmp_cnt + 1;
        self.emit_data_decl(label.as_str(), 0);
        label
    }

    fn alloc_const_word(&mut self, value: u32) -> (r: String)
        requires
            old(self)@.const_cnt < usize::MAX,
        ensures
            (final(self)@, r@) == old(self)@.alloc_const(value as nat),
            old(self)@.keeps_output(final(self)@),
    {
        let digits = decimal_string(self.const_cnt as u64);
        let label = concat("__c", digits.as_str());
        self.const_cnt = self.const_cnt + 1;
        self.emit_data_decl(label.as_str(), value);
        label
    }

    fn resolve_var(&self, name: &String) -> (r: Result<String, CompileError>)
        ensures
            match r {
                Ok(l) => self@.resolve_var(name@) == Ok::<Seq<char>, Fault>(l@),
                Err(e) => self@.resolve_var(name@) == Err::<Seq<char>, Fault>(e@),
            },
    {
        if let Some(l) = lookup_binding(&self.locals, name) {
            return Ok(l);
        }
        if let Some(l) = lookup_binding(&self.globals, name) {
            return Ok(l);
        }
        Err(CompileError::UndefinedVar(name.clone()))
    }

    fn emit2(&mut self, a: &str, b: &str)
        ensures
            final(self)@ == old(self)@.emit(a@ + b@),
            old(self)@.keeps_output(final(self)@),
    {
        let line = concat(a, b);
        self.emit(line.as_str());
    }

    // ── loading values into AL ────────────────────────────────────────────

    fn emit_load_const(&mut self, v: i64) -> (r: Result<(), CompileError>)
        requires
            old(self)@.const_cnt < usize::MAX,
        ensures
            (final(self)@, outcome_of(r)) == old(self)@.load_const(v as int),
            old(self)@.keeps_output(final(self)@),
    {
        if v < INT_MIN || v > INT_MAX {
            return Err(CompileError::ConstantOutOfRange(v));
        }
        if fits_entalk(v) {
            if v >= 0 {
                let digits = decimal_string(v as u64);
                self.emit2("ENTALK ", digits.as_str());
            } else {
                // ENTALK takes a 12-bit immediate that is sign-extended:
                // -N is written as its 12-bit one's complement value.
                let oc12 = entalk_immediate_for_negative(v);
                let digits = octal_string(oc12 as u64);
                self.emit2("ENTALK &O", digits.as_str());
            }
        } else {
            let lbl = self.alloc_const_word(to_univac_ones_complement(v));
            self.emit2("ENTAL ", lbl.as_str());
        }
        Ok(())
    }

    // ── sign-extension: AL into AU:AL (for DIVA) ─────────────────────────

    fn emit_sign_extend_al(&mut self)
        requires
            old(self)@.room(2),
        ensures
            final(self)@ == old(self)@.sign_extend_al(),
            old(self)@.keeps_output(final(self)@),
    {
        let saved = self.alloc_temp();
        let pos_l = self.fresh_label("__sep");
        let end_l = self.fresh_label("__see");
        self.emit2("STRAL ", saved.as_str());
        self.emit2("JPALP ", pos_l.as_str());  // AL > 0
        self.emit2("JPALZ ", pos_l.as_str());  // AL == 0
        // Negative: AU = all ones (negative zero in one's complement).
        let neg_zero = self.alloc_const_word(0o777777);
        self.emit2("ENTAU ", neg_zero.as_str());
        self.emit2("ENTAL ", saved.as_str());
        self.emit2("JP ", end_l.as_str());
        // Positive or zero:
        self.set_label(pos_l);
        self.emit("ENTAU __zero");
        self.emit2("ENTAL ", saved.as_str());
        self.set_label(end_l);
    }

    // ── expressions ───────────────────────────────────────────────────────

    /// Compile an expression, leaving its value in AL.
    pub fn compile_expr(&mut self, e: &Expr) -> (r: Result<(), CompileError>)
        requires
            old(self)@.room(expr_budget(*e)),
        ensures
            (final(self)@, outcome_of(r)) == old(self)@.expr(*e),
            old(self)@.counted_within(final(self)@, expr_budget(*e)),
            old(self)@.same_scopes(final(self)@),
            old(self)@.keeps_output(final(self)@),
        decreases e, 3nat, 0nat,
    {
        match e {
            Expr::Literal(c) => {
                match parse_constant(c) {
                    Ok(v) => self.emit_load_const(v),
                    Err(err) => Err(err),
                }
            },
            Expr::Identifier(name) => {
                match self.resolve_var(name) {
                    Ok(lbl) => {
                        self.emit2("ENTAL ", lbl.as_str());
                        Ok(())
                    },
                    Err(err) => Err(err),
                }
            },
            Expr::UnaryOp(_, _) => self.compile_unary(e),
            Expr::BinaryOp(_, _, _) => self.compile_binop(e),
            Expr::Call(_, _) => self.compile_call(e),
            Expr::Other => Err(
                CompileError::Unsupported(String::from_str("expression not yet supported")),
            ),
        }
    }

    fn compile_unary(&mut self, e: &Expr) -> (r: Result<(), CompileError>)
        requires
            e is UnaryOp,
            old(self)@.room(expr_budget(*e)),
        ensures
            (final(self)@, outcome_of(r)) == old(self)@.unary(*e),
            old(self)@.counted_within(final(self)@, expr_budget(*e)),
            old(self)@.same_scopes(final(self)@),
            old(self)@.keeps_output(final(self)@),
        decreases e, 2nat, 0nat,
    {
        let (op, a) = match e {
            Expr::UnaryOp(op, a) => (*op, a),
            _ => { return Ok(()); },
        };
        match op {
            UnaryOp::Minus | UnaryOp::Complement => {
                // One's-complement negation.  CPAL: AL = ~AL.
                match self.compile_expr(a) {
                    Err(err) => { return Err(err); },
                    Ok(()) => {},
                }
                self.emit("CPAL");
                Ok(())
            },
            UnaryOp::Negate => {
                // Logical NOT: 1 if AL == 0, else 0.
                match self.compile_expr(a) {
                    Err(err) => { return Err(err); },
                    Ok(()) => {},
                }
                let true_l = self.fresh_label("__lnot_t");
                let end_l = self.fresh_label("__lnot_e");
                self.emit2("JPALZ ", true_l.as_str());
                self.emit("ENTALK 0");
                self.emit2("JP ", end_l.as_str());
                self.set_label(true_l);
                self.emit("ENTALK 1");
                self.set_label(end_l);
                Ok(())
            },
            UnaryOp::Plus => self.compile_expr(a),
            UnaryOp::PreIncrement => {
                if let Expr::Identifier(name) = &**a {
                    let lbl = match self.resolve_var(name) {
                        Ok(l) => l,
                        Err(err) => { return Err(err); },
                    };
                    self.emit2("ENTAL ", lbl.as_str());
                    self.emit("ADDALK 1");
                    self.emit2("STRAL ", lbl.as_str());
                    Ok(())
                } else {
                    Err(CompileError::Unsupported(String::from_str("++<non-ident>")))
                }
            },
            UnaryOp::PostIncrement => {
                if let Expr::Identifier(name) = &**a {
                    let lbl = match self.resolve_var(name) {
                        Ok(l) => l,
                        Err(err) => { return Err(err); },
                    };
                    let saved = self.alloc_temp();
                    self.emit2("ENTAL ", lbl.as_str());
                    self.emit2("STRAL ", saved.as_str());  // save old value
                    self.emit("ADDALK 1");
                    self.emit2("STRAL ", lbl.as_str());  // store incremented
                    self.emit2("ENTAL ", saved.as_str());  // return old value
                    Ok(())
                } else {
                    Err(CompileError::Unsupported(String::from_str("<non-ident>++")))
                }
            },
            UnaryOp::PreDecrement => {
                if let Expr::Identifier(name) = &**a {
                    let lbl = match self.resolve_var(name) {
                        Ok(l) => l,
                        Err(err) => { return Err(err); },
                    };
                    let one = self.alloc_const_word(1);
                    self.emit2("ENTAL ", lbl.as_str());
                    self.emit2("SUBAL ", one.as_str());
                    self.emit2("STRAL ", lbl.as_str());
                    Ok(())
                } else {
                    Err(CompileError::Unsupported(String::from_str("--<non-ident>")))
                }
            },
            UnaryOp::PostDecrement => {
                if let Expr::Identifier(name) = &**a {
                    let lbl = match self.resolve_var(name) {
                        Ok(l) => l,
                        Err(err) => { return Err(err); },
                    };
                    let one = self.alloc_const_word(1);
                    let saved = self.alloc_temp();
                    self.emit2("ENTAL ", lbl.as_str());
                    self.emit2("STRAL ", saved.as_str());
                    self.emit2("SUBAL ", one.as_str());
                    self.emit2("STRAL ", lbl.as_str());
                    self.emit2("ENTAL ", saved.as_str());
                    Ok(())
                } else {
                    Err(CompileError::Unsupported(String::from_str("<non-ident>--")))
                }
            },
            _ => Err(CompileError::Unsupported(concat("unary op ", unary_operator_name_str(op)))),
        }
    }
}

/// The 12-bit one's complement immediate for a negative ENTALK operand:
/// 0o7777 exclusive-or the magnitude, which is 0o7777 minus the magnitude.
fn entalk_immediate_for_negative(v: i64) -> (r: u32)
    requires
        -2047 <= v < 0,
    ensures
        r == entalk_negative_immediate(v as int),
        r == 0o7777 - (-v),
{
    let n: u32 = (-v) as u32;
    let r: u32 = 0o7777u32 ^ (n & 0o7777u32);
    assert(0o7777u32 ^ (n & 0o7777u32) == 0o7777u32 - n) by (bit_vector)
        requires
            1 <= n <= 2047,
    ;
    r
}


impl Compiler {
    #[verifier::rlimit(40)]
    fn compile_binop(&mut self, e: &Expr) -> (r: Result<(), CompileError>)
        requires
            e is BinaryOp,
            old(self)@.room(expr_budget(*e)),
        ensures
            (final(self)@, outcome_of(r)) == old(self)@.binop(*e),
            old(self)@.counted_within(final(self)@, expr_budget(*e)),
            old(self)@.same_scopes(final(self)@),
            old(self)@.keeps_output(final(self)@),
        decreases e, 2nat, 0nat,
    {
        let (op, lhs, rhs) = match e {
            Expr::BinaryOp(op, lhs, rhs) => (*op, lhs, rhs),
            _ => { return Ok(()); },
        };
        match op {
            BinaryOp::Plus | BinaryOp::Multiply | BinaryOp::BitwiseAnd
            | BinaryOp::BitwiseOr | BinaryOp::BitwiseXor => {
                return self.compile_combine(e);
            },
            BinaryOp::Equals | BinaryOp::NotEquals | BinaryOp::Less
            | BinaryOp::LessOrEqual | BinaryOp::Greater
            | BinaryOp::GreaterOrEqual => {
                return self.compile_comparison(e);
            },
            _ => {},
        }
        match op {
            // ── assignments ───────────────────────────────────────────────
            BinaryOp::Assign => {
                match self.compile_expr(rhs) {
                    Err(err) => { return Err(err); },
                    Ok(()) => {},
                }
                let lbl = match self.lvalue_label(lhs) {
                    Ok(l) => l,
                    Err(err) => { return Err(err); },
                };
                self.emit2("STRAL ", lbl.as_str());
                Ok(())
            },
            BinaryOp::AssignPlus => self.compile_compound_assign(e, "ADDAL ", false),
            BinaryOp::AssignMinus => self.compile_compound_assign(e, "SUBAL ", false),
            BinaryOp::AssignMultiply => self.compile_compound_assign(e, "MULAL ", false),
            BinaryOp::AssignDivide => self.compile_compound_assign(e, "DIVA ", true),
            // ── arithmetic ────────────────────────────────────────────────
            BinaryOp::Minus => {
                match self.compile_expr(lhs) {
                    Err(err) => { return Err(err); },
                    Ok(()) => {},
                }
                let lhs_t = self.alloc_temp();
                self.emit2("STRAL ", lhs_t.as_str());
                match self.compile_expr(rhs) {
                    Err(err) => { return Err(err); },
                    Ok(()) => {},
                }
                let rhs_t = self.alloc_temp();
                self.emit2("STRAL ", rhs_t.as_str());
                self.emit2("ENTAL ", lhs_t.as_str());
                self.emit2("SUBAL ", rhs_t.as_str());
                Ok(())
            },
            BinaryOp::Divide | BinaryOp::Modulo => {
                match self.compile_expr(rhs) {
                    Err(err) => { return Err(err); },
                    Ok(()) => {},
                }
                let rhs_t = self.alloc_temp();
                self.emit2("STRAL ", rhs_t.as_str());
                match self.compile_expr(lhs) {
                    Err(err) => { return Err(err); },
                    Ok(()) => {},
                }
                self.emit_sign_extend_al();
                self.emit2("DIVA ", rhs_t.as_str());  // AL = quotient, AU = remainder
                if op == BinaryOp::Modulo {
                    let rem_t = self.alloc_temp();
                    self.emit2("STRAU ", rem_t.as_str());
                    self.emit2("ENTAL ", rem_t.as_str());  // AL = remainder
                }
                Ok(())
            },
            BinaryOp::ShiftLeft | BinaryOp::ShiftRight => self.compile_shift(e),
            // ── logical ───────────────────────────────────────────────────
            BinaryOp::LogicalAnd => {
                let false_l = self.fresh_label("__land_f");
                let end_l = self.fresh_label("__land_e");
                match self.compile_expr(lhs) {
                    Err(err) => { return Err(err); },
                    Ok(()) => {},
                }
                self.emit2("JPALZ ", false_l.as_str());
                match self.compile_expr(rhs) {
                    Err(err) => { return Err(err); },
                    Ok(()) => {},
                }
                self.emit2("JPALZ ", false_l.as_str());
                self.emit("ENTALK 1");
                self.emit2("JP ", end_l.as_str());
                self.set_label(false_l);
                self.emit("ENTALK 0");
                self.set_label(end_l);
                Ok(())
            },
            BinaryOp::LogicalOr => {
                let true_l = self.fresh_label("__lor_t");
                let end_l = self.fresh_label("__lor_e");
                match self.compile_expr(lhs) {
                    Err(err) => { return Err(err); },
                    Ok(()) => {},
                }
                self.emit2("JPALNZ ", true_l.as_str());
                match self.compile_expr(rhs) {
                    Err(err) => { return Err(err); },
                    Ok(()) => {},
                }
                self.emit2("JPALNZ ", true_l.as_str());
                self.emit("ENTALK 0");
                self.emit2("JP ", end_l.as_str());
                self.set_label(true_l);
                self.emit("ENTALK 1");
                self.set_label(end_l);
                Ok(())
            },
            _ => Err(CompileError::Unsupported(concat("binary op ", binary_operator_name_str(op)))),
        }
    }

    fn compile_combine(&mut self, e: &Expr) -> (r: Result<(), CompileError>)
        requires
            *e matches Expr::BinaryOp(op, _, _) && combining_instruction(op) is Some,
            old(self)@.room(expr_budget(*e)),
        ensures
            (final(self)@, outcome_of(r)) == old(self)@.combine(*e),
            old(self)@.counted_within(final(self)@, expr_budget(*e)),
            old(self)@.same_scopes(final(self)@),
            old(self)@.keeps_output(final(self)@),
        decreases e, 1nat, 0nat,
    {
        let (op, lhs, rhs) = match e {
            Expr::BinaryOp(op, lhs, rhs) => (*op, lhs, rhs),
            _ => { return Ok(()); },
        };
        match self.compile_expr(lhs) {
            Err(err) => { return Err(err); },
            Ok(()) => {},
        }
        let t = self.alloc_temp();
        self.emit2("STRAL ", t.as_str());
        match self.compile_expr(rhs) {
            Err(err) => { return Err(err); },
            Ok(()) => {},
        }
        let instr = match op {
            BinaryOp::Plus => "ADDAL ",
            BinaryOp::Multiply => "MULAL ",  // result in AL
            BinaryOp::BitwiseAnd => "SLCL ",  // AL &= mem[t]
            BinaryOp::BitwiseOr => "SLSET ",  // AL |= mem[t]
            _ => "SLCP ",  // AL ^= mem[t]
        };
        self.emit2(instr, t.as_str());
        Ok(())
    }

    fn compile_compound_assign(&mut self, e: &Expr, op_instr: &str, divides: bool) -> (r:
        Result<(), CompileError>)
        requires
            e is BinaryOp,
            old(self)@.room(expr_budget(*e)),
        ensures
            (final(self)@, outcome_of(r)) == old(self)@.compound_assign(*e, op_instr@, divides),
            old(self)@.counted_within(final(self)@, expr_budget(*e)),
            old(self)@.same_scopes(final(self)@),
            old(self)@.keeps_output(final(self)@),
        decreases e, 1nat, 0nat,
    {
        let (lhs, rhs) = match e {
            Expr::BinaryOp(_, lhs, rhs) => (lhs, rhs),
            _ => { return Ok(()); },
        };
        match self.compile_expr(rhs) {
            Err(err) => { return Err(err); },
            Ok(()) => {},
        }
        let rhs_t = self.alloc_temp();
        self.emit2("STRAL ", rhs_t.as_str());
        let lbl = match self.lvalue_label(lhs) {
            Ok(l) => l,
            Err(err) => { return Err(err); },
        };
        self.emit2("ENTAL ", lbl.as_str());
        if divides {
            self.emit_sign_extend_al();
        }
        self.emit2(op_instr, rhs_t.as_str());
        self.emit2("STRAL ", lbl.as_str());
        Ok(())
    }

    fn compile_shift(&mut self, e: &Expr) -> (r: Result<(), CompileError>)
        requires
            e is BinaryOp,
            old(self)@.room(expr_budget(*e)),
        ensures
            (final(self)@, outcome_of(r)) == old(self)@.shift(*e),
            old(self)@.counted_within(final(self)@, expr_budget(*e)),
            old(self)@.same_scopes(final(self)@),
            old(self)@.keeps_output(final(self)@),
        decreases e, 1nat, 0nat,
    {
        let (op, lhs, rhs) = match e {
            Expr::BinaryOp(op, lhs, rhs) => (*op, lhs, rhs),
            _ => { return Ok(()); },
        };
        // Literal shift amounts only.
        if let Expr::Literal(c) = &**rhs {
            let v = match parse_constant(c) {
                Ok(v) => v,
                Err(err) => { return Err(err); },
            };
            let k = v as u32;
            match self.compile_expr(lhs) {
                Err(err) => { return Err(err); },
                Ok(()) => {},
            }
            let instr = if op == BinaryOp::ShiftLeft {
                "LSHAL "
            } else {
                "RSHAL "
            };
            let digits = decimal_string(k as u64);
            self.emit2(instr, digits.as_str());
            Ok(())
        } else {
            Err(
                CompileError::Unsupported(
                    String::from_str("variable shift amounts not yet supported"),
                ),
            )
        }
    }

    fn compile_comparison(&mut self, e: &Expr) -> (r: Result<(), CompileError>)
        requires
            *e matches Expr::BinaryOp(op, _, _) && is_comparison(op),
            old(self)@.room(expr_budget(*e)),
        ensures
            (final(self)@, outcome_of(r)) == old(self)@.comparison(*e),
            old(self)@.counted_within(final(self)@, expr_budget(*e)),
            old(self)@.same_scopes(final(self)@),
            old(self)@.keeps_output(final(self)@),
        decreases e, 1nat, 0nat,
    {
        let (op, lhs, rhs) = match e {
            Expr::BinaryOp(op, lhs, rhs) => (*op, lhs, rhs),
            _ => { return Ok(()); },
        };
        match self.compile_expr(lhs) {
            Err(err) => { return Err(err); },
            Ok(()) => {},
        }
        let lhs_t = self.alloc_temp();
        self.emit2("STRAL ", lhs_t.as_str());
        match self.compile_expr(rhs) {
            Err(err) => { return Err(err); },
            Ok(()) => {},
        }
        let rhs_t = self.alloc_temp();
        self.emit2("STRAL ", rhs_t.as_str());
        // The CMAL flags are consumed by exactly one conditional jump, so
        // a < b is tested as b > a, and a >= b as b <= a.
        let true_l = self.fresh_label("__ct");
        let end_l = self.fresh_label("__ce");
        let (swap, jump) = match op {
            BinaryOp::Equals => (false, "JPALZ "),
            BinaryOp::NotEquals => (false, "JPALNZ "),
            BinaryOp::Less => (true, "JPALP "),
            BinaryOp::Greater => (false, "JPALP "),
            BinaryOp::LessOrEqual => (false, "JPALNG "),
            _ => (true, "JPALNG "),
        };
        if swap {
            self.emit2("ENTAL ", rhs_t.as_str());
            self.emit2("CMAL ", lhs_t.as_str());
        } else {
            self.emit2("ENTAL ", lhs_t.as_str());
            self.emit2("CMAL ", rhs_t.as_str());
        }
        self.emit2(jump, true_l.as_str());
        // False: AL = 0
        self.emit("ENTALK 0");
        self.emit2("JP ", end_l.as_str());
        // True: AL = 1
        self.set_label(true_l);
        self.emit("ENTALK 1");
        self.set_label(end_l);
        Ok(())
    }

    fn lvalue_label(&self, e: &Expr) -> (r: Result<String, CompileError>)
        ensures
            match r {
                Ok(l) => lvalue_of(self@, *e) == Ok::<Seq<char>, Fault>(l@),
                Err(err) => lvalue_of(self@, *e) == Err::<Seq<char>, Fault>(err@),
            },
    {
        match e {
            Expr::Identifier(name) => self.resolve_var(name),
            _ => Err(CompileError::Unsupported(String::from_str("non-identifier lvalue"))),
        }
    }

    fn compile_call(&mut self, e: &Expr) -> (r: Result<(), CompileError>)
        requires
            e is Call,
            old(self)@.room(expr_budget(*e)),
        ensures
            (final(self)@, outcome_of(r)) == old(self)@.call(*e),
            old(self)@.counted_within(final(self)@, expr_budget(*e)),
            old(self)@.same_scopes(final(self)@),
            old(self)@.keeps_output(final(self)@),
        decreases e, 2nat, 0nat,
    {
        let (callee, args) = match e {
            Expr::Call(callee, args) => (callee, args),
            _ => { return Ok(()); },
        };
        let func_name = match &**callee {
            Expr::Identifier(name) => name,
            _ => {
                return Err(CompileError::Unsupported(String::from_str("indirect function call")));
            },
        };
        // Built-in putchar(c)
        if *func_name == String::from_str("putchar") {
            if args.len() != 1 {
                return Err(CompileError::Unsupported(String::from_str("putchar needs 1 arg")));
            }
            proof {
                lemma_exprs_size_prefix(args@, 0);
                assert(args@.take(0) =~= Seq::<Expr>::empty());
            }
            match self.compile_expr(&args[0]) {
                Err(err) => { return Err(err); },
                Ok(()) => {},
            }
            self.emit("STRAL __outwd");
            // OUT 0 with TACW = IACW = __outwd (the two data words inline)
            self.emit("OUT 0");
            self.emit("DATA __outwd");
            self.emit("DATA __outwd");
            self.emit("SKPOIN 0");
            self.emit("JP LOK-1");
            return Ok(());
        }
        // Built-in getchar(), returns the character in AL
        if *func_name == String::from_str("getchar") {
            self.emit("SIL 0");
            self.emit("IN 0");
            self.emit("DATA __inwd");
            self.emit("DATA __inwd");
            self.emit("SKPIIN 0");
            self.emit("JP LOK-1");
            self.emit("ENTAL __inwd");
            return Ok(());
        }
        let n_params = match find_arity(&self.functions, func_name) {
            Some(i) => {
                let ghost m = arities_view(self.functions@);
                let ghost j = choose|j: int| key_position(m, func_name@, j);
                assert(j == i as int);
                self.functions[i].1
            },
            None => {
                return Err(CompileError::UndefinedFunc(func_name.clone()));
            },
        };
        if args.len() != n_params {
            let mut msg = concat(func_name.as_str(), ": expected ");
            let expected = decimal_string(n_params as u64);
            msg.append(expected.as_str());
            msg.append(" args, got ");
            let got = decimal_string(args.len() as u64);
            msg.append(got.as_str());
            return Err(CompileError::Unsupported(msg));
        }
        // Evaluate the arguments and store them to the static parameter slots.
        proof {
            assert(args@.take(0) =~= Seq::<Expr>::empty());
        }
        let ghost start = self@;
        let ghost goal = self@.call_args(*e, 0);
        assert(start.call(*e) == (if goal.1 is Err {
            goal
        } else {
            (goal.0.emit("RJP __fn_"@ + func_name@), Ok::<(), Fault>(()))
        }));
        let mut i: usize = 0;
        while i < args.len()
            invariant
                i <= args@.len(),
                *e == Expr::Call(*callee, *args),
                **callee == Expr::Identifier(*func_name),
                goal == self@.call_args(*e, i as nat),
                start == old(self)@,
                start.call(*e) == (if goal.1 is Err {
                    goal
                } else {
                    (goal.0.emit("RJP __fn_"@ + func_name@), Ok::<(), Fault>(()))
                }),
                start.room(expr_budget(*e)),
                start.counted_within(self@, 4 * exprs_size(args@.take(i as int))),
                start.keeps_output(self@),
                start.same_scopes(self@),
                exprs_size(args@) <= expr_size(*e),
            decreases args.len() - i,
        {
            proof {
                assert(args@.take(i + 1).drop_last() =~= args@.take(i as int));
                assert(args@.take(i as int) + args@.subrange(i as int, args@.len() as int) =~= args@);
                lemma_exprs_size_prefix(args@, i as int);
            }
            let ghost before = self@;
            match self.compile_expr(&args[i]) {
                Err(err) => {
                    assert(before.call_args(*e, i as nat) == (self@, Err::<(), Fault>(err@)));
                    return Err(err);
                },
                Ok(()) => {},
            }
            let mut store = concat3("STRAL __p_", func_name.as_str(), "_");
            let digits = decimal_string(i as u64);
            store.append(digits.as_str());
            self.emit(store.as_str());
            i = i + 1;
        }
        proof {
            assert(args@.take(args@.len() as int) =~= args@);
            assert(self@.call_args(*e, i as nat) == (self@, Ok::<(), Fault>(())));
        }
        self.emit2("RJP __fn_", func_name.as_str());
        Ok(())
    }
}



/// The name a declarator declares.
fn extract_decl_name(d: &Declr) -> (r: Result<String, CompileError>)
    ensures
        match r {
            Ok(n) => decl_name(*d) == Ok::<Seq<char>, Fault>(n@),
            Err(err) => decl_name(*d) == Err::<Seq<char>, Fault>(err@),
        },
    decreases d,
{
    match &d.kind {
        DeclrKind::Identifier(name) => Ok(name.clone()),
        DeclrKind::Declarator(inner) => extract_decl_name(inner),
        DeclrKind::Abstract => Err(
            CompileError::Unsupported(String::from_str("abstract declarator")),
        ),
    }
}

/// The parameter names of a function declarator.
fn extract_params(d: &Declr) -> (r: Vec<String>)
    ensures
        strings_view(r@) == param_names(*d),
{
    let mut j: usize = 0;
    while j < d.derived.len()
        invariant
            j <= d.derived@.len(),
            params_from(d.derived@, 0) == params_from(d.derived@, j as nat),
        decreases d.derived.len() - j,
    {
        if let DerivedDeclr::Function(params) = &d.derived[j] {
            let mut names: Vec<String> = Vec::new();
            let mut i: usize = 0;
            while i < params.len()
                invariant
                    i <= params@.len(),
                    strings_view(names@) + named_params(params@, i as nat) == named_params(
                        params@,
                        0,
                    ),
                decreases params.len() - i,
            {
                let ghost before = strings_view(names@);
                if let Some(pd) = &params[i].declarator {
                    if let Ok(name) = extract_decl_name(pd) {
                        names.push(name);
                        assert(strings_view(names@) =~= before + seq![name@]);
                        assert(before + named_params(params@, i as nat) =~= strings_view(names@)
                            + named_params(params@, (i + 1) as nat));
                    }
                }
                i = i + 1;
            }
            assert(named_params(params@, i as nat) =~= Seq::<Seq<char>>::empty());
            assert(strings_view(names@) =~= strings_view(names@) + named_params(params@, i as nat));
            return names;
        }
        j = j + 1;
    }
    let r: Vec<String> = Vec::new();
    assert(strings_view(r@) =~= Seq::<Seq<char>>::empty());
    r
}



impl Compiler {
    // ── declarations ──────────────────────────────────────────────────────

    fn compile_decl(&mut self, d: &Decl) -> (r: Result<(), CompileError>)
        requires
            old(self)@.room(decl_budget(*d)),
        ensures
            (final(self)@, outcome_of(r)) == old(self)@.decl(*d),
            old(self)@.counted_within(final(self)@, decl_budget(*d)),
            old(self)@.keeps_output(final(self)@),
            final(self)@.loop_labels == old(self)@.loop_labels,
            final(self)@.current_fn == old(self)@.current_fn,
    {
        let ghost start = self@;
        let ghost goal = self@.decl_items(*d, 0);
        proof {
            assert(d.declarators@.take(0) =~= Seq::<InitDecl>::empty());
        }
        let mut i: usize = 0;
        while i < d.declarators.len()
            invariant
                i <= d.declarators@.len(),
                goal == self@.decl_items(*d, i as nat),
                start == old(self)@,
                goal == start.decl(*d),
                start.room(decl_budget(*d)),
                start.counted_within(self@, 4 * init_decls_size(d.declarators@.take(i as int))),
                start.keeps_output(self@),
                self@.loop_labels == start.loop_labels,
                self@.current_fn == start.current_fn,
            decreases d.declarators.len() - i,
        {
            proof {
                lemma_init_decls_size_prefix(d.declarators@, i as int);
            }
            let ghost before = self@;
            let idecl = &d.declarators[i];
            let name = match extract_decl_name(&idecl.declarator) {
                Ok(n) => n,
                Err(err) => {
                    return Err(err);
                },
            };
            let local_prefix = match &self.current_fn {
                Some(fn_name) => Some(concat3("__l_", fn_name.as_str(), "_")),
                None => None,
            };
            let lbl = match local_prefix {
                Some(prefix) => {
                    let l = prefix.concat(name.as_str());
                    bind_label(&mut self.locals, name.clone(), l.clone());
                    self.emit_data_decl(l.as_str(), 0);
                    l
                },
                None => {
                    let l = concat("__g_", name.as_str());
                    bind_label(&mut self.globals, name.clone(), l.clone());
                    self.emit_data_decl(l.as_str(), 0);
                    l
                },
            };
            match &idecl.initializer {
                None => {},
                Some(Init::Expression(x)) => {
                    match self.compile_expr(x) {
                        Err(err) => {
                            return Err(err);
                        },
                        Ok(()) => {},
                    }
                    self.emit2("STRAL ", lbl.as_str());
                },
                Some(Init::List) => {
                    return Err(CompileError::Unsupported(String::from_str("complex initializer")));
                },
            }
            i = i + 1;
        }
        proof {
            assert(d.declarators@.take(i as int) =~= d.declarators@);
        }
        Ok(())
    }
}


impl Compiler {
    // ── statements ────────────────────────────────────────────────────────

    fn push_loop(&mut self, brk: &String, cont: &String)
        ensures
            final(self)@ == old(self)@.push_loop(brk@, cont@),
    {
        let ghost old_labels = self.loop_labels@;
        self.loop_labels.push((brk.clone(), cont.clone()));
        assert(bindings_view(self.loop_labels@) =~= bindings_view(old_labels).push(
            (brk@, cont@),
        ));
    }

    fn pop_loop(&mut self)
        ensures
            final(self)@ == old(self)@.pop_loop(),
    {
        let ghost old_labels = self.loop_labels@;
        let _ = self.loop_labels.pop();
        proof {
            if old_labels.len() > 0 {
                assert(bindings_view(self.loop_labels@) =~= bindings_view(old_labels).drop_last());
            } else {
                assert(bindings_view(self.loop_labels@) =~= bindings_view(old_labels));
            }
        }
    }

    fn compile_stmt(&mut self, st: &Stmt) -> (r: Result<(), CompileError>)
        requires
            old(self)@.room(stmt_budget(*st)),
        ensures
            (final(self)@, outcome_of(r)) == old(self)@.stmt(*st),
            old(self)@.counted_within(final(self)@, stmt_budget(*st)),
            r is Ok ==> final(self)@.loop_labels == old(self)@.loop_labels,
            r is Ok ==> final(self)@.current_fn == old(self)@.current_fn,
            old(self)@.keeps_output(final(self)@),
        decreases st, 1nat, 0nat,
    {
        match st {
            Stmt::Compound(_) => self.compile_compound(st),
            Stmt::Return(_) => self.compile_return(st),
            Stmt::If { .. } => self.compile_if(st),
            Stmt::While { .. } => self.compile_while(st),
            Stmt::For { .. } => self.compile_for(st),
            Stmt::DoWhile { .. } => self.compile_do_while(st),
            Stmt::Break => {
                let n = self.loop_labels.len();
                if n == 0 {
                    return Err(CompileError::Unsupported(String::from_str("break outside loop")));
                }
                let lbl = self.loop_labels[n - 1].0.clone();
                self.emit2("JP ", lbl.as_str());
                Ok(())
            },
            Stmt::Continue => {
                let n = self.loop_labels.len();
                if n == 0 {
                    return Err(
                        CompileError::Unsupported(String::from_str("continue outside loop")),
                    );
                }
                let lbl = self.loop_labels[n - 1].1.clone();
                self.emit2("JP ", lbl.as_str());
                Ok(())
            },
            Stmt::Expression(value) => match value {
                Some(x) => self.compile_expr(x),
                None => Ok(()),
            },
            Stmt::Other => Err(
                CompileError::Unsupported(String::from_str("statement not yet supported")),
            ),
        }
    }

    fn compile_compound(&mut self, st: &Stmt) -> (r: Result<(), CompileError>)
        requires
            st is Compound,
            old(self)@.room(stmt_budget(*st)),
        ensures
            (final(self)@, outcome_of(r)) == old(self)@.stmt(*st),
            old(self)@.counted_within(final(self)@, stmt_budget(*st)),
            r is Ok ==> final(self)@.loop_labels == old(self)@.loop_labels,
            r is Ok ==> final(self)@.current_fn == old(self)@.current_fn,
            old(self)@.keeps_output(final(self)@),
        decreases st, 0nat, 0nat,
    {
        let items = match st {
            Stmt::Compound(items) => items,
            _ => {
                return Ok(());
            },
        };
        let ghost start = self@;
        let ghost goal = self@.stmt_items(*st, 0);
        proof {
            assert(items@.take(0) =~= Seq::<BlockEntry>::empty());
        }
        let mut i: usize = 0;
        while i < items.len()
            invariant
                i <= items@.len(),
                *st == Stmt::Compound(*items),
                goal == self@.stmt_items(*st, i as nat),
                start == old(self)@,
                goal == start.stmt(*st),
                start.room(stmt_budget(*st)),
                start.counted_within(self@, 4 * items_size(items@.take(i as int))),
                start.keeps_output(self@),
                self@.loop_labels == start.loop_labels,
                self@.current_fn == start.current_fn,
            decreases items.len() - i,
        {
            proof {
                lemma_items_size_prefix(items@, i as int);
            }
            let r = match &items[i] {
                BlockEntry::Declaration(d) => self.compile_decl(d),
                BlockEntry::Statement(inner) => self.compile_stmt(inner),
                BlockEntry::StaticAssert => Err(
                    CompileError::Unsupported(String::from_str("unknown block item")),
                ),
            };
            match r {
                Err(err) => {
                    return Err(err);
                },
                Ok(()) => {},
            }
            i = i + 1;
        }
        proof {
            assert(items@.take(i as int) =~= items@);
        }
        Ok(())
    }

    fn compile_return(&mut self, st: &Stmt) -> (r: Result<(), CompileError>)
        requires
            st is Return,
            old(self)@.room(stmt_budget(*st)),
        ensures
            (final(self)@, outcome_of(r)) == old(self)@.stmt(*st),
            old(self)@.counted_within(final(self)@, stmt_budget(*st)),
            r is Ok ==> final(self)@.loop_labels == old(self)@.loop_labels,
            r is Ok ==> final(self)@.current_fn == old(self)@.current_fn,
            old(self)@.keeps_output(final(self)@),
        decreases st, 0nat, 0nat,
    {
        let value = match st {
            Stmt::Return(value) => value,
            _ => {
                return Ok(());
            },
        };
        match value {
            Some(x) => {
                match self.compile_expr(x) {
                    Err(err) => {
                        return Err(err);
                    },
                    Ok(()) => {},
                }
            },
            None => {
                self.emit("ENTALK 0");
            },
        }
        let jump = match &self.current_fn {
            Some(fn_name) => Some(concat3("JP __fn_", fn_name.as_str(), "_ret")),
            None => None,
        };
        match jump {
            Some(line) => {
                self.emit(line.as_str());
                Ok(())
            },
            None => Err(
                CompileError::Unsupported(String::from_str("return outside function")),
            ),
        }
    }

    #[verifier::rlimit(40)]
    fn compile_if(&mut self, st: &Stmt) -> (r: Result<(), CompileError>)
        requires
            st is If,
            old(self)@.room(stmt_budget(*st)),
        ensures
            (final(self)@, outcome_of(r)) == old(self)@.stmt(*st),
            old(self)@.counted_within(final(self)@, stmt_budget(*st)),
            r is Ok ==> final(self)@.loop_labels == old(self)@.loop_labels,
            r is Ok ==> final(self)@.current_fn == old(self)@.current_fn,
            old(self)@.keeps_output(final(self)@),
        decreases st, 0nat, 0nat,
    {
        let (condition, then_statement, else_statement) = match st {
            Stmt::If { condition, then_statement, else_statement } => (condition, then_statement, else_statement),
            _ => {
                return Ok(());
            },
        };
        let else_l = self.fresh_label("__ife");
        let end_l = self.fresh_label("__ifd");
        match self.compile_expr(condition) {
            Err(err) => {
                return Err(err);
            },
            Ok(()) => {},
        }
        self.emit2("JPALZ ", else_l.as_str());
        match self.compile_stmt(then_statement) {
            Err(err) => {
                return Err(err);
            },
            Ok(()) => {},
        }
        if else_statement.is_some() {
            self.emit2("JP ", end_l.as_str());
        }
        self.set_label(else_l);
        match else_statement {
            Some(es) => {
                match self.compile_stmt(es) {
                    Err(err) => {
                        return Err(err);
                    },
                    Ok(()) => {},
                }
                self.set_label(end_l);
                Ok(())
            },
            None => Ok(()),
        }
    }

    #[verifier::rlimit(40)]
    fn compile_while(&mut self, st: &Stmt) -> (r: Result<(), CompileError>)
        requires
            st is While,
            old(self)@.room(stmt_budget(*st)),
        ensures
            (final(self)@, outcome_of(r)) == old(self)@.stmt(*st),
            old(self)@.counted_within(final(self)@, stmt_budget(*st)),
            r is Ok ==> final(self)@.loop_labels == old(self)@.loop_labels,
            r is Ok ==> final(self)@.current_fn == old(self)@.current_fn,
            old(self)@.keeps_output(final(self)@),
        decreases st, 0nat, 0nat,
    {
        let (expression, statement) = match st {
            Stmt::While { expression, statement } => (expression, statement),
            _ => {
                return Ok(());
            },
        };
        let cond_l = self.fresh_label("__whc");
        let end_l = self.fresh_label("__whe");
        self.set_label(cond_l.clone());
        match self.compile_expr(expression) {
            Err(err) => {
                return Err(err);
            },
            Ok(()) => {},
        }
        self.emit2("JPALZ ", end_l.as_str());
        let ghost outer_loops = self@.loop_labels;

        self.push_loop(&end_l, &cond_l);
        match self.compile_stmt(statement) {
            Err(err) => {
                return Err(err);
            },
            Ok(()) => {},
        }
        self.pop_loop();
        assert(self@.loop_labels =~= outer_loops);
        self.emit2("JP ", cond_l.as_str());
        self.set_label(end_l);
        Ok(())
    }

    #[verifier::rlimit(100)]
    #[verifier::spinoff_prover]
    fn compile_for(&mut self, st: &Stmt) -> (r: Result<(), CompileError>)
        requires
            st is For,
            old(self)@.room(stmt_budget(*st)),
        ensures
            (final(self)@, outcome_of(r)) == old(self)@.stmt(*st),
            old(self)@.counted_within(final(self)@, stmt_budget(*st)),
            r is Ok ==> final(self)@.loop_labels == old(self)@.loop_labels,
            r is Ok ==> final(self)@.current_fn == old(self)@.current_fn,
            old(self)@.keeps_output(final(self)@),
        decreases st, 0nat, 0nat,
    {
        let (initializer, condition, step, statement) = match st {
            Stmt::For { initializer, condition, step, statement } => (initializer, condition, step, statement),
            _ => {
                return Ok(());
            },
        };
        let r = match initializer {
            ForInit::Empty => Ok(()),
            ForInit::Expression(x) => self.compile_expr(x),
            ForInit::Declaration(d) => self.compile_decl(d),
            ForInit::StaticAssert => Err(
                CompileError::Unsupported(String::from_str("complex for-init")),
            ),
        };
        match r {
            Err(err) => {
                return Err(err);
            },
            Ok(()) => {},
        }
        let cond_l = self.fresh_label("__forc");
        // `continue` in a for loop jumps to the step expression, not the
        // condition, so that the step still runs before the next iteration.
        let step_l = self.fresh_label("__fors");
        let end_l = self.fresh_label("__fore");
        self.set_label(cond_l.clone());
        match condition {
            Some(c) => {
                match self.compile_expr(c) {
                    Err(err) => {
                        return Err(err);
                    },
                    Ok(()) => {},
                }
                self.emit2("JPALZ ", end_l.as_str());
            },
            None => {},
        }
        let ghost outer_loops = self@.loop_labels;

        self.push_loop(&end_l, &step_l);
        match self.compile_stmt(statement) {
            Err(err) => {
                return Err(err);
            },
            Ok(()) => {},
        }
        self.pop_loop();
        assert(self@.loop_labels =~= outer_loops);
        self.set_label(step_l);
        match step {
            Some(x) => {
                match self.compile_expr(x) {
                    Err(err) => {
                        return Err(err);
                    },
                    Ok(()) => {},
                }
            },
            None => {},
        }
        self.emit2("JP ", cond_l.as_str());
        self.set_label(end_l);
        Ok(())
    }

    fn compile_do_while(&mut self, st: &Stmt) -> (r: Result<(), CompileError>)
        requires
            st is DoWhile,
            old(self)@.room(stmt_budget(*st)),
        ensures
            (final(self)@, outcome_of(r)) == old(self)@.stmt(*st),
            old(self)@.counted_within(final(self)@, stmt_budget(*st)),
            r is Ok ==> final(self)@.loop_labels == old(self)@.loop_labels,
            r is Ok ==> final(self)@.current_fn == old(self)@.current_fn,
            old(self)@.keeps_output(final(self)@),
        decreases st, 0nat, 0nat,
    {
        let (statement, expression) = match st {
            Stmt::DoWhile { statement, expression } => (statement, expression),
            _ => {
                return Ok(());
            },
        };
        let top_l = self.fresh_label("__dot");
        let cond_l = self.fresh_label("__doc");  // continue: re-evaluate the condition
        let end_l = self.fresh_label("__doe");  // break: exit
        self.set_label(top_l.clone());
        let ghost outer_loops = self@.loop_labels;

        self.push_loop(&end_l, &cond_l);
        match self.compile_stmt(statement) {
            Err(err) => {
                return Err(err);
            },
            Ok(()) => {},
        }
        self.pop_loop();
        assert(self@.loop_labels =~= outer_loops);
        self.set_label(cond_l);
        match self.compile_expr(expression) {
            Err(err) => {
                return Err(err);
            },
            Ok(()) => {},
        }
        self.emit2("JPALNZ ", top_l.as_str());
        self.set_label(end_l);
        Ok(())
    }
}



impl Compiler {
    // ── functions ─────────────────────────────────────────────────────────

    #[verifier::rlimit(40)]
    fn compile_function(&mut self, f: &FunctionDefinition) -> (r: Result<(), CompileError>)
        requires
            old(self)@.room(stmt_budget(f.statement)),
        ensures
            (final(self)@, outcome_of(r)) == old(self)@.function(*f),
            old(self)@.counted_within(final(self)@, stmt_budget(f.statement)),
            old(self)@.keeps_output(final(self)@),
            r is Ok ==> final(self)@.locals == old(self)@.locals,
            r is Ok ==> final(self)@.current_fn == old(self)@.current_fn,
            r is Ok ==> final(self)@.loop_labels == old(self)@.loop_labels,
            r is Ok ==> final(self)@.pending_label is None,
            r is Ok ==> (decl_name(f.declarator) matches Ok(name) && final(self)@.code.last()
                == return_line(name)),
            r is Ok && old(self)@.pending_label is None ==> (decl_name(f.declarator) matches Ok(
                name,
            ) && final(self)@.code[old(self)@.code.len() as int] == entry_line(name)),
    {
        let name = match extract_decl_name(&f.declarator) {
            Ok(n) => n,
            Err(err) => {
                return Err(err);
            },
        };
        let params = extract_params(&f.declarator);
        bind_arity(&mut self.functions, name.clone(), params.len());
        let ghost s1 = self@;
        let mut saved_locals: Vec<(String, String)> = Vec::new();
        std::mem::swap(&mut saved_locals, &mut self.locals);
        let mut saved_fn: Option<String> = Some(name.clone());
        std::mem::swap(&mut saved_fn, &mut self.current_fn);
        proof {
            assert(bindings_view(self.locals@) =~= Seq::<(Seq<char>, Seq<char>)>::empty());
        }
        let fn_lbl = concat("__fn_", name.as_str());
        let ret_lbl = concat(fn_lbl.as_str(), "_ret");
        // Function entry: RJP writes the return address into this DATA slot.
        let entry = concat3(">", fn_lbl.as_str(), " DATA 0");
        proof {
            reveal_strlit(">");
            reveal_strlit("__fn_");
            reveal_strlit(">__fn_");
            assert(entry@ =~= entry_line(name@));
        }
        self.emit(entry.as_str());
        // Parameter slots.
        let ghost s2 = self@;
        let mut i: usize = 0;
        while i < params.len()
            invariant
                i <= params@.len(),
                s2.param_slots(name@, strings_view(params@), 0) == self@.param_slots(
                    name@,
                    strings_view(params@),
                    i as nat,
                ),
                self@.label_cnt == s2.label_cnt,
                old(self)@.keeps_output(self@),
                s2.keeps_output(self@),
                self@.loop_labels == s2.loop_labels,
                self@.tmp_cnt == s2.tmp_cnt,
                self@.const_cnt == s2.const_cnt,
            decreases params.len() - i,
        {
            let mut pslot = concat3("__p_", name.as_str(), "_");
            let digits = decimal_string(i as u64);
            pslot.append(digits.as_str());
            bind_label(&mut self.locals, params[i].clone(), pslot.clone());
            self.emit_data_decl(pslot.as_str(), 0);
            i = i + 1;
        }
        // Body.
        match self.compile_stmt(&f.statement) {
            Err(err) => {
                return Err(err);
            },
            Ok(()) => {},
        }
        // Canonical return point.
        let ghost ret = ret_lbl@;
        self.set_label(ret_lbl);
        self.emit2("IJP ", fn_lbl.as_str());
        proof {
            reveal_strlit(">");
            reveal_strlit(" ");
            reveal_strlit("IJP ");
            reveal_strlit("__fn_");
            reveal_strlit("_ret");
            reveal_strlit(">__fn_");
            reveal_strlit("_ret IJP __fn_");
            assert(">"@ + ret + " "@ + ("IJP "@ + fn_lbl@) =~= return_line(name@));
        }
        self.locals = saved_locals;
        self.current_fn = saved_fn;
        Ok(())
    }

    // ── top level ─────────────────────────────────────────────────────────

    /// Compile a translation unit: function signatures first (so that calls
    /// may precede definitions), then global names and their DATA words,
    /// then the function bodies.
    pub fn compile_unit(&mut self, unit: &TranslationUnit) -> (r: Result<(), CompileError>)
        requires
            old(self)@.room(unit_budget(*unit)),
        ensures
            (final(self)@, outcome_of(r)) == old(self)@.unit(*unit),
            old(self)@.counted_within(final(self)@, unit_budget(*unit)),
            old(self)@.keeps_output(final(self)@),
    {
        let exts = &unit.0;
        // Pass 1: collect all function signatures.
        let ghost goal1 = self@.signatures(*unit, 0);
        let mut i: usize = 0;
        while i < exts.len()
            invariant
                i <= exts@.len(),
                *exts == unit.0,
                goal1 == self@.signatures(*unit, i as nat),
                goal1 == old(self)@.signatures(*unit, 0),
                old(self)@.keeps_output(self@),
                self@.label_cnt == old(self)@.label_cnt,
                self@.tmp_cnt == old(self)@.tmp_cnt,
                self@.const_cnt == old(self)@.const_cnt,
            decreases exts.len() - i,
        {
            if let TopLevel::FunctionDefinition(fdef) = &exts[i] {
                let name = match extract_decl_name(&fdef.declarator) {
                    Ok(n) => n,
                    Err(err) => {
                        return Err(err);
                    },
                };
                let params = extract_params(&fdef.declarator);
                bind_arity(&mut self.functions, name, params.len());
            }
            i = i + 1;
        }
        // Pass 2: register global variable names (no code yet).
        let ghost goal2 = self@.global_names(*unit, 0);
        assert(old(self)@.unit(*unit) == (if goal2.1 is Err {
            goal2
        } else {
            goal2.0.globals_data(goal2.0.globals, 0).function_bodies(*unit, 0)
        }));
        let mut i: usize = 0;
        while i < exts.len()
            invariant
                i <= exts@.len(),
                *exts == unit.0,
                goal2 == self@.global_names(*unit, i as nat),
                old(self)@.unit(*unit) == (if goal2.1 is Err {
                    goal2
                } else {
                    goal2.0.globals_data(goal2.0.globals, 0).function_bodies(*unit, 0)
                }),
                old(self)@.keeps_output(self@),
                self@.label_cnt == old(self)@.label_cnt,
                self@.tmp_cnt == old(self)@.tmp_cnt,
                self@.const_cnt == old(self)@.const_cnt,
            decreases exts.len() - i,
        {
            if let TopLevel::Declaration(decl) = &exts[i] {
                let ghost inner_goal = self@.global_declarators(*decl, 0);
                assert(goal2 == (if inner_goal.1 is Err {
                    inner_goal
                } else {
                    inner_goal.0.global_names(*unit, (i + 1) as nat)
                }));
                match self.register_globals(decl) {
                    Err(err) => {
                        return Err(err);
                    },
                    Ok(()) => {},
                }
            }
            i = i + 1;
        }
        // Pass 3: emit the global variables' DATA words.
        let ghost globals = self@.globals;
        let ghost goal3 = self@.globals_data(globals, 0);
        let mut i: usize = 0;
        while i < self.globals.len()
            invariant
                i <= self.globals@.len(),
                globals == bindings_view(self.globals@),
                goal3 == self@.globals_data(globals, i as nat),
                old(self)@.keeps_output(self@),
                self@.label_cnt == old(self)@.label_cnt,
                self@.tmp_cnt == old(self)@.tmp_cnt,
                self@.const_cnt == old(self)@.const_cnt,
            decreases self.globals.len() - i,
        {
            let lbl = self.globals[i].1.clone();
            self.emit_data_decl(lbl.as_str(), 0);
            i = i + 1;
        }
        // Pass 4: compile the function bodies.
        let ghost start4 = self@;
        let ghost goal4 = self@.function_bodies(*unit, 0);
        proof {
            assert(exts@.take(0) =~= Seq::<TopLevel>::empty());
        }
        let mut i: usize = 0;
        while i < exts.len()
            invariant
                i <= exts@.len(),
                *exts == unit.0,
                goal4 == self@.function_bodies(*unit, i as nat),
                goal4 == old(self)@.unit(*unit),
                start4.room(unit_budget(*unit)),
                start4.counted_within(self@, 4 * bodies_size(exts@.take(i as int))),
                start4.keeps_output(self@),
                start4.label_cnt == old(self)@.label_cnt,
                start4.tmp_cnt == old(self)@.tmp_cnt,
                start4.const_cnt == old(self)@.const_cnt,
                old(self)@.keeps_output(start4),
            decreases exts.len() - i,
        {
            proof {
                lemma_bodies_size_prefix(exts@, i as int);
            }
            if let TopLevel::FunctionDefinition(fdef) = &exts[i] {
                match self.compile_function(fdef) {
                    Err(err) => {
                        return Err(err);
                    },
                    Ok(()) => {},
                }
            }
            i = i + 1;
        }
        proof {
            assert(exts@.take(i as int) =~= exts@);
        }
        Ok(())
    }

    fn register_globals(&mut self, decl: &Decl) -> (r: Result<(), CompileError>)
        ensures
            (final(self)@, outcome_of(r)) == old(self)@.global_declarators(*decl, 0),
            old(self)@.keeps_output(final(self)@),
            final(self)@.label_cnt == old(self)@.label_cnt,
            final(self)@.tmp_cnt == old(self)@.tmp_cnt,
            final(self)@.const_cnt == old(self)@.const_cnt,
    {
        let ghost goal = self@.global_declarators(*decl, 0);
        let mut j: usize = 0;
        while j < decl.declarators.len()
            invariant
                j <= decl.declarators@.len(),
                goal == self@.global_declarators(*decl, j as nat),
                goal == old(self)@.global_declarators(*decl, 0),
                old(self)@.keeps_output(self@),
                self@.label_cnt == old(self)@.label_cnt,
                self@.tmp_cnt == old(self)@.tmp_cnt,
                self@.const_cnt == old(self)@.const_cnt,
            decreases decl.declarators.len() - j,
        {
            let name = match extract_decl_name(&decl.declarators[j].declarator) {
                Ok(n) => n,
                Err(err) => {
                    return Err(err);
                },
            };
            let l = concat("__g_", name.as_str());
            bind_label(&mut self.globals, name, l);
            j = j + 1;
        }
        Ok(())
    }

    // ── final output ──────────────────────────────────────────────────────

    /// The complete assembly text.
    pub fn finish(self) -> (r: String)
        ensures
            r@ == self@.output(),
    {
        let mut code = self.code;
        let ghost code0 = strings_view(code@);
        match self.pending_label {
            Some(lbl) => {
                code.push(concat3(">", lbl.as_str(), " DATA 0"));
                assert(strings_view(code@) =~= code0.push(">"@ + lbl@ + " DATA 0"@));
            },
            None => {},
        }
        let mut out = String::from_str("ORG &O");
        let org = zero_padded_string(octal_string(PROG_ORG as u64), 6);
        out.append(org.as_str());
        out.append("\n");
        out.append("SADD __start\n\n");
        // Runtime entry point: the initial stack pointer does not fit
        // ENTALK's immediate, so it is loaded from a DATA word.
        out.append(">__start ENTAL __spinit\n");
        out.append("STRAL __sp\n");
        out.append("RJP __fn_main\n");
        out.append("STOP 1\n\n");
        // I/O buffers (used by the built-in putchar and getchar).
        out.append(">__outwd DATA 0\n");
        out.append(">__inwd DATA 0\n");
        // Runtime constants.
        out.append(">__zero DATA 0\n");
        out.append(">__sp DATA 0\n");
        out.append(">__spinit DATA ");
        let stack = decimal_string(to_univac_ones_complement(STACK_INIT as i64) as u64);
        out.append(stack.as_str());
        out.append("\n\n");
        assert(out@ == prologue());
        // User code.
        let ghost lines = strings_view(code@);
        let ghost base = out@;
        proof {
            assert(lines.take(0) =~= Seq::<Seq<char>>::empty());
        }
        let mut i: usize = 0;
        while i < code.len()
            invariant
                i <= code@.len(),
                lines == strings_view(code@),
                out@ == base + joined_lines(lines.take(i as int)),
            decreases code.len() - i,
        {
            out.append(code[i].as_str());
            out.append("\n");
            proof {
                assert(lines.take(i + 1).drop_last() =~= lines.take(i as int));
            }
            i = i + 1;
        }
        proof {
            assert(lines.take(i as int) =~= lines);
        }
        // Static data (globals, locals, temporaries, constants).
        out.append("\n");
        let ghost dlines = strings_view(self.data@);
        let ghost base2 = out@;
        proof {
            assert(dlines.take(0) =~= Seq::<Seq<char>>::empty());
        }
        let mut i: usize = 0;
        while i < self.data.len()
            invariant
                i <= self.data@.len(),
                dlines == strings_view(self.data@),
                out@ == base2 + joined_lines(dlines.take(i as int)),
            decreases self.data.len() - i,
        {
            out.append(self.data[i].as_str());
            out.append("\n");
            proof {
                assert(dlines.take(i + 1).drop_last() =~= dlines.take(i as int));
            }
            i = i + 1;
        }
        proof {
            assert(dlines.take(i as int) =~= dlines);
        }
        out.append("\nEND\n");
        out
    }
}

} // verus!
