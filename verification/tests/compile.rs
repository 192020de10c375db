use compiler::abi::{fits_entalk, to_univac_ones_complement};
use compiler::ast::{BinaryOp, Literal, Expr, Base, UnaryOp};
use compiler::codegen::Compiler;
use compiler::compile_to_asm;
use compiler::error::CompileError;

const PROLOGUE: &str = "ORG &O010000\nSADD __start\n\n>__start ENTAL __spinit\nSTRAL __sp\nRJP __fn_main\nSTOP 1\n\n>__outwd DATA 0\n>__inwd DATA 0\n>__zero DATA 0\n>__sp DATA 0\n>__spinit DATA 8191\n\n";

fn program(code: &[&str], data: &[&str]) -> String {
    let mut out = String::from(PROLOGUE);
    for line in code {
        out.push_str(line);
        out.push('\n');
    }
    out.push('\n');
    for line in data {
        out.push_str(line);
        out.push('\n');
    }
    out.push_str("\nEND\n");
    out
}

fn num(digits: &str) -> Expr {
    Expr::Literal(Literal::Integer(Base::Decimal, digits.to_string()))
}

fn compile_one(e: &Expr) -> (Result<(), CompileError>, String) {
    let mut c = Compiler::new();
    let r = c.compile_expr(e);
    (r, c.finish())
}

// ── the 18-bit number representation ─────────────────────────────────────

#[test]
fn ones_complement_of_non_negative_is_identity() {
    assert_eq!(to_univac_ones_complement(0), 0);
    assert_eq!(to_univac_ones_complement(5), 5);
    assert_eq!(to_univac_ones_complement(131_071), 131_071);
}

#[test]
fn ones_complement_of_negative_flips_all_bits() {
    assert_eq!(to_univac_ones_complement(-1), 0o777776);
    assert_eq!(to_univac_ones_complement(-10), 0o777765);
    assert_eq!(to_univac_ones_complement(-131_071), 0o400000);
}

#[test]
fn ones_complement_is_injective_on_samples() {
    let vals = [-131_071i64, -2, -1, 0, 1, 2, 131_071];
    for a in vals {
        for b in vals {
            if a != b {
                assert_ne!(to_univac_ones_complement(a), to_univac_ones_complement(b));
            }
        }
    }
}

#[test]
fn entalk_range_edges() {
    assert!(fits_entalk(2047));
    assert!(fits_entalk(-2047));
    assert!(fits_entalk(0));
    assert!(!fits_entalk(2048));
    assert!(!fits_entalk(-2048));
}

// ── loading constants ─────────────────────────────────────────────────────

#[test]
fn small_positive_constant_uses_entalk() {
    let (r, text) = compile_one(&num("42"));
    assert!(r.is_ok());
    assert_eq!(text, program(&["ENTALK 42"], &[]));
}

#[test]
fn small_negative_constant_uses_twelve_bit_ones_complement() {
    // -7 is written as the 12-bit one's complement 0o7777 - 7 = 0o7770.
    let (r, text) = compile_one(&num("-7"));
    assert!(r.is_ok());
    assert_eq!(text, program(&["ENTALK &O7770"], &[]));
}

#[test]
fn large_constant_goes_to_a_data_word() {
    let (r, text) = compile_one(&num("3000"));
    assert!(r.is_ok());
    assert_eq!(text, program(&["ENTAL __c0"], &[">__c0 DATA 3000"]));
    let (r, text) = compile_one(&num("-3000"));
    assert!(r.is_ok());
    assert_eq!(text, program(&["ENTAL __c0"], &[">__c0 DATA 259143"]));
}

#[test]
fn hexadecimal_and_character_constants() {
    let hex = Expr::Literal(Literal::Integer(Base::Hexadecimal, "FF".to_string()));
    let (r, text) = compile_one(&hex);
    assert!(r.is_ok());
    assert_eq!(text, program(&["ENTALK 255"], &[]));
    let ch = Expr::Literal(Literal::Character("'A'".to_string()));
    let (r, text) = compile_one(&ch);
    assert!(r.is_ok());
    assert_eq!(text, program(&["ENTALK 65"], &[]));
    let nl = Expr::Literal(Literal::Character("'\\n'".to_string()));
    let (r, text) = compile_one(&nl);
    assert!(r.is_ok());
    assert_eq!(text, program(&["ENTALK 10"], &[]));
}

#[test]
fn constant_out_of_range_is_refused() {
    let (r, _) = compile_one(&num("200000"));
    assert!(matches!(r, Err(CompileError::ConstantOutOfRange(200000))));
}

#[test]
fn bad_integer_literal_is_a_parse_error() {
    let bad = Expr::Literal(Literal::Integer(Base::Octal, "9".to_string()));
    let (r, _) = compile_one(&bad);
    match r {
        Err(CompileError::Parse(msg)) => {
            assert_eq!(msg, "bad integer literal: invalid digit found in string")
        }
        _ => panic!("expected a parse error"),
    }
    let huge = num("99999999999999999999");
    let (r, _) = compile_one(&huge);
    match r {
        Err(CompileError::Parse(msg)) => {
            assert_eq!(msg, "bad integer literal: number too large to fit in target type")
        }
        _ => panic!("expected a parse error"),
    }
}

#[test]
fn unknown_escape_and_float_are_unsupported() {
    let esc = Expr::Literal(Literal::Character("'\\q'".to_string()));
    let (r, _) = compile_one(&esc);
    match r {
        Err(CompileError::Unsupported(msg)) => assert_eq!(msg, "escape sequence \\q"),
        _ => panic!("expected unsupported"),
    }
    let (r, _) = compile_one(&Expr::Literal(Literal::Float));
    match r {
        Err(CompileError::Unsupported(msg)) => assert_eq!(msg, "floating-point constant"),
        _ => panic!("expected unsupported"),
    }
}

#[test]
fn undefined_variable_is_reported() {
    let (r, _) = compile_one(&Expr::Identifier("x".to_string()));
    match r {
        Err(CompileError::UndefinedVar(name)) => assert_eq!(name, "x"),
        _ => panic!("expected undefined variable"),
    }
}

#[test]
fn unsupported_operators_are_named() {
    let addr = Expr::UnaryOp(UnaryOp::Address, Box::new(num("1")));
    let (r, _) = compile_one(&addr);
    match r {
        Err(CompileError::Unsupported(msg)) => assert_eq!(msg, "unary op Address"),
        _ => panic!("expected unsupported"),
    }
    let idx = Expr::BinaryOp(BinaryOp::Index, Box::new(num("1")), Box::new(num("2")));
    let (r, _) = compile_one(&idx);
    match r {
        Err(CompileError::Unsupported(msg)) => assert_eq!(msg, "binary op Index"),
        _ => panic!("expected unsupported"),
    }
}

#[test]
fn fresh_labels_and_temporaries_count_up() {
    // (1 < 2) == (3 < 4): three comparisons, six temporaries, six labels.
    let lt = |a: &str, b: &str| {
        Expr::BinaryOp(BinaryOp::Less, Box::new(num(a)), Box::new(num(b)))
    };
    let e = Expr::BinaryOp(
        BinaryOp::Equals,
        Box::new(lt("1", "2")),
        Box::new(lt("3", "4")),
    );
    let (r, text) = compile_one(&e);
    assert!(r.is_ok());
    for label in ["__ct0", "__ce1", "__ct2", "__ce3", "__ct4", "__ce5"] {
        assert!(text.contains(&format!(">{label} ")), "missing {label}");
    }
    for t in ["__t0", "__t1", "__t2", "__t3", "__t4", "__t5"] {
        assert!(text.contains(&format!(">{t} DATA 0")), "missing {t}");
    }
}

// ── whole programs ────────────────────────────────────────────────────────

#[test]
fn return_constant_program() {
    let out = compile_to_asm("int main() { return 42; }").unwrap();
    assert_eq!(
        out,
        program(
            &[">__fn_main DATA 0", "ENTALK 42", "JP __fn_main_ret", ">__fn_main_ret IJP __fn_main"],
            &[],
        )
    );
}

#[test]
fn negation_program() {
    let out = compile_to_asm("int main() { int x; x = 10; return -x; }").unwrap();
    assert_eq!(
        out,
        program(
            &[
                ">__fn_main DATA 0",
                "ENTALK 10",
                "STRAL __l_main_x",
                "ENTAL __l_main_x",
                "CPAL",
                "JP __fn_main_ret",
                ">__fn_main_ret IJP __fn_main",
            ],
            &[">__l_main_x DATA 0"],
        )
    );
}

#[test]
fn less_than_swaps_operands_for_a_single_jump() {
    let out =
        compile_to_asm("int main() { int a; int b; a = 5; b = 3; return (a < b); }").unwrap();
    assert_eq!(
        out,
        program(
            &[
                ">__fn_main DATA 0",
                "ENTALK 5",
                "STRAL __l_main_a",
                "ENTALK 3",
                "STRAL __l_main_b",
                "ENTAL __l_main_a",
                "STRAL __t0",
                "ENTAL __l_main_b",
                "STRAL __t1",
                "ENTAL __t1",
                "CMAL __t0",
                "JPALP __ct0",
                "ENTALK 0",
                "JP __ce1",
                ">__ct0 ENTALK 1",
                ">__ce1 JP __fn_main_ret",
                ">__fn_main_ret IJP __fn_main",
            ],
            &[">__l_main_a DATA 0", ">__l_main_b DATA 0", ">__t0 DATA 0", ">__t1 DATA 0"],
        )
    );
}

#[test]
fn global_variable_program() {
    let out = compile_to_asm("int g; int main() { g = 99; return g; }").unwrap();
    assert_eq!(
        out,
        program(
            &[
                ">__fn_main DATA 0",
                "ENTALK 99",
                "STRAL __g_g",
                "ENTAL __g_g",
                "JP __fn_main_ret",
                ">__fn_main_ret IJP __fn_main",
            ],
            &[">__g_g DATA 0"],
        )
    );
}

#[test]
fn call_passes_arguments_in_parameter_slots() {
    let src = "int double_it(int n) { return n + n; } int main() { return double_it(21); }";
    let out = compile_to_asm(src).unwrap();
    assert_eq!(
        out,
        program(
            &[
                ">__fn_double_it DATA 0",
                "ENTAL __p_double_it_0",
                "STRAL __t0",
                "ENTAL __p_double_it_0",
                "ADDAL __t0",
                "JP __fn_double_it_ret",
                ">__fn_double_it_ret IJP __fn_double_it",
                ">__fn_main DATA 0",
                "ENTALK 21",
                "STRAL __p_double_it_0",
                "RJP __fn_double_it",
                "JP __fn_main_ret",
                ">__fn_main_ret IJP __fn_main",
            ],
            &[">__p_double_it_0 DATA 0", ">__t0 DATA 0"],
        )
    );
}

#[test]
fn if_else_program_anchors_adjacent_labels() {
    let src = "int main() { int x; x = 4; if (x == 4) { return 100; } else { return 200; } }";
    let out = compile_to_asm(src).unwrap();
    assert_eq!(
        out,
        program(
            &[
                ">__fn_main DATA 0",
                "ENTALK 4",
                "STRAL __l_main_x",
                "ENTAL __l_main_x",
                "STRAL __t0",
                "ENTALK 4",
                "STRAL __t1",
                "ENTAL __t0",
                "CMAL __t1",
                "JPALZ __ct2",
                "ENTALK 0",
                "JP __ce3",
                ">__ct2 ENTALK 1",
                ">__ce3 JPALZ __ife0",
                "ENTALK 100",
                "JP __fn_main_ret",
                "JP __ifd1",
                ">__ife0 ENTALK 200",
                "JP __fn_main_ret",
                ">__ifd1 DATA 0",
                ">__fn_main_ret IJP __fn_main",
            ],
            &[">__l_main_x DATA 0", ">__t0 DATA 0", ">__t1 DATA 0"],
        )
    );
}

#[test]
fn globals_are_declared_in_declaration_order() {
    let out = compile_to_asm("int b; int a; int main() { return 0; }").unwrap();
    assert!(out.contains("\n>__g_b DATA 0\n>__g_a DATA 0\n"));
}

#[test]
fn calls_may_precede_definitions() {
    let src = "int main() { return later(); } int later() { return 1; }";
    let out = compile_to_asm(src).unwrap();
    assert!(out.contains("RJP __fn_later\n"));
}

#[test]
fn putchar_and_getchar_are_builtin() {
    let out = compile_to_asm("int main() { putchar(65); return getchar(); }").unwrap();
    assert!(out.contains(
        "ENTALK 65\nSTRAL __outwd\nOUT 0\nDATA __outwd\nDATA __outwd\nSKPOIN 0\nJP LOK-1\n"
    ));
    assert!(out.contains(
        "SIL 0\nIN 0\nDATA __inwd\nDATA __inwd\nSKPIIN 0\nJP LOK-1\nENTAL __inwd\n"
    ));
}

#[test]
fn loops_use_break_and_continue_targets() {
    let src = "int main() { int i; i = 0; while (i < 10) { if (i == 5) { break; } i = i + 1; continue; } return i; }";
    let out = compile_to_asm(src).unwrap();
    // break jumps to the loop end, continue to the condition
    assert!(out.contains("JP __whe1\n"));
    assert!(out.contains("JP __whc0\n"));
    assert!(out.contains(">__whc0 ENTAL __l_main_i\n"));
}

#[test]
fn for_continue_jumps_to_the_step() {
    let src = "int main() { int i; for (i = 0; i < 3; i = i + 1) { continue; } return i; }";
    let out = compile_to_asm(src).unwrap();
    assert!(out.contains("JP __fors1\n"));
    assert!(out.contains(">__fors1 ENTAL __l_main_i\n"));
}

#[test]
fn modulo_reads_the_remainder_from_au() {
    let out = compile_to_asm("int main() { int x; x = 17; return x % 5; }").unwrap();
    assert!(out.contains("DIVA __t0\nSTRAU __t2\nENTAL __t2\n"));
    assert!(out.contains("JPALP __sep0\nJPALZ __sep0\nENTAU __c0\n"));
    assert!(out.contains(">__c0 DATA 262143\n"));
}

#[test]
fn shifts_take_constant_amounts() {
    let out = compile_to_asm("int main() { int x; x = 3; return x << 2; }").unwrap();
    assert!(out.contains("ENTAL __l_main_x\nLSHAL 2\n"));
    let r = compile_to_asm("int main() { int x; x = 3; return x >> x; }");
    match r {
        Err(CompileError::Unsupported(msg)) => {
            assert_eq!(msg, "variable shift amounts not yet supported")
        }
        _ => panic!("expected unsupported"),
    }
}

// ── errors ────────────────────────────────────────────────────────────────

#[test]
fn syntax_error_is_a_parse_error() {
    assert!(matches!(compile_to_asm("int main( { return 1; }"), Err(CompileError::Parse(_))));
}

#[test]
fn break_outside_loop_is_refused() {
    match compile_to_asm("int main() { break; }") {
        Err(CompileError::Unsupported(msg)) => assert_eq!(msg, "break outside loop"),
        _ => panic!("expected unsupported"),
    }
    match compile_to_asm("int main() { continue; }") {
        Err(CompileError::Unsupported(msg)) => assert_eq!(msg, "continue outside loop"),
        _ => panic!("expected unsupported"),
    }
}

#[test]
fn call_arity_is_checked() {
    match compile_to_asm("int f(int a) { return a; } int main() { return f(); }") {
        Err(CompileError::Unsupported(msg)) => assert_eq!(msg, "f: expected 1 args, got 0"),
        _ => panic!("expected unsupported"),
    }
    match compile_to_asm("int main() { return g(1); }") {
        Err(CompileError::UndefinedFunc(name)) => assert_eq!(name, "g"),
        _ => panic!("expected undefined function"),
    }
    match compile_to_asm("int main() { putchar(1, 2); return 0; }") {
        Err(CompileError::Unsupported(msg)) => assert_eq!(msg, "putchar needs 1 arg"),
        _ => panic!("expected unsupported"),
    }
}

#[test]
fn unsupported_forms_are_refused() {
    match compile_to_asm("int main() { int x; x = 1; x++; return x ? 1 : 2; }") {
        Err(CompileError::Unsupported(msg)) => assert_eq!(msg, "expression not yet supported"),
        _ => panic!("expected unsupported"),
    }
    match compile_to_asm("int main() { int x; (x + 1) = 2; return 0; }") {
        Err(CompileError::Unsupported(msg)) => assert_eq!(msg, "non-identifier lvalue"),
        _ => panic!("expected unsupported"),
    }
    match compile_to_asm("int main() { int a[2] = {1, 2}; return 0; }") {
        Err(CompileError::Unsupported(msg)) => assert_eq!(msg, "complex initializer"),
        _ => panic!("expected unsupported"),
    }
    match compile_to_asm("int main() { switch (1) { } return 0; }") {
        Err(CompileError::Unsupported(msg)) => assert_eq!(msg, "statement not yet supported"),
        _ => panic!("expected unsupported"),
    }
}

#[test]
fn error_messages() {
    assert_eq!(CompileError::Parse("p".to_string()).message(), "Parse error: p");
    assert_eq!(CompileError::Unsupported("u".to_string()).message(), "Unsupported C feature: u");
    assert_eq!(CompileError::UndefinedVar("v".to_string()).message(), "Undefined variable: v");
    assert_eq!(CompileError::UndefinedFunc("f".to_string()).message(), "Undefined function: f");
    assert_eq!(CompileError::TypeError("t".to_string()).message(), "Type error: t");
    assert_eq!(
        CompileError::ConstantOutOfRange(-200000).message(),
        "Integer constant out of 18-bit UNIVAC range: -200000"
    );
}
