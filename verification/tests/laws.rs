use compiler::abi::to_univac_ones_complement;
use compiler::ast::{Base, Expr, Literal};
use compiler::codegen::Compiler;
use compiler::frontend::Dialect;
use compiler::{compile_source, compile_to_asm};

fn number(digits: &str) -> Expr {
    Expr::Literal(Literal::Integer(Base::Decimal, digits.to_string()))
}

/// Reads an 18-bit one's complement word back as a signed integer.
fn word_value(w: u32) -> i64 {
    if w >= 0o400000 {
        w as i64 - 0o777777
    } else {
        w as i64
    }
}

#[test]
fn ones_complement_words_read_back() {
    for v in [-131_071i64, -2047, -10, -1, 0, 1, 10, 2047, 131_071] {
        assert_eq!(word_value(to_univac_ones_complement(v)), v);
    }
}

#[test]
fn entalk_immediate_sign_extends_to_the_data_word() {
    // ENTALK sign-extends its 12-bit immediate: &O7770 becomes 0o777770.
    let mut c = Compiler::new();
    assert!(c.compile_expr(&number("-7")).is_ok());
    let text = c.finish();
    assert!(text.contains("\nENTALK &O7770\n"));
    assert_eq!(0o7770 + 0o770000, to_univac_ones_complement(-7));
    let mut c = Compiler::new();
    assert!(c.compile_expr(&number("-2047")).is_ok());
    assert!(c.finish().contains("\nENTALK &O4000\n"));
    assert_eq!(0o4000 + 0o770000, to_univac_ones_complement(-2047));
}

#[test]
fn later_code_is_only_appended() {
    let mut c = Compiler::new();
    assert!(c.compile_expr(&number("5")).is_ok());
    assert!(c.compile_expr(&number("3000")).is_ok());
    assert!(c.compile_expr(&number("6")).is_ok());
    let text = c.finish();
    let a = text.find("ENTALK 5\n").unwrap();
    let b = text.find("ENTAL __c0\n").unwrap();
    let d = text.find("ENTALK 6\n").unwrap();
    assert!(a < b && b < d);
}

#[test]
fn every_program_is_framed_by_prologue_and_end() {
    for src in [
        "int main() { return 0; }",
        "int g; int f(int a) { return a; } int main() { g = f(3); return g; }",
    ] {
        let text = compile_to_asm(src).unwrap();
        assert!(text.starts_with("ORG &O010000\nSADD __start\n\n>__start ENTAL __spinit\n"));
        assert!(text.ends_with("\nEND\n"));
    }
}

#[test]
fn distinct_counters_give_distinct_labels() {
    // Six labels and temporaries drawn in turn from their counters.
    let mut c = Compiler::new();
    let lt = Expr::BinaryOp(
        compiler::ast::BinaryOp::Less,
        Box::new(number("1")),
        Box::new(number("2")),
    );
    assert!(c.compile_expr(&lt).is_ok());
    assert!(c.compile_expr(&lt).is_ok());
    let text = c.finish();
    for name in ["__ct0", "__ce1", "__ct2", "__ce3", "__t0", "__t1", "__t2", "__t3"] {
        assert_eq!(text.matches(&format!(">{name} ")).count(), 1, "{name}");
    }
}

#[test]
fn sample_programs_compile() {
    let sources = [
        "int main() { int x; x = 10; return -x; }",
        "int main() { int a; int b; a = 2; b = 7; return (a < b); }",
        "int main() { int i; int s; s = 0; for (i = 0; i < 5; i = i + 1) { s = s + i; } return s; }",
        "int main() { int a; int b; a = 0xFF; b = 0x0F; return a & b; }",
        "int main() { int a; int b; a = 0xF0; b = 0x0F; return a | b; }",
        "int main() { int a; int b; a = 0xFF; b = 0x0F; return a ^ b; }",
        "int main() { int x; x = 1; return ~x; }",
        "int main() { int x; x = 12; return x >> 2; }",
        "int main() { int a; int b; a = 5; b = 3; return (a > 0) && (b > 0); }",
        "int main() { int a; int b; a = 0; b = 3; return (a > 0) || (b > 0); }",
        "int main() { int x; x = 0; return !x; }",
        "int main() { int x; x = -7; return x; }",
        "int counter; int bump() { counter = counter + 1; return counter; } int main() { counter = 0; bump(); bump(); return bump(); }",
        "int main() { int i; int s; s = 0; for (i = 0; i < 10; i = i + 1) { if (i % 2 != 0) { continue; } s = s + i; } return s; }",
        "int main() { int i; i = 0; do { i = i + 1; } while (i < 5); return i; }",
        "int main() { int x; x = 100; return x / 4; }",
        "int main() { int x; x = 6; return x * 7; }",
    ];
    for src in sources {
        let text = compile_to_asm(src).unwrap_or_else(|e| panic!("{src}: {}", e.message()));
        assert!(text.contains("\n>__fn_main DATA 0\n"), "{src}");
        assert!(text.contains("\n>__fn_main_ret IJP __fn_main\n"), "{src}");
    }
}

#[test]
fn both_dialects_compile_plain_c_alike() {
    let src = "int twice(int n) { return n + n; } int main() { return twice(4); }";
    let gnu = compile_source(src, Dialect::GnuC11).unwrap();
    let clang = compile_source(src, Dialect::ClangC11).unwrap();
    assert_eq!(gnu, clang);
    assert_eq!(compile_to_asm(src).unwrap(), gnu);
    assert!(matches!(
        compile_source("int main( {", Dialect::GnuC11),
        Err(compiler::error::CompileError::Parse(_))
    ));
}

/// Every label a program uses as an operand begins exactly one line.
fn assert_labels_defined_once(text: &str) {
    let mut defined: Vec<&str> = Vec::new();
    let mut used: Vec<&str> = Vec::new();
    for line in text.lines() {
        let mut rest = line;
        if let Some(stripped) = line.strip_prefix('>') {
            let (label, tail) = stripped.split_once(' ').unwrap();
            defined.push(label);
            rest = tail;
        }
        let mut words = rest.split(' ');
        let op = words.next().unwrap_or("");
        if let Some(arg) = words.next() {
            if op != "ORG" && !arg.starts_with("&O") && arg.starts_with("__") {
                used.push(arg);
            }
        }
    }
    for u in used {
        assert_eq!(defined.iter().filter(|d| **d == u).count(), 1, "{u} in\n{text}");
    }
}

#[test]
fn operand_labels_are_defined_once_in_sample_programs() {
    let sources = [
        "int main() { int x; x = 17; return x % 5; }",
        "int main() { int i; int s; s = 0; for (i = 0; i < 10; i = i + 1) { if (i % 2 != 0) { continue; } s = s + i; } return s; }",
        "int main() { int i; i = 0; while (i < 10) { if (i == 5) { break; } i = i + 1; } do { i = i - 1; } while (i > 0); return i; }",
        "int counter; int bump(int by) { counter = counter + by; return counter; } int main() { counter = 0; bump(1); return bump(2) && !counter || 3000; }",
        "int main() { int x; x = -3000; x += 5; x *= 2; x /= 3; putchar(x); return getchar() >= x; }",
    ];
    for src in sources {
        assert_labels_defined_once(&compile_to_asm(src).unwrap());
    }
}
