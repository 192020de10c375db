//! The sample programs of the compiler's integration suite.  Running them
//! needs a UNIVAC 1219 emulator; here each is compiled, and the instructions
//! that carry the construct it exercises are checked in the output.

use compiler::compile_to_asm;

fn compiled(src: &str) -> String {
    match compile_to_asm(src) {
        Ok(text) => text,
        Err(e) => panic!("{src}: {}", e.message()),
    }
}

fn has(text: &str, fragment: &str) {
    assert!(text.contains(fragment), "missing {fragment:?} in\n{text}");
}

#[test]
fn test_inline_negation() {
    let out = compiled("int main() { int x; x = 10; return -x; }");
    has(&out, "ENTALK 10\nSTRAL __l_main_x\nENTAL __l_main_x\nCPAL\nJP __fn_main_ret\n");
}

#[test]
fn test_inline_comparison_lt_false() {
    let out = compiled("int main() { int a; int b; a = 5; b = 3; return (a < b); }");
    has(&out, "ENTALK 5\nSTRAL __l_main_a\nENTALK 3\nSTRAL __l_main_b\n");
    has(&out, "ENTAL __t1\nCMAL __t0\nJPALP __ct0\nENTALK 0\nJP __ce1\n>__ct0 ENTALK 1\n");
}

#[test]
fn test_inline_comparison_lt_true() {
    let out = compiled("int main() { int a; int b; a = 2; b = 7; return (a < b); }");
    has(&out, "ENTALK 2\nSTRAL __l_main_a\nENTALK 7\nSTRAL __l_main_b\n");
    has(&out, "ENTAL __t1\nCMAL __t0\nJPALP __ct0\nENTALK 0\nJP __ce1\n>__ct0 ENTALK 1\n");
}

#[test]
fn test_if_else() {
    let src = r#"
    int main() {
        int x;
        x = 4;
        if (x == 4) {
            return 100;
        } else {
            return 200;
        }
    }"#;
    let out = compiled(src);
    has(&out, ">__ce3 JPALZ __ife0\nENTALK 100\nJP __fn_main_ret\nJP __ifd1\n");
    has(&out, ">__ife0 ENTALK 200\nJP __fn_main_ret\n>__ifd1 DATA 0\n");
}

#[test]
fn test_for_loop() {
    let src = r#"
    int main() {
        int i;
        int s;
        s = 0;
        for (i = 0; i < 5; i = i + 1) {
            s = s + i;
        }
        return s;
    }"#;
    let out = compiled(src);
    has(&out, "ENTALK 0\nSTRAL __l_main_i\n>__forc0 ENTAL __l_main_i\n");
    has(&out, "JPALZ __fore2\n");
    has(&out, ">__fors1 ENTAL __l_main_i\n");
    has(&out, "JP __forc0\n>__fore2 ENTAL __l_main_s\n");
}

#[test]
fn test_nested_calls() {
    let src = r#"
    int double_it(int n) {
        return n + n;
    }
    int main() {
        return double_it(21);
    }"#;
    let out = compiled(src);
    has(&out, ">__fn_double_it DATA 0\nENTAL __p_double_it_0\nSTRAL __t0\n");
    has(&out, "ENTALK 21\nSTRAL __p_double_it_0\nRJP __fn_double_it\n");
}

#[test]
fn test_modulo() {
    let out = compiled("int main() { int x; x = 17; return x % 5; }");
    has(&out, "DIVA __t0\nSTRAU __t2\nENTAL __t2\n");
}

#[test]
fn test_bitwise_and() {
    let out = compiled("int main() { int a; int b; a = 0xFF; b = 0x0F; return a & b; }");
    has(&out, "ENTALK 255\nSTRAL __l_main_a\nENTALK 15\nSTRAL __l_main_b\n");
    has(&out, "ENTAL __l_main_a\nSTRAL __t0\nENTAL __l_main_b\nSLCL __t0\n");
}

#[test]
fn test_bitwise_or() {
    let out = compiled("int main() { int a; int b; a = 0xF0; b = 0x0F; return a | b; }");
    has(&out, "ENTALK 240\nSTRAL __l_main_a\n");
    has(&out, "ENTAL __l_main_a\nSTRAL __t0\nENTAL __l_main_b\nSLSET __t0\n");
}

#[test]
fn test_bitwise_xor() {
    let out = compiled("int main() { int a; int b; a = 0xFF; b = 0x0F; return a ^ b; }");
    has(&out, "ENTAL __l_main_a\nSTRAL __t0\nENTAL __l_main_b\nSLCP __t0\n");
}

#[test]
fn test_bitwise_not() {
    let out = compiled("int main() { int x; x = 1; return ~x; }");
    has(&out, "ENTALK 1\nSTRAL __l_main_x\nENTAL __l_main_x\nCPAL\n");
}

#[test]
fn test_left_shift() {
    let out = compiled("int main() { int x; x = 3; return x << 2; }");
    has(&out, "ENTAL __l_main_x\nLSHAL 2\n");
}

#[test]
fn test_right_shift() {
    let out = compiled("int main() { int x; x = 12; return x >> 2; }");
    has(&out, "ENTAL __l_main_x\nRSHAL 2\n");
}

#[test]
fn test_logical_and_true() {
    let out =
        compiled("int main() { int a; int b; a = 5; b = 3; return (a > 0) && (b > 0); }");
    has(&out, "JPALZ __land_f0\n");
    has(&out, "ENTALK 1\nJP __land_e1\n>__land_f0 ENTALK 0\n");
}

#[test]
fn test_logical_and_false() {
    let out =
        compiled("int main() { int a; int b; a = 5; b = 0; return (a > 0) && (b > 0); }");
    has(&out, "ENTALK 0\nSTRAL __l_main_b\n");
    has(&out, "ENTALK 1\nJP __land_e1\n>__land_f0 ENTALK 0\n");
}

#[test]
fn test_logical_or_true() {
    let out =
        compiled("int main() { int a; int b; a = 0; b = 3; return (a > 0) || (b > 0); }");
    has(&out, "JPALNZ __lor_t0\n");
    has(&out, "ENTALK 0\nJP __lor_e1\n>__lor_t0 ENTALK 1\n");
}

#[test]
fn test_logical_or_false() {
    let out =
        compiled("int main() { int a; int b; a = 0; b = 0; return (a > 0) || (b > 0); }");
    has(&out, "ENTALK 0\nSTRAL __l_main_a\nENTALK 0\nSTRAL __l_main_b\n");
    has(&out, "ENTALK 0\nJP __lor_e1\n>__lor_t0 ENTALK 1\n");
}

#[test]
fn test_logical_not() {
    let out = compiled("int main() { int x; x = 0; return !x; }");
    has(&out, "ENTAL __l_main_x\nJPALZ __lnot_t0\nENTALK 0\nJP __lnot_e1\n>__lnot_t0 ENTALK 1\n");
}

#[test]
fn test_negative_constant() {
    // In C, `-7` is unary minus applied to 7: one's complement negation.
    let out = compiled("int main() { int x; x = -7; return x; }");
    has(&out, "ENTALK 7\nCPAL\nSTRAL __l_main_x\n");
}

#[test]
fn test_global_var() {
    let src = r#"
    int g;
    int main() {
        g = 99;
        return g;
    }"#;
    let out = compiled(src);
    has(&out, "ENTALK 99\nSTRAL __g_g\nENTAL __g_g\n");
    has(&out, "\n>__g_g DATA 0\n");
}

#[test]
fn test_global_shared() {
    let src = r#"
    int counter;
    int bump() {
        counter = counter + 1;
        return counter;
    }
    int main() {
        counter = 0;
        bump();
        bump();
        return bump();
    }"#;
    let out = compiled(src);
    has(&out, ">__fn_bump DATA 0\nENTAL __g_counter\n");
    assert_eq!(out.matches("RJP __fn_bump\n").count(), 3);
    assert_eq!(out.matches(">__g_counter DATA 0\n").count(), 1);
}

#[test]
fn test_break_while() {
    let src = r#"
    int main() {
        int i;
        i = 0;
        while (i < 10) {
            if (i == 5) {
                break;
            }
            i = i + 1;
        }
        return i;
    }"#;
    let out = compiled(src);
    has(&out, ">__whc0 ENTAL __l_main_i\n");
    has(&out, "JPALZ __whe1\n");
    has(&out, "JP __whe1\n");
    has(&out, "JP __whc0\n>__whe1 ENTAL __l_main_i\n");
}

#[test]
fn test_continue_for() {
    let src = r#"
    int main() {
        int i;
        int s;
        s = 0;
        for (i = 0; i < 10; i = i + 1) {
            if (i % 2 != 0) {
                continue;
            }
            s = s + i;
        }
        return s;
    }"#;
    let out = compiled(src);
    has(&out, "JP __fors1\n");
    has(&out, ">__fors1 ENTAL __l_main_i\n");
    has(&out, "JP __forc0\n>__fore2 ENTAL __l_main_s\n");
}

#[test]
fn test_do_while() {
    let src = r#"
    int main() {
        int i;
        i = 0;
        do {
            i = i + 1;
        } while (i < 5);
        return i;
    }"#;
    let out = compiled(src);
    has(&out, ">__dot0 ENTAL __l_main_i\n");
    has(&out, ">__doc1 ENTAL __l_main_i\n");
    has(&out, "JPALNZ __dot0\n>__doe2 ENTAL __l_main_i\n");
}
