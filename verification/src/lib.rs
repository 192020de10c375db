//! A compiler from a small subset of C to UNIVAC 1219 assembly text.
//!
//! `lang_c` parses the source; the code generator walks the syntax tree and
//! emits assembly for static, non-recursive code: every variable, parameter
//! and temporary lives in a static word of one ORG block, arguments travel
//! in per-function parameter slots, and results are left in AL.

pub mod abi;
pub mod ast;
pub mod codegen;
pub mod constant;
pub mod emission;
pub mod error;
pub mod machine;
pub mod frontend;
pub mod model;
pub mod scheme;
pub mod size;
pub mod text;

use vstd::prelude::*;
use crate::ast::TranslationUnit;
use crate::codegen::Compiler;
use crate::error::{CompileError, Fault};
use crate::frontend::{c_translation_unit, default_dialect, parse_c_source, Dialect};
use crate::scheme::{compiled_program, unit_budget};
use crate::size::unit_size_capped;

verus! {

/// The model of the result of a whole compilation.
pub open spec fn program_outcome(r: Result<String, CompileError>) -> Result<Seq<char>, Fault> {
    match r {
        Ok(text) => Ok(text@),
        Err(e) => Err(e@),
    }
}

/// The fault reported for a program too large for the compiler's counters.
pub open spec fn too_large_fault() -> Fault {
    Fault::Unsupported("program too large to number its labels and temporaries"@)
}

/// Compile a parsed C translation unit to UNIVAC 1219 assembly text.
pub fn compile_translation_unit(unit: &TranslationUnit) -> (r: Result<String, CompileError>)
    requires
        unit_budget(*unit) <= usize::MAX,
    ensures
        program_outcome(r) == compiled_program(*unit),
{
    let mut compiler = Compiler::new();
    match compiler.compile_unit(unit) {
        Err(err) => {
            return Err(err);
        },
        Ok(()) => {},
    }
    Ok(compiler.finish())
}

/// What compiling `source` in `dialect` gives, where `r` is the result: a
/// parse error where `lang_c` finds a syntax error, and otherwise the
/// compiled program, or the fault for a program too large for the counters.
pub open spec fn compiles_as(source: Seq<char>, dialect: Dialect, r: Result<String, CompileError>) -> bool {
    match c_translation_unit(source, dialect) {
        None => r matches Err(CompileError::Parse(_)),
        Some(unit) => program_outcome(r) == (if unit_budget(unit) <= usize::MAX {
            compiled_program(unit)
        } else {
            Err(too_large_fault())
        }),
    }
}

/// Compile a C source string of the given dialect to UNIVAC 1219 assembly
/// text.
pub fn compile_source(source: &str, dialect: Dialect) -> (r: Result<String, CompileError>)
    ensures
        compiles_as(source@, dialect, r),
{
    let unit = match parse_c_source(source, dialect) {
        Ok(u) => u,
        Err(msg) => {
            return Err(CompileError::Parse(msg));
        },
    };
    if unit_size_capped(&unit) > usize::MAX / 4 {
        return Err(
            CompileError::Unsupported(
                String::from_str("program too large to number its labels and temporaries"),
            ),
        );
    }
    compile_translation_unit(&unit)
}

/// Compile a C source string to UNIVAC 1219 assembly text, in the dialect
/// `lang_c` takes by default on the target it was built for (GNU C11, or
/// Clang C11 on macOS).
///
/// The returned text is suitable for passing directly to the UNIVAC
/// assembler.
pub fn compile_to_asm(source: &str) -> (r: Result<String, CompileError>)
    ensures
        compiles_as(source@, Dialect::GnuC11, r) || compiles_as(source@, Dialect::ClangC11, r),
{
    let dialect = default_dialect();
    compile_source(source, dialect)
}

/// Compiling one source in one dialect twice gives the same outcome: the
/// same assembly text, or the same error.  The one exception is a syntax
/// error, reported as a parse error both times, whose text comes from
/// `lang_c`.
pub proof fn lemma_compilation_deterministic(
    source: Seq<char>,
    dialect: Dialect,
    r1: Result<String, CompileError>,
    r2: Result<String, CompileError>,
)
    requires
        compiles_as(source, dialect, r1),
        compiles_as(source, dialect, r2),
    ensures
        program_outcome(r1) == program_outcome(r2) || (r1 matches Err(CompileError::Parse(_))
            && r2 matches Err(CompileError::Parse(_))),
        c_translation_unit(source, dialect) is Some ==> program_outcome(r1) == program_outcome(r2),
{
}

} // verus!
