//! Errors the compiler reports.

use vstd::prelude::*;
use crate::text::{concat, signed_decimal, signed_decimal_string};

verus! {

/// Why a compilation failed.
#[derive(Debug)]
pub enum CompileError {
    Parse(String),
    Unsupported(String),
    UndefinedVar(String),
    UndefinedFunc(String),
    TypeError(String),
    ConstantOutOfRange(i64),
}

/// The mathematical model of a [`CompileError`]: the same variants, with
/// the texts as character sequences.
pub enum Fault {
    Parse(Seq<char>),
    Unsupported(Seq<char>),
    UndefinedVar(Seq<char>),
    UndefinedFunc(Seq<char>),
    TypeError(Seq<char>),
    ConstantOutOfRange(int),
}

impl View for CompileError {
    type V = Fault;

    open spec fn view(&self) -> Fault {
        match self {
            CompileError::Parse(s) => Fault::Parse(s@),
            CompileError::Unsupported(s) => Fault::Unsupported(s@),
            CompileError::UndefinedVar(s) => Fault::UndefinedVar(s@),
            CompileError::UndefinedFunc(s) => Fault::UndefinedFunc(s@),
            CompileError::TypeError(s) => Fault::TypeError(s@),
            CompileError::ConstantOutOfRange(v) => Fault::ConstantOutOfRange(*v as int),
        }
    }
}

/// The human-readable description of a fault.
pub open spec fn fault_message(f: Fault) -> Seq<char> {
    match f {
        Fault::Parse(s) => "Parse error: "@ + s,
        Fault::Unsupported(s) => "Unsupported C feature: "@ + s,
        Fault::UndefinedVar(s) => "Undefined variable: "@ + s,
        Fault::UndefinedFunc(s) => "Undefined function: "@ + s,
        Fault::TypeError(s) => "Type error: "@ + s,
        Fault::ConstantOutOfRange(v) => "Integer constant out of 18-bit UNIVAC range: "@
            + signed_decimal(v),
    }
}

impl CompileError {
    /// The human-readable description of this error.
    pub fn message(&self) -> (r: String)
        ensures
            r@ == fault_message(self@),
    {
        match self {
            CompileError::Parse(s) => concat("Parse error: ", s.as_str()),
            CompileError::Unsupported(s) => concat("Unsupported C feature: ", s.as_str()),
            CompileError::UndefinedVar(s) => concat("Undefined variable: ", s.as_str()),
            CompileError::UndefinedFunc(s) => concat("Undefined function: ", s.as_str()),
            CompileError::TypeError(s) => concat("Type error: ", s.as_str()),
            CompileError::ConstantOutOfRange(v) => {
                let n = signed_decimal_string(*v);
                concat("Integer constant out of 18-bit UNIVAC range: ", n.as_str())
            },
        }
    }
}

} // verus!

verus! {

/// The model of the outcome of a generation step.
pub open spec fn outcome_of(r: Result<(), CompileError>) -> Result<(), Fault> {
    match r {
        Ok(()) => Ok(()),
        Err(e) => Err(e@),
    }
}

} // verus!
