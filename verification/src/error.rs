//! Compiler-side diagnostics. Schema errors are unrecoverable by design: the
//! library reports them as an error value carrying the pipeline stage, a
//! message and the source position, and the caller aborts compilation.

use vstd::prelude::*;

verus! {

/// The pipeline stage that detected the fault.
#[derive(Clone, Copy, Debug, PartialEq, Eq, Structural)]
pub enum ErrorType {
    Tokenizer,
    Parser,
    CodeGenerator,
}

impl ErrorType {
    /// Human-readable name of the stage.
    pub fn str(&self) -> (r: &str)
        ensures
            *self is Tokenizer ==> r@ == "Tokenizer"@,
            *self is Parser ==> r@ == "Parser"@,
            *self is CodeGenerator ==> r@ == "Code generator"@,
    {
        match self {
            ErrorType::Tokenizer => "Tokenizer",
            ErrorType::Parser => "Parser",
            ErrorType::CodeGenerator => "Code generator",
        }
    }
}

/// A fatal compilation fault: stage, message, error code and source position.
#[derive(Clone, Debug)]
pub struct CompileError {
    pub ctx: ErrorType,
    pub msg: String,
    pub code: u32,
    pub row: u32,
    pub col: u32,
}

/// Ghost mirror of a `CompileError`.
pub struct CompileErrorV {
    pub ctx: ErrorType,
    pub msg: Seq<char>,
    pub code: u32,
    pub row: u32,
    pub col: u32,
}

impl View for CompileError {
    type V = CompileErrorV;

    open spec fn view(&self) -> CompileErrorV {
        CompileErrorV {
            ctx: self.ctx,
            msg: self.msg@,
            code: self.code,
            row: self.row,
            col: self.col,
        }
    }
}

/// Build the error value for a fault found at `row`/`col`.
pub fn error(ctx: ErrorType, msg: &str, code: u32, row: u32, col: u32) -> (e: CompileError)
    ensures
        e@ == (CompileErrorV { ctx, msg: msg@, code, row, col }),
{
    CompileError { ctx, msg: msg.to_owned(), code, row, col }
}

} // verus!
