pub mod ast;
pub mod compiler;
pub mod error;
pub mod imports;
pub mod lexer;
pub mod parser;
pub mod text;
pub mod types;

pub use compiler::Program;
pub use error::{CompileError, CompileErrors};

use vstd::prelude::*;
use crate::compiler::codegen::functions_fit;

verus! {

/// Compiles source text to a program: lexing, parsing, type checking and
/// code generation, each stage's failure given as its one-line message.
pub fn compile(source: &str) -> (r: Result<Program, String>)
    ensures
        r matches Ok(p) ==> {
            &&& p.entry_point < p.functions@.len()
            &&& p.functions@[p.entry_point as int].name@ == "main"@
            &&& functions_fit(p.functions@, p.strings@.len() as nat)
        },
{
    if source.unicode_len() == usize::MAX {
        return Err("source file too large".to_string());
    }
    let tokens = match lexer::lex(source) {
        Ok(t) => t,
        Err(e) => {
            return Err(e.short_form());
        },
    };
    if tokens.len() == usize::MAX {
        return Err("source file too large".to_string());
    }
    let ast = match parser::parse(tokens) {
        Ok(a) => a,
        Err(e) => {
            return Err(e.short_form());
        },
    };
    let checked = match types::check(&ast) {
        Ok(c) => c,
        Err(es) => {
            return Err(es.short_form());
        },
    };
    compiler::compile(&checked)
}

} // verus!
