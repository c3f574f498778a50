//! An inline format-template compiler.
//!
//! The input is a mixed sequence of literal text fragments and opaque
//! expression fragments, each expression optionally carrying a name
//! binding (`name = expr`) and a format-specifier suffix (`:spec`). The
//! compiler turns that sequence into the canonical three-part form a
//! printf-style formatting primitive expects: a template string with
//! escaped literal braces and one placeholder per expression, an
//! ordered argument list aligned with the placeholders, and an ordered
//! list of name bindings to evaluate once before the formatting call.
//!
//! One entry point exists per rendering primitive; they differ only in
//! whether a leading sink expression is extracted and in whether a
//! binding's first occurrence is itself duplicated.

use vstd::prelude::*;

pub mod laws;
pub mod text;
pub mod tokens;
pub mod utils;

use crate::tokens::CompileError;
use crate::tokens::Token;
use crate::tokens::token_views;
use crate::utils::Compiled;
use crate::utils::CompiledModel;
use crate::utils::compile_statement_spec;
use crate::tokens::ErrorModel;
use crate::utils::make_format_string;

verus! {

/// Compiles for the plain string-building primitive.
pub fn format(tokens: &Vec<Token>) -> (r: Result<Compiled, CompileError>)
    ensures
        match r {
            Ok(c) => compile_statement_spec(token_views(tokens@), "format"@, false, false) == Ok::<
                CompiledModel,
                ErrorModel,
            >(c@),
            Err(e) => compile_statement_spec(token_views(tokens@), "format"@, false, false)
                == Err::<CompiledModel, ErrorModel>(e@),
        },
{
    make_format_string("format", tokens, false, false)
}

/// Compiles for the sink-writing primitive: the leading expression, if
/// any, becomes the sink.
pub fn write(tokens: &Vec<Token>) -> (r: Result<Compiled, CompileError>)
    ensures
        match r {
            Ok(c) => compile_statement_spec(token_views(tokens@), "write"@, true, false) == Ok::<
                CompiledModel,
                ErrorModel,
            >(c@),
            Err(e) => compile_statement_spec(token_views(tokens@), "write"@, true, false) == Err::<
                CompiledModel,
                ErrorModel,
            >(e@),
        },
{
    make_format_string("write", tokens, true, false)
}

/// Compiles for the line-terminated sink-writing primitive.
pub fn writeln(tokens: &Vec<Token>) -> (r: Result<Compiled, CompileError>)
    ensures
        match r {
            Ok(c) => compile_statement_spec(token_views(tokens@), "writeln"@, true, false) == Ok::<
                CompiledModel,
                ErrorModel,
            >(c@),
            Err(e) => compile_statement_spec(token_views(tokens@), "writeln"@, true, false)
                == Err::<CompiledModel, ErrorModel>(e@),
        },
{
    make_format_string("writeln", tokens, true, false)
}

/// Compiles for the standard-output printing primitive.
pub fn print(tokens: &Vec<Token>) -> (r: Result<Compiled, CompileError>)
    ensures
        match r {
            Ok(c) => compile_statement_spec(token_views(tokens@), "print"@, false, false) == Ok::<
                CompiledModel,
                ErrorModel,
            >(c@),
            Err(e) => compile_statement_spec(token_views(tokens@), "print"@, false, false)
                == Err::<CompiledModel, ErrorModel>(e@),
        },
{
    make_format_string("print", tokens, false, false)
}

/// Compiles for the line-terminated standard-output printing primitive.
pub fn println(tokens: &Vec<Token>) -> (r: Result<Compiled, CompileError>)
    ensures
        match r {
            Ok(c) => compile_statement_spec(token_views(tokens@), "println"@, false, false) == Ok::<
                CompiledModel,
                ErrorModel,
            >(c@),
            Err(e) => compile_statement_spec(token_views(tokens@), "println"@, false, false)
                == Err::<CompiledModel, ErrorModel>(e@),
        },
{
    make_format_string("println", tokens, false, false)
}

/// Compiles for the standard-error printing primitive.
pub fn eprint(tokens: &Vec<Token>) -> (r: Result<Compiled, CompileError>)
    ensures
        match r {
            Ok(c) => compile_statement_spec(token_views(tokens@), "eprint"@, false, false) == Ok::<
                CompiledModel,
                ErrorModel,
            >(c@),
            Err(e) => compile_statement_spec(token_views(tokens@), "eprint"@, false, false)
                == Err::<CompiledModel, ErrorModel>(e@),
        },
{
    make_format_string("eprint", tokens, false, false)
}

/// Compiles for the line-terminated standard-error printing primitive.
pub fn eprintln(tokens: &Vec<Token>) -> (r: Result<Compiled, CompileError>)
    ensures
        match r {
            Ok(c) => compile_statement_spec(token_views(tokens@), "eprintln"@, false, false)
                == Ok::<CompiledModel, ErrorModel>(c@),
            Err(e) => compile_statement_spec(token_views(tokens@), "eprintln"@, false, false)
                == Err::<CompiledModel, ErrorModel>(e@),
        },
{
    make_format_string("eprintln", tokens, false, false)
}

/// Compiles for the deferred-arguments primitive; a binding's first
/// occurrence is duplicated before storage, as reuses always are.
pub fn format_args(tokens: &Vec<Token>) -> (r: Result<Compiled, CompileError>)
    ensures
        match r {
            Ok(c) => compile_statement_spec(token_views(tokens@), "format_args"@, false, true)
                == Ok::<CompiledModel, ErrorModel>(c@),
            Err(e) => compile_statement_spec(token_views(tokens@), "format_args"@, false, true)
                == Err::<CompiledModel, ErrorModel>(e@),
        },
{
    make_format_string("format_args", tokens, false, true)
}

} // verus!
