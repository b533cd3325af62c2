//! The VibiClaw agent language: lexer, parser and compiler.

pub mod lexer;
pub mod parser;
pub mod compiler;
pub mod runtime;

use vstd::prelude::*;
use crate::types::{Command, all_fresh_for};
use self::lexer::lex;
use self::parser::program_requests;

verus! {

/// Compiles VibiClaw source text into pending commands, one per request of
/// its jobs, in order; or fails with the parser's message.
pub fn compile(source: &str) -> (r: Result<Vec<Command>, Vec<String>>)
    ensures
        match program_requests(lex(source@)) {
            Ok(reqs) => r matches Ok(cmds) && all_fresh_for(cmds@, reqs),
            Err(msg) => r matches Err(e) && e.deep_view() == seq![msg],
        },
{
    let tokens = lexer::tokenize(source)?;
    let ast = parser::parse(tokens)?;
    let commands = compiler::compile(ast)?;
    Ok(commands)
}

} // verus!
