use vstd::prelude::*;
use super::parser::VibiProgram;
use crate::types::Command;

verus! {

/// Turns a parsed program into its commands; this stage never fails.
pub fn compile(program: VibiProgram) -> (r: Result<Vec<Command>, Vec<String>>)
    ensures
        r matches Ok(cmds) && cmds@ == program.commands@,
{
    Ok(program.commands)
}

} // verus!
