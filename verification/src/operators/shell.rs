use vstd::prelude::*;
use vstd::string::StringExecFns;

use crate::errors::ExecError;
use crate::operators::operator::OperatorT;

verus! {

/// Configuration for running a command line through a shell.
#[derive(PartialEq, Debug, Eq)]
pub struct ShellOperator {
    pub shell: String,
    pub command: String,
}

impl OperatorT for ShellOperator {
    /// The verified core does not spawn subprocesses; the embedding program
    /// provides the real shell runner and hands the outcome back as a plain
    /// flag.
    fn execute(&self) -> (r: Result<(), ExecError>)
        ensures
            r matches Result::Err(e) && e.message@ == "shell execution is provided by the host"@,
    {
        Err(ExecError { message: "shell execution is provided by the host".to_owned() })
    }
}

impl ShellOperator {
    /// Build a shell backend configuration.
    pub fn new(shell: &str, command: &str) -> (op: Self)
        ensures
            op.shell@ == shell@,
            op.command@ == command@,
    {
        ShellOperator { shell: shell.to_owned(), command: command.to_owned() }
    }
}

} // verus!
