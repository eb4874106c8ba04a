use vstd::prelude::*;

use crate::errors::ExecError;
use crate::operators::python::PythonOperator;
use crate::operators::rust::RustOperator;
use crate::operators::shell::ShellOperator;

verus! {

/// An execution backend with its configuration.
#[derive(PartialEq, Eq, Debug)]
pub enum Operator {
    RustOp(RustOperator),
    PythonOp(PythonOperator),
    ShellOp(ShellOperator),
}

impl Operator {
    /// Dispatch to the matched backend. Every backend here refuses: the stub
    /// backends are not implemented, and the shell backend's real runner is
    /// I/O that the embedding program provides.
    pub fn execute(&self) -> (r: Result<(), ExecError>)
        ensures
            r is Err,
    {
        match self {
            Operator::PythonOp(inner) => {
                inner.execute()?
            },
            Operator::RustOp(inner) => {
                inner.execute()?
            },
            Operator::ShellOp(inner) => {
                inner.execute()?
            },
        }
        Ok(())
    }
}

/// The contract every execution backend implements; doing nothing counts as
/// success.
pub trait OperatorT {
    fn execute(&self) -> Result<(), ExecError> {
        Ok(())
    }
}

} // verus!
