use vstd::prelude::*;
use vstd::string::StringExecFns;

use crate::errors::ExecError;
use crate::operators::operator::OperatorT;

verus! {

/// Placeholder backend for running a statement over a database connection;
/// not implemented.
#[derive(PartialEq, Debug, Eq)]
pub struct SQLOperator {
    pub connection: (),
    pub sql: String,
}

impl OperatorT for SQLOperator {
    fn execute(&self) -> (r: Result<(), ExecError>)
        ensures
            r matches Result::Err(e) && e.message@ == "Not implemented"@,
    {
        Err(ExecError { message: "Not implemented".to_owned() })
    }
}

} // verus!
