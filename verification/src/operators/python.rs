use vstd::prelude::*;
use vstd::string::StringExecFns;

use crate::errors::ExecError;
use crate::operators::operator::OperatorT;

verus! {

/// Placeholder backend for running a piece of source code through an
/// interpreter; not implemented.
#[derive(PartialEq, Debug, Eq)]
pub struct PythonOperator {
    pub code: String,
}

impl OperatorT for PythonOperator {
    fn execute(&self) -> (r: Result<(), ExecError>)
        ensures
            r matches Result::Err(e) && e.message@ == "Not implemented"@,
    {
        Err(ExecError { message: "Not implemented".to_owned() })
    }
}

} // verus!
