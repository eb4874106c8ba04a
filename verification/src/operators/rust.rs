use vstd::prelude::*;
use vstd::string::StringExecFns;

use crate::errors::ExecError;
use crate::operators::operator::OperatorT;

verus! {

/// Placeholder backend for compiling and executing source code; not
/// implemented.
#[derive(PartialEq, Debug, Eq)]
pub struct RustOperator {}

impl OperatorT for RustOperator {
    fn execute(&self) -> (r: Result<(), ExecError>)
        ensures
            r matches Result::Err(e) && e.message@ == "Not implemented"@,
    {
        Err(ExecError { message: "Not implemented".to_owned() })
    }
}

} // verus!
