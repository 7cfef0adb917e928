//! Asynchronous operations.

use vstd::prelude::*;
use crate::cli::OperationsCommand;
use crate::client::{ApiRequest, Method, RequestView, bare, call, seg_path, segment};

verus! {

/// The call an operations command makes.
pub open spec fn operations_plan(cmd: OperationsCommand) -> RequestView {
    match cmd {
        OperationsCommand::Get { id } => bare(Method::Get, "async-operations/"@ + segment(id@)),
    }
}

/// The call an operations command makes.
pub fn run(cmd: OperationsCommand) -> (r: ApiRequest)
    ensures
        r@ == operations_plan(cmd),
{
    match cmd {
        OperationsCommand::Get { id } => call(Method::Get, seg_path("async-operations/", id.as_str())),
    }
}

} // verus!
