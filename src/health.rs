use vstd::prelude::*;
use vstd::string::*;

verus! {

/// The liveness answer: a status code and a word.
#[derive(Debug, Clone)]
pub struct Status {
    pub status: i8,
    pub description: String,
}

/// The liveness answer of a running process: status 0, `running`.
pub fn health() -> (r: Status)
    ensures
        r.status == 0,
        r.description@ == "running"@,
{
    Status { status: 0, description: String::from_str("running") }
}

} // verus!
