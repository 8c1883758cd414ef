//! Gateway-wide error model: every failure crossing a component boundary
//! is flattened to a plain descriptive message.

use vstd::prelude::*;

verus! {

/// The gateway's uniform application error.
#[derive(Debug)]
pub enum GatewayError {
    Message(String),
}

impl GatewayError {
    /// The message the error carries.
    pub open spec fn spec_message(self) -> Seq<char> {
        match self {
            GatewayError::Message(s) => s@,
        }
    }

    /// The caller-safe text of the error.
    pub fn message(&self) -> (m: String)
        ensures
            m@ == self.spec_message(),
    {
        match self {
            GatewayError::Message(s) => s.clone(),
        }
    }
}

} // verus!
