use vstd::prelude::*;

verus! {

/// What went wrong, and in which part of the system.
#[derive(Debug)]
pub enum TachikomaError {
    /// A `tart` invocation failed.
    Tart(String),
    /// A virtual machine is missing, unreachable or in the way.
    Vm(String),
    /// The credential proxy could not be started.
    Proxy(String),
    /// Anything else.
    Other(String),
}

impl TachikomaError {
    /// The text that this error carries.
    pub open spec fn text(self) -> Seq<char> {
        match self {
            TachikomaError::Tart(m) => m@,
            TachikomaError::Vm(m) => m@,
            TachikomaError::Proxy(m) => m@,
            TachikomaError::Other(m) => m@,
        }
    }

    /// What the error says to a user.
    pub fn message(&self) -> (message: &str)
        ensures
            message@ == self.text(),
    {
        match self {
            TachikomaError::Tart(m) => m.as_str(),
            TachikomaError::Vm(m) => m.as_str(),
            TachikomaError::Proxy(m) => m.as_str(),
            TachikomaError::Other(m) => m.as_str(),
        }
    }
}

} // verus!
