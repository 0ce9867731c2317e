//! Shared data types: credentials, records, and the error taxonomy.

use vstd::prelude::*;

verus! {

/// Login credentials together with the reporting period (a year).
pub struct Credentials {
    pub csl: String,
    pub hsl: String,
    pub year: String,
}

impl Credentials {
    pub fn new(csl: String, hsl: String, year: String) -> (r: Self)
        ensures
            r.csl == csl,
            r.hsl == hsl,
            r.year == year,
    {
        Self { csl, hsl, year }
    }
}

/// Everything that can go wrong in one poll cycle.
#[derive(Clone, Copy, Debug, PartialEq, Eq, Structural)]
pub enum Error {
    /// The login call could not be sent, came back with a non-redirect
    /// status, or carried no session header.
    AuthError,
    /// A data request could not be sent or its body could not be read.
    TransportError,
    /// A data request came back with the given non-success status.
    ServerError(u16),
    /// The data body stayed empty through the whole retry budget.
    MaxRetriesExceeded,
    /// The output file could not be opened or written.
    IOError,
}

impl Error {
    /// Request-class failures are eligible for the orchestrator's outer
    /// retry; an output-file failure is not.
    pub open spec fn is_request_class(self) -> bool {
        self != Error::IOError
    }
}

/// One parsed data record: a line-position or fixed index code, and a value.
#[derive(Clone, Debug, PartialEq, Eq)]
pub struct Record {
    pub index: Vec<u8>,
    pub value: Vec<u8>,
}

impl View for Record {
    type V = (Seq<u8>, Seq<u8>);

    open spec fn view(&self) -> (Seq<u8>, Seq<u8>) {
        (self.index@, self.value@)
    }
}

/// The mathematical content of a sequence of records.
pub open spec fn records_model(rs: Seq<Record>) -> Seq<(Seq<u8>, Seq<u8>)> {
    rs.map_values(|r: Record| r@)
}

} // verus!
