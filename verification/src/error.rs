//! The failures of the components, gathered into one type at the boundary.

use crate::fdb::Error as FdbError;
use crate::monitor::Error as MonitorError;
use vstd::prelude::*;
use vstd::std_specs::convert::FromSpecImpl;

verus! {

/// What can go wrong anywhere in the system.
#[derive(Debug)]
pub enum Error {
    /// Input or output failed outside the two components; the text is the
    /// operating system's report.
    IO(String),
    /// The index store failed.
    DB(FdbError),
    /// The watch source failed.
    Monitor(MonitorError),
}

impl From<FdbError> for Error {
    fn from(e: FdbError) -> (r: Error) {
        Error::DB(e)
    }
}

impl FromSpecImpl<FdbError> for Error {
    open spec fn obeys_from_spec() -> bool {
        true
    }

    open spec fn from_spec(e: FdbError) -> Error {
        Error::DB(e)
    }
}

impl From<MonitorError> for Error {
    fn from(e: MonitorError) -> (r: Error) {
        Error::Monitor(e)
    }
}

impl FromSpecImpl<MonitorError> for Error {
    open spec fn obeys_from_spec() -> bool {
        true
    }

    open spec fn from_spec(e: MonitorError) -> Error {
        Error::Monitor(e)
    }
}

} // verus!
