//! Execution engine of a lighting/output controller.
//!
//! The engine drives a universe of output channels by running small
//! user-authored programs on a fixed-rate tick loop. Fixtures group output
//! addresses and own a list of programs, one of which is active; programs
//! compute output values, the scheduler batches them into set-requests, and
//! an ingester keeps a local view of the universe in step with upstream
//! events. Script-backed programs exchange data with an embedded script host
//! through plain values: the engine hands the host a plan (events to deliver,
//! parameter bindings, whether to call the tick function) and takes the
//! host's outcome back.

pub mod error;
pub mod event;
pub mod fixture;
pub mod ingest;
pub mod metadata;
pub mod parameters;
pub mod programs;
pub mod runtime;
pub mod store;
pub mod universe;
pub mod values;

use vstd::prelude::*;

use crate::error::Error;

verus! {

/// Engine version; program and fixture sources must declare the same value.
pub const VERSION: u16 = 3;

/// Accepts a source only if it declares the engine's version.
pub fn verify_source_version(source_version: u16) -> (r: Result<(), Error>)
    ensures
        source_version == VERSION <==> r is Ok,
        source_version != VERSION ==> r == Err::<(), Error>(Error::SourceVersionMismatch),
{
    if source_version == VERSION {
        Ok(())
    } else {
        Err(Error::SourceVersionMismatch)
    }
}

} // verus!
