//! Decoding of the GZIP container envelope (RFC 1952): the header with its
//! optional fields, the extra-field sub-records and the footer. The
//! compressed payload is handed back as opaque bytes.
//!
//! A stream is assumed to hold a single member that runs until the end of
//! the input.

pub mod decode;
pub mod lemmas;
pub mod types;

use vstd::prelude::*;

verus! {

} // verus!
