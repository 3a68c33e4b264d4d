//! The status codes that the server answers with.

use vstd::prelude::*;

verus! {

/// The request was served.
pub const STATUS_OK: u16 = 200;

/// A launch was decided; its outcome is not waited for.
pub const STATUS_ACCEPTED: u16 = 202;

/// The request asks for a path outside what may be served.
pub const STATUS_BAD_REQUEST: u16 = 400;

/// What the request asks for is not there.
pub const STATUS_NOT_FOUND: u16 = 404;

} // verus!
