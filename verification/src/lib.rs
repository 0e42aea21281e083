//! Client-side logic for a line-delimited JSON control protocol used to
//! drive a smart light bulb: value parsers for the command-line light
//! descriptors, request framing with monotonically increasing request ids,
//! the bounded connect-retry policy, the one-shot resend-on-timeout policy,
//! and the command sequencing for the main and ambient lights.

use vstd::prelude::*;

pub mod dial;
pub mod parse;
pub mod plan;
pub mod session;
pub mod wire;

verus! {

/// TCP port on which the device accepts the control protocol.
pub const DEFAULT_PORT: u16 = 55443;

} // verus!
