//! Device fingerprinting: collects raw hardware identifier text (MAC
//! addresses, disk serial numbers), joins the two strings with a colon, and
//! hashes the result with SHA-256 into a 64-character lowercase hex
//! fingerprint.
//!
//! The library holds the pure parts: line filtering of utility output, hex
//! encoding of the digest, and the orchestration policy that substitutes
//! placeholder tokens when a collection step failed. Spawning the platform
//! utilities is left to the surrounding application.

use vstd::prelude::*;

pub mod device;
pub mod digest;
pub mod hex;
pub mod lines;
mod text;

use vstd::string::StringExecFns;

verus! {

/// The greeting returned to the presentation layer for a caller's name.
pub fn greet(name: &str) -> (r: String)
    ensures
        r@ == "Hello, "@ + name@ + "! You've been greeted from Rust!"@,
{
    let mut r = "Hello, ".to_owned();
    r.append(name);
    r.append("! You've been greeted from Rust!");
    r
}

} // verus!
