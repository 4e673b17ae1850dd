//! What the pipeline reads of the toolchain, and the signing key.

use vstd::prelude::*;

verus! {

/// The toolchain, as far as the pipeline looks into it. Finding the tools on
/// disk is the caller's part.
#[derive(Debug, Clone, Copy, PartialEq, Eq)]
pub struct Ndk {
    /// The platform version to build for when the manifest names none.
    pub default_target_platform: u32,
}

/// A keystore and the password that opens it.
#[derive(Debug, Clone, PartialEq, Eq)]
pub struct Key {
    pub path: String,
    pub password: String,
}

} // verus!
