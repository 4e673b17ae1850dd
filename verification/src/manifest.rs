//! What the pipeline reads of an application's manifest.

use vstd::prelude::*;

verus! {

/// The platform versions an application declares.
#[derive(Debug, Clone, PartialEq, Eq)]
pub struct Sdk {
    /// The platform version the application is built for, if it names one.
    pub target_sdk_version: Option<u32>,
}

/// The manifest of an application, as far as the pipeline looks into it.
/// Writing it out as XML is the caller's part.
#[derive(Debug, Clone, PartialEq, Eq)]
pub struct AndroidManifest {
    /// The name that identifies the application on a device.
    pub package: String,
    pub sdk: Sdk,
}

} // verus!
