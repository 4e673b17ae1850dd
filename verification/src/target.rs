//! The CPU architectures a library can be built for.

use vstd::prelude::*;

verus! {

/// A CPU architecture. Each one has its own directory of libraries inside the
/// package.
#[derive(Debug, Clone, Copy, PartialEq, Eq, Hash, Structural)]
pub enum Target {
    ArmV7a,
    Arm64V8a,
    X86,
    X86_64,
}

impl Target {
    /// The name of the directory that holds this architecture's libraries
    /// inside the package.
    pub open spec fn abi(self) -> Seq<char> {
        match self {
            Target::ArmV7a => "armeabi-v7a"@,
            Target::Arm64V8a => "arm64-v8a"@,
            Target::X86 => "x86"@,
            Target::X86_64 => "x86_64"@,
        }
    }

    /// The name of the directory that holds this architecture's libraries
    /// inside the package.
    pub fn android_abi(self) -> (name: &'static str)
        ensures
            name@ == self.abi(),
    {
        match self {
            Target::ArmV7a => "armeabi-v7a",
            Target::Arm64V8a => "arm64-v8a",
            Target::X86 => "x86",
            Target::X86_64 => "x86_64",
        }
    }
}

} // verus!
