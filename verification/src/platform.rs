//! The operating-system family that the program runs on, where it changes
//! the names of executables and the commands that are issued.

use vstd::prelude::*;

verus! {

/// Operating-system families that the session logic tells apart.
#[derive(Debug, Clone, Copy, PartialEq, Eq, Structural)]
pub enum Platform {
    Windows,
    MacOs,
    Linux,
}

/// Wraps the constant `std::path::MAIN_SEPARATOR`, the primary path separator of
/// the platform the program was built for (`\` on Windows, `/` on Unix-like
/// systems). Nothing is claimed of its value.
#[verifier::external_body]
fn main_separator() -> (c: char) {
    std::path::MAIN_SEPARATOR
}

/// Whether the program was built for Windows, told by its path separator.
/// Which of the two it returns is left unstated: it rests on the target the
/// program was compiled for, which no contract here can see.
pub fn host_is_windows() -> (b: bool) {
    main_separator() == '\\'
}

/// The executable name under which the game runs.
pub open spec fn spec_vrchat_target(windows: bool) -> Seq<char> {
    if windows {
        "VRChat.exe"@
    } else {
        "VRChat"@
    }
}

/// The executable name under which the game runs on Windows or elsewhere.
pub fn vrchat_target_for(windows: bool) -> (s: &'static str)
    ensures
        s@ == spec_vrchat_target(windows),
{
    if windows {
        "VRChat.exe"
    } else {
        "VRChat"
    }
}

/// The game's executable name on this machine.
pub fn default_vrchat_target() -> (s: &'static str)
    ensures
        s@ == "VRChat.exe"@ || s@ == "VRChat"@,
{
    vrchat_target_for(host_is_windows())
}

} // verus!
