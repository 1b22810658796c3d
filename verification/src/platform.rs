//! The operating systems that dependency markers can name.

use crate::text::str_equals;
use vstd::prelude::*;

verus! {

/// The platform a run is bound to.
#[derive(Clone, Copy, Debug, PartialEq, Eq, Structural)]
pub enum PlatformTag {
    Windows,
    Linux,
    MacOS,
}

/// The tag that an operating-system name stands for, if any.
pub open spec fn os_tag(os: Seq<char>) -> Option<PlatformTag> {
    if os == "windows"@ {
        Some(PlatformTag::Windows)
    } else if os == "linux"@ {
        Some(PlatformTag::Linux)
    } else if os == "macos"@ {
        Some(PlatformTag::MacOS)
    } else {
        None
    }
}

/// The platform tag of an operating system, by the name the standard
/// library gives it: `windows`, `linux` or `macos`. Any other name has none.
pub fn platform_for_os(os: &str) -> (tag: Option<PlatformTag>)
    ensures
        tag == os_tag(os@),
{
    if str_equals(os, "windows") {
        Some(PlatformTag::Windows)
    } else if str_equals(os, "linux") {
        Some(PlatformTag::Linux)
    } else if str_equals(os, "macos") {
        Some(PlatformTag::MacOS)
    } else {
        None
    }
}

} // verus!
