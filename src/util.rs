use vstd::prelude::*;

use crate::remote::handle::Platform;
use crate::text::str_eq;

verus! {

/// The operating system the application runs on, for the user interface.
#[derive(Debug, Clone)]
pub struct PlatformInfo {
    pub os: String,
    pub is_macos: bool,
    pub is_windows: bool,
    pub is_linux: bool,
}

impl PlatformInfo {
    /// Describes the system named `os` (as `std::env::consts::OS` names it).
    pub fn from_os(os: String) -> (r: Self)
        ensures
            r.os == os,
            r.is_macos == (os@ == "macos"@),
            r.is_windows == (os@ == "windows"@),
            r.is_linux == (os@ == "linux"@),
    {
        let is_macos = str_eq(os.as_str(), "macos");
        let is_windows = str_eq(os.as_str(), "windows");
        let is_linux = str_eq(os.as_str(), "linux");
        PlatformInfo { os, is_macos, is_windows, is_linux }
    }

    /// The client platform that runs there, if it is one of those supported.
    pub fn platform(&self) -> (r: Option<Platform>)
        ensures
            self.is_windows ==> r == Some(Platform::Windows),
            !self.is_windows && self.is_macos ==> r == Some(Platform::MacOs),
            !self.is_windows && !self.is_macos && self.is_linux ==> r == Some(Platform::Linux),
            !self.is_windows && !self.is_macos && !self.is_linux ==> r is None,
    {
        if self.is_windows {
            Some(Platform::Windows)
        } else if self.is_macos {
            Some(Platform::MacOs)
        } else if self.is_linux {
            Some(Platform::Linux)
        } else {
            None
        }
    }
}

} // verus!
