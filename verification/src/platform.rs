//! The window that owns dialogs, as a plain handle value.
use vstd::prelude::*;

verus! {

/// A native window handle kept as its integer value; 0 means no window.
#[derive(Debug, Clone, Copy, PartialEq, Eq, Structural)]
pub struct NativeWindowHandle {
    raw: isize,
}

impl NativeWindowHandle {
    /// The handle's integer value.
    pub closed spec fn spec_raw(self) -> isize {
        self.raw
    }

    /// No window.
    pub fn none() -> (r: Self)
        ensures
            r.spec_raw() == 0,
    {
        NativeWindowHandle { raw: 0 }
    }

    /// The handle whose integer value is `raw`.
    pub fn from_raw(raw: isize) -> (r: Self)
        ensures
            r.spec_raw() == raw,
    {
        NativeWindowHandle { raw }
    }

    /// The handle's integer value.
    pub fn raw(self) -> (r: isize)
        ensures
            r == self.spec_raw(),
    {
        self.raw
    }

    /// `"none"` for no window, `"provided"` otherwise.
    pub fn describe(self) -> (r: &'static str)
        ensures
            r@ == (if self.spec_raw() == 0 {
                "none"@
            } else {
                "provided"@
            }),
    {
        if self.raw == 0 {
            "none"
        } else {
            "provided"
        }
    }
}

/// The owner of the application's dialogs: none, so they belong to the desktop.
pub fn default_owner_window() -> (r: NativeWindowHandle)
    ensures
        r.spec_raw() == 0,
{
    NativeWindowHandle::none()
}

} // verus!
