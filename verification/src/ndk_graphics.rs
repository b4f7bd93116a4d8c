//! The description of a host bitmap.

use vstd::prelude::*;

verus! {

/// Size and layout of a bitmap, as the host reports them.
#[derive(Debug)]
pub struct AndroidBitmapInfo {
    pub width: u32,
    pub height: u32,
    pub stride: u32,
    pub format: i32,
    pub flags: u32,
}

impl AndroidBitmapInfo {
    /// An empty description, for the host to fill in.
    pub fn new() -> (info: AndroidBitmapInfo)
        ensures
            info.width == 0,
            info.height == 0,
            info.stride == 0,
            info.format == 0,
            info.flags == 0,
    {
        AndroidBitmapInfo { width: 0, height: 0, stride: 0, format: 0, flags: 0 }
    }
}

} // verus!
