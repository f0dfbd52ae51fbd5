//! The compositor's wallpaper modes.
use vstd::prelude::*;

verus! {

/// Wallpaper display mode
#[derive(Debug, Clone, Copy, PartialEq, Eq, Structural)]
pub enum WallpaperMode {
    /// Scale to fill, crop if needed (default)
    Fill,
    /// Scale to fit, may have letterboxing
    Fit,
    /// Stretch to exact size
    Stretch,
    /// Center without scaling
    Center,
    /// Tile the image
    Tile,
}

impl Default for WallpaperMode {
    /// Filling the output is the default.
    fn default() -> (r: Self)
        ensures
            r == WallpaperMode::Fill,
    {
        WallpaperMode::Fill
    }
}

} // verus!
