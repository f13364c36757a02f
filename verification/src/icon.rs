//! The size the tray icon is drawn at. Measuring the display and drawing the pixels belong
//! to the program.

use vstd::prelude::*;

verus! {

/// The canvas every icon length is written for: also the fallback size, and what the shell
/// asks for at 200% scaling.
pub const REF_N: i32 = 32;

/// Edge length to render at, from what the display reported. A process that is not DPI
/// aware is told 16 at every scaling factor, so its measurement is not believed; nor is one
/// outside 16..=256, which comes back as 0 on failure and would cost real pixels if wild.
pub fn tray_icon_size(dpi_aware: bool, measured: i32) -> (n: i32)
    ensures
        n == (if dpi_aware && 16 <= measured <= 256 { measured } else { REF_N }),
{
    if dpi_aware && 16 <= measured && measured <= 256 {
        measured
    } else {
        REF_N
    }
}

} // verus!
