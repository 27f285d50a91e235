//! The fixed configuration of the shell, stated once.
//!
//! The listener address, the name of the asset directory next to the
//! executable, and the window parameters are process-wide constants. The
//! host reads them from here instead of re-deriving them at each call
//! site.

use vstd::prelude::*;

verus! {

/// The loopback port the front door listens on.
pub const SERVER_PORT: u16 = 3030;

/// The logical width of the shell window.
pub const WINDOW_WIDTH: u32 = 800;

/// The logical height of the shell window.
pub const WINDOW_HEIGHT: u32 = 600;

/// The address the rendering surface is pointed at.
pub fn server_url() -> (r: &'static str)
    ensures
        r@ == "http://127.0.0.1:3030"@,
{
    "http://127.0.0.1:3030"
}

/// The name of the asset directory that lives beside the executable; the
/// anchor directory is this name joined onto the executable's directory.
pub fn asset_dir_name() -> (r: &'static str)
    ensures
        r@ == "lib"@,
{
    "lib"
}

/// The title of the shell window.
pub fn window_title() -> (r: &'static str)
    ensures
        r@ == "FRACTAL"@,
{
    "FRACTAL"
}

} // verus!
