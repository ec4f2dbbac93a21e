use vstd::prelude::*;

verus! {

/// One of the four directions a key press can point to.
#[derive(Clone, Copy, Debug, PartialEq, Eq, Structural)]
pub enum Direction {
    Up,
    Down,
    Left,
    Right,
}

/// A window, holding what the navigation logic reads of it.
#[derive(Debug)]
pub struct Client {
    /// The window's address, as the compositor prints it (`0x...`).
    pub address: String,
    /// Top-left corner.
    pub at: (i16, i16),
    /// Width and height.
    pub size: (i16, i16),
    /// Id of the workspace the window is on.
    pub workspace_id: i32,
    /// Name of the workspace the window is on.
    pub workspace_name: String,
    /// Whether the window floats (as opposed to being tiled).
    pub floating: bool,
}

/// A monitor, holding what the navigation logic reads of it.
#[derive(Clone, Copy, Debug, PartialEq, Eq, Structural)]
pub struct Monitor {
    /// Position on the x axis.
    pub x: i32,
    /// Width in pixels.
    pub width: u16,
    /// Space that layer surfaces (bars, docks) reserve at the right edge.
    pub reserved_right: u16,
    /// Space that layer surfaces (bars, docks) reserve at the left edge.
    pub reserved_left: u16,
    /// Id of the workspace the monitor currently shows.
    pub active_workspace_id: i32,
}

/// Options of the vertical subcommands.
#[derive(Clone, Copy, Debug, PartialEq, Eq, Structural)]
pub struct VerticalArgs {
    /// Move or swap the window instead of moving the focus.
    pub swap: bool,
}

/// Options of the horizontal subcommands.
#[derive(Clone, Copy, Debug)]
pub struct HorizontalArgs {
    /// Move or swap the window instead of moving the focus.
    pub swap: bool,
    /// Tolerance, in pixels, within which a window counts as touching the
    /// monitor's edge (0 when absent).
    pub bordersize: Option<i32>,
}

/// The subcommand given on the command line.
#[derive(Clone, Copy, Debug)]
pub enum Command {
    Up(VerticalArgs),
    Down(VerticalArgs),
    Left(HorizontalArgs),
    Right(HorizontalArgs),
}

} // verus!
