//! What the daemon decides before the walk starts: the settings taken from
//! the command line and the config file, the size of a terminal cell, the
//! room kept free for the image and the seed that spreads several pets apart.
//! (Run file names and the daemon's arguments are in `launch`.)
use vstd::prelude::*;

verus! {

/// The size the GIF is scaled to when neither the command line nor the config
/// file gives one.
pub const DEFAULT_TARGET_SIZE: u32 = 40;

/// The walking sense when neither the command line nor the config file gives
/// one: counter-clockwise.
pub const DEFAULT_ROTATE_CLOCKWISE: bool = false;

/// The default target size, for a config file that leaves it out.
pub fn default_target_size() -> (size: u32)
    ensures
        size == DEFAULT_TARGET_SIZE,
        size == 40,
{
    DEFAULT_TARGET_SIZE
}

/// The default walking sense, for a config file that leaves it out.
pub fn default_rotate_clockwise() -> (cw: bool)
    ensures
        cw == DEFAULT_ROTATE_CLOCKWISE,
        !cw,
{
    DEFAULT_ROTATE_CLOCKWISE
}

/// The subcommands of the command line.
#[derive(Clone, Debug, PartialEq, Eq, Structural)]
pub enum Commands {
    /// Stop the pet of this terminal, or of every terminal with `all`.
    Stop { all: bool },
}

/// The settings of a walk that are not a speed: which GIF, which sense, which
/// size.
pub struct WalkSettings {
    pub gif_path: Option<String>,
    pub rotate_clockwise: bool,
    pub target_size: u32,
}

/// The view of an optional text.
pub open spec fn opt_view(s: Option<String>) -> Option<Seq<char>> {
    match s {
        Some(t) => Some(t@),
        None => None,
    }
}

/// Command-line settings override those of the config file: the GIF and size
/// given on the command line win, and `--cw` turns clockwise walking on even
/// when the file leaves it off.
pub fn resolve_settings(
    cli_gif: Option<String>,
    cli_cw: bool,
    cli_size: Option<u32>,
    config_gif: Option<String>,
    config_cw: bool,
    config_size: u32,
) -> (s: WalkSettings)
    ensures
        opt_view(s.gif_path) == (if cli_gif is Some { opt_view(cli_gif) } else { opt_view(config_gif) }),
        s.rotate_clockwise == (cli_cw || config_cw),
        s.target_size == (match cli_size {
            Some(n) => n,
            None => config_size,
        }),
{
    let gif_path = match cli_gif {
        Some(g) => Some(g),
        None => config_gif,
    };
    let target_size = match cli_size {
        Some(n) => n,
        None => config_size,
    };
    WalkSettings { gif_path, rotate_clockwise: cli_cw || config_cw, target_size }
}

/// The size of a terminal cell in pixels, from the window size that the
/// terminal reports (`ioctl_ok` tells whether it reported one): pixels per
/// column and per row where both numbers are known, else 10 x 20.
pub fn cell_dimensions(ioctl_ok: bool, ws_col: u16, ws_row: u16, ws_xpixel: u16, ws_ypixel: u16) -> (dims: (u16, u16))
    ensures
        dims.0 == (if ioctl_ok && ws_col > 0 && ws_xpixel > 0 { ws_xpixel / ws_col } else { 10 }),
        dims.1 == (if ioctl_ok && ws_row > 0 && ws_ypixel > 0 { ws_ypixel / ws_row } else { 20 }),
{
    let mut cell_width: u16 = 10;
    let mut cell_height: u16 = 20;
    if ioctl_ok {
        if ws_col > 0 && ws_xpixel > 0 {
            cell_width = ws_xpixel / ws_col;
        }
        if ws_row > 0 && ws_ypixel > 0 {
            cell_height = ws_ypixel / ws_row;
        }
    }
    (cell_width, cell_height)
}

/// The seed that spreads pets apart: the process id mixed (xor) with the
/// time in milliseconds, cut to 32 bits.
pub fn pseudo_random_seed(pid: u32, time_ms: u128) -> (seed: u32)
    ensures
        seed == pid ^ (time_ms as u32),
{
    let mixed = (pid as u128) ^ time_ms;
    let seed = mixed as u32;
    assert(seed == pid ^ (time_ms as u32)) by (bit_vector)
        requires
            mixed == (pid as u128) ^ time_ms,
            seed == mixed as u32,
    ;
    seed
}

/// The rows and columns kept free at the right and bottom of the terminal
/// for an image that covers `img_cells_x` x `img_cells_y` cells: one more
/// than the image in each direction.
pub fn walk_margins(img_cells_x: u16, img_cells_y: u16) -> (m: (u16, u16))
    requires
        img_cells_x < u16::MAX,
        img_cells_y < u16::MAX,
    ensures
        m.0 == img_cells_x + 1,
        m.1 == img_cells_y + 1,
{
    (img_cells_x + 1, img_cells_y + 1)
}

} // verus!
