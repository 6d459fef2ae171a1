//! OblivionOS desktop components: the terminal's text processing, the
//! compositor's window, surface, buffer and framebuffer management together
//! with its RFB (VNC) protocol logic, and the shell's dock, menu bar,
//! workspaces and launcher state.

pub mod compositor;
pub mod keyed;
pub mod maps;
pub mod shell;
pub mod terminal;
pub mod text;
