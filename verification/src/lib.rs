//! Status-bar helper logic for a window compositor: which display protocol
//! the focused window speaks, and the one-line record printed for it.
//!
//! Everything here is pure: the caller owns the control socket, the signal
//! handler and standard output, and feeds this crate plain values.
pub mod args_helper;
pub mod config;
pub mod event_loop;
pub mod number;
pub mod output;
pub mod text;
pub mod window;

pub use args_helper::ExecutableArgs;
