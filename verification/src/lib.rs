//! Verified core of a Wayland pinentry: the Assuan command protocol, the
//! per-session state it builds, CLI argument filtering, the terminal fallback
//! decision and the dialog's state machine.

pub mod assuan;
pub mod cli;
pub mod dialog;
pub mod fallback;
pub mod state;
pub mod text;
