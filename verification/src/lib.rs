//! Kestrel's domain model and decisions: the show and what every output
//! carries, formats and frames, the control surface's replies, and the
//! choices the frame path makes each tick.
pub mod commands;
pub mod control;
pub mod decklink;
pub mod engine;
pub mod format;
pub mod geom;
pub mod gpu;
pub mod launch;
pub mod laws;
pub mod matrix;
pub mod pattern;
pub mod runtime;
pub mod show;
pub mod show_file;
pub mod show_laws;
pub mod source;
pub mod text;
