//! Core of an editor for logic-circuit diagrams.
//!
//! - `connection`: terminal references and the codec of their tokens;
//!   `digits`: decimal numerals.
//! - `component`, `project`: the templates and the circuit, which is always
//!   well formed; `graph`: the mathematical model that their contracts speak
//!   of, with what follows from it.
//! - `resolver`: which two endpoints make a connection.
//! - `mouse`, `state`, `editor`: the pointer session, the settings, and the
//!   state machine that pointer events drive.
//! - `coord`: numbers and points, which are stored but not computed with.

pub mod component;
pub mod connection;
pub mod coord;
pub mod digits;
pub mod dud;
pub mod editor;
pub mod error;
pub mod graph;
pub mod mouse;
pub mod project;
pub mod resolver;
pub mod state;
