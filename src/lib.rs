//! Checks that interactive sessions and one-shot evaluations embedded in
//! documentation produce what the documentation claims.
//!
//! The core is a deterministic engine: it is fed one event at a time and
//! answers with the commands that collaborators are to carry out.
pub mod text;
pub mod example;
pub mod error;
pub mod session;
pub mod table;
pub mod events;
pub mod line;
pub mod state;
