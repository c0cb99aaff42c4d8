//! The rules of a small multiplayer guessing game, verified.
//!
//! Players reach a shared session through a short code and move together
//! through its phases: they gather in a lobby, each writes a prompt, each
//! guesses the prompts of the others, and every guess is graded by how close
//! it comes to the prompt it aims at. This crate holds the parts of that game
//! that have rules of their own: the session and its transitions, the short
//! codes, and the grading of a guess. Storage, transport and the services
//! that turn text into pictures or numbers stay with the caller.
//!
//! - [`model`] says what a session is and what each event makes of it;
//!   [`laws`] proves what follows.
//! - [`session`] is the session that runs, [`service`] the step from what a
//!   store answered to what is to be stored.
//! - [`code`] makes up the codes, [`scorer`] grades a guess.
//! - [`requests`], [`user`] and [`ai`] hold what travels to and from the
//!   callers and the outside services.

pub mod ai;
pub mod code;
pub mod error;
pub mod ident;
pub mod laws;
pub mod model;
pub mod phase;
pub mod requests;
pub mod scorer;
pub mod service;
pub mod session;
pub mod user;
