//! A snapshot test harness for build-time behaviour: it asserts that some
//! sources build and run, and that others fail to build with exactly the
//! diagnostics that are stored for them.
//!
//! This library holds the rules of the harness and nothing that touches the
//! outside world but the resolution of path patterns:
//!
//! - [`expand`] turns the declared tests into the tests that run;
//! - [`project`] lays out the throwaway project in which they are built;
//! - [`normalize`] brings diagnostics into a canonical form, and
//!   [`normal_form`] states what holds of that form;
//! - [`run`] takes one test from start to finish, step by step;
//! - [`session`] starts a run and gives its outcome.
//!
//! Whoever uses the library looks for files, starts the build tool and
//! prints; each step of a test says what is to be done next.

pub mod cases;
pub mod error;
pub mod expand;
pub mod manifest;
pub mod normal_form;
pub mod normalize;
pub mod paths;
pub mod project;
pub mod run;
pub mod session;
pub mod text;
