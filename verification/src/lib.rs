//! Core of a password-of-the-day command-line tool: parameter resolution,
//! calendar-date handling, report rendering and the drive of the external
//! generation algorithm.

pub mod adapter;
pub mod date;
pub mod error;
pub mod jsonparse;
pub mod laws;
pub mod render;
pub mod request;
pub mod run;
pub mod text;
