//! The rules of a small weather station: which request to send for a place,
//! how a report of current conditions reads and in which colour it is shown,
//! and how a session of questions and answers proceeds.

pub mod binary64;
pub mod decimal;
pub mod report;
pub mod request;
pub mod response;
pub mod session;
pub mod text;
pub mod tint;
