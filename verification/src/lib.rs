//! Reads linear and matrix codes from still pictures and from camera frames.
//!
//! The crate holds the decisions of a scanner that lives in a web page: which
//! parts of a frame are handed to the decoders and in what order, which decoder
//! wins, when a reading from a camera counts as confirmed, and what the host is
//! told and asked to do at each step. The host owns the camera, the page and
//! the callbacks; it feeds plain values in and carries the answers out.

pub mod decoder;
pub mod detector;
pub mod error;
pub mod event;
pub mod frame;
pub mod laws;
pub mod planner;
pub mod reader;
pub mod session;
