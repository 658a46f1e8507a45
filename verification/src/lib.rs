//! The discrete side of a double-pendulum animation: how the command line is
//! read, what is drawn for a pendulum, how a run of exported frames is laid
//! out on disk, and when the frame rate is reported.
//!
//! Everything here works on integers, text and small enumerations. The
//! equations of motion and the rendering work on real numbers and on a
//! graphics backend, and are left to the program that links this library.

pub mod cli;
pub mod decimal;
pub mod draw;
pub mod export;
pub mod live;
pub mod settings;
pub mod text;
