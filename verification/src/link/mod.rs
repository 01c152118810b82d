//! How a program finds the FFmpeg libraries it is linked against: the decisions of
//! its build, on plain values.
pub mod local;
pub mod names;
pub mod target;
