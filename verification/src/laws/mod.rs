//! What the operations of this crate are for, each law over all inputs and stated
//! on what goes in and what comes out.
pub mod candidates;
pub mod frame;
pub mod local;
pub mod names;
pub mod numbers;
pub mod open;
pub mod probe;
pub mod target;
pub mod text;
