//! Memory access and software breakpoints for a native process debugger.
//!
//! The library models the traced process's memory as a map from addresses to
//! bytes, builds byte-exact reads and writes on top of a primitive that moves
//! one machine word at a time, and drives the enable/disable life cycle of a
//! software breakpoint over that model.
pub mod general;
pub mod memory;
pub mod breakpoint;
pub mod registers;
