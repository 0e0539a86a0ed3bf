//! What the drivers decide, apart from the port reads and writes that carry
//! their decisions out.

pub mod keyboard;
pub mod pci;
