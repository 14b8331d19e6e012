//! An interpreter core for the CHIP-8 virtual machine.
//!
//! The crate holds the machine state, the instruction decoder, the semantics
//! of every instruction as specification functions over a mathematical model
//! of the machine, and an executable interpreter proved to follow them.

pub mod decode;
pub mod entropy;
pub mod fault;
pub mod font;
pub mod host;
pub mod laws;
pub mod machine;
pub mod semantics;
pub mod state;

pub use decode::{decode, Fields};
pub use fault::Fault;
pub use host::{parse_arguments, translate_display, Config};
pub use machine::Chip8;
pub use state::{MachineState, DISPLAY_HEIGHT, DISPLAY_WIDTH};
