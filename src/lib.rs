//! Core execution layer of a stack machine that runs EVM bytecode.

pub mod error;
pub mod eval;
pub mod machine;
pub mod memory;
pub mod stack;
pub mod valids;
pub mod word;

pub use crate::error::{Capture, ExitError, ExitFatal, ExitReason, ExitRevert, ExitSucceed};
pub use crate::machine::{Control, Machine, Opcode, Trap};
pub use crate::memory::Memory;
pub use crate::stack::Stack;
pub use crate::valids::Valids;
pub use crate::word::{Error, U256, U512};
