//! The lifter for arm64.

pub mod decode;
pub mod helper;
pub mod ir;
pub mod label_resolver;
pub mod laws;
pub mod lifter;
pub mod printer;
pub mod rendering;
pub mod semantics;
pub mod unique;

pub use label_resolver::{LabelResolver, UniqueHeap};
pub use lifter::{AArch64DisassemblerError, AArch64Lifter, AArch64LifterError};
