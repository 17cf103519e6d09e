//! Static translation of SM83 machine code into symbolic x86-64 code.
//!
//! The crate is layered from the leaves up: the source register model
//! (`regs`), the semantic instruction type (`instructions`), the decoder
//! (`decode`), the host register binding and host instruction model
//! (`host`), the per-instruction translator (`translate`) and the block
//! builder (`context`).

pub mod context;
pub mod decode;
pub mod host;
pub mod instructions;
pub mod regs;
pub mod translate;

pub use context::{
    Amd64Patch, CodeBlock, CompileError, Context, PendingPatch, ROM_LEN, transpile_block_at,
};
pub use decode::{decode_instr, prefix};
pub use host::{Amd64Instr, HostLabel, HostOp, HostReg, MemSize, Operand};
pub use instructions::{AluBlockOp, Condition, Instruction, PrefixOp, RegOrNum};
pub use regs::{HalfPair, Reg, RegPair};
pub use translate::{TranspileInstrRes, transpile_cond_jump, transpile_instr_preserve_c_flag};
