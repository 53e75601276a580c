//! Assembler for a small fixed-width 16-bit-word instruction set.
//!
//! The crate translates mnemonic source lines into a fixed-size program
//! image of 16-bit binary instruction words.  The opcode table (mnemonic
//! name, code bits, operand layout) is injected as data, so the same
//! encoder serves any compatible instruction-set descriptor.
//!
//! By default the assembler keeps the legacy lenient behavior:
//! unrecognized mnemonics are silently dropped and operand values wider
//! than their bit field are truncated.  A strict mode turns both into
//! hard errors.  Every error path is a typed, recoverable error naming
//! the offending line; the library never panics.

pub mod numeric;
pub mod text;
pub mod table;
pub mod errors;
pub mod encode;
pub mod assembler;
pub mod laws;
