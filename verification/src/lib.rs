//! Static analyzer for EVM runtime bytecode: decodes a byte sequence into an
//! instruction map, partitions it into basic blocks, and symbolically executes
//! from the entry point to resolve indirect jump targets into explored flows.

pub mod calldata;
pub mod errors;
pub mod flow;
pub mod flow_parser;
pub mod hex;
pub mod instruction;
pub mod memory;
pub mod opcode;
pub mod parser;
pub mod stack;
pub mod utils;
