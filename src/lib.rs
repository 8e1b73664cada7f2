pub mod args;
pub mod assembler;
pub mod instructions;
pub mod machine;
pub mod operand;
pub mod semantics;
pub mod serial;
pub mod stack;
pub mod text;
pub mod laws;
