pub mod ast;
pub mod binfmt;
pub mod compile;
pub mod bytecode;
pub mod lunarir;
pub mod packer;
pub mod transformer;
pub mod walker;
