use vstd::prelude::*;

verus! {

/// A literal handed to a call as an argument.
#[derive(Debug, Clone, Copy, PartialEq, Eq, Structural)]
pub enum LunarValue {
    Nil,
    Boolean(bool),
    Number(u64),
    /// A string, by its index in the scope's string pool.
    String(usize),
}

/// One instruction of the flat intermediate form that the walker emits.
#[derive(Debug, Clone)]
pub enum LunarIR {
    ChunkStart(usize),
    ChunkEnd,
    Local(usize),
    ForStart(usize),
    ForParam(usize, usize, usize),
    ForEnd,
    Enter(u32),
    StoreSym(usize, String),
    FunctionCallStart(usize),
    FunctionCallArg(usize, LunarValue),
    FunctionCallEnd,
    PoolString(usize, String),
    Block(usize),
    NoReturn,
    Stop,
}

} // verus!
