use vstd::prelude::*;

verus! {

/// The kinds of Lua constructs that the walker meets, for those it does not lower.
#[derive(Debug, Clone, Copy, PartialEq, Eq, Structural)]
pub enum Construct {
    Assign,
    Do,
    While,
    Repeat,
    If,
    ForIn,
    Function,
    LocalFunction,
    LocalDeclVar,
    Return,
    Break,
    ArgsNone,
    ArgsList,
    ArgsTable,
    NilExpr,
    FalseExpr,
    TrueExpr,
    StringExpr,
    DotsExpr,
    FunctionExpr,
    PrefixExpr,
    TableExpr,
    BinopExpr,
    UnopExpr,
    CallPrefix,
    ParenPrefix,
    IndexVar,
    MemberVar,
    NonNameVar,
    MalformedString,
}

/// A block: one chunk.
#[derive(Debug)]
pub struct Block(pub Chunk);

/// A chunk: its statements, then an optional final statement.
#[derive(Debug)]
pub struct Chunk(pub Vec<Stat>, pub Option<LastStat>);

/// A statement. Those that are not lowered carry only their kind.
#[derive(Debug)]
pub enum Stat {
    FunctionCall(FunctionCall),
    /// A numeric `for`: loop variable, start, end, optional step, body.
    For(String, Expr, Expr, Option<Expr>, Block),
    Other(Construct),
}

/// The statement that may end a chunk.
#[derive(Debug, Clone, Copy, PartialEq, Eq, Structural)]
pub enum LastStat {
    Return,
    Break,
}

/// A call: callee, optional method name, arguments.
#[derive(Debug)]
pub struct FunctionCall(pub PrefixExp, pub Option<String>, pub Args);

/// A prefix expression.
#[derive(Debug)]
pub enum PrefixExp {
    PrefixVar(Var),
    Other(Construct),
}

/// A variable reference.
#[derive(Debug)]
pub enum Var {
    VarName(String),
    Other(Construct),
}

/// Call arguments.
#[derive(Debug)]
pub enum Args {
    /// A string-literal argument, as written in the source (quotes included).
    ArgsString(String),
    Other(Construct),
}

/// An expression. A number literal carries its integral value.
#[derive(Debug)]
pub enum Expr {
    Number(usize),
    Other(Construct),
}

} // verus!
