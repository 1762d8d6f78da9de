//! The program tree the pipeline works on.
//!
//! The front end (outside this crate) parses program text and hands the
//! core a tree in this vocabulary: a program is a sequence of function
//! items, a function body is a sequence of statements, and statements are
//! local declarations, expression statements, or unsafe regions wrapping a
//! nested statement sequence. Expression kinds are closed: the fixed set
//! below is all the candidate detector and the rectifier ever need to tell
//! apart, and anything else travels through as its source text.

use vstd::prelude::*;

verus! {

/// A source position as the front end reports it.
#[derive(Clone, Copy, Debug, PartialEq, Eq, Structural)]
pub struct SrcPos {
    pub line: usize,
    pub column: usize,
}

/// An arithmetic operator, as far as the checked-arithmetic lift needs to
/// tell operators apart.
#[derive(Clone, Copy, Debug, PartialEq, Eq, Structural)]
pub enum BinOp {
    Add,
    Sub,
    Mul,
    Div,
}

/// An expression, as far as the pipeline needs to distinguish shapes.
pub enum Expr {
    /// An arithmetic combination of two expressions.
    Binary { op: BinOp, left: Box<Expr>, right: Box<Expr>, pos: SrcPos },
    /// A fixed-size buffer construction: a literal-sequence constructor or
    /// sized allocation. `count` is the element count when it is a
    /// literal; `text` is the constructor's source text.
    BufferInit { count: Option<usize>, text: String, pos: SrcPos },
    /// A pointer-extraction call on a named buffer,
    /// `buffer.as_mut_ptr()` or `buffer.as_ptr()`.
    PtrExtract { buffer: String, mutable: bool, pos: SrcPos },
    /// A pointer-offset call `receiver.add(arg)`. `offset` is the operand
    /// when it is a literal; `arg` is the operand's source text.
    PtrAdd { receiver: String, offset: Option<usize>, arg: String, pos: SrcPos },
    /// A write through an offset pointer, `*receiver.add(arg) = value`.
    PtrWrite { receiver: String, offset: Option<usize>, arg: String, value: String, pos: SrcPos },
    /// A bounds-checked access synthesized by the rectifier: guards
    /// `offset` against the current length of `buffer` before writing
    /// `value`, and reports instead of overflowing.
    Guarded { buffer: String, index: usize, value: String, pos: SrcPos },
    /// Any other expression, carried as its source text.
    Opaque { text: String, pos: SrcPos },
}

/// A statement.
pub enum Stmt {
    /// `let name = init;` or `let mut name = init;`.
    Local { name: String, mutable: bool, init: Option<Expr>, pos: SrcPos },
    /// An expression in statement position.
    ExprStmt { expr: Expr, pos: SrcPos },
    /// An explicitly-marked unsafe region wrapping a statement sequence.
    /// The marker is metadata, never a gate: detection scans inside and
    /// outside such regions identically.
    Unsafe { body: Vec<Stmt>, pos: SrcPos },
}

/// A function item: a name and a body.
pub struct FnItem {
    pub name: String,
    pub body: Vec<Stmt>,
    pub pos: SrcPos,
}

/// A parsed program: a sequence of function items.
pub struct Program {
    pub functions: Vec<FnItem>,
}

} // verus!
