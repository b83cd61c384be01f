//! The tree of code pieces that the rendering side turns into output text.
//!
//! The builders of this crate only assemble these values; turning them into
//! source text is the rendering side's work.

use vstd::prelude::*;

verus! {

/// What a generated call returns, as far as the rendering side needs it.
#[derive(Clone, Debug)]
pub struct ReturnValueInfo {
    pub commented: bool,
}

/// One piece of generated code.
#[derive(Debug)]
pub enum Chunk {
    /// Literal text.
    Custom(String),
    /// A call into the foreign library.
    FfiCall { name: String, params: Vec<Chunk> },
    /// A call whose result is converted back.
    FfiCallConversion { ret: ReturnValueInfo, call: Box<Chunk> },
    /// An unsafe block around the pieces.
    Unsafe(Vec<Chunk>),
    /// A let binding.
    Let { name: String, is_mut: bool, value: Box<Chunk>, type_: Option<Box<Chunk>> },
    /// A block that closes a surrounding brace.
    BlockHalf(Vec<Chunk>),
}

} // verus!
