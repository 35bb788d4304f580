//! Two interpreters for a small class-based scripting language of the Lox
//! family: a tree walker over a resolved syntax tree, and a single-pass
//! compiler to bytecode with a stack machine that runs it.
//!
//! Numbers are IEEE-754 binary64 values carried as bit patterns. Comparing and
//! negating them is done here; rounding arithmetic, reading a literal and
//! writing a number out are asked of the embedding program through
//! [`number::Arithmetic`].

pub mod agreement;
pub mod number;
pub mod text;
pub mod bytecode;
pub mod treewalk;
