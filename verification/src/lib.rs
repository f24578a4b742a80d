//! A compiler core that lowers a restricted expression grammar of a dynamic
//! scripting language into typed instructions for an 8-bit target: literal
//! lowering with 16-bit truncation, two-level name resolution with local
//! shadowing, operator dispatch over typed operands, and call resolution
//! with mangling-based overload selection and per-parameter implicit casts.
//! Every lowering routine carries a contract that pins its result and the
//! instructions it emits.

pub mod ast;
pub mod compiler;
pub mod ir;
pub mod lit;
pub mod names;
pub mod scope;
pub mod table;
pub mod value;
