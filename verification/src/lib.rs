//! Narrative: an ink story compiler with a directive system, verified with Verus.

pub mod ink_parser;
pub mod compiler;
pub mod def_parser;
pub mod diagnostics;
pub mod text;
