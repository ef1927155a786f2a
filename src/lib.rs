//! Front end of a small compiler: a scanner that turns source text into
//! positioned tokens, and a recursive-descent parser that turns tokens into a
//! tree of identifiers, constants, calls and statement blocks.

pub mod argparse;
pub mod commands;
pub mod compile;
pub mod exit;
pub mod text;
pub mod tokenize;

