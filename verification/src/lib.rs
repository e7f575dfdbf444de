//! A small interface-definition-language compiler: it tokenizes and parses a
//! schema file describing versioned data structures, builds a typed AST with
//! resolved type references and computed wire sizes, and emits source code in
//! several target languages that encodes/decodes those structures to/from a
//! fixed-layout big-endian binary wire format tagged by a hash of the struct
//! name.

use vstd::prelude::*;

pub mod ast;
pub mod codec;
pub mod error;
pub mod generators;
pub mod kronos;
pub mod parser;
pub mod token;
pub mod tokenizer;
pub mod wire;

verus! {

} // verus!
