//! The per-language code generators and their shared surface.

pub mod code_gen;
pub mod cpp;
pub mod python;
pub mod rust;
