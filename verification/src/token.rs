//! Tokens of the schema language.

use vstd::prelude::*;

verus! {

/// The kinds of token the tokenizer produces.
#[derive(Clone, Copy, Debug, PartialEq, Eq, Structural)]
pub enum TokenTypes {
    Colon,
    SemiColon,
    OpenSquareBracket,
    CloseSquareBracket,
    OpenCurlyBracket,
    CloseCurlyBracket,
    Identifier,
    UInt,
    SemanticVersion,
    Version,
    Struct,
    Enum,
    Package,
    EndOfStream,
}

/// One token: its kind, the text it carries (for identifiers and literals),
/// and the row/column where it starts, for diagnostics.
#[derive(Clone, Debug)]
pub struct Token {
    pub t: TokenTypes,
    pub value: Option<String>,
    pub row: u32,
    pub col: u32,
}

/// Ghost mirror of a token.
#[verifier::ext_equal]
pub struct TokenV {
    pub t: TokenTypes,
    pub value: Option<Seq<char>>,
    pub row: int,
    pub col: int,
}

impl View for Token {
    type V = TokenV;

    open spec fn view(&self) -> TokenV {
        TokenV {
            t: self.t,
            value: match &self.value {
                Some(v) => Some(v@),
                None => None,
            },
            row: self.row as int,
            col: self.col as int,
        }
    }
}

} // verus!
