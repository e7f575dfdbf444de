//! The tokenizer: a single forward pass over the schema text that produces
//! the token stream, terminated by one end-of-stream token, and pre-scans
//! which identifiers are declared as struct or enum names (the identifier
//! right after a `struct` or `enum` keyword), so that the parser can resolve
//! forward references. The whole pass is specified by `spec_lex`.

use vstd::prelude::*;
use vstd::string::StrSliceExecFns;

use crate::ast::str_eq;
use crate::error::{error, CompileError, ErrorType};
use crate::token::{Token, TokenTypes, TokenV};

verus! {

/// ASCII whitespace.
pub open spec fn is_space(c: char) -> bool {
    c == ' ' || c == '\t' || c == '\n' || c == '\r' || c == '\u{c}'
}

/// ASCII decimal digit.
pub open spec fn is_digit_ch(c: char) -> bool {
    48 <= c as u32 <= 57
}

/// First character of an identifier.
pub open spec fn is_alpha_ch(c: char) -> bool {
    (65 <= c as u32 <= 90) || (97 <= c as u32 <= 122) || c == '_'
}

/// Continuation character of an identifier.
pub open spec fn is_alnum_ch(c: char) -> bool {
    is_alpha_ch(c) || is_digit_ch(c)
}

/// Add one, saturating at the top of the `u32` range (positions are
/// diagnostics; a pathological input must not wrap them around).
pub open spec fn sat_inc(x: int) -> int {
    if x < u32::MAX {
        x + 1
    } else {
        x
    }
}

/// Row (1-based) of the character at index `i`.
pub open spec fn row_at(src: Seq<char>, i: int) -> int
    decreases i,
{
    if i <= 0 {
        1
    } else if 0 < i <= src.len() && src[i - 1] == '\n' {
        sat_inc(row_at(src, i - 1))
    } else {
        row_at(src, i - 1)
    }
}

/// Column (1-based) of the character at index `i`.
pub open spec fn col_at(src: Seq<char>, i: int) -> int
    decreases i,
{
    if i <= 0 {
        1
    } else if 0 < i <= src.len() && src[i - 1] == '\n' {
        1
    } else {
        sat_inc(col_at(src, i - 1))
    }
}

/// Index of the next character that is neither whitespace nor part of a
/// `#`-comment, scanning from `i` (`in_comment` carries the comment state).
pub open spec fn skip_trivia(src: Seq<char>, i: int, in_comment: bool) -> int
    decreases src.len() - i,
{
    if i < 0 || i >= src.len() {
        src.len() as int
    } else if in_comment {
        if src[i] == '\n' {
            skip_trivia(src, i + 1, false)
        } else {
            skip_trivia(src, i + 1, true)
        }
    } else if is_space(src[i]) {
        skip_trivia(src, i + 1, false)
    } else if src[i] == '#' {
        skip_trivia(src, i + 1, true)
    } else {
        i
    }
}

/// End of the digit run starting at `i`.
pub open spec fn digit_end(src: Seq<char>, i: int) -> int
    decreases src.len() - i,
{
    if 0 <= i < src.len() && is_digit_ch(src[i]) {
        digit_end(src, i + 1)
    } else {
        i
    }
}

/// End of the identifier-character run starting at `i`.
pub open spec fn alnum_end(src: Seq<char>, i: int) -> int
    decreases src.len() - i,
{
    if 0 <= i < src.len() && is_alnum_ch(src[i]) {
        alnum_end(src, i + 1)
    } else {
        i
    }
}

/// A digit run never ends before it starts.
pub proof fn lemma_digit_end_ge(src: Seq<char>, i: int)
    ensures
        digit_end(src, i) >= i,
    decreases src.len() - i,
{
    if 0 <= i < src.len() && is_digit_ch(src[i]) {
        lemma_digit_end_ge(src, i + 1);
    }
}

/// An identifier run never ends before it starts.
pub proof fn lemma_alnum_end_ge(src: Seq<char>, i: int)
    ensures
        alnum_end(src, i) >= i,
    decreases src.len() - i,
{
    if 0 <= i < src.len() && is_alnum_ch(src[i]) {
        lemma_alnum_end_ge(src, i + 1);
    }
}

/// One lexed token: kind, carried text, and the index just past it.
#[verifier::ext_equal]
pub struct LexTokV {
    pub t: TokenTypes,
    pub value: Option<Seq<char>>,
    pub end: int,
}

/// The outcome of lexing one token: a token, or a fault with its message and
/// position.
#[verifier::ext_equal]
pub enum LexStep {
    Tok(LexTokV),
    Fail(Seq<char>, int),
}

/// The token starting at the non-trivia index `j`.
pub open spec fn spec_token_at(src: Seq<char>, j: int) -> LexStep {
    let c = src[j];
    if is_alpha_ch(c) {
        let e = alnum_end(src, j);
        let text = src.subrange(j, e);
        if text == "version"@ {
            LexStep::Tok(LexTokV { t: TokenTypes::Version, value: None, end: e })
        } else if text == "package"@ {
            LexStep::Tok(LexTokV { t: TokenTypes::Package, value: None, end: e })
        } else if text == "struct"@ {
            LexStep::Tok(LexTokV { t: TokenTypes::Struct, value: None, end: e })
        } else if text == "enum"@ {
            LexStep::Tok(LexTokV { t: TokenTypes::Enum, value: None, end: e })
        } else {
            LexStep::Tok(LexTokV { t: TokenTypes::Identifier, value: Some(text), end: e })
        }
    } else if is_digit_ch(c) {
        let d1 = digit_end(src, j);
        if d1 < src.len() && src[d1] == '.' {
            let d2 = digit_end(src, d1 + 1);
            if d2 == d1 + 1 {
                LexStep::Fail("Expected semantic version as MAJOR.MINOR.PATCH."@, j)
            } else if d2 < src.len() && src[d2] == '.' {
                let d3 = digit_end(src, d2 + 1);
                if d3 == d2 + 1 {
                    LexStep::Fail("Expected semantic version as MAJOR.MINOR.PATCH."@, j)
                } else {
                    LexStep::Tok(
                        LexTokV {
                            t: TokenTypes::SemanticVersion,
                            value: Some(src.subrange(j, d3)),
                            end: d3,
                        },
                    )
                }
            } else {
                LexStep::Fail("Expected semantic version as MAJOR.MINOR.PATCH."@, j)
            }
        } else {
            LexStep::Tok(
                LexTokV { t: TokenTypes::UInt, value: Some(src.subrange(j, d1)), end: d1 },
            )
        }
    } else if c == ':' {
        LexStep::Tok(LexTokV { t: TokenTypes::Colon, value: None, end: j + 1 })
    } else if c == ';' {
        LexStep::Tok(LexTokV { t: TokenTypes::SemiColon, value: None, end: j + 1 })
    } else if c == '[' {
        LexStep::Tok(LexTokV { t: TokenTypes::OpenSquareBracket, value: None, end: j + 1 })
    } else if c == ']' {
        LexStep::Tok(LexTokV { t: TokenTypes::CloseSquareBracket, value: None, end: j + 1 })
    } else if c == '{' {
        LexStep::Tok(LexTokV { t: TokenTypes::OpenCurlyBracket, value: None, end: j + 1 })
    } else if c == '}' {
        LexStep::Tok(LexTokV { t: TokenTypes::CloseCurlyBracket, value: None, end: j + 1 })
    } else {
        LexStep::Fail("Syntax error, unknown token."@, j)
    }
}

/// The outcome of lexing a whole input: the token stream (ending in the
/// end-of-stream token), or the first fault.
#[verifier::ext_equal]
pub enum LexOut {
    Toks(Seq<TokenV>),
    Fail(Seq<char>, int),
}

/// The token stream of `src` from index `i` on.
pub open spec fn spec_lex(src: Seq<char>, i: int) -> LexOut
    decreases src.len() - i,
{
    let j = skip_trivia(src, i, false);
    if j < i || j > src.len() {
        LexOut::Fail(Seq::empty(), 0)
    } else if j == src.len() {
        LexOut::Toks(
            seq![
                TokenV {
                    t: TokenTypes::EndOfStream,
                    value: None,
                    row: row_at(src, j),
                    col: col_at(src, j),
                },
            ],
        )
    } else {
        match spec_token_at(src, j) {
            LexStep::Fail(m, at) => LexOut::Fail(m, at),
            LexStep::Tok(tk) => if tk.end <= j || tk.end > src.len() {
                LexOut::Fail(Seq::empty(), 0)
            } else {
                match spec_lex(src, tk.end) {
                    LexOut::Toks(rest) => LexOut::Toks(
                        seq![
                            TokenV {
                                t: tk.t,
                                value: tk.value,
                                row: row_at(src, j),
                                col: col_at(src, j),
                            },
                        ] + rest,
                    ),
                    LexOut::Fail(m, at) => LexOut::Fail(m, at),
                }
            },
        }
    }
}

/// Prefix a token run onto a lexing outcome.
pub open spec fn lex_prepend(ts: Seq<TokenV>, rest: LexOut) -> LexOut {
    match rest {
        LexOut::Toks(r) => LexOut::Toks(ts + r),
        LexOut::Fail(m, at) => LexOut::Fail(m, at),
    }
}

/// The names registered during the pre-scan: the text of every identifier
/// that immediately follows a token of kind `kw`.
pub open spec fn names_after(toks: Seq<TokenV>, kw: TokenTypes) -> Seq<Seq<char>>
    decreases toks.len(),
{
    if toks.len() < 2 {
        Seq::empty()
    } else {
        (if toks[0].t == kw && toks[1].t == TokenTypes::Identifier && toks[1].value is Some {
            seq![toks[1].value->Some_0]
        } else {
            Seq::empty()
        }) + names_after(toks.drop_first(), kw)
    }
}

/// Appending one token extends the registered names by at most the new
/// token's text.
pub proof fn lemma_names_after_snoc(toks: Seq<TokenV>, tok: TokenV, kw: TokenTypes)
    ensures
        names_after(toks.push(tok), kw) == names_after(toks, kw) + (if toks.len() > 0
            && toks.last().t == kw && tok.t == TokenTypes::Identifier && tok.value is Some {
            seq![tok.value->Some_0]
        } else {
            Seq::<Seq<char>>::empty()
        }),
    decreases toks.len(),
{
    let lhs = names_after(toks.push(tok), kw);
    let add: Seq<Seq<char>> = if toks.len() > 0 && toks.last().t == kw && tok.t
        == TokenTypes::Identifier && tok.value is Some {
        seq![tok.value->Some_0]
    } else {
        Seq::empty()
    };
    if toks.len() == 0 {
        assert(toks.push(tok).len() == 1);
        assert(lhs =~= names_after(toks, kw) + add);
    } else if toks.len() == 1 {
        assert(toks.push(tok)[0] == toks[0]);
        assert(toks.push(tok)[1] == tok);
        assert(toks.push(tok).drop_first() =~= seq![tok]);
        assert(names_after(toks.push(tok).drop_first(), kw) =~= Seq::<Seq<char>>::empty());
        assert(lhs =~= names_after(toks, kw) + add);
    } else {
        lemma_names_after_snoc(toks.drop_first(), tok, kw);
        assert(toks.push(tok).drop_first() =~= toks.drop_first().push(tok));
        assert(toks.push(tok)[0] == toks[0]);
        assert(toks.push(tok)[1] == toks[1]);
        assert(toks.drop_first().last() == toks.last());
        assert(lhs =~= names_after(toks, kw) + add);
    }
}

/// Whitespace test.
fn is_space_ex(c: char) -> (r: bool)
    ensures
        r == is_space(c),
{
    c == ' ' || c == '\t' || c == '\n' || c == '\r' || c == '\u{c}'
}

/// Identifier-start test.
fn is_alpha_ex(c: char) -> (r: bool)
    ensures
        r == is_alpha_ch(c),
{
    let cu = c as u32;
    (65 <= cu && cu <= 90) || (97 <= cu && cu <= 122) || c == '_'
}

/// Identifier-continuation test.
fn is_alnum_ex(c: char) -> (r: bool)
    ensures
        r == is_alnum_ch(c),
{
    let cu = c as u32;
    (65 <= cu && cu <= 90) || (97 <= cu && cu <= 122) || c == '_' || (48 <= cu && cu <= 57)
}

/// Digit test.
fn is_digit_ex(c: char) -> (r: bool)
    ensures
        r == is_digit_ch(c),
{
    let cu = c as u32;
    48 <= cu && cu <= 57
}

/// The tokenizer's working state: the source text (also held as a character
/// vector for indexed access), the tokens produced so far, the pre-scanned
/// struct and enum names, and the cursor with its row/column.
pub struct Tokenizer {
    pub src: String,
    pub chars: Vec<char>,
    pub tokens: Vec<Token>,
    pub structs: Vec<String>,
    pub enums: Vec<String>,
    pub row: u32,
    pub col: u32,
    pub pos: usize,
}

/// Collect the characters of a string into a vector.
fn to_char_vec(s: &str) -> (r: Vec<char>)
    ensures
        r@ == s@,
{
    let n = s.unicode_len();
    let mut v: Vec<char> = Vec::new();
    let mut i: usize = 0;
    while i < n
        invariant
            i <= n,
            n == s@.len(),
            v@ == s@.subrange(0, i as int),
        decreases n - i,
    {
        let c = s.get_char(i);
        v.push(c);
        proof {
            assert(v@ =~= s@.subrange(0, i + 1 as int));
        }
        i += 1;
    }
    proof {
        assert(s@.subrange(0, n as int) =~= s@);
    }
    v
}

impl Tokenizer {
    /// The cursor is inside the text, the character vector mirrors the text,
    /// and the row/column match the cursor.
    pub open spec fn wf(&self) -> bool {
        self.chars@ == self.src@ && self.pos <= self.chars@.len() && self.row as int == row_at(
            self.chars@,
            self.pos as int,
        ) && self.col as int == col_at(self.chars@, self.pos as int)
    }

    /// The source text being tokenized.
    pub open spec fn src_view(&self) -> Seq<char> {
        self.src@
    }

    /// Cursor position, as an index into the character sequence.
    pub open spec fn cursor(&self) -> int {
        self.pos as int
    }

    /// Constructor.
    pub fn new(src: String) -> (r: Tokenizer)
        ensures
            r.wf(),
            r.src_view() == src@,
            r.cursor() == 0,
            r.tokens@.len() == 0,
            r.structs@.len() == 0,
            r.enums@.len() == 0,
    {
        let chars = to_char_vec(src.as_str());
        Tokenizer {
            src,
            chars,
            tokens: Vec::new(),
            structs: Vec::new(),
            enums: Vec::new(),
            row: 1,
            col: 1,
            pos: 0,
        }
    }

    /// Advance to the next character, keeping row/column in step.
    fn advance(&mut self)
        requires
            old(self).wf(),
            old(self).cursor() < old(self).src_view().len(),
        ensures
            final(self).wf(),
            final(self).cursor() == old(self).cursor() + 1,
            final(self).src_view() == old(self).src_view(),
            final(self).tokens == old(self).tokens,
            final(self).structs == old(self).structs,
            final(self).enums == old(self).enums,
    {
        let n = self.chars.len();
        if self.chars[self.pos] == '\n' {
            if self.row < u32::MAX {
                self.row = self.row + 1;
            }
            self.col = 1;
        } else {
            if self.col < u32::MAX {
                self.col = self.col + 1;
            }
        }
        self.pos = self.pos + 1;
    }

    /// Skip whitespace and `#`-comments up to the next token.
    fn skip_trivia_ex(&mut self)
        requires
            old(self).wf(),
        ensures
            final(self).wf(),
            final(self).src_view() == old(self).src_view(),
            final(self).tokens == old(self).tokens,
            final(self).structs == old(self).structs,
            final(self).enums == old(self).enums,
            old(self).cursor() <= final(self).cursor() <= final(self).src_view().len(),
            final(self).cursor() == skip_trivia(old(self).src_view(), old(self).cursor(), false),
    {
        let ghost src = self.src@;
        let ghost start = self.pos as int;
        let mut in_comment = false;
        while self.pos < self.chars.len() && (in_comment || is_space_ex(self.chars[self.pos])
            || self.chars[self.pos] == '#')
            invariant
                self.wf(),
                self.src@ == src,
                self.tokens == old(self).tokens,
                self.structs == old(self).structs,
                self.enums == old(self).enums,
                start <= self.pos as int <= src.len(),
                skip_trivia(src, start, false) == skip_trivia(src, self.pos as int, in_comment),
            decreases src.len() - self.pos,
        {
            let c = self.chars[self.pos];
            if in_comment {
                if c == '\n' {
                    in_comment = false;
                }
            } else if c == '#' {
                in_comment = true;
            }
            self.advance();
        }
    }

    /// Scan the identifier-character run the cursor is on.
    fn alnum_run(&mut self)
        requires
            old(self).wf(),
        ensures
            final(self).wf(),
            final(self).src_view() == old(self).src_view(),
            final(self).tokens == old(self).tokens,
            final(self).structs == old(self).structs,
            final(self).enums == old(self).enums,
            old(self).cursor() <= final(self).cursor() <= final(self).src_view().len(),
            final(self).cursor() == alnum_end(old(self).src_view(), old(self).cursor()),
    {
        let ghost src = self.src@;
        let ghost start = self.pos as int;
        while self.pos < self.chars.len() && is_alnum_ex(self.chars[self.pos])
            invariant
                self.wf(),
                self.src@ == src,
                self.tokens == old(self).tokens,
                self.structs == old(self).structs,
                self.enums == old(self).enums,
                start <= self.pos as int <= src.len(),
                alnum_end(src, start) == alnum_end(src, self.pos as int),
            decreases src.len() - self.pos,
        {
            self.advance();
        }
    }

    /// Scan the digit run the cursor is on.
    fn digit_run(&mut self)
        requires
            old(self).wf(),
        ensures
            final(self).wf(),
            final(self).src_view() == old(self).src_view(),
            final(self).tokens == old(self).tokens,
            final(self).structs == old(self).structs,
            final(self).enums == old(self).enums,
            old(self).cursor() <= final(self).cursor() <= final(self).src_view().len(),
            final(self).cursor() == digit_end(old(self).src_view(), old(self).cursor()),
    {
        let ghost src = self.src@;
        let ghost start = self.pos as int;
        while self.pos < self.chars.len() && is_digit_ex(self.chars[self.pos])
            invariant
                self.wf(),
                self.src@ == src,
                self.tokens == old(self).tokens,
                self.structs == old(self).structs,
                self.enums == old(self).enums,
                start <= self.pos as int <= src.len(),
                digit_end(src, start) == digit_end(src, self.pos as int),
            decreases src.len() - self.pos,
        {
            self.advance();
        }
    }

    /// The text between two cursor positions.
    fn span_text(&self, start: usize, end: usize) -> (r: String)
        requires
            self.wf(),
            start <= end <= self.src_view().len(),
        ensures
            r@ == self.src_view().subrange(start as int, end as int),
    {
        self.src.as_str().substring_char(start, end).to_owned()
    }

    /// Return an identifier or keyword token consumed from the input.
    fn id(&mut self) -> (r: Token)
        requires
            old(self).wf(),
            old(self).cursor() < old(self).src_view().len(),
            is_alpha_ch(old(self).src_view()[old(self).cursor()]),
        ensures
            final(self).wf(),
            final(self).src_view() == old(self).src_view(),
            final(self).tokens == old(self).tokens,
            final(self).structs == old(self).structs,
            final(self).enums == old(self).enums,
            final(self).cursor() > old(self).cursor(),
            spec_token_at(old(self).src_view(), old(self).cursor()) == LexStep::Tok(
                LexTokV { t: r@.t, value: r@.value, end: final(self).cursor() },
            ),
            r@.row == row_at(old(self).src_view(), old(self).cursor()),
            r@.col == col_at(old(self).src_view(), old(self).cursor()),
    {
        let num_row = self.row;
        let num_col = self.col;
        let start = self.pos;
        self.alnum_run();
        proof {
            lemma_alnum_end_ge(self.src@, start as int + 1);
            assert(alnum_end(self.src@, start as int) >= start as int + 1);
        }
        let text = self.span_text(start, self.pos);
        if str_eq(text.as_str(), "version") {
            Token { t: TokenTypes::Version, value: None, row: num_row, col: num_col }
        } else if str_eq(text.as_str(), "package") {
            Token { t: TokenTypes::Package, value: None, row: num_row, col: num_col }
        } else if str_eq(text.as_str(), "struct") {
            Token { t: TokenTypes::Struct, value: None, row: num_row, col: num_col }
        } else if str_eq(text.as_str(), "enum") {
            Token { t: TokenTypes::Enum, value: None, row: num_row, col: num_col }
        } else {
            Token { t: TokenTypes::Identifier, value: Some(text), row: num_row, col: num_col }
        }
    }

    /// Return an unsigned integer or semantic version token consumed from
    /// the input, or the fault for a malformed version literal.
    fn number(&mut self) -> (r: Result<Token, CompileError>)
        requires
            old(self).wf(),
            old(self).cursor() < old(self).src_view().len(),
            !is_alpha_ch(old(self).src_view()[old(self).cursor()]),
            is_digit_ch(old(self).src_view()[old(self).cursor()]),
        ensures
            final(self).wf(),
            final(self).src_view() == old(self).src_view(),
            final(self).tokens == old(self).tokens,
            final(self).structs == old(self).structs,
            final(self).enums == old(self).enums,
            r matches Ok(tok) ==> final(self).cursor() > old(self).cursor() && spec_token_at(
                old(self).src_view(),
                old(self).cursor(),
            ) == LexStep::Tok(
                LexTokV { t: tok@.t, value: tok@.value, end: final(self).cursor() },
            ) && tok@.row == row_at(old(self).src_view(), old(self).cursor()) && tok@.col == col_at(
                old(self).src_view(),
                old(self).cursor(),
            ),
            final(self).cursor() >= old(self).cursor(),
            r matches Err(e) ==> (spec_token_at(old(self).src_view(), old(self).cursor()) matches
                LexStep::Fail(m, at) && e@.msg == m && at == old(self).cursor() && e@.row == row_at(
                old(self).src_view(),
                at,
            ) && e@.col == col_at(old(self).src_view(), at) && e@.ctx == ErrorType::Tokenizer),
    {
        let ghost src = self.src@;
        let num_row = self.row;
        let num_col = self.col;
        let start = self.pos;
        self.digit_run();
        proof {
            lemma_digit_end_ge(src, start as int + 1);
            assert(digit_end(src, start as int) >= start as int + 1);
        }
        if self.pos < self.chars.len() && self.chars[self.pos] == '.' {
            self.advance();
            let minor_start = self.pos;
            self.digit_run();
            if self.pos == minor_start {
                return Err(
                    error(
                        ErrorType::Tokenizer,
                        "Expected semantic version as MAJOR.MINOR.PATCH.",
                        1,
                        num_row,
                        num_col,
                    ),
                );
            }
            if self.pos < self.chars.len() && self.chars[self.pos] == '.' {
                self.advance();
                let patch_start = self.pos;
                self.digit_run();
                if self.pos == patch_start {
                    return Err(
                        error(
                            ErrorType::Tokenizer,
                            "Expected semantic version as MAJOR.MINOR.PATCH.",
                            1,
                            num_row,
                            num_col,
                        ),
                    );
                }
                let text = self.span_text(start, self.pos);
                Ok(
                    Token {
                        t: TokenTypes::SemanticVersion,
                        value: Some(text),
                        row: num_row,
                        col: num_col,
                    },
                )
            } else {
                Err(
                    error(
                        ErrorType::Tokenizer,
                        "Expected semantic version as MAJOR.MINOR.PATCH.",
                        1,
                        num_row,
                        num_col,
                    ),
                )
            }
        } else {
            let text = self.span_text(start, self.pos);
            Ok(Token { t: TokenTypes::UInt, value: Some(text), row: num_row, col: num_col })
        }
    }

    /// Get the next token in the input, skipping whitespace and comments.
    pub fn get_next_token(&mut self) -> (r: Result<Token, CompileError>)
        requires
            old(self).wf(),
        ensures
            final(self).wf(),
            final(self).src_view() == old(self).src_view(),
            final(self).tokens == old(self).tokens,
            final(self).structs == old(self).structs,
            final(self).enums == old(self).enums,
            final(self).cursor() >= old(self).cursor(),
            r matches Ok(tok) ==> (if tok@.t == TokenTypes::EndOfStream {
                spec_lex(old(self).src_view(), old(self).cursor()) == LexOut::Toks(seq![tok@])
                    && final(self).cursor() == final(self).src_view().len()
            } else {
                final(self).cursor() > old(self).cursor() && spec_lex(
                    old(self).src_view(),
                    old(self).cursor(),
                ) == lex_prepend(
                    seq![tok@],
                    spec_lex(old(self).src_view(), final(self).cursor()),
                )
            }),
            r matches Err(e) ==> (spec_lex(old(self).src_view(), old(self).cursor()) matches
                LexOut::Fail(m, at) && e@.msg == m && e@.row == row_at(old(self).src_view(), at)
                && e@.col == col_at(old(self).src_view(), at) && e@.ctx == ErrorType::Tokenizer),
    {
        let ghost src = self.src@;
        let ghost start = self.pos as int;
        self.skip_trivia_ex();
        let ghost j = self.pos as int;
        if self.pos >= self.chars.len() {
            return Ok(
                Token { t: TokenTypes::EndOfStream, value: None, row: self.row, col: self.col },
            );
        }
        let c = self.chars[self.pos];
        if is_alpha_ex(c) {
            let tok = self.id();
            proof {
                assert(spec_lex(src, start) == lex_prepend(
                    seq![tok@],
                    spec_lex(src, self.pos as int),
                ));
            }
            Ok(tok)
        } else if is_digit_ex(c) {
            let r = self.number();
            match r {
                Ok(tok) => {
                    proof {
                        assert(spec_lex(src, start) == lex_prepend(
                            seq![tok@],
                            spec_lex(src, self.pos as int),
                        ));
                    }
                    Ok(tok)
                },
                Err(e) => Err(e),
            }
        } else if c == ':' || c == ';' || c == '[' || c == ']' || c == '{' || c == '}' {
            let num_row = self.row;
            let num_col = self.col;
            let t = if c == ':' {
                TokenTypes::Colon
            } else if c == ';' {
                TokenTypes::SemiColon
            } else if c == '[' {
                TokenTypes::OpenSquareBracket
            } else if c == ']' {
                TokenTypes::CloseSquareBracket
            } else if c == '{' {
                TokenTypes::OpenCurlyBracket
            } else {
                TokenTypes::CloseCurlyBracket
            };
            self.advance();
            let tok = Token { t, value: None, row: num_row, col: num_col };
            proof {
                assert(spec_lex(src, start) == lex_prepend(
                    seq![tok@],
                    spec_lex(src, self.pos as int),
                ));
            }
            Ok(tok)
        } else {
            Err(error(ErrorType::Tokenizer, "Syntax error, unknown token.", 1, self.row, self.col))
        }
    }

    /// Divide the source text into tokens, ending with the end-of-stream
    /// token, and register the struct and enum names seen after their
    /// keywords. Stops at the first fault.
    pub fn tokenize(&mut self) -> (r: Result<(), CompileError>)
        requires
            old(self).wf(),
            old(self).cursor() == 0,
            old(self).tokens@.len() == 0,
            old(self).structs@.len() == 0,
            old(self).enums@.len() == 0,
        ensures
            final(self).wf(),
            final(self).src_view() == old(self).src_view(),
            r matches Ok(u) ==> (spec_lex(old(self).src_view(), 0) == LexOut::Toks(
                final(self).tokens@.map_values(|t: Token| t@),
            ) && final(self).structs@.map_values(|s: String| s@) == names_after(
                final(self).tokens@.map_values(|t: Token| t@),
                TokenTypes::Struct,
            ) && final(self).enums@.map_values(|s: String| s@) == names_after(
                final(self).tokens@.map_values(|t: Token| t@),
                TokenTypes::Enum,
            )),
            r matches Err(e) ==> (spec_lex(old(self).src_view(), 0) matches LexOut::Fail(m, at)
                && e@.msg == m && e@.row == row_at(old(self).src_view(), at) && e@.col == col_at(
                old(self).src_view(),
                at,
            ) && e@.ctx == ErrorType::Tokenizer),
    {
        let ghost src = self.src@;
        loop
            invariant
                self.wf(),
                self.src@ == src,
                src == old(self).src@,
                self.pos <= self.chars@.len(),
                spec_lex(src, 0) == lex_prepend(
                    self.tokens@.map_values(|t: Token| t@),
                    spec_lex(src, self.pos as int),
                ),
                self.structs@.map_values(|s: String| s@) == names_after(
                    self.tokens@.map_values(|t: Token| t@),
                    TokenTypes::Struct,
                ),
                self.enums@.map_values(|s: String| s@) == names_after(
                    self.tokens@.map_values(|t: Token| t@),
                    TokenTypes::Enum,
                ),
            decreases src.len() - self.pos + 1,
        {
            let ghost ts0 = self.tokens@.map_values(|t: Token| t@);
            let ghost pos0 = self.pos as int;
            let prev_t: Option<TokenTypes> = if self.tokens.len() > 0 {
                Some(self.tokens[self.tokens.len() - 1].t)
            } else {
                None
            };
            match self.get_next_token() {
                Ok(tok) => {
                    let is_eos = match tok.t {
                        TokenTypes::EndOfStream => true,
                        _ => false,
                    };
                    let ghost tokv = tok@;
                    match (prev_t, &tok.t, &tok.value) {
                        (Some(TokenTypes::Struct), TokenTypes::Identifier, Some(name)) => {
                            self.structs.push(name.clone());
                        },
                        (Some(TokenTypes::Enum), TokenTypes::Identifier, Some(name)) => {
                            self.enums.push(name.clone());
                        },
                        _ => {},
                    }
                    self.tokens.push(tok);
                    proof {
                        assert(self.tokens@.map_values(|t: Token| t@) =~= ts0.push(tokv));
                        lemma_names_after_snoc(ts0, tokv, TokenTypes::Struct);
                        lemma_names_after_snoc(ts0, tokv, TokenTypes::Enum);
                        if ts0.len() > 0 {
                            assert(ts0.last() == self.tokens@.map_values(|t: Token| t@)[ts0.len()
                                - 1]);
                        }
                        assert(self.structs@.map_values(|s: String| s@) =~= names_after(
                            ts0.push(tokv),
                            TokenTypes::Struct,
                        ));
                        assert(self.enums@.map_values(|s: String| s@) =~= names_after(
                            ts0.push(tokv),
                            TokenTypes::Enum,
                        ));
                        if is_eos {
                            assert(ts0.push(tokv) =~= ts0 + seq![tokv]);
                            assert(spec_lex(src, 0) == LexOut::Toks(ts0.push(tokv)));
                        } else {
                            assert(spec_lex(src, pos0) == lex_prepend(
                                seq![tokv],
                                spec_lex(src, self.pos as int),
                            ));
                            assert(spec_lex(src, 0) == lex_prepend(
                                ts0.push(tokv),
                                spec_lex(src, self.pos as int),
                            )) by {
                                if spec_lex(src, self.pos as int) is Toks {
                                    let rest = spec_lex(src, self.pos as int)->Toks_0;
                                    assert(ts0 + (seq![tokv] + rest) =~= ts0.push(tokv) + rest);
                                }
                            }
                        }
                    }
                    if is_eos {
                        return Ok(());
                    }
                },
                Err(e) => {
                    return Err(e);
                },
            }
        }
    }
}

} // verus!
