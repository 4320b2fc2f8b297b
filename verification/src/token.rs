//! Tokens of the grammar surface, and the diagnostic type every stage of
//! the pipeline reports with.

use vstd::prelude::*;

verus! {

/// A lexical token of a grammar description.
#[derive(Debug, Clone, PartialEq, Eq)]
pub enum Token {
    /// An identifier or keyword-free word: `[A-Za-z_][A-Za-z0-9_]*`.
    Ident(String),
    /// The keyword `struct`.
    KwStruct,
    /// The keyword `enum`.
    KwEnum,
    /// `:`
    Colon,
    /// `,`
    Comma,
    /// `|`
    Pipe,
    /// `{`
    LBrace,
    /// `}`
    RBrace,
    /// `(`
    LParen,
    /// `)`
    RParen,
    /// `<`
    Lt,
    /// `>`
    Gt,
}

/// The mathematical view of a token.
#[verifier::ext_equal]
pub enum TokenV {
    Ident(Seq<char>),
    KwStruct,
    KwEnum,
    Colon,
    Comma,
    Pipe,
    LBrace,
    RBrace,
    LParen,
    RParen,
    Lt,
    Gt,
}

impl View for Token {
    type V = TokenV;

    open spec fn view(&self) -> TokenV {
        match self {
            Token::Ident(s) => TokenV::Ident(s@),
            Token::KwStruct => TokenV::KwStruct,
            Token::KwEnum => TokenV::KwEnum,
            Token::Colon => TokenV::Colon,
            Token::Comma => TokenV::Comma,
            Token::Pipe => TokenV::Pipe,
            Token::LBrace => TokenV::LBrace,
            Token::RBrace => TokenV::RBrace,
            Token::LParen => TokenV::LParen,
            Token::RParen => TokenV::RParen,
            Token::Lt => TokenV::Lt,
            Token::Gt => TokenV::Gt,
        }
    }
}

/// The view of a token stream.
pub open spec fn toks_view(toks: Seq<Token>) -> Seq<TokenV> {
    toks.map_values(|t: Token| t@)
}

/// What the parser ran into where it expected something else: a token, a
/// raw character the lexer could not form a token from, or the end of the
/// description.
#[derive(Debug, Clone, PartialEq, Eq)]
pub enum Found {
    Tok(Token),
    Chr(char),
    End,
}

/// The view of a `Found`.
#[verifier::ext_equal]
pub enum FoundV {
    Tok(TokenV),
    Chr(char),
    End,
}

impl View for Found {
    type V = FoundV;

    open spec fn view(&self) -> FoundV {
        match self {
            Found::Tok(t) => FoundV::Tok(t@),
            Found::Chr(c) => FoundV::Chr(*c),
            Found::End => FoundV::End,
        }
    }
}

/// A diagnostic: the position of the offending token (an index into the
/// token stream, or into the input text when lexing failed), what stood
/// there, and the alternatives that were expected instead.
#[derive(Debug, Clone, PartialEq, Eq)]
pub struct SyntaxError {
    pub pos: usize,
    pub found: Found,
    pub expected: Vec<String>,
}

/// The view of a diagnostic.
#[verifier::ext_equal]
pub struct SyntaxErrorV {
    pub pos: nat,
    pub found: FoundV,
    pub expected: Seq<Seq<char>>,
}

impl View for SyntaxError {
    type V = SyntaxErrorV;

    open spec fn view(&self) -> SyntaxErrorV {
        SyntaxErrorV {
            pos: self.pos as nat,
            found: self.found@,
            expected: self.expected@.map_values(|s: String| s@),
        }
    }
}

} // verus!
