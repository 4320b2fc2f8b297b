//! The lexer: grammar text to a token stream.
//!
//! `lex_from` is the mathematical definition of lexing; `tokenize` is the
//! executable lexer, proved to return exactly what `lex_from` says.

use vstd::prelude::*;

use crate::token::{Found, SyntaxError, Token, TokenV, toks_view};

verus! {

/// Whitespace between tokens.
pub open spec fn is_space(c: char) -> bool {
    c == ' ' || c == '\n' || c == '\t' || c == '\r'
}

/// A character that may open a word: a letter or an underscore.
pub open spec fn is_ident_start(c: char) -> bool {
    ('a' <= c && c <= 'z') || ('A' <= c && c <= 'Z') || c == '_'
}

/// A character that may continue a word.
pub open spec fn is_ident_char(c: char) -> bool {
    is_ident_start(c) || ('0' <= c && c <= '9')
}

/// The first position at or after `i` that does not continue a word.
pub open spec fn ident_end(s: Seq<char>, i: nat) -> nat
    decreases s.len() - i,
    when i <= s.len()
{
    if i < s.len() && is_ident_char(s[i as int]) {
        ident_end(s, i + 1)
    } else {
        i
    }
}

pub proof fn lemma_ident_end_bounds(s: Seq<char>, i: nat)
    requires
        i <= s.len(),
    ensures
        i <= ident_end(s, i) <= s.len(),
    decreases s.len() - i,
{
    if i < s.len() && is_ident_char(s[i as int]) {
        lemma_ident_end_bounds(s, i + 1);
    }
}

/// The token a completed word stands for: the two keywords are
/// recognised, every other word is an identifier.
pub open spec fn word_token(w: Seq<char>) -> TokenV {
    if w == seq!['s', 't', 'r', 'u', 'c', 't'] {
        TokenV::KwStruct
    } else if w == seq!['e', 'n', 'u', 'm'] {
        TokenV::KwEnum
    } else {
        TokenV::Ident(w)
    }
}

/// The token a punctuation character stands for, if any.
pub open spec fn punct_token(c: char) -> Option<TokenV> {
    if c == ':' {
        Some(TokenV::Colon)
    } else if c == ',' {
        Some(TokenV::Comma)
    } else if c == '|' {
        Some(TokenV::Pipe)
    } else if c == '{' {
        Some(TokenV::LBrace)
    } else if c == '}' {
        Some(TokenV::RBrace)
    } else if c == '(' {
        Some(TokenV::LParen)
    } else if c == ')' {
        Some(TokenV::RParen)
    } else if c == '<' {
        Some(TokenV::Lt)
    } else if c == '>' {
        Some(TokenV::Gt)
    } else {
        None
    }
}

/// Lexing from position `i` on: the token stream of the rest of the
/// text, or the position of the first character that fits no token.
pub open spec fn lex_from(s: Seq<char>, i: nat) -> Result<Seq<TokenV>, nat>
    decreases s.len() - i,
    when i <= s.len()
    via lex_from_decreases
{
    if i >= s.len() {
        Ok(seq![])
    } else if is_space(s[i as int]) {
        lex_from(s, i + 1)
    } else if is_ident_start(s[i as int]) {
        let j = ident_end(s, i + 1);
        match lex_from(s, j) {
            Ok(ts) => Ok(seq![word_token(s.subrange(i as int, j as int))] + ts),
            Err(p) => Err(p),
        }
    } else {
        match punct_token(s[i as int]) {
            Some(t) => match lex_from(s, i + 1) {
                Ok(ts) => Ok(seq![t] + ts),
                Err(p) => Err(p),
            },
            None => Err(i),
        }
    }
}

#[via_fn]
proof fn lex_from_decreases(s: Seq<char>, i: nat) {
    if i < s.len() && !is_space(s[i as int]) && is_ident_start(s[i as int]) {
        lemma_ident_end_bounds(s, i + 1);
    }
}

/// Executable test for `is_space`.
fn is_space_exec(c: char) -> (r: bool)
    ensures
        r == is_space(c),
{
    c == ' ' || c == '\n' || c == '\t' || c == '\r'
}

/// Executable test for `is_ident_start`.
fn is_ident_start_exec(c: char) -> (r: bool)
    ensures
        r == is_ident_start(c),
{
    ('a' <= c && c <= 'z') || ('A' <= c && c <= 'Z') || c == '_'
}

/// Executable test for `is_ident_char`.
fn is_ident_char_exec(c: char) -> (r: bool)
    ensures
        r == is_ident_char(c),
{
    is_ident_start_exec(c) || ('0' <= c && c <= '9')
}

/// Appends a prefix of tokens to a lexing outcome.
pub open spec fn lex_append(ts: Seq<TokenV>, r: Result<Seq<TokenV>, nat>) -> Result<
    Seq<TokenV>,
    nat,
> {
    match r {
        Ok(rest) => Ok(ts + rest),
        Err(p) => Err(p),
    }
}

/// The executable lexer. Returns the token stream `lex_from` describes,
/// or a diagnostic naming the first character that fits no token.
pub fn tokenize(input: &Vec<char>) -> (r: Result<Vec<Token>, SyntaxError>)
    ensures
        match r {
            Ok(toks) => lex_from(input@, 0) == Ok::<Seq<TokenV>, nat>(toks_view(toks@)),
            Err(e) => {
                &&& lex_from(input@, 0) == Err::<Seq<TokenV>, nat>(e.pos as nat)
                &&& e.pos < input.len()
                &&& e@.found == crate::token::FoundV::Chr(input@[e.pos as int])
                &&& e@.expected =~= seq!["a grammar token"@]
            },
        },
{
    let n = input.len();
    let mut toks: Vec<Token> = Vec::new();
    let mut i: usize = 0;
    proof {
        assert(toks_view(toks@) =~= Seq::<TokenV>::empty());
    }
    while i < n
        invariant
            i <= n,
            n == input.len(),
            lex_from(input@, 0) == lex_append(toks_view(toks@), lex_from(input@, i as nat)),
        decreases n - i,
    {
        let c = input[i];
        if is_space_exec(c) {
            i = i + 1;
        } else if is_ident_start_exec(c) {
            let ghost i0 = i as nat;
            let mut word = String::new();
            push_char(&mut word, c);
            let mut j = i + 1;
            while j < n && is_ident_char_exec(input[j])
                invariant
                    i0 < j <= n,
                    n == input.len(),
                    ident_end(input@, (i0 + 1) as nat) == ident_end(input@, j as nat),
                    word@ =~= input@.subrange(i0 as int, j as int),
                decreases n - j,
            {
                push_char(&mut word, input[j]);
                j = j + 1;
            }
            proof {
                assert(ident_end(input@, j as nat) == j as nat);
                assert(word@ =~= input@.subrange(i0 as int, j as int));
            }
            let ghost tv0 = toks_view(toks@);
            let tok = word_token_exec(word);
            toks.push(tok);
            proof {
                let s = input@;
                let rest = lex_from(s, j as nat);
                assert(lex_from(s, i0) == lex_append(
                    seq![word_token(s.subrange(i0 as int, j as int))],
                    rest,
                ));
                assert(toks_view(toks@) =~= tv0 + seq![tok@]);
                match rest {
                    Ok(ts) => {
                        assert(tv0 + (seq![tok@] + ts) =~= toks_view(toks@) + ts);
                    },
                    Err(_) => {},
                }
            }
            i = j;
        } else {
            let t_opt = punct_token_exec(c);
            match t_opt {
                Some(t) => {
                    let ghost tv0 = toks_view(toks@);
                    let ghost tv = t@;
                    toks.push(t);
                    proof {
                        let s = input@;
                        let rest = lex_from(s, (i + 1) as nat);
                        assert(toks_view(toks@) =~= tv0 + seq![tv]);
                        match rest {
                            Ok(ts) => {
                                assert(tv0 + (seq![tv] + ts) =~= toks_view(toks@) + ts);
                            },
                            Err(_) => {},
                        }
                    }
                    i = i + 1;
                },
                None => {
                    let mut expected: Vec<String> = Vec::new();
                    expected.push(String::from_str("a grammar token"));
                    proof {
                        assert(expected@.map_values(|s: String| s@) =~= seq!["a grammar token"@]);
                    }
                    return Err(SyntaxError { pos: i, found: Found::Chr(c), expected });
                },
            }
        }
    }
    proof {
        assert(lex_from(input@, n as nat) == Ok::<Seq<TokenV>, nat>(seq![]));
        assert(toks_view(toks@) + seq![] =~= toks_view(toks@));
    }
    Ok(toks)
}

/// Pushes one character onto a string.
///
/// Relies on `String::push` from std: appends the character at the end.
#[verifier::external_body]
pub(crate) fn push_char(s: &mut String, c: char)
    ensures
        final(s)@ == old(s)@.push(c),
{
    s.push(c);
}

/// Turns a completed word into its token, recognising the two keywords.
fn word_token_exec(word: String) -> (t: Token)
    ensures
        t@ == word_token(word@),
{
    let n = word.as_str().unicode_len();
    if n == 6 && word.as_str().get_char(0) == 's' && word.as_str().get_char(1) == 't'
        && word.as_str().get_char(2) == 'r' && word.as_str().get_char(3) == 'u'
        && word.as_str().get_char(4) == 'c' && word.as_str().get_char(5) == 't' {
        proof {
            assert(word@ =~= seq!['s', 't', 'r', 'u', 'c', 't']);
        }
        Token::KwStruct
    } else if n == 4 && word.as_str().get_char(0) == 'e' && word.as_str().get_char(1) == 'n'
        && word.as_str().get_char(2) == 'u' && word.as_str().get_char(3) == 'm' {
        proof {
            assert(word@ =~= seq!['e', 'n', 'u', 'm']);
        }
        Token::KwEnum
    } else {
        proof {
            if word@ == seq!['s', 't', 'r', 'u', 'c', 't'] {
                assert(word@.len() == 6 && word@[0] == 's' && word@[1] == 't' && word@[2] == 'r'
                    && word@[3] == 'u' && word@[4] == 'c' && word@[5] == 't');
            }
            if word@ == seq!['e', 'n', 'u', 'm'] {
                assert(word@.len() == 4 && word@[0] == 'e' && word@[1] == 'n' && word@[2] == 'u'
                    && word@[3] == 'm');
            }
        }
        Token::Ident(word)
    }
}

/// Turns a punctuation character into its token, if it is one.
fn punct_token_exec(c: char) -> (t: Option<Token>)
    ensures
        match t {
            Some(tok) => punct_token(c) == Some(tok@),
            None => punct_token(c) is None,
        },
{
    if c == ':' {
        Some(Token::Colon)
    } else if c == ',' {
        Some(Token::Comma)
    } else if c == '|' {
        Some(Token::Pipe)
    } else if c == '{' {
        Some(Token::LBrace)
    } else if c == '}' {
        Some(Token::RBrace)
    } else if c == '(' {
        Some(Token::LParen)
    } else if c == ')' {
        Some(Token::RParen)
    } else if c == '<' {
        Some(Token::Lt)
    } else if c == '>' {
        Some(Token::Gt)
    } else {
        None
    }
}

} // verus!
