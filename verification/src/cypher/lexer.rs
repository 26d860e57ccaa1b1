//! Cypher-Lite lexer. Hand-rolled over the characters of the query; spans are
//! byte offsets into the UTF-8 query string.

use vstd::prelude::*;
use vstd::utf8::{encode_utf8, encode_scalar};
use vstd::string::StringSliceAdditionalSpecFns;
use crate::cypher::error::CypherError;
use crate::text::{chars_of, chars_equal, string_from_chars, push_chars};

verus! {

/// A lexical token of Cypher-Lite. A float literal carries its source text.
#[derive(Debug, PartialEq)]
pub enum Token {
    // Keywords (supported)
    Match,
    Where,
    Return,
    Order,
    By,
    Limit,
    Skip,
    Distinct,
    And,
    Or,
    Not,
    Is,
    Null,
    Contains,
    Starts,
    Ends,
    With,
    As,
    Asc,
    Desc,
    True,
    False,
    In,
    // Keywords recognised so that out-of-scope clauses can be reported
    Unwind,
    Merge,
    Create,
    Delete,
    SetKeyword,
    Remove,
    Optional,
    // Symbols
    LParen, // (
    RParen, // )
    LBracket, // [
    RBracket, // ]
    LBrace, // {
    RBrace, // }
    Comma, // ,
    Dot, // .
    Colon, // :
    Semicolon, // ;
    Minus, // -
    Star, // *
    Pipe, // |
    Arrow, // ->
    LeftArrow, // <-
    DoubleDash, // --
    Lt, // <
    Gt, // >
    Le, // <=
    Ge, // >=
    Eq, // =
    Neq, // != or <>
    RegexEq, // =~
    // Literals and identifiers
    StringLit(String),
    IntLit(i64),
    FloatLit(String),
    Ident(String),
}

/// The mathematical view of a `Token`: strings are character sequences.

pub enum TokenV {
    // Keywords (supported)
    Match,
    Where,
    Return,
    Order,
    By,
    Limit,
    Skip,
    Distinct,
    And,
    Or,
    Not,
    Is,
    Null,
    Contains,
    Starts,
    Ends,
    With,
    As,
    Asc,
    Desc,
    True,
    False,
    In,
    // Keywords recognised so that out-of-scope clauses can be reported
    Unwind,
    Merge,
    Create,
    Delete,
    SetKeyword,
    Remove,
    Optional,
    // Symbols
    LParen, // (
    RParen, // )
    LBracket, // [
    RBracket, // ]
    LBrace, // {
    RBrace, // }
    Comma, // ,
    Dot, // .
    Colon, // :
    Semicolon, // ;
    Minus, // -
    Star, // *
    Pipe, // |
    Arrow, // ->
    LeftArrow, // <-
    DoubleDash, // --
    Lt, // <
    Gt, // >
    Le, // <=
    Ge, // >=
    Eq, // =
    Neq, // != or <>
    RegexEq, // =~
    // Literals and identifiers
    StringLit(Seq<char>),
    IntLit(i64),
    FloatLit(Seq<char>),
    Ident(Seq<char>),
}

impl View for Token {
    type V = TokenV;

    open spec fn view(&self) -> TokenV {
        match self {
            Token::Match => TokenV::Match,
            Token::Where => TokenV::Where,
            Token::Return => TokenV::Return,
            Token::Order => TokenV::Order,
            Token::By => TokenV::By,
            Token::Limit => TokenV::Limit,
            Token::Skip => TokenV::Skip,
            Token::Distinct => TokenV::Distinct,
            Token::And => TokenV::And,
            Token::Or => TokenV::Or,
            Token::Not => TokenV::Not,
            Token::Is => TokenV::Is,
            Token::Null => TokenV::Null,
            Token::Contains => TokenV::Contains,
            Token::Starts => TokenV::Starts,
            Token::Ends => TokenV::Ends,
            Token::With => TokenV::With,
            Token::As => TokenV::As,
            Token::Asc => TokenV::Asc,
            Token::Desc => TokenV::Desc,
            Token::True => TokenV::True,
            Token::False => TokenV::False,
            Token::In => TokenV::In,
            Token::Unwind => TokenV::Unwind,
            Token::Merge => TokenV::Merge,
            Token::Create => TokenV::Create,
            Token::Delete => TokenV::Delete,
            Token::SetKeyword => TokenV::SetKeyword,
            Token::Remove => TokenV::Remove,
            Token::Optional => TokenV::Optional,
            Token::LParen => TokenV::LParen,
            Token::RParen => TokenV::RParen,
            Token::LBracket => TokenV::LBracket,
            Token::RBracket => TokenV::RBracket,
            Token::LBrace => TokenV::LBrace,
            Token::RBrace => TokenV::RBrace,
            Token::Comma => TokenV::Comma,
            Token::Dot => TokenV::Dot,
            Token::Colon => TokenV::Colon,
            Token::Semicolon => TokenV::Semicolon,
            Token::Minus => TokenV::Minus,
            Token::Star => TokenV::Star,
            Token::Pipe => TokenV::Pipe,
            Token::Arrow => TokenV::Arrow,
            Token::LeftArrow => TokenV::LeftArrow,
            Token::DoubleDash => TokenV::DoubleDash,
            Token::Lt => TokenV::Lt,
            Token::Gt => TokenV::Gt,
            Token::Le => TokenV::Le,
            Token::Ge => TokenV::Ge,
            Token::Eq => TokenV::Eq,
            Token::Neq => TokenV::Neq,
            Token::RegexEq => TokenV::RegexEq,
            Token::StringLit(s) => TokenV::StringLit(s@),
            Token::IntLit(i) => TokenV::IntLit(*i),
            Token::FloatLit(s) => TokenV::FloatLit(s@),
            Token::Ident(s) => TokenV::Ident(s@),
        }
    }
}

impl Token {
    /// A copy of this token.
    pub fn duplicate(&self) -> (t: Token)
        ensures
            t@ == self@,
    {
        match self {
            Token::Match => Token::Match,
            Token::Where => Token::Where,
            Token::Return => Token::Return,
            Token::Order => Token::Order,
            Token::By => Token::By,
            Token::Limit => Token::Limit,
            Token::Skip => Token::Skip,
            Token::Distinct => Token::Distinct,
            Token::And => Token::And,
            Token::Or => Token::Or,
            Token::Not => Token::Not,
            Token::Is => Token::Is,
            Token::Null => Token::Null,
            Token::Contains => Token::Contains,
            Token::Starts => Token::Starts,
            Token::Ends => Token::Ends,
            Token::With => Token::With,
            Token::As => Token::As,
            Token::Asc => Token::Asc,
            Token::Desc => Token::Desc,
            Token::True => Token::True,
            Token::False => Token::False,
            Token::In => Token::In,
            Token::Unwind => Token::Unwind,
            Token::Merge => Token::Merge,
            Token::Create => Token::Create,
            Token::Delete => Token::Delete,
            Token::SetKeyword => Token::SetKeyword,
            Token::Remove => Token::Remove,
            Token::Optional => Token::Optional,
            Token::LParen => Token::LParen,
            Token::RParen => Token::RParen,
            Token::LBracket => Token::LBracket,
            Token::RBracket => Token::RBracket,
            Token::LBrace => Token::LBrace,
            Token::RBrace => Token::RBrace,
            Token::Comma => Token::Comma,
            Token::Dot => Token::Dot,
            Token::Colon => Token::Colon,
            Token::Semicolon => Token::Semicolon,
            Token::Minus => Token::Minus,
            Token::Star => Token::Star,
            Token::Pipe => Token::Pipe,
            Token::Arrow => Token::Arrow,
            Token::LeftArrow => Token::LeftArrow,
            Token::DoubleDash => Token::DoubleDash,
            Token::Lt => Token::Lt,
            Token::Gt => Token::Gt,
            Token::Le => Token::Le,
            Token::Ge => Token::Ge,
            Token::Eq => Token::Eq,
            Token::Neq => Token::Neq,
            Token::RegexEq => Token::RegexEq,
            Token::StringLit(s) => Token::StringLit(s.clone()),
            Token::IntLit(i) => Token::IntLit(*i),
            Token::FloatLit(s) => Token::FloatLit(s.clone()),
            Token::Ident(s) => Token::Ident(s.clone()),
        }
    }

    /// Whether two tokens are the same token (same kind and same payload).
    pub fn same_as(&self, other: &Token) -> (r: bool)
        ensures
            r == (self@ == other@),
    {
        match self {
            Token::Match => matches!(other, Token::Match),
            Token::Where => matches!(other, Token::Where),
            Token::Return => matches!(other, Token::Return),
            Token::Order => matches!(other, Token::Order),
            Token::By => matches!(other, Token::By),
            Token::Limit => matches!(other, Token::Limit),
            Token::Skip => matches!(other, Token::Skip),
            Token::Distinct => matches!(other, Token::Distinct),
            Token::And => matches!(other, Token::And),
            Token::Or => matches!(other, Token::Or),
            Token::Not => matches!(other, Token::Not),
            Token::Is => matches!(other, Token::Is),
            Token::Null => matches!(other, Token::Null),
            Token::Contains => matches!(other, Token::Contains),
            Token::Starts => matches!(other, Token::Starts),
            Token::Ends => matches!(other, Token::Ends),
            Token::With => matches!(other, Token::With),
            Token::As => matches!(other, Token::As),
            Token::Asc => matches!(other, Token::Asc),
            Token::Desc => matches!(other, Token::Desc),
            Token::True => matches!(other, Token::True),
            Token::False => matches!(other, Token::False),
            Token::In => matches!(other, Token::In),
            Token::Unwind => matches!(other, Token::Unwind),
            Token::Merge => matches!(other, Token::Merge),
            Token::Create => matches!(other, Token::Create),
            Token::Delete => matches!(other, Token::Delete),
            Token::SetKeyword => matches!(other, Token::SetKeyword),
            Token::Remove => matches!(other, Token::Remove),
            Token::Optional => matches!(other, Token::Optional),
            Token::LParen => matches!(other, Token::LParen),
            Token::RParen => matches!(other, Token::RParen),
            Token::LBracket => matches!(other, Token::LBracket),
            Token::RBracket => matches!(other, Token::RBracket),
            Token::LBrace => matches!(other, Token::LBrace),
            Token::RBrace => matches!(other, Token::RBrace),
            Token::Comma => matches!(other, Token::Comma),
            Token::Dot => matches!(other, Token::Dot),
            Token::Colon => matches!(other, Token::Colon),
            Token::Semicolon => matches!(other, Token::Semicolon),
            Token::Minus => matches!(other, Token::Minus),
            Token::Star => matches!(other, Token::Star),
            Token::Pipe => matches!(other, Token::Pipe),
            Token::Arrow => matches!(other, Token::Arrow),
            Token::LeftArrow => matches!(other, Token::LeftArrow),
            Token::DoubleDash => matches!(other, Token::DoubleDash),
            Token::Lt => matches!(other, Token::Lt),
            Token::Gt => matches!(other, Token::Gt),
            Token::Le => matches!(other, Token::Le),
            Token::Ge => matches!(other, Token::Ge),
            Token::Eq => matches!(other, Token::Eq),
            Token::Neq => matches!(other, Token::Neq),
            Token::RegexEq => matches!(other, Token::RegexEq),
            Token::StringLit(a) => match other {
                Token::StringLit(b) => *a == *b,
                _ => false,
            },
            Token::FloatLit(a) => match other {
                Token::FloatLit(b) => *a == *b,
                _ => false,
            },
            Token::Ident(a) => match other {
                Token::Ident(b) => *a == *b,
                _ => false,
            },
            Token::IntLit(a) => match other {
                Token::IntLit(b) => *a == *b,
                _ => false,
            },
        }
    }
}

/// The keyword token named by an upper-cased word, if the word is a keyword.
pub open spec fn keyword_of(up: Seq<char>) -> Option<TokenV> {
    if up == seq!['M', 'A', 'T', 'C', 'H'] {
        Some(TokenV::Match)
    } else if up == seq!['W', 'H', 'E', 'R', 'E'] {
        Some(TokenV::Where)
    } else if up == seq!['R', 'E', 'T', 'U', 'R', 'N'] {
        Some(TokenV::Return)
    } else if up == seq!['O', 'R', 'D', 'E', 'R'] {
        Some(TokenV::Order)
    } else if up == seq!['B', 'Y'] {
        Some(TokenV::By)
    } else if up == seq!['L', 'I', 'M', 'I', 'T'] {
        Some(TokenV::Limit)
    } else if up == seq!['S', 'K', 'I', 'P'] {
        Some(TokenV::Skip)
    } else if up == seq!['D', 'I', 'S', 'T', 'I', 'N', 'C', 'T'] {
        Some(TokenV::Distinct)
    } else if up == seq!['A', 'N', 'D'] {
        Some(TokenV::And)
    } else if up == seq!['O', 'R'] {
        Some(TokenV::Or)
    } else if up == seq!['N', 'O', 'T'] {
        Some(TokenV::Not)
    } else if up == seq!['I', 'S'] {
        Some(TokenV::Is)
    } else if up == seq!['N', 'U', 'L', 'L'] {
        Some(TokenV::Null)
    } else if up == seq!['C', 'O', 'N', 'T', 'A', 'I', 'N', 'S'] {
        Some(TokenV::Contains)
    } else if up == seq!['S', 'T', 'A', 'R', 'T', 'S'] {
        Some(TokenV::Starts)
    } else if up == seq!['E', 'N', 'D', 'S'] {
        Some(TokenV::Ends)
    } else if up == seq!['W', 'I', 'T', 'H'] {
        Some(TokenV::With)
    } else if up == seq!['A', 'S'] {
        Some(TokenV::As)
    } else if up == seq!['A', 'S', 'C'] {
        Some(TokenV::Asc)
    } else if up == seq!['D', 'E', 'S', 'C'] {
        Some(TokenV::Desc)
    } else if up == seq!['T', 'R', 'U', 'E'] {
        Some(TokenV::True)
    } else if up == seq!['F', 'A', 'L', 'S', 'E'] {
        Some(TokenV::False)
    } else if up == seq!['I', 'N'] {
        Some(TokenV::In)
    } else if up == seq!['U', 'N', 'W', 'I', 'N', 'D'] {
        Some(TokenV::Unwind)
    } else if up == seq!['M', 'E', 'R', 'G', 'E'] {
        Some(TokenV::Merge)
    } else if up == seq!['C', 'R', 'E', 'A', 'T', 'E'] {
        Some(TokenV::Create)
    } else if up == seq!['D', 'E', 'L', 'E', 'T', 'E'] {
        Some(TokenV::Delete)
    } else if up == seq!['S', 'E', 'T'] {
        Some(TokenV::SetKeyword)
    } else if up == seq!['R', 'E', 'M', 'O', 'V', 'E'] {
        Some(TokenV::Remove)
    } else if up == seq!['O', 'P', 'T', 'I', 'O', 'N', 'A', 'L'] {
        Some(TokenV::Optional)
    } else {
        None
    }
}

/// Exec form of `keyword_of`.
fn keyword_token(up: &[char]) -> (r: Option<Token>)
    ensures
        match r { Some(t) => keyword_of(up@) == Some(t@), None => keyword_of(up@) is None },
{
    if chars_equal(up, &['M', 'A', 'T', 'C', 'H']) {
        Some(Token::Match)
    } else if chars_equal(up, &['W', 'H', 'E', 'R', 'E']) {
        Some(Token::Where)
    } else if chars_equal(up, &['R', 'E', 'T', 'U', 'R', 'N']) {
        Some(Token::Return)
    } else if chars_equal(up, &['O', 'R', 'D', 'E', 'R']) {
        Some(Token::Order)
    } else if chars_equal(up, &['B', 'Y']) {
        Some(Token::By)
    } else if chars_equal(up, &['L', 'I', 'M', 'I', 'T']) {
        Some(Token::Limit)
    } else if chars_equal(up, &['S', 'K', 'I', 'P']) {
        Some(Token::Skip)
    } else if chars_equal(up, &['D', 'I', 'S', 'T', 'I', 'N', 'C', 'T']) {
        Some(Token::Distinct)
    } else if chars_equal(up, &['A', 'N', 'D']) {
        Some(Token::And)
    } else if chars_equal(up, &['O', 'R']) {
        Some(Token::Or)
    } else if chars_equal(up, &['N', 'O', 'T']) {
        Some(Token::Not)
    } else if chars_equal(up, &['I', 'S']) {
        Some(Token::Is)
    } else if chars_equal(up, &['N', 'U', 'L', 'L']) {
        Some(Token::Null)
    } else if chars_equal(up, &['C', 'O', 'N', 'T', 'A', 'I', 'N', 'S']) {
        Some(Token::Contains)
    } else if chars_equal(up, &['S', 'T', 'A', 'R', 'T', 'S']) {
        Some(Token::Starts)
    } else if chars_equal(up, &['E', 'N', 'D', 'S']) {
        Some(Token::Ends)
    } else if chars_equal(up, &['W', 'I', 'T', 'H']) {
        Some(Token::With)
    } else if chars_equal(up, &['A', 'S']) {
        Some(Token::As)
    } else if chars_equal(up, &['A', 'S', 'C']) {
        Some(Token::Asc)
    } else if chars_equal(up, &['D', 'E', 'S', 'C']) {
        Some(Token::Desc)
    } else if chars_equal(up, &['T', 'R', 'U', 'E']) {
        Some(Token::True)
    } else if chars_equal(up, &['F', 'A', 'L', 'S', 'E']) {
        Some(Token::False)
    } else if chars_equal(up, &['I', 'N']) {
        Some(Token::In)
    } else if chars_equal(up, &['U', 'N', 'W', 'I', 'N', 'D']) {
        Some(Token::Unwind)
    } else if chars_equal(up, &['M', 'E', 'R', 'G', 'E']) {
        Some(Token::Merge)
    } else if chars_equal(up, &['C', 'R', 'E', 'A', 'T', 'E']) {
        Some(Token::Create)
    } else if chars_equal(up, &['D', 'E', 'L', 'E', 'T', 'E']) {
        Some(Token::Delete)
    } else if chars_equal(up, &['S', 'E', 'T']) {
        Some(Token::SetKeyword)
    } else if chars_equal(up, &['R', 'E', 'M', 'O', 'V', 'E']) {
        Some(Token::Remove)
    } else if chars_equal(up, &['O', 'P', 'T', 'I', 'O', 'N', 'A', 'L']) {
        Some(Token::Optional)
    } else {
        None
    }
}

/// The two-character symbol token spelled `a b`, if any.
pub open spec fn two_char_symbol(a: char, b: char) -> Option<TokenV> {
    if a == '-' && b == '>' {
        Some(TokenV::Arrow)
    } else if a == '<' && b == '-' {
        Some(TokenV::LeftArrow)
    } else if a == '-' && b == '-' {
        Some(TokenV::DoubleDash)
    } else if a == '<' && b == '=' {
        Some(TokenV::Le)
    } else if a == '>' && b == '=' {
        Some(TokenV::Ge)
    } else if a == '!' && b == '=' {
        Some(TokenV::Neq)
    } else if a == '<' && b == '>' {
        Some(TokenV::Neq)
    } else if a == '=' && b == '~' {
        Some(TokenV::RegexEq)
    } else {
        None
    }
}

fn two_char_token(a: char, b: char) -> (r: Option<Token>)
    ensures
        match r { Some(t) => two_char_symbol(a, b) == Some(t@), None => two_char_symbol(a, b) is None },
{
    if a == '-' && b == '>' {
        Some(Token::Arrow)
    } else if a == '<' && b == '-' {
        Some(Token::LeftArrow)
    } else if a == '-' && b == '-' {
        Some(Token::DoubleDash)
    } else if a == '<' && b == '=' {
        Some(Token::Le)
    } else if a == '>' && b == '=' {
        Some(Token::Ge)
    } else if a == '!' && b == '=' {
        Some(Token::Neq)
    } else if a == '<' && b == '>' {
        Some(Token::Neq)
    } else if a == '=' && b == '~' {
        Some(Token::RegexEq)
    } else {
        None
    }
}

/// The one-character symbol token spelled `a`, if any.
pub open spec fn one_char_symbol(a: char) -> Option<TokenV> {
    if a == '(' {
        Some(TokenV::LParen)
    } else if a == ')' {
        Some(TokenV::RParen)
    } else if a == '[' {
        Some(TokenV::LBracket)
    } else if a == ']' {
        Some(TokenV::RBracket)
    } else if a == '{' {
        Some(TokenV::LBrace)
    } else if a == '}' {
        Some(TokenV::RBrace)
    } else if a == ',' {
        Some(TokenV::Comma)
    } else if a == '.' {
        Some(TokenV::Dot)
    } else if a == ':' {
        Some(TokenV::Colon)
    } else if a == ';' {
        Some(TokenV::Semicolon)
    } else if a == '-' {
        Some(TokenV::Minus)
    } else if a == '*' {
        Some(TokenV::Star)
    } else if a == '|' {
        Some(TokenV::Pipe)
    } else if a == '<' {
        Some(TokenV::Lt)
    } else if a == '>' {
        Some(TokenV::Gt)
    } else if a == '=' {
        Some(TokenV::Eq)
    } else {
        None
    }
}

fn one_char_token(a: char) -> (r: Option<Token>)
    ensures
        match r { Some(t) => one_char_symbol(a) == Some(t@), None => one_char_symbol(a) is None },
{
    if a == '(' {
        Some(Token::LParen)
    } else if a == ')' {
        Some(Token::RParen)
    } else if a == '[' {
        Some(Token::LBracket)
    } else if a == ']' {
        Some(Token::RBracket)
    } else if a == '{' {
        Some(Token::LBrace)
    } else if a == '}' {
        Some(Token::RBrace)
    } else if a == ',' {
        Some(Token::Comma)
    } else if a == '.' {
        Some(Token::Dot)
    } else if a == ':' {
        Some(Token::Colon)
    } else if a == ';' {
        Some(Token::Semicolon)
    } else if a == '-' {
        Some(Token::Minus)
    } else if a == '*' {
        Some(Token::Star)
    } else if a == '|' {
        Some(Token::Pipe)
    } else if a == '<' {
        Some(Token::Lt)
    } else if a == '>' {
        Some(Token::Gt)
    } else if a == '=' {
        Some(Token::Eq)
    } else {
        None
    }
}
/// ASCII upper-casing of one character; other characters are unchanged.
pub open spec fn ascii_upper(c: char) -> char {
    if c == 'a' {
        'A'
    } else if c == 'b' {
        'B'
    } else if c == 'c' {
        'C'
    } else if c == 'd' {
        'D'
    } else if c == 'e' {
        'E'
    } else if c == 'f' {
        'F'
    } else if c == 'g' {
        'G'
    } else if c == 'h' {
        'H'
    } else if c == 'i' {
        'I'
    } else if c == 'j' {
        'J'
    } else if c == 'k' {
        'K'
    } else if c == 'l' {
        'L'
    } else if c == 'm' {
        'M'
    } else if c == 'n' {
        'N'
    } else if c == 'o' {
        'O'
    } else if c == 'p' {
        'P'
    } else if c == 'q' {
        'Q'
    } else if c == 'r' {
        'R'
    } else if c == 's' {
        'S'
    } else if c == 't' {
        'T'
    } else if c == 'u' {
        'U'
    } else if c == 'v' {
        'V'
    } else if c == 'w' {
        'W'
    } else if c == 'x' {
        'X'
    } else if c == 'y' {
        'Y'
    } else if c == 'z' {
        'Z'
    } else {
        c
    }
}

fn to_ascii_upper(c: char) -> (r: char)
    ensures
        r == ascii_upper(c),
{
    if c == 'a' {
        'A'
    } else if c == 'b' {
        'B'
    } else if c == 'c' {
        'C'
    } else if c == 'd' {
        'D'
    } else if c == 'e' {
        'E'
    } else if c == 'f' {
        'F'
    } else if c == 'g' {
        'G'
    } else if c == 'h' {
        'H'
    } else if c == 'i' {
        'I'
    } else if c == 'j' {
        'J'
    } else if c == 'k' {
        'K'
    } else if c == 'l' {
        'L'
    } else if c == 'm' {
        'M'
    } else if c == 'n' {
        'N'
    } else if c == 'o' {
        'O'
    } else if c == 'p' {
        'P'
    } else if c == 'q' {
        'Q'
    } else if c == 'r' {
        'R'
    } else if c == 's' {
        'S'
    } else if c == 't' {
        'T'
    } else if c == 'u' {
        'U'
    } else if c == 'v' {
        'V'
    } else if c == 'w' {
        'W'
    } else if c == 'x' {
        'X'
    } else if c == 'y' {
        'Y'
    } else if c == 'z' {
        'Z'
    } else {
        c
    }
}
/// A token with its source span (byte offsets into the original query string).
#[derive(Debug, PartialEq)]
pub struct Spanned<T> {
    pub token: T,
    pub start: usize,
    pub end: usize,
}

impl<T> Spanned<T> {
    pub fn span(&self) -> (r: (usize, usize))
        ensures
            r == (self.start, self.end),
    {
        (self.start, self.end)
    }
}

/// The view of a spanned token.
pub struct SpannedV {
    pub token: TokenV,
    pub start: int,
    pub end: int,
}

pub open spec fn spanned_view(s: Spanned<Token>) -> SpannedV {
    SpannedV { token: s.token@, start: s.start as int, end: s.end as int }
}

pub open spec fn spanned_views(v: Seq<Spanned<Token>>) -> Seq<SpannedV> {
    v.map_values(|s: Spanned<Token>| spanned_view(s))
}

// ---------------------------------------------------------------------------
// Character classes and byte offsets
// ---------------------------------------------------------------------------

/// ASCII whitespace as Rust's `u8::is_ascii_whitespace` defines it.
pub open spec fn is_ascii_ws(c: char) -> bool {
    c == ' ' || c == '\t' || c == '\n' || c == '\x0C' || c == '\r'
}

pub open spec fn is_digit(c: char) -> bool {
    '0' <= c && c <= '9'
}

pub open spec fn is_alpha(c: char) -> bool {
    ('a' <= c && c <= 'z') || ('A' <= c && c <= 'Z')
}

pub open spec fn is_ident_start(c: char) -> bool {
    is_alpha(c) || c == '_' || c == '$'
}

pub open spec fn is_ident_char(c: char) -> bool {
    is_alpha(c) || is_digit(c) || c == '_' || c == '$'
}

/// Byte offset of character index `i` in the UTF-8 encoding of `c`.
pub open spec fn byte_offset(c: Seq<char>, i: int) -> int {
    encode_utf8(c.subrange(0, i)).len() as int
}

/// The first UTF-8 byte of `c`, read back as a (Latin-1) character.
pub open spec fn first_byte_char(c: char) -> char {
    (encode_scalar(c as u32)[0]) as char
}

proof fn lemma_encode_concat(a: Seq<char>, b: Seq<char>)
    ensures
        encode_utf8(a + b) == encode_utf8(a) + encode_utf8(b),
    decreases a.len(),
{
    if a.len() == 0 {
        assert(a + b =~= b);
        assert(encode_utf8(a) =~= Seq::<u8>::empty());
        assert(encode_utf8(a) + encode_utf8(b) =~= encode_utf8(b));
    } else {
        lemma_encode_concat(a.drop_first(), b);
        assert((a + b).drop_first() =~= a.drop_first() + b);
        assert((a + b)[0] == a[0]);
        assert(encode_utf8(a + b) =~= encode_scalar(a[0] as u32) + encode_utf8(a.drop_first() + b));
        assert(encode_utf8(a) =~= encode_scalar(a[0] as u32) + encode_utf8(a.drop_first()));
    }
}

proof fn lemma_byte_offset_step(c: Seq<char>, i: int)
    requires
        0 <= i < c.len(),
    ensures
        byte_offset(c, i + 1) == byte_offset(c, i) + encode_scalar(c[i] as u32).len(),
{
    assert(c.subrange(0, i + 1) =~= c.subrange(0, i) + seq![c[i]]);
    lemma_encode_concat(c.subrange(0, i), seq![c[i]]);
    assert(seq![c[i]].drop_first() =~= Seq::<char>::empty());
    assert(encode_utf8(seq![c[i]]) =~= encode_scalar(c[i] as u32) + encode_utf8(Seq::<char>::empty()));
}

proof fn lemma_byte_offset_mono(c: Seq<char>, i: int, j: int)
    requires
        0 <= i <= j <= c.len(),
    ensures
        byte_offset(c, i) <= byte_offset(c, j),
{
    assert(c.subrange(0, j) =~= c.subrange(0, i) + c.subrange(i, j));
    lemma_encode_concat(c.subrange(0, i), c.subrange(i, j));
}

fn utf8_width(ch: char) -> (w: usize)
    ensures
        w == encode_scalar(ch as u32).len(),
        1 <= w <= 4,
        w == 1 <==> (ch as u32) < 0x80,
{
    broadcast use vstd::utf8::char_is_scalar;
    let v = ch as u32;
    if v <= 0x7F {
        1
    } else if v <= 0x7FF {
        2
    } else if v <= 0xFFFF {
        3
    } else {
        4
    }
}

/// Byte offsets of every character index of `query`, with the total at the end.
fn byte_offsets(query: &str, c: &Vec<char>) -> (offs: Vec<usize>)
    requires
        c@ == query@,
    ensures
        offs@.len() == c@.len() + 1,
        forall|i: int| 0 <= i <= c@.len() ==> offs@[i] == byte_offset(c@, i),
{
    let n = c.len();
    let mut offs: Vec<usize> = Vec::new();
    offs.push(0);
    proof {
        assert(c@.subrange(0, 0) =~= Seq::<char>::empty());
        assert(encode_utf8(Seq::<char>::empty()) =~= Seq::<u8>::empty());
        assert(c@.subrange(0, n as int) =~= query@);
        assert(query.spec_bytes() == encode_utf8(query@));
    }
    let total = query.as_bytes().len();
    assert(total == byte_offset(c@, n as int));
    let mut i: usize = 0;
    while i < n
        invariant
            n == c@.len(),
            i <= n,
            total == byte_offset(c@, n as int),
            offs@.len() == i + 1,
            forall|k: int| 0 <= k <= i ==> offs@[k] == byte_offset(c@, k),
        decreases n - i,
    {
        let w = utf8_width(c[i]);
        proof {
            lemma_byte_offset_step(c@, i as int);
            lemma_byte_offset_mono(c@, i as int + 1, n as int);
        }
        let next = offs[i] + w;
        offs.push(next);
        i += 1;
    }
    offs
}

// ---------------------------------------------------------------------------
// The lexical grammar, one step at a time
// ---------------------------------------------------------------------------

/// Index of the first `'\n'` at or after `j` (or the end).
pub open spec fn line_end(c: Seq<char>, j: int) -> int
    decreases c.len() - j,
{
    if j < 0 || j >= c.len() || c[j] == '\n' {
        j
    } else {
        line_end(c, j + 1)
    }
}

/// Index just past the first `*/` starting at or after `j`, if any.
pub open spec fn block_end(c: Seq<char>, j: int) -> Option<int>
    decreases c.len() - j,
{
    if j < 0 || j + 1 >= c.len() {
        None
    } else if c[j] == '*' && c[j + 1] == '/' {
        Some(j + 2)
    } else {
        block_end(c, j + 1)
    }
}

/// End of the run of ASCII digits starting at `j`.
pub open spec fn digits_end(c: Seq<char>, j: int) -> int
    decreases c.len() - j,
{
    if 0 <= j < c.len() && is_digit(c[j]) {
        digits_end(c, j + 1)
    } else {
        j
    }
}

/// End of the run of identifier characters starting at `j`.
pub open spec fn ident_end(c: Seq<char>, j: int) -> int
    decreases c.len() - j,
{
    if 0 <= j < c.len() && is_ident_char(c[j]) {
        ident_end(c, j + 1)
    } else {
        j
    }
}

/// Index of the first backtick at or after `j` (or the end).
pub open spec fn backtick_end(c: Seq<char>, j: int) -> int
    decreases c.len() - j,
{
    if j < 0 || j >= c.len() || c[j] == '`' {
        j
    } else {
        backtick_end(c, j + 1)
    }
}

/// What a backslash escape followed by `e` contributes to a string literal.
pub open spec fn escape_text(e: char) -> Seq<char> {
    if e == 'n' {
        seq!['\n']
    } else if e == 't' {
        seq!['\t']
    } else if e == '\\' {
        seq!['\\']
    } else if e == '\'' {
        seq!['\'']
    } else if e == '"' {
        seq!['"']
    } else if e == 'r' {
        seq!['\r']
    } else {
        seq!['\\', e]
    }
}

/// Outcome of scanning the body of a string literal.
pub enum StrScan {
    Done(Seq<char>, int),
    Unterminated,
    UnterminatedEscape,
    /// A backslash followed by a non-ASCII character: the byte-level scanner
    /// then slices the query inside a character and panics.
    Panic,
}

/// Scans a string literal body from `j` (just after the opening quote `q`),
/// with `acc` the text decoded so far.
pub open spec fn scan_string(c: Seq<char>, q: char, j: int, acc: Seq<char>) -> StrScan
    decreases c.len() - j,
{
    if j < 0 || j >= c.len() {
        StrScan::Unterminated
    } else if c[j] == q {
        StrScan::Done(acc, j + 1)
    } else if c[j] == '\\' {
        if j + 1 >= c.len() {
            StrScan::UnterminatedEscape
        } else if (c[j + 1] as u32) >= 0x80 {
            StrScan::Panic
        } else {
            scan_string(c, q, j + 2, acc + escape_text(c[j + 1]))
        }
    } else {
        scan_string(c, q, j + 1, acc.push(c[j]))
    }
}

/// Where a numeric literal starting at `i` ends, whether it is a float, and
/// whether it has an exponent marker without digits.
pub open spec fn number_shape(c: Seq<char>, i: int) -> (int, bool, bool) {
    let d = digits_end(c, i);
    let (f, frac) = if d + 1 < c.len() && c[d] == '.' && is_digit(c[d + 1]) {
        (digits_end(c, d + 1), true)
    } else {
        (d, false)
    };
    if f < c.len() && (c[f] == 'e' || c[f] == 'E') {
        let g = if f + 1 < c.len() && (c[f + 1] == '+' || c[f + 1] == '-') {
            f + 2
        } else {
            f + 1
        };
        let h = digits_end(c, g);
        (h, true, h == g)
    } else {
        (f, frac, false)
    }
}

pub open spec fn digit_value(ch: char) -> nat {
    ((ch as u32) - ('0' as u32)) as nat
}

/// The value of a run of decimal digits.
pub open spec fn digits_value(s: Seq<char>) -> nat
    decreases s.len(),
{
    if s.len() == 0 {
        0
    } else {
        digits_value(s.drop_last()) * 10 + digit_value(s.last())
    }
}

pub open spec fn upper(s: Seq<char>) -> Seq<char> {
    s.map_values(|ch: char| ascii_upper(ch))
}

/// The token for a bare word: a keyword (case-insensitively) or an identifier.
pub open spec fn word_token(raw: Seq<char>) -> TokenV {
    match keyword_of(upper(raw)) {
        Some(t) => t,
        None => TokenV::Ident(raw),
    }
}

/// One step of the lexer at character index `i`.
pub enum LexStep {
    Skip(int),
    Emit(TokenV, int),
    Fail(Seq<char>, int, int),
    Panic,
}

/// The string-literal branch of `lex_step` (at an opening quote).
pub open spec fn string_step(c: Seq<char>, i: int) -> LexStep {
    let blen = byte_offset(c, c.len() as int);
    let bi = byte_offset(c, i);
    match scan_string(c, c[i], i + 1, Seq::empty()) {
        StrScan::Done(s, k) => LexStep::Emit(TokenV::StringLit(s), k),
        StrScan::Unterminated => LexStep::Fail("unterminated string literal"@, bi, blen),
        StrScan::UnterminatedEscape => LexStep::Fail("unterminated escape sequence"@, bi, blen),
        StrScan::Panic => LexStep::Panic,
    }
}

/// The backtick-identifier branch of `lex_step`.
pub open spec fn backtick_step(c: Seq<char>, i: int) -> LexStep {
    let k = backtick_end(c, i + 1);
    if k >= c.len() {
        LexStep::Fail("unterminated backtick identifier"@, byte_offset(c, i), byte_offset(c, c.len() as int))
    } else {
        LexStep::Emit(TokenV::Ident(c.subrange(i + 1, k)), k + 1)
    }
}

/// The numeric-literal branch of `lex_step` (at a digit).
pub open spec fn number_step(c: Seq<char>, i: int) -> LexStep {
    let (h, is_float, bad) = number_shape(c, i);
    let text = c.subrange(i, h);
    if is_float {
        if bad {
            LexStep::Fail("invalid float literal `"@ + text + "`"@, byte_offset(c, i), byte_offset(c, h))
        } else {
            LexStep::Emit(TokenV::FloatLit(text), h)
        }
    } else if digits_value(text) > i64::MAX {
        LexStep::Fail("invalid integer literal `"@ + text + "`"@, byte_offset(c, i), byte_offset(c, h))
    } else {
        LexStep::Emit(TokenV::IntLit(digits_value(text) as i64), h)
    }
}

/// The block-comment branch of `lex_step` (at `/*`).
pub open spec fn block_comment_step(c: Seq<char>, i: int) -> LexStep {
    let n = c.len() as int;
    let blen = byte_offset(c, n);
    match block_end(c, i + 2) {
        Some(k) => LexStep::Skip(k),
        None => {
            let p = if i + 2 >= n { blen } else { blen - 1 };
            LexStep::Fail("unterminated block comment"@, p, p)
        },
    }
}

/// The symbol, word and error branches of `lex_step`.
pub open spec fn token_step(c: Seq<char>, i: int) -> LexStep {
    let n = c.len() as int;
    let bi = byte_offset(c, i);
    if i + 1 < n && two_char_symbol(c[i], c[i + 1]) is Some {
        LexStep::Emit(two_char_symbol(c[i], c[i + 1])->0, i + 2)
    } else if one_char_symbol(c[i]) is Some {
        LexStep::Emit(one_char_symbol(c[i])->0, i + 1)
    } else if c[i] == '\'' || c[i] == '"' {
        string_step(c, i)
    } else if c[i] == '`' {
        backtick_step(c, i)
    } else if is_digit(c[i]) {
        number_step(c, i)
    } else if is_ident_start(c[i]) {
        let e = ident_end(c, i + 1);
        LexStep::Emit(word_token(c.subrange(i, e)), e)
    } else {
        LexStep::Fail("unexpected character `"@ + seq![first_byte_char(c[i])] + "`"@, bi, bi + 1)
    }
}

/// One step of the lexer at character index `i`.
pub open spec fn lex_step(c: Seq<char>, i: int) -> LexStep {
    let n = c.len() as int;
    if is_ascii_ws(c[i]) {
        LexStep::Skip(i + 1)
    } else if i + 1 < n && c[i] == '/' && c[i + 1] == '/' {
        LexStep::Skip(line_end(c, i + 2))
    } else if i + 1 < n && c[i] == '/' && c[i + 1] == '*' {
        block_comment_step(c, i)
    } else {
        token_step(c, i)
    }
}

/// The outcome of lexing a whole query.
pub enum LexResult {
    Tokens(Seq<SpannedV>),
    Error(Seq<char>, int, int),
    Panic,
}

/// Lexes `c` from character index `i` to the end.
pub open spec fn lex_from(c: Seq<char>, i: int) -> LexResult
    decreases c.len() - i,
{
    if i < 0 || i >= c.len() {
        LexResult::Tokens(Seq::empty())
    } else {
        match lex_step(c, i) {
            LexStep::Skip(j) => if i < j <= c.len() { lex_from(c, j) } else { LexResult::Panic },
            LexStep::Emit(t, j) => if i < j <= c.len() {
                match lex_from(c, j) {
                    LexResult::Tokens(rest) => LexResult::Tokens(
                        seq![SpannedV { token: t, start: byte_offset(c, i), end: byte_offset(c, j) }] + rest,
                    ),
                    other => other,
                }
            } else {
                LexResult::Panic
            },
            LexStep::Fail(m, s, e) => LexResult::Error(m, s, e),
            LexStep::Panic => LexResult::Panic,
        }
    }
}

/// The lexical analysis of a query.
pub open spec fn spec_tokenize(q: Seq<char>) -> LexResult {
    lex_from(q, 0)
}

pub open spec fn prepend(p: Seq<SpannedV>, r: LexResult) -> LexResult {
    match r {
        LexResult::Tokens(rest) => LexResult::Tokens(p + rest),
        other => other,
    }
}

// ---------------------------------------------------------------------------
// Scanners
// ---------------------------------------------------------------------------

fn scan_line_end(c: &Vec<char>, j: usize) -> (k: usize)
    requires
        j <= c@.len(),
    ensures
        k == line_end(c@, j as int),
        j <= k <= c@.len(),
{
    let mut k = j;
    while k < c.len() && c[k] != '\n'
        invariant
            j <= k <= c@.len(),
            line_end(c@, j as int) == line_end(c@, k as int),
        decreases c@.len() - k,
    {
        k += 1;
    }
    k
}

fn scan_block_end(c: &Vec<char>, j: usize) -> (r: Option<usize>)
    requires
        j <= c@.len(),
    ensures
        match r {
            Some(k) => block_end(c@, j as int) == Some(k as int) && j + 2 <= k <= c@.len(),
            None => block_end(c@, j as int) is None,
        },
{
    let mut k = j;
    while c.len() - k > 1
        invariant
            j <= k <= c@.len(),
            block_end(c@, j as int) == block_end(c@, k as int),
        decreases c@.len() - k,
    {
        if c[k] == '*' && c[k + 1] == '/' {
            return Some(k + 2);
        }
        k += 1;
    }
    None
}

fn scan_digits_end(c: &Vec<char>, j: usize) -> (k: usize)
    requires
        j <= c@.len(),
    ensures
        k == digits_end(c@, j as int),
        j <= k <= c@.len(),
{
    let mut k = j;
    while k < c.len() && '0' <= c[k] && c[k] <= '9'
        invariant
            j <= k <= c@.len(),
            digits_end(c@, j as int) == digits_end(c@, k as int),
        decreases c@.len() - k,
    {
        k += 1;
    }
    k
}

fn is_ident_char_exec(ch: char) -> (r: bool)
    ensures
        r == is_ident_char(ch),
{
    ('a' <= ch && ch <= 'z') || ('A' <= ch && ch <= 'Z') || ('0' <= ch && ch <= '9') || ch == '_' || ch
        == '$'
}

fn scan_ident_end(c: &Vec<char>, j: usize) -> (k: usize)
    requires
        j <= c@.len(),
    ensures
        k == ident_end(c@, j as int),
        j <= k <= c@.len(),
{
    let mut k = j;
    while k < c.len() && is_ident_char_exec(c[k])
        invariant
            j <= k <= c@.len(),
            ident_end(c@, j as int) == ident_end(c@, k as int),
        decreases c@.len() - k,
    {
        k += 1;
    }
    k
}

fn scan_backtick_end(c: &Vec<char>, j: usize) -> (k: usize)
    requires
        j <= c@.len(),
    ensures
        k == backtick_end(c@, j as int),
        j <= k <= c@.len(),
{
    let mut k = j;
    while k < c.len() && c[k] != '`'
        invariant
            j <= k <= c@.len(),
            backtick_end(c@, j as int) == backtick_end(c@, k as int),
        decreases c@.len() - k,
    {
        k += 1;
    }
    k
}

/// Exec outcome of scanning a string literal body.
enum StrScanExec {
    Done(String, usize),
    Unterminated,
    UnterminatedEscape,
    Panic,
}

fn scan_string_exec(c: &Vec<char>, q: char, j: usize) -> (r: StrScanExec)
    requires
        j <= c@.len(),
    ensures
        match r {
            StrScanExec::Done(s, k) => scan_string(c@, q, j as int, Seq::empty()) == StrScan::Done(s@, k as int)
                && j < k <= c@.len(),
            StrScanExec::Unterminated => scan_string(c@, q, j as int, Seq::empty()) is Unterminated,
            StrScanExec::UnterminatedEscape => scan_string(c@, q, j as int, Seq::empty()) is UnterminatedEscape,
            StrScanExec::Panic => scan_string(c@, q, j as int, Seq::empty()) is Panic,
        },
{
    let mut s = String::new();
    let mut k = j;
    proof {
        assert(s@ =~= Seq::<char>::empty());
    }
    loop
        invariant
            j <= k <= c@.len(),
            scan_string(c@, q, j as int, Seq::empty()) == scan_string(c@, q, k as int, s@),
        decreases c@.len() - k,
    {
        if k >= c.len() {
            return StrScanExec::Unterminated;
        }
        let ch = c[k];
        if ch == q {
            return StrScanExec::Done(s, k + 1);
        }
        if ch == '\\' {
            if k + 1 >= c.len() {
                return StrScanExec::UnterminatedEscape;
            }
            let e = c[k + 1];
            if (e as u32) >= 0x80 {
                return StrScanExec::Panic;
            }
            let ghost before = s@;
            if e == 'n' {
                s.push('\n');
            } else if e == 't' {
                s.push('\t');
            } else if e == '\\' {
                s.push('\\');
            } else if e == '\'' {
                s.push('\'');
            } else if e == '"' {
                s.push('"');
            } else if e == 'r' {
                s.push('\r');
            } else {
                s.push('\\');
                s.push(e);
            }
            proof {
                assert(s@ =~= before + escape_text(e));
            }
            k += 2;
        } else {
            s.push(ch);
            k += 1;
        }
    }
}

proof fn lemma_digits_value_step(s: Seq<char>, k: int)
    requires
        0 <= k < s.len(),
    ensures
        digits_value(s.subrange(0, k + 1)) == digits_value(s.subrange(0, k)) * 10 + digit_value(s[k]),
{
    assert(s.subrange(0, k + 1).drop_last() =~= s.subrange(0, k));
}

proof fn lemma_digits_value_grows(s: Seq<char>, k: int)
    requires
        0 <= k <= s.len(),
    ensures
        digits_value(s.subrange(0, k)) <= digits_value(s),
    decreases s.len() - k,
{
    if k < s.len() {
        lemma_digits_value_step(s, k);
        lemma_digits_value_grows(s, k + 1);
    } else {
        assert(s.subrange(0, k) =~= s);
    }
}

/// The value of the digit run `c[i..h]`, or `None` when it exceeds `i64::MAX`.
fn digits_to_i64(c: &Vec<char>, i: usize, h: usize) -> (r: Option<i64>)
    requires
        i <= h <= c@.len(),
        forall|k: int| i <= k < h ==> is_digit(#[trigger] c@[k]),
    ensures
        match r {
            Some(v) => v as int == digits_value(c@.subrange(i as int, h as int)),
            None => digits_value(c@.subrange(i as int, h as int)) > i64::MAX,
        },
{
    let ghost s = c@.subrange(i as int, h as int);
    let mut v: i64 = 0;
    let mut k = i;
    proof {
        assert(s.subrange(0, 0) =~= Seq::<char>::empty());
    }
    while k < h
        invariant
            i <= k <= h <= c@.len(),
            s == c@.subrange(i as int, h as int),
            forall|m: int| i <= m < h ==> is_digit(#[trigger] c@[m]),
            v >= 0,
            v as int == digits_value(s.subrange(0, (k - i) as int)),
        decreases h - k,
    {
        let d = (c[k] as u32 - '0' as u32) as i64;
        proof {
            assert(is_digit(c@[k as int]));
            assert(s[(k - i) as int] == c@[k as int]);
            lemma_digits_value_step(s, (k - i) as int);
        }
        if v > (i64::MAX - d) / 10 {
            proof {
                assert(v * 10 + d > i64::MAX) by (nonlinear_arith)
                    requires
                        v > (i64::MAX - d) / 10,
                        0 <= d <= 9,
                ;
                lemma_digits_value_grows(s, (k - i + 1) as int);
            }
            return None;
        }
        proof {
            assert(v * 10 + d <= i64::MAX) by (nonlinear_arith)
                requires
                    v <= (i64::MAX - d) / 10,
                    0 <= d <= 9,
                    v >= 0,
            ;
        }
        v = v * 10 + d;
        k += 1;
    }
    proof {
        assert(s.subrange(0, (h - i) as int) =~= s);
    }
    Some(v)
}

fn upper_chars(raw: &[char]) -> (u: Vec<char>)
    ensures
        u@ == upper(raw@),
{
    let mut u: Vec<char> = Vec::new();
    let mut k: usize = 0;
    while k < raw.len()
        invariant
            k <= raw@.len(),
            u@ == upper(raw@.subrange(0, k as int)),
        decreases raw@.len() - k,
    {
        u.push(to_ascii_upper(raw[k]));
        k += 1;
        assert(u@ =~= upper(raw@.subrange(0, k as int)));
    }
    assert(raw@.subrange(0, raw@.len() as int) =~= raw@);
    u
}

fn keyword_or_ident(raw: &[char]) -> (t: Token)
    ensures
        t@ == word_token(raw@),
{
    let up = upper_chars(raw);
    match keyword_token(&up) {
        Some(t) => t,
        None => Token::Ident(string_from_chars(raw)),
    }
}

fn slice_chars(c: &Vec<char>, a: usize, b: usize) -> (r: Vec<char>)
    requires
        a <= b <= c@.len(),
    ensures
        r@ == c@.subrange(a as int, b as int),
{
    let mut r: Vec<char> = Vec::new();
    let mut k = a;
    while k < b
        invariant
            a <= k <= b <= c@.len(),
            r@ == c@.subrange(a as int, k as int),
        decreases b - k,
    {
        r.push(c[k]);
        k += 1;
        assert(r@ =~= c@.subrange(a as int, k as int));
    }
    r
}

fn first_byte_of(ch: char) -> (b: char)
    ensures
        b == first_byte_char(ch),
{
    broadcast use vstd::utf8::char_is_scalar;
    let v = ch as u32;
    let lead: u8 = if v <= 0x7F {
        (v & 0x7F) as u8
    } else if v <= 0x7FF {
        0xC0 | ((v >> 6) & 0x1F) as u8
    } else if v <= 0xFFFF {
        0xE0 | ((v >> 12) & 0x0F) as u8
    } else {
        0xF0 | ((v >> 18) & 0x07) as u8
    };
    lead as char
}

fn parse_error(msg: String, start: usize, end: usize) -> (e: CypherError)
    ensures
        e matches CypherError::Parse { msg: m, span, span_start } && m@ == msg@ && span == (start, end)
            && span_start == start,
{
    CypherError::parse(msg, (start, end))
}

/// Whether tokenizing `q` reaches an error or the end without the byte-level
/// scanner slicing inside a character (a backslash followed by a non-ASCII
/// character in a string literal).
pub open spec fn tokenize_defined(q: Seq<char>) -> bool {
    !(spec_tokenize(q) is Panic)
}

/// The `Err` side of `tokenize`: a parse error with this message and span.
pub open spec fn is_parse_error(e: CypherError, msg: Seq<char>, start: int, end: int) -> bool {
    e matches CypherError::Parse { msg: m, span, span_start } && m@ == msg && span.0 == start
        && span.1 == end && span_start == start
}

/// Exec outcome of one lexer step.
enum StepExec {
    Skip(usize),
    Emit(Token, usize),
    Fail(CypherError),
    Panic,
}

spec fn step_matches(c: Seq<char>, i: int, s: LexStep, r: StepExec) -> bool {
    match r {
        StepExec::Skip(j) => s == LexStep::Skip(j as int) && i < j <= c.len(),
        StepExec::Emit(t, j) => s == LexStep::Emit(t@, j as int) && i < j <= c.len(),
        StepExec::Fail(e) => s matches LexStep::Fail(m, a, b) && is_parse_error(e, m, a, b),
        StepExec::Panic => s is Panic,
    }
}

fn string_step_exec(c: &Vec<char>, offs: &Vec<usize>, pos: usize) -> (r: StepExec)
    requires
        pos < c@.len(),
        c@[pos as int] == '\'' || c@[pos as int] == '"',
        offs@.len() == c@.len() + 1,
        forall|i: int| 0 <= i <= c@.len() ==> offs@[i] == byte_offset(c@, i),
    ensures
        step_matches(c@, pos as int, string_step(c@, pos as int), r),
{
    let n = c.len();
    match scan_string_exec(c, c[pos], pos + 1) {
        StrScanExec::Done(s, k) => StepExec::Emit(Token::StringLit(s), k),
        StrScanExec::Unterminated => {
            StepExec::Fail(parse_error(String::from_str("unterminated string literal"), offs[pos], offs[n]))
        },
        StrScanExec::UnterminatedEscape => {
            StepExec::Fail(parse_error(String::from_str("unterminated escape sequence"), offs[pos], offs[n]))
        },
        StrScanExec::Panic => StepExec::Panic,
    }
}

fn backtick_step_exec(c: &Vec<char>, offs: &Vec<usize>, pos: usize) -> (r: StepExec)
    requires
        pos < c@.len(),
        offs@.len() == c@.len() + 1,
        forall|i: int| 0 <= i <= c@.len() ==> offs@[i] == byte_offset(c@, i),
    ensures
        step_matches(c@, pos as int, backtick_step(c@, pos as int), r),
{
    let n = c.len();
    let k = scan_backtick_end(c, pos + 1);
    if k >= n {
        return StepExec::Fail(parse_error(String::from_str("unterminated backtick identifier"), offs[pos], offs[n]));
    }
    let id = slice_chars(c, pos + 1, k);
    StepExec::Emit(Token::Ident(string_from_chars(&id)), k + 1)
}

fn number_step_exec(c: &Vec<char>, offs: &Vec<usize>, pos: usize) -> (r: StepExec)
    requires
        pos < c@.len(),
        is_digit(c@[pos as int]),
        offs@.len() == c@.len() + 1,
        forall|i: int| 0 <= i <= c@.len() ==> offs@[i] == byte_offset(c@, i),
    ensures
        step_matches(c@, pos as int, number_step(c@, pos as int), r),
{
    let n = c.len();
    proof {
        lemma_digits_end_ge(c@, pos as int + 1);
    }
    let d = scan_digits_end(c, pos);
    let mut f = d;
    let mut is_float = false;
    if n - d > 1 && c[d] == '.' && '0' <= c[d + 1] && c[d + 1] <= '9' {
        f = scan_digits_end(c, d + 1);
        is_float = true;
    }
    let mut h = f;
    let mut bad = false;
    if f < n && (c[f] == 'e' || c[f] == 'E') {
        let g = if n - f > 1 && (c[f + 1] == '+' || c[f + 1] == '-') { f + 2 } else { f + 1 };
        h = scan_digits_end(c, g);
        is_float = true;
        bad = h == g;
    }
    assert(number_shape(c@, pos as int) == (h as int, is_float, bad));
    let text = slice_chars(c, pos, h);
    if is_float {
        if bad {
            let mut m = String::from_str("invalid float literal `");
            push_chars(&mut m, &text);
            m.append("`");
            return StepExec::Fail(parse_error(m, offs[pos], offs[h]));
        }
        StepExec::Emit(Token::FloatLit(string_from_chars(&text)), h)
    } else {
        proof {
            assert forall|k: int| pos <= k < h implies is_digit(#[trigger] c@[k]) by {
                lemma_digits_run(c@, pos as int, k);
            }
        }
        match digits_to_i64(c, pos, h) {
            Some(v) => StepExec::Emit(Token::IntLit(v), h),
            None => {
                let mut m = String::from_str("invalid integer literal `");
                push_chars(&mut m, &text);
                m.append("`");
                StepExec::Fail(parse_error(m, offs[pos], offs[h]))
            },
        }
    }
}

fn token_step_exec(c: &Vec<char>, offs: &Vec<usize>, pos: usize) -> (r: StepExec)
    requires
        pos < c@.len(),
        offs@.len() == c@.len() + 1,
        forall|i: int| 0 <= i <= c@.len() ==> offs@[i] == byte_offset(c@, i),
    ensures
        step_matches(c@, pos as int, token_step(c@, pos as int), r),
{
    let n = c.len();
    let ch = c[pos];
    if pos + 1 < n {
        match two_char_token(ch, c[pos + 1]) {
            Some(t) => { return StepExec::Emit(t, pos + 2); },
            None => {},
        }
    }
    match one_char_token(ch) {
        Some(t) => { return StepExec::Emit(t, pos + 1); },
        None => {},
    }
    if ch == '\'' || ch == '"' {
        return string_step_exec(c, offs, pos);
    }
    if ch == '`' {
        return backtick_step_exec(c, offs, pos);
    }
    if '0' <= ch && ch <= '9' {
        return number_step_exec(c, offs, pos);
    }
    if ('a' <= ch && ch <= 'z') || ('A' <= ch && ch <= 'Z') || ch == '_' || ch == '$' {
        let e = scan_ident_end(c, pos + 1);
        let raw = slice_chars(c, pos, e);
        return StepExec::Emit(keyword_or_ident(&raw), e);
    }
    let mut m = String::from_str("unexpected character `");
    m.push(first_byte_of(ch));
    m.append("`");
    proof {
        lemma_byte_offset_step(c@, pos as int);
        lemma_byte_offset_mono(c@, pos as int + 1, n as int);
        assert(m@ =~= "unexpected character `"@ + seq![first_byte_char(c@[pos as int])] + "`"@);
    }
    StepExec::Fail(parse_error(m, offs[pos], offs[pos] + 1))
}

fn lex_step_exec(c: &Vec<char>, offs: &Vec<usize>, pos: usize) -> (r: StepExec)
    requires
        pos < c@.len(),
        offs@.len() == c@.len() + 1,
        forall|i: int| 0 <= i <= c@.len() ==> offs@[i] == byte_offset(c@, i),
    ensures
        step_matches(c@, pos as int, lex_step(c@, pos as int), r),
{
    let n = c.len();
    let ch = c[pos];
    if ch == ' ' || ch == '\t' || ch == '\n' || ch == '\x0C' || ch == '\r' {
        return StepExec::Skip(pos + 1);
    }
    if pos + 1 < n && ch == '/' && c[pos + 1] == '/' {
        return StepExec::Skip(scan_line_end(c, pos + 2));
    }
    if pos + 1 < n && ch == '/' && c[pos + 1] == '*' {
        return match scan_block_end(c, pos + 2) {
            Some(k) => StepExec::Skip(k),
            None => {
                let p = if pos + 2 >= n { offs[n] } else { offs[n] - 1 };
                proof {
                    if pos + 2 < n {
                        lemma_byte_offset_step(c@, n as int - 1);
                    }
                }
                StepExec::Fail(parse_error(String::from_str("unterminated block comment"), p, p))
            },
        };
    }
    token_step_exec(c, offs, pos)
}

/// Tokenize `query` and return the token stream with spans.
/// Returns `Err(CypherError::Parse)` on the first lexing error.
pub fn tokenize(query: &str) -> (r: Result<Vec<Spanned<Token>>, CypherError>)
    requires
        tokenize_defined(query@),
    ensures
        match r {
            Ok(v) => spec_tokenize(query@) == LexResult::Tokens(spanned_views(v@)),
            Err(e) => spec_tokenize(query@) matches LexResult::Error(m, s, t) && is_parse_error(e, m, s, t),
        },
{
    let c = chars_of(query);
    let offs = byte_offsets(query, &c);
    let n = c.len();
    let mut pos: usize = 0;
    let mut tokens: Vec<Spanned<Token>> = Vec::new();
    proof {
        assert(spanned_views(tokens@) =~= Seq::<SpannedV>::empty());
        match lex_from(c@, 0) {
            LexResult::Tokens(r) => { assert(Seq::<SpannedV>::empty() + r =~= r); },
            _ => {},
        }
    }
    while pos < n
        invariant
            c@ == query@,
            n == c@.len(),
            pos <= n,
            offs@.len() == n + 1,
            forall|i: int| 0 <= i <= n ==> offs@[i] == byte_offset(c@, i),
            spec_tokenize(query@) == prepend(spanned_views(tokens@), lex_from(c@, pos as int)),
            !(lex_from(c@, pos as int) is Panic),
        decreases n - pos,
    {
        let ghost old_tokens = spanned_views(tokens@);
        match lex_step_exec(&c, &offs, pos) {
            StepExec::Skip(k) => {
                pos = k;
            },
            StepExec::Emit(t, k) => {
                let sp = Spanned { token: t, start: offs[pos], end: offs[k] };
                tokens.push(sp);
                proof {
                    assert(spanned_views(tokens@) =~= old_tokens + seq![spanned_view(sp)]);
                    match lex_from(c@, k as int) {
                        LexResult::Tokens(r) => {
                            assert(old_tokens + (seq![spanned_view(sp)] + r) =~= old_tokens + seq![
                                spanned_view(sp),
                            ] + r);
                        },
                        _ => {},
                    }
                }
                pos = k;
            },
            StepExec::Fail(e) => {
                return Err(e);
            },
            StepExec::Panic => {
                // Unreachable: the precondition rules a slicing step out.
                assert(lex_from(c@, pos as int) is Panic);
                return Err(parse_error(String::new(), 0, 0));
            },
        }
    }
    proof {
        assert(spanned_views(tokens@) + Seq::<SpannedV>::empty() =~= spanned_views(tokens@));
    }
    Ok(tokens)
}

/// Whether `tokenize` is defined on `query`: false exactly when lexing it
/// reaches a backslash followed by a non-ASCII character inside a string
/// literal, where the byte-level scanner would slice inside a character.
pub fn tokenize_is_defined(query: &str) -> (b: bool)
    ensures
        b == tokenize_defined(query@),
{
    let c = chars_of(query);
    let offs = byte_offsets(query, &c);
    let n = c.len();
    let mut pos: usize = 0;
    while pos < n
        invariant
            c@ == query@,
            n == c@.len(),
            pos <= n,
            offs@.len() == n + 1,
            forall|i: int| 0 <= i <= n ==> offs@[i] == byte_offset(c@, i),
            (spec_tokenize(query@) is Panic) == (lex_from(c@, pos as int) is Panic),
        decreases n - pos,
    {
        match lex_step_exec(&c, &offs, pos) {
            StepExec::Skip(k) => {
                pos = k;
            },
            StepExec::Emit(_t, k) => {
                pos = k;
            },
            StepExec::Fail(_e) => {
                return true;
            },
            StepExec::Panic => {
                return false;
            },
        }
    }
    true
}

proof fn lemma_digits_end_ge(c: Seq<char>, j: int)
    ensures
        digits_end(c, j) >= j,
    decreases c.len() - j,
{
    if 0 <= j < c.len() && is_digit(c[j]) {
        lemma_digits_end_ge(c, j + 1);
    }
}

proof fn lemma_digits_run(c: Seq<char>, j: int, k: int)
    requires
        0 <= j <= k < digits_end(c, j),
    ensures
        is_digit(c[k]),
    decreases k - j,
{
    if k > j {
        lemma_digits_run(c, j + 1, k);
    }
}


proof fn lemma_byte_offset_strict(c: Seq<char>, i: int, j: int)
    requires
        0 <= i < j <= c.len(),
    ensures
        byte_offset(c, i) < byte_offset(c, j),
{
    lemma_byte_offset_step(c, i);
    lemma_byte_offset_mono(c, i + 1, j);
}

/// Every span of `ts` is non-empty and lies within `lo..hi`.
pub open spec fn spans_within(ts: Seq<SpannedV>, lo: int, hi: int) -> bool {
    forall|k: int| 0 <= k < ts.len() ==> lo <= #[trigger] ts[k].start < ts[k].end <= hi
}

/// The spans of `ts` come in order without overlapping.
pub open spec fn spans_ordered(ts: Seq<SpannedV>) -> bool {
    forall|k: int| 0 <= k < ts.len() - 1 ==> #[trigger] ts[k].end <= ts[k + 1].start
}

proof fn spans_prepend(head: SpannedV, rest: Seq<SpannedV>, lo: int, hi: int)
    requires
        lo <= head.start < head.end <= hi,
        spans_within(rest, head.end, hi),
        spans_ordered(rest),
    ensures
        spans_within(seq![head] + rest, lo, hi),
        spans_ordered(seq![head] + rest),
{
    let ts = seq![head] + rest;
    assert forall|k: int| 0 <= k < ts.len() implies lo <= #[trigger] ts[k].start < ts[k].end <= hi by {
        if k > 0 {
            assert(ts[k] == rest[k - 1]);
        }
    }
    assert forall|k: int| 0 <= k < ts.len() - 1 implies #[trigger] ts[k].end <= ts[k + 1].start by {
        assert(ts[k + 1] == rest[k]);
        if k > 0 {
            assert(ts[k] == rest[k - 1]);
        }
    }
}

proof fn spans_widen(ts: Seq<SpannedV>, lo: int, lo2: int, hi: int)
    requires
        lo2 <= lo,
        spans_within(ts, lo, hi),
    ensures
        spans_within(ts, lo2, hi),
{
}

/// Every token lexed from character index `i` on lies, in order and without
/// overlap, between the byte offset of `i` and the end of `c`.
proof fn lex_from_spans(c: Seq<char>, i: int)
    requires
        0 <= i <= c.len(),
    ensures
        lex_from(c, i) matches LexResult::Tokens(ts) ==> spans_within(ts, byte_offset(c, i), byte_offset(
            c,
            c.len() as int,
        )) && spans_ordered(ts),
    decreases c.len() - i,
{
    let hi = byte_offset(c, c.len() as int);
    if i < c.len() {
        match lex_step(c, i) {
            LexStep::Skip(j) => {
                if i < j <= c.len() {
                    lex_from_spans(c, j);
                    lemma_byte_offset_mono(c, i, j);
                    if let LexResult::Tokens(ts) = lex_from(c, j) {
                        spans_widen(ts, byte_offset(c, j), byte_offset(c, i), hi);
                    }
                }
            },
            LexStep::Emit(t, j) => {
                if i < j <= c.len() {
                    lex_from_spans(c, j);
                    lemma_byte_offset_strict(c, i, j);
                    lemma_byte_offset_mono(c, j, c.len() as int);
                    if let LexResult::Tokens(rest) = lex_from(c, j) {
                        let head = SpannedV { token: t, start: byte_offset(c, i), end: byte_offset(c, j) };
                        spans_prepend(head, rest, byte_offset(c, i), hi);
                    }
                }
            },
            _ => {},
        }
    }
}

/// The spans of a lexed query are non-empty, lie within the query's bytes and
/// come in order without overlapping.
pub proof fn token_spans_are_ordered(q: Seq<char>)
    requires
        spec_tokenize(q) is Tokens,
    ensures
        ({
            let ts = spec_tokenize(q)->Tokens_0;
            &&& forall|k: int|
                0 <= k < ts.len() ==> 0 <= #[trigger] ts[k].start < ts[k].end <= encode_utf8(q).len()
            &&& forall|k: int| 0 <= k < ts.len() - 1 ==> #[trigger] ts[k].end <= ts[k + 1].start
        }),
{
    lex_from_spans(q, 0);
    let ts = spec_tokenize(q)->Tokens_0;
    assert(spans_within(ts, byte_offset(q, 0), byte_offset(q, q.len() as int)));
    assert(spans_ordered(ts));
    assert(q.subrange(0, q.len() as int) =~= q);
    assert(q.subrange(0, 0) =~= Seq::<char>::empty());
    assert(encode_utf8(Seq::<char>::empty()) =~= Seq::<u8>::empty());
}

} // verus!
