//! The tokens of a source text.
//!
//! Blanks separate tokens and are dropped. A token starts at the first
//! character behind them and is as long as it can be.

use vstd::prelude::*;
use crate::lexer::{TokenType, TokenView};

verus! {

/// What is wrong with a source text.
#[derive(Clone, Copy, Debug, PartialEq, Eq, Structural)]
pub enum LexErrorKind {
    /// A character that no token starts with.
    UnexpectedChar,
    /// A string without its closing quote.
    UnterminatedString,
    /// A character literal without its closing quote.
    UnterminatedChar,
    /// A backslash before a character that it gives no meaning.
    BadEscape,
    /// A number above the largest that 32 bits hold.
    NumberTooLarge,
}

/// Where a source text stops being made of tokens, and why: the position of
/// the character, counted from 0, and its line and column, counted from 1.
#[derive(Clone, Copy, Debug, PartialEq, Eq, Structural)]
pub struct LexError {
    pub kind: LexErrorKind,
    pub index: usize,
    pub line: usize,
    pub col: usize,
}

/// The `n` characters of `s` from position `i` on.
pub open spec fn slice(s: Seq<char>, i: nat, n: nat) -> Seq<char> {
    s.subrange(i as int, (i + n) as int)
}

/// The blanks: space, tab, carriage return and line feed.
pub open spec fn is_space(c: char) -> bool {
    c == ' ' || c == '\t' || c == '\r' || c == '\n'
}

/// The letters of names: `a` to `z`, `A` to `Z` and the underscore.
pub open spec fn is_letter(c: char) -> bool {
    let v = c as u32;
    (97 <= v <= 122) || (65 <= v <= 90) || v == 95
}

/// The digits `0` to `9`.
pub open spec fn is_numeral(c: char) -> bool {
    48 <= c as u32 <= 57
}

/// The characters that a name goes on with: letters and digits.
pub open spec fn is_word_char(c: char) -> bool {
    is_letter(c) || is_numeral(c)
}

/// The number of blanks in a row from position `i` on.
pub open spec fn spaces_len(s: Seq<char>, i: nat) -> nat
    decreases s.len() - i,
{
    if i < s.len() && is_space(s[i as int]) {
        1 + spaces_len(s, i + 1)
    } else {
        0
    }
}

/// The number of letters and digits in a row from position `i` on.
pub open spec fn word_len(s: Seq<char>, i: nat) -> nat
    decreases s.len() - i,
{
    if i < s.len() && is_word_char(s[i as int]) {
        1 + word_len(s, i + 1)
    } else {
        0
    }
}

/// The number of digits in a row from position `i` on.
pub open spec fn digits_len(s: Seq<char>, i: nat) -> nat
    decreases s.len() - i,
{
    if i < s.len() && is_numeral(s[i as int]) {
        1 + digits_len(s, i + 1)
    } else {
        0
    }
}

/// The number that the `n` digits from position `i` on denote.
pub open spec fn number_value(s: Seq<char>, i: nat, n: nat) -> nat
    decreases n,
{
    if n == 0 {
        0
    } else {
        number_value(s, i, (n - 1) as nat) * 10 + (s[(i + n - 1) as int] as u32 - 48) as nat
    }
}

/// The line of position `i`: one more than the line feeds before it.
pub open spec fn line_of(s: Seq<char>, i: nat) -> nat
    decreases i,
{
    if i == 0 {
        1
    } else if s[(i - 1) as int] == '\n' {
        line_of(s, (i - 1) as nat) + 1
    } else {
        line_of(s, (i - 1) as nat)
    }
}

/// The column of position `i`: one more than the characters before it in
/// its line.
pub open spec fn col_of(s: Seq<char>, i: nat) -> nat
    decreases i,
{
    if i == 0 || s[(i - 1) as int] == '\n' {
        1
    } else {
        col_of(s, (i - 1) as nat) + 1
    }
}

/// The word that is a token of its own.
pub open spec fn keyword(word: Seq<char>) -> Option<TokenType> {
    if word == "func"@ {
        Some(TokenType::Func)
    } else if word == "var"@ {
        Some(TokenType::Var)
    } else if word == "if"@ {
        Some(TokenType::If)
    } else if word == "else"@ {
        Some(TokenType::Else)
    } else if word == "while"@ {
        Some(TokenType::While)
    } else if word == "break"@ {
        Some(TokenType::Break)
    } else if word == "continue"@ {
        Some(TokenType::Continue)
    } else if word == "return"@ {
        Some(TokenType::Return)
    } else if word == "print"@ {
        Some(TokenType::Print)
    } else if word == "asm"@ {
        Some(TokenType::Asm)
    } else if word == "import"@ {
        Some(TokenType::Import)
    } else if word == "ptr"@ {
        Some(TokenType::Ptr)
    } else if word == "true"@ {
        Some(TokenType::True)
    } else if word == "false"@ {
        Some(TokenType::False)
    } else {
        None
    }
}

/// The character that stands behind a backslash for another.
pub open spec fn unescape(c: char) -> Option<char> {
    if c == 'n' {
        Some('\n')
    } else if c == 't' {
        Some('\t')
    } else if c == 'r' {
        Some('\r')
    } else if c == '0' {
        Some('\0')
    } else if c == '\\' || c == '\'' || c == '"' {
        Some(c)
    } else {
        None
    }
}

/// The token of two characters that starts with `a` and `b`.
pub open spec fn symbol_pair(a: char, b: char) -> Option<TokenType> {
    if b == '=' {
        if a == ':' {
            Some(TokenType::ColonEq)
        } else if a == '+' {
            Some(TokenType::PlusEq)
        } else if a == '-' {
            Some(TokenType::SubEq)
        } else if a == '*' {
            Some(TokenType::MultiEq)
        } else if a == '/' {
            Some(TokenType::DivEq)
        } else if a == '%' {
            Some(TokenType::ModEq)
        } else if a == '=' {
            Some(TokenType::DoubleEq)
        } else if a == '!' {
            Some(TokenType::NotEq)
        } else if a == '>' {
            Some(TokenType::BiggerEq)
        } else if a == '<' {
            Some(TokenType::SmallerEq)
        } else {
            None
        }
    } else if a == ':' && b == ':' {
        Some(TokenType::DoubleColon)
    } else if a == '<' && b == '<' {
        Some(TokenType::Lsh)
    } else if a == '>' && b == '>' {
        Some(TokenType::Rsh)
    } else {
        None
    }
}

/// The token of one character.
pub open spec fn symbol_single(a: char) -> Option<TokenType> {
    if a == '+' {
        Some(TokenType::Plus)
    } else if a == '-' {
        Some(TokenType::Minus)
    } else if a == '*' {
        Some(TokenType::Multi)
    } else if a == '/' {
        Some(TokenType::Devide)
    } else if a == '%' {
        Some(TokenType::Mod)
    } else if a == '!' {
        Some(TokenType::Not)
    } else if a == '&' {
        Some(TokenType::And)
    } else if a == '|' {
        Some(TokenType::Or)
    } else if a == '=' {
        Some(TokenType::Eq)
    } else if a == '>' {
        Some(TokenType::Bigger)
    } else if a == '<' {
        Some(TokenType::Smaller)
    } else if a == '(' {
        Some(TokenType::OParen)
    } else if a == ')' {
        Some(TokenType::CParen)
    } else if a == '[' {
        Some(TokenType::OBracket)
    } else if a == ']' {
        Some(TokenType::CBracket)
    } else if a == '{' {
        Some(TokenType::OCurly)
    } else if a == '}' {
        Some(TokenType::CCurly)
    } else if a == ',' {
        Some(TokenType::Comma)
    } else if a == ';' {
        Some(TokenType::SemiColon)
    } else if a == '@' {
        Some(TokenType::ATSign)
    } else if a == '?' {
        Some(TokenType::QMark)
    } else {
        None
    }
}

/// The operator or punctuation mark at position `i`, the longer one where
/// two are possible, and its length.
pub open spec fn symbol_at(s: Seq<char>, i: nat) -> Option<(TokenType, nat)> {
    let pair = if i + 1 < s.len() {
        symbol_pair(s[i as int], s[(i + 1) as int])
    } else {
        None
    };
    match pair {
        Some(t) => Some((t, 2)),
        None => match symbol_single(s[i as int]) {
            Some(t) => Some((t, 1)),
            None => None,
        },
    }
}

/// What a string holds from position `i` on, up to its closing quote, with
/// each escape replaced by the character it stands for, and the number of
/// characters of the source that this takes, the quote included.
pub open spec fn string_body(s: Seq<char>, i: nat) -> Result<(Seq<char>, nat), LexErrorKind>
    decreases s.len() - i,
{
    if i >= s.len() {
        Err(LexErrorKind::UnterminatedString)
    } else if s[i as int] == '"' {
        Ok((Seq::empty(), 1))
    } else if s[i as int] == '\\' {
        if i + 1 >= s.len() {
            Err(LexErrorKind::UnterminatedString)
        } else {
            match unescape(s[(i + 1) as int]) {
                None => Err(LexErrorKind::BadEscape),
                Some(c) => match string_body(s, i + 2) {
                    Err(e) => Err(e),
                    Ok((rest, used)) => Ok((seq![c] + rest, 2 + used)),
                },
            }
        }
    } else {
        match string_body(s, i + 1) {
            Err(e) => Err(e),
            Ok((rest, used)) => Ok((seq![s[i as int]] + rest, 1 + used)),
        }
    }
}

/// What a character literal holds at position `i`, behind its opening
/// quote, and the number of characters of the source that this takes, the
/// closing quote included.
pub open spec fn char_body(s: Seq<char>, i: nat) -> Result<(char, nat), LexErrorKind> {
    if i >= s.len() {
        Err(LexErrorKind::UnterminatedChar)
    } else if s[i as int] == '\\' {
        if i + 1 >= s.len() {
            Err(LexErrorKind::UnterminatedChar)
        } else {
            match unescape(s[(i + 1) as int]) {
                None => Err(LexErrorKind::BadEscape),
                Some(c) => if i + 2 < s.len() && s[(i + 2) as int] == '\'' {
                    Ok((c, 3))
                } else {
                    Err(LexErrorKind::UnterminatedChar)
                },
            }
        }
    } else if i + 1 < s.len() && s[(i + 1) as int] == '\'' {
        Ok((s[i as int], 2))
    } else {
        Err(LexErrorKind::UnterminatedChar)
    }
}

/// The token that starts at position `i`, which holds a character that is
/// not a blank: its kind, its text, and its length beyond its first
/// character. The text of a string is what it holds; of any other token,
/// its characters. An error comes with the position of the first character
/// of what should have been a token.
pub open spec fn token_at(s: Seq<char>, i: nat) -> Result<
    (TokenType, Seq<char>, nat),
    (LexErrorKind, nat),
> {
    let c = s[i as int];
    if is_letter(c) {
        let more = word_len(s, i + 1);
        let word = slice(s, i, 1 + more);
        Ok(
            (
                match keyword(word) {
                    Some(t) => t,
                    None => TokenType::Identifier,
                },
                word,
                more,
            ),
        )
    } else if is_numeral(c) {
        let more = digits_len(s, i + 1);
        let value = number_value(s, i, 1 + more);
        if value > i32::MAX {
            Err((LexErrorKind::NumberTooLarge, i))
        } else {
            Ok((TokenType::Int(value as i32), slice(s, i, 1 + more), more))
        }
    } else if c == '"' {
        match string_body(s, i + 1) {
            Err(kind) => Err((kind, i)),
            Ok((text, used)) => Ok((TokenType::String, text, used)),
        }
    } else if c == '\'' {
        match char_body(s, i + 1) {
            Err(kind) => Err((kind, i)),
            Ok((value, used)) => Ok(
                (TokenType::Char(value), slice(s, i, 1 + used), used),
            ),
        }
    } else {
        match symbol_at(s, i) {
            None => Err((LexErrorKind::UnexpectedChar, i)),
            Some((t, n)) => Ok((t, slice(s, i, n), (n - 1) as nat)),
        }
    }
}

/// The error of kind `kind` at position `at`.
pub open spec fn lex_error(s: Seq<char>, kind: LexErrorKind, at: nat) -> LexError {
    LexError {
        kind,
        index: at as usize,
        line: line_of(s, at) as usize,
        col: col_of(s, at) as usize,
    }
}

/// The characters from position `i` on, counted.
pub open spec fn remaining(s: Seq<char>, i: nat) -> nat {
    if i <= s.len() {
        (s.len() - i) as nat
    } else {
        0
    }
}

/// The tokens of a source text from position `i` on.
pub open spec fn tokens_from(s: Seq<char>, i: nat) -> Result<Seq<TokenView>, LexError>
    decreases remaining(s, i),
{
    let start = i + spaces_len(s, i);
    if start >= s.len() {
        Ok(Seq::empty())
    } else {
        match token_at(s, start) {
            Err((kind, at)) => Err(lex_error(s, kind, at)),
            Ok((t_type, literal, more)) => match tokens_from(s, start + 1 + more) {
                Err(e) => Err(e),
                Ok(rest) => Ok(
                    seq![
                        TokenView {
                            t_type,
                            literal,
                            line: line_of(s, start),
                            col: col_of(s, start),
                        },
                    ] + rest,
                ),
            },
        }
    }
}

/// The tokens of a source text.
pub open spec fn tokens_of(s: Seq<char>) -> Result<Seq<TokenView>, LexError> {
    tokens_from(s, 0)
}

} // verus!
