//! The scanner: from the text of a source file to its tokens.

use vstd::prelude::*;
use crate::grammar::tokens::{
    char_body, col_of, digits_len, is_letter, is_numeral, is_space, keyword, line_of, number_value,
    slice, string_body, symbol_at, symbol_pair, symbol_single, token_at, tokens_from, tokens_of,
    unescape, word_len, LexError, LexErrorKind,
};
use crate::lexer::{token_views, Token, TokenType, TokenView};
use crate::text::{chars_of, str_eq};

verus! {

/// The tokens `before`, then those of `rest`.
spec fn and_then(before: Seq<TokenView>, rest: Result<Seq<TokenView>, LexError>) -> Result<
    Seq<TokenView>,
    LexError,
> {
    match rest {
        Ok(more) => Ok(before + more),
        Err(e) => Err(e),
    }
}

/// A piece of a string with `text` before it, which took `taken`
/// characters of the source.
spec fn with_text(
    text: Seq<char>,
    taken: nat,
    rest: Result<(Seq<char>, nat), LexErrorKind>,
) -> Result<(Seq<char>, nat), LexErrorKind> {
    match rest {
        Ok((more, used)) => Ok((text + more, taken + used)),
        Err(e) => Err(e),
    }
}

fn space(c: char) -> (r: bool)
    ensures
        r == is_space(c),
{
    c == ' ' || c == '\t' || c == '\r' || c == '\n'
}

fn letter(c: char) -> (r: bool)
    ensures
        r == is_letter(c),
{
    let v: u32 = c as u32;
    (97 <= v && v <= 122) || (65 <= v && v <= 90) || v == 95
}

fn numeral(c: char) -> (r: bool)
    ensures
        r == is_numeral(c),
{
    let v: u32 = c as u32;
    48 <= v && v <= 57
}

/// The number of letters and digits in a row from position `i` on.
fn word_length(chars: &Vec<char>, i: usize) -> (r: usize)
    requires
        i <= chars@.len(),
    ensures
        r == word_len(chars@, i as nat),
        i + r <= chars@.len(),
{
    let mut k: usize = i;
    while k < chars.len() && (letter(chars[k]) || numeral(chars[k]))
        invariant
            i <= k <= chars@.len(),
            word_len(chars@, i as nat) == (k - i) + word_len(chars@, k as nat),
        decreases chars@.len() - k,
    {
        k += 1;
    }
    k - i
}

/// The number of digits in a row from position `i` on.
fn digits_length(chars: &Vec<char>, i: usize) -> (r: usize)
    requires
        i <= chars@.len(),
    ensures
        r == digits_len(chars@, i as nat),
        i + r <= chars@.len(),
{
    let mut k: usize = i;
    while k < chars.len() && numeral(chars[k])
        invariant
            i <= k <= chars@.len(),
            digits_len(chars@, i as nat) == (k - i) + digits_len(chars@, k as nat),
        decreases chars@.len() - k,
    {
        k += 1;
    }
    k - i
}

/// More digits make no smaller number.
proof fn lemma_number_grows(s: Seq<char>, i: nat, m: nat, n: nat)
    requires
        m <= n,
        forall|k: int| i <= k < i + n ==> is_numeral(#[trigger] s[k]),
    ensures
        number_value(s, i, m) <= number_value(s, i, n),
    decreases n - m,
{
    if m < n {
        lemma_number_grows(s, i, m, (n - 1) as nat);
        assert(is_numeral(s[(i + n - 1) as int]));
    }
}

/// The digits in a row are digits.
proof fn lemma_digits(s: Seq<char>, i: nat)
    ensures
        forall|k: int| i <= k < i + digits_len(s, i) ==> is_numeral(#[trigger] s[k]),
        i + digits_len(s, i) <= s.len() || digits_len(s, i) == 0,
    decreases s.len() - i,
{
    if i < s.len() && is_numeral(s[i as int]) {
        lemma_digits(s, i + 1);
    }
}

/// The number that the `count` digits from position `i` on denote, if 32
/// bits hold it.
fn number(chars: &Vec<char>, i: usize, count: usize) -> (r: Option<i32>)
    requires
        i + count <= chars@.len(),
        forall|k: int| i <= k < i + count ==> is_numeral(#[trigger] chars@[k]),
    ensures
        match r {
            Some(v) => v == number_value(chars@, i as nat, count as nat),
            None => number_value(chars@, i as nat, count as nat) > i32::MAX,
        },
{
    let n: usize = chars.len();
    let mut v: u64 = 0;
    let mut k: usize = 0;
    while k < count
        invariant
            k <= count,
            n == chars@.len(),
            i + count <= n,
            forall|j: int| i <= j < i + count ==> is_numeral(#[trigger] chars@[j]),
            v == number_value(chars@, i as nat, k as nat),
            v <= i32::MAX,
        decreases count - k,
    {
        let c = chars[i + k];
        assert(is_numeral(chars@[i + k]));
        let d: u64 = (c as u32 - 48) as u64;
        v = v * 10 + d;
        k += 1;
        if v > 2147483647 {
            proof {
                lemma_number_grows(chars@, i as nat, k as nat, count as nat);
            }
            return None;
        }
    }
    Some(v as i32)
}

/// The word that is a token of its own.
fn keyword_of(word: &str) -> (r: Option<TokenType>)
    ensures
        r == keyword(word@),
{
    if str_eq(word, "func") {
        Some(TokenType::Func)
    } else if str_eq(word, "var") {
        Some(TokenType::Var)
    } else if str_eq(word, "if") {
        Some(TokenType::If)
    } else if str_eq(word, "else") {
        Some(TokenType::Else)
    } else if str_eq(word, "while") {
        Some(TokenType::While)
    } else if str_eq(word, "break") {
        Some(TokenType::Break)
    } else if str_eq(word, "continue") {
        Some(TokenType::Continue)
    } else if str_eq(word, "return") {
        Some(TokenType::Return)
    } else if str_eq(word, "print") {
        Some(TokenType::Print)
    } else if str_eq(word, "asm") {
        Some(TokenType::Asm)
    } else if str_eq(word, "import") {
        Some(TokenType::Import)
    } else if str_eq(word, "ptr") {
        Some(TokenType::Ptr)
    } else if str_eq(word, "true") {
        Some(TokenType::True)
    } else if str_eq(word, "false") {
        Some(TokenType::False)
    } else {
        None
    }
}

/// The character that stands behind a backslash for another, and that
/// character as a string.
fn unescape_char(c: char) -> (r: Option<(char, &'static str)>)
    ensures
        match unescape(c) {
            Some(v) => r matches Some((ch, text)) && ch == v && text@ == seq![v],
            None => r is None,
        },
{
    proof {
        reveal_strlit("\n");
        reveal_strlit("\t");
        reveal_strlit("\r");
        reveal_strlit("\0");
        reveal_strlit("\\");
        reveal_strlit("'");
        reveal_strlit("\"");
    }
    let r = if c == 'n' {
        Some(('\n', "\n"))
    } else if c == 't' {
        Some(('\t', "\t"))
    } else if c == 'r' {
        Some(('\r', "\r"))
    } else if c == '0' {
        Some(('\0', "\0"))
    } else if c == '\\' {
        Some(('\\', "\\"))
    } else if c == '\'' {
        Some(('\'', "'"))
    } else if c == '"' {
        Some(('"', "\""))
    } else {
        None
    };
    match r {
        Some((ch, text)) => {
            assert(text@ =~= seq![ch]);
        },
        None => {},
    }
    r
}

fn pair_symbol(a: char, b: char) -> (r: Option<TokenType>)
    ensures
        r == symbol_pair(a, b),
{
    if b == '=' {
        if a == ':' {
            Some(TokenType::ColonEq)
        } else if a == '+' {
            Some(TokenType::PlusEq)
        } else if a == '-' {
            Some(TokenType::SubEq)
        } else if a == '*' {
            Some(TokenType::MultiEq)
        } else if a == '/' {
            Some(TokenType::DivEq)
        } else if a == '%' {
            Some(TokenType::ModEq)
        } else if a == '=' {
            Some(TokenType::DoubleEq)
        } else if a == '!' {
            Some(TokenType::NotEq)
        } else if a == '>' {
            Some(TokenType::BiggerEq)
        } else if a == '<' {
            Some(TokenType::SmallerEq)
        } else {
            None
        }
    } else if a == ':' && b == ':' {
        Some(TokenType::DoubleColon)
    } else if a == '<' && b == '<' {
        Some(TokenType::Lsh)
    } else if a == '>' && b == '>' {
        Some(TokenType::Rsh)
    } else {
        None
    }
}

fn single_symbol(a: char) -> (r: Option<TokenType>)
    ensures
        r == symbol_single(a),
{
    if a == '+' {
        Some(TokenType::Plus)
    } else if a == '-' {
        Some(TokenType::Minus)
    } else if a == '*' {
        Some(TokenType::Multi)
    } else if a == '/' {
        Some(TokenType::Devide)
    } else if a == '%' {
        Some(TokenType::Mod)
    } else if a == '!' {
        Some(TokenType::Not)
    } else if a == '&' {
        Some(TokenType::And)
    } else if a == '|' {
        Some(TokenType::Or)
    } else if a == '=' {
        Some(TokenType::Eq)
    } else if a == '>' {
        Some(TokenType::Bigger)
    } else if a == '<' {
        Some(TokenType::Smaller)
    } else if a == '(' {
        Some(TokenType::OParen)
    } else if a == ')' {
        Some(TokenType::CParen)
    } else if a == '[' {
        Some(TokenType::OBracket)
    } else if a == ']' {
        Some(TokenType::CBracket)
    } else if a == '{' {
        Some(TokenType::OCurly)
    } else if a == '}' {
        Some(TokenType::CCurly)
    } else if a == ',' {
        Some(TokenType::Comma)
    } else if a == ';' {
        Some(TokenType::SemiColon)
    } else if a == '@' {
        Some(TokenType::ATSign)
    } else if a == '?' {
        Some(TokenType::QMark)
    } else {
        None
    }
}

/// The operator or punctuation mark at position `i`, and its length.
fn symbol(chars: &Vec<char>, i: usize) -> (r: Option<(TokenType, usize)>)
    requires
        i < chars@.len(),
    ensures
        match symbol_at(chars@, i as nat) {
            Some((t, n)) => r == Some((t, n as usize)) && 1 <= n <= 2 && i + n <= chars@.len(),
            None => r is None,
        },
{
    let n: usize = chars.len();
    let pair = if i + 1 < n {
        pair_symbol(chars[i], chars[i + 1])
    } else {
        None
    };
    match pair {
        Some(t) => Some((t, 2)),
        None => match single_symbol(chars[i]) {
            Some(t) => Some((t, 1)),
            None => None,
        },
    }
}

/// Characters of a string other than the quote and the backslash stand for
/// themselves.
proof fn lemma_plain_text(s: Seq<char>, from: nat, to: nat)
    requires
        from <= to <= s.len(),
        forall|k: int| from <= k < to ==> s[k] != '"' && s[k] != '\\',
    ensures
        string_body(s, from) == with_text(
            slice(s, from, (to - from) as nat),
            (to - from) as nat,
            string_body(s, to),
        ),
    decreases to - from,
{
    if from < to {
        lemma_plain_text(s, from + 1, to);
        assert(seq![s[from as int]] + slice(s, from + 1, (to - from - 1) as nat) =~= slice(
            s,
            from,
            (to - from) as nat,
        ));
        match string_body(s, to) {
            Ok((more, used)) => {
                assert(seq![s[from as int]] + (slice(s, from + 1, (to - from - 1) as nat) + more)
                    =~= slice(s, from, (to - from) as nat) + more);
            },
            Err(_) => {},
        }
    } else {
        match string_body(s, to) {
            Ok((more, used)) => {
                assert(slice(s, from, 0) + more =~= more);
            },
            Err(_) => {},
        }
    }
}

/// What a string holds from position `start` on, behind its opening quote,
/// and the number of characters that this takes.
fn scan_string(source: &str, chars: &Vec<char>, start: usize) -> (r: Result<
    (String, usize),
    LexErrorKind,
>)
    requires
        chars@ == source@,
        start <= chars@.len(),
    ensures
        match string_body(chars@, start as nat) {
            Ok((text, used)) => r matches Ok((t, u)) && t@ == text && u == used && start + used
                <= chars@.len(),
            Err(kind) => r matches Err(k) && k == kind,
        },
{
    let n: usize = chars.len();
    let mut content = String::new();
    let mut k: usize = start;
    proof {
        match string_body(chars@, start as nat) {
            Ok((more, used)) => {
                assert(content@ + more =~= more);
            },
            Err(_) => {},
        }
    }
    loop
        invariant
            chars@ == source@,
            n == chars@.len(),
            start <= k <= n,
            string_body(chars@, start as nat) == with_text(
                content@,
                (k - start) as nat,
                string_body(chars@, k as nat),
            ),
        decreases n - k,
    {
        if k >= n {
            return Err(LexErrorKind::UnterminatedString);
        }
        let c = chars[k];
        let ghost before = content@;
        if c == '"' {
            assert(before + Seq::<char>::empty() =~= before);
            return Ok((content, k - start + 1));
        } else if c == '\\' {
            if k + 1 >= n {
                return Err(LexErrorKind::UnterminatedString);
            }
            match unescape_char(chars[k + 1]) {
                None => {
                    return Err(LexErrorKind::BadEscape);
                },
                Some((ch, text)) => {
                    content.append(text);
                    proof {
                        match string_body(chars@, (k + 2) as nat) {
                            Ok((more, used)) => {
                                assert(before + (seq![ch] + more) =~= content@ + more);
                            },
                            Err(_) => {},
                        }
                    }
                    k += 2;
                },
            }
        } else {
            let first: usize = k;
            while k < n && chars[k] != '"' && chars[k] != '\\'
                invariant
                    first <= k <= n,
                    n == chars@.len(),
                    forall|j: int| first <= j < k ==> chars@[j] != '"' && chars@[j] != '\\',
                decreases n - k,
            {
                k += 1;
            }
            content.append(source.substring_char(first, k));
            proof {
                lemma_plain_text(chars@, first as nat, k as nat);
                match string_body(chars@, k as nat) {
                    Ok((more, used)) => {
                        assert(before + (slice(chars@, first as nat, (k - first) as nat) + more)
                            =~= content@ + more);
                    },
                    Err(_) => {},
                }
            }
        }
    }
}

/// What a character literal holds at position `start`, behind its opening
/// quote, and the number of characters that this takes.
fn scan_char(chars: &Vec<char>, start: usize) -> (r: Result<(char, usize), LexErrorKind>)
    requires
        start <= chars@.len(),
    ensures
        match char_body(chars@, start as nat) {
            Ok((value, used)) => r matches Ok((v, u)) && v == value && u == used && start + used
                <= chars@.len(),
            Err(kind) => r matches Err(k) && k == kind,
        },
{
    let n: usize = chars.len();
    if start >= n {
        Err(LexErrorKind::UnterminatedChar)
    } else if chars[start] == '\\' {
        if start + 1 >= n {
            Err(LexErrorKind::UnterminatedChar)
        } else {
            match unescape_char(chars[start + 1]) {
                None => Err(LexErrorKind::BadEscape),
                Some((ch, _)) => {
                    if start + 2 < n && chars[start + 2] == '\'' {
                        Ok((ch, 3))
                    } else {
                        Err(LexErrorKind::UnterminatedChar)
                    }
                },
            }
        }
    } else if start + 1 < n && chars[start + 1] == '\'' {
        Ok((chars[start], 2))
    } else {
        Err(LexErrorKind::UnterminatedChar)
    }
}

/// The token that starts at position `i`: its kind, its text, and its
/// length beyond its first character.
fn scan_token(source: &str, chars: &Vec<char>, i: usize) -> (r: Result<
    (TokenType, String, usize),
    LexErrorKind,
>)
    requires
        chars@ == source@,
        i < chars@.len(),
    ensures
        match token_at(chars@, i as nat) {
            Ok((t, text, more)) => r matches Ok((kind, literal, m)) && kind == t && literal@
                == text && m == more && i + 1 + more <= chars@.len(),
            Err((kind, at)) => r matches Err(k) && k == kind && at == i,
        },
{
    let n: usize = chars.len();
    let c = chars[i];
    if letter(c) {
        let more: usize = word_length(chars, i + 1);
        let word = source.substring_char(i, i + 1 + more);
        let kind = match keyword_of(word) {
            Some(t) => t,
            None => TokenType::Identifier,
        };
        Ok((kind, String::from_str(word), more))
    } else if numeral(c) {
        let more: usize = digits_length(chars, i + 1);
        proof {
            lemma_digits(chars@, (i + 1) as nat);
        }
        match number(chars, i, 1 + more) {
            None => Err(LexErrorKind::NumberTooLarge),
            Some(value) => Ok(
                (
                    TokenType::Int(value),
                    String::from_str(source.substring_char(i, i + 1 + more)),
                    more,
                ),
            ),
        }
    } else if c == '"' {
        match scan_string(source, chars, i + 1) {
            Err(kind) => Err(kind),
            Ok((text, used)) => Ok((TokenType::String, text, used)),
        }
    } else if c == '\'' {
        match scan_char(chars, i + 1) {
            Err(kind) => Err(kind),
            Ok((value, used)) => Ok(
                (
                    TokenType::Char(value),
                    String::from_str(source.substring_char(i, i + 1 + used)),
                    used,
                ),
            ),
        }
    } else {
        match symbol(chars, i) {
            None => Err(LexErrorKind::UnexpectedChar),
            Some((t, n)) => Ok((t, String::from_str(source.substring_char(i, i + n)), n - 1)),
        }
    }
}

/// No line and no column is above the position by more than one.
proof fn lemma_place_bounds(s: Seq<char>, i: nat)
    ensures
        1 <= line_of(s, i) <= i + 1,
        1 <= col_of(s, i) <= i + 1,
    decreases i,
{
    if i > 0 {
        lemma_place_bounds(s, (i - 1) as nat);
    }
}

/// Breaks a source text into its tokens.
pub fn tokenize(source: &str) -> (r: Result<Vec<Token>, LexError>)
    ensures
        match tokens_of(source@) {
            Ok(views) => r matches Ok(tokens) && token_views(tokens@) == views,
            Err(e) => r matches Err(err) && err == e,
        },
{
    let chars = chars_of(source);
    let n: usize = chars.len();
    let mut tokens: Vec<Token> = Vec::new();
    let mut i: usize = 0;
    let mut line: usize = 1;
    let mut col: usize = 1;
    proof {
        assert(token_views(tokens@) =~= Seq::empty());
        match tokens_from(chars@, 0) {
            Ok(more) => {
                assert(token_views(tokens@) + more =~= more);
            },
            Err(_) => {},
        }
    }
    loop
        invariant
            chars@ == source@,
            n == chars@.len(),
            i <= n,
            i < n ==> line == line_of(chars@, i as nat) && col == col_of(chars@, i as nat),
            tokens_of(chars@) == and_then(token_views(tokens@), tokens_from(chars@, i as nat)),
        ensures
            tokens_of(chars@) == Ok::<Seq<TokenView>, LexError>(token_views(tokens@)),
        decreases n - i,
    {
        if i >= n {
            assert(token_views(tokens@) + Seq::<TokenView>::empty() =~= token_views(tokens@));
            break ;
        }
        let ghost views = token_views(tokens@);
        let mut taken: usize = 1;
        if !space(chars[i]) {
            match scan_token(source, &chars, i) {
                Err(kind) => {
                    return Err(LexError { kind, index: i, line, col });
                },
                Ok((t_type, literal, more)) => {
                    let ghost view = TokenView {
                        t_type,
                        literal: literal@,
                        line: line as nat,
                        col: col as nat,
                    };
                    tokens.push(Token { t_type, literal, line, col });
                    taken = 1 + more;
                    proof {
                        assert(token_views(tokens@) =~= views.push(view));
                        match tokens_from(chars@, (i + taken) as nat) {
                            Ok(rest) => {
                                assert(views + (seq![view] + rest) =~= token_views(tokens@)
                                    + rest);
                            },
                            Err(_) => {},
                        }
                    }
                },
            }
        }
        let target: usize = i + taken;
        while i < target
            invariant
                n == chars@.len(),
                i <= target <= n,
                i < n ==> line == line_of(chars@, i as nat) && col == col_of(chars@, i as nat),
            decreases target - i,
        {
            proof {
                lemma_place_bounds(chars@, (i + 1) as nat);
            }
            let c = chars[i];
            i += 1;
            if i < n {
                if c == '\n' {
                    line = line + 1;
                    col = 1;
                } else {
                    col = col + 1;
                }
            }
        }
    }
    Ok(tokens)
}

} // verus!
