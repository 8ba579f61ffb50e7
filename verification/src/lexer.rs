//! Tokens, and the cursor through which the parser reads them.

use vstd::prelude::*;
use crate::text::{decimal, push_decimal};

verus! {

/// The kind of a token. Numbers and characters carry their value; the text
/// of identifiers and strings is in the token.
#[derive(Clone, Copy, Debug, PartialEq, Eq, Structural)]
pub enum TokenType {
    Identifier,
    Int(i32),
    Char(char),
    String,
    Plus,
    Minus,
    Multi,
    Devide,
    Mod,
    Not,
    And,
    Or,
    Lsh,
    Rsh,
    Eq,
    ColonEq,
    DoubleColon,
    PlusEq,
    SubEq,
    MultiEq,
    DivEq,
    ModEq,
    DoubleEq,
    NotEq,
    Bigger,
    Smaller,
    BiggerEq,
    SmallerEq,
    OParen,
    CParen,
    OBracket,
    CBracket,
    OCurly,
    CCurly,
    Comma,
    SemiColon,
    ATSign,
    QMark,
    Ptr,
    True,
    False,
    If,
    Else,
    While,
    Break,
    Continue,
    Return,
    Func,
    Var,
    Print,
    Asm,
    Import,
    /// The end of the tokens.
    EOF,
}

impl TokenType {
    /// Whether the token assigns: `=`, `+=`, `-=`, `*=`, `/=` or `%=`.
    pub open spec fn assigns(self) -> bool {
        self is Eq || self is PlusEq || self is SubEq || self is MultiEq || self is DivEq
            || self is ModEq
    }

    /// Whether the token assigns.
    #[verifier::when_used_as_spec(assigns)]
    pub fn is_assgin_token(self) -> (r: bool)
        ensures
            r == self.assigns(),
    {
        match self {
            TokenType::Eq
            | TokenType::PlusEq
            | TokenType::SubEq
            | TokenType::MultiEq
            | TokenType::DivEq
            | TokenType::ModEq => true,
            _ => false,
        }
    }
}

/// A token with its place in the source file.
#[derive(Debug, PartialEq)]
pub struct Token {
    pub t_type: TokenType,
    pub literal: String,
    pub line: usize,
    pub col: usize,
}

impl Clone for Token {
    fn clone(&self) -> (r: Self)
        ensures
            r == *self,
    {
        Token { t_type: self.t_type, literal: self.literal.clone(), line: self.line, col: self.col }
    }
}

impl Token {
    /// Whether the token stands for the end of the tokens.
    pub fn is_empty(&self) -> (r: bool)
        ensures
            r == (self.t_type is EOF),
    {
        match self.t_type {
            TokenType::EOF => true,
            _ => false,
        }
    }
}

/// A token as specifications see it.
pub struct TokenView {
    pub t_type: TokenType,
    pub literal: Seq<char>,
    pub line: nat,
    pub col: nat,
}

/// The view of a token.
pub open spec fn token_view(t: Token) -> TokenView {
    TokenView { t_type: t.t_type, literal: t.literal@, line: t.line as nat, col: t.col as nat }
}

/// The views of a list of tokens.
pub open spec fn token_views(tokens: Seq<Token>) -> Seq<TokenView> {
    Seq::new(tokens.len(), |i: int| token_view(tokens[i]))
}

/// The kind of token `i`; behind the last token, the end.
pub open spec fn type_at(tokens: Seq<TokenView>, i: nat) -> TokenType {
    if i < tokens.len() {
        tokens[i as int].t_type
    } else {
        TokenType::EOF
    }
}

/// The text of token `i`; behind the last token, none.
pub open spec fn literal_at(tokens: Seq<TokenView>, i: nat) -> Seq<char> {
    if i < tokens.len() {
        tokens[i as int].literal
    } else {
        Seq::empty()
    }
}

/// The line of token `i`; 0 behind the last token.
pub open spec fn line_at(tokens: Seq<TokenView>, i: nat) -> nat {
    if i < tokens.len() {
        tokens[i as int].line
    } else {
        0
    }
}

/// The column of token `i`; 0 behind the last token.
pub open spec fn col_at(tokens: Seq<TokenView>, i: nat) -> nat {
    if i < tokens.len() {
        tokens[i as int].col
    } else {
        0
    }
}

/// What the parser expected where it stopped.
#[derive(Clone, Copy, Debug, PartialEq, Eq, Structural)]
pub enum ParseErrorKind {
    /// This token.
    Expected(TokenType),
    /// The start of an expression.
    Expression,
    /// The name of a function.
    FunctionName,
    /// The start of a statement.
    Statement,
    /// A semicolon or an assignment behind an expression.
    Semicolon,
    /// The element type of an array.
    TypeName,
    /// The length of an array.
    ArrayLength,
    /// The name of a type.
    Type,
    /// `=`, `:=` or a semicolon behind the name of a variable.
    Assignment,
    /// The name of a parameter.
    Parameter,
    /// A function, a variable or an import.
    TopLevel,
}

/// Why parsing stopped: what was expected, the kind of token that was
/// found, and its position among the tokens.
#[derive(Clone, Copy, Debug, PartialEq, Eq, Structural)]
pub struct ParseError {
    pub kind: ParseErrorKind,
    pub found: TokenType,
    pub index: usize,
}

/// The error of kind `kind` at token `i`.
pub open spec fn fail(kind: ParseErrorKind, tokens: Seq<TokenView>, i: nat) -> ParseError {
    ParseError { kind, found: type_at(tokens, i), index: i as usize }
}

/// The tokens of a source file and the position of the current one.
pub struct Lexer {
    file_path: String,
    tokens: Vec<Token>,
    index: usize,
}

impl Lexer {
    /// The tokens.
    pub closed spec fn tokens(&self) -> Seq<TokenView> {
        token_views(self.tokens@)
    }

    /// The position of the current token; the number of tokens at the end.
    pub closed spec fn index(&self) -> nat {
        self.index as nat
    }

    /// The path of the file that the tokens are from.
    pub closed spec fn path(&self) -> Seq<char> {
        self.file_path@
    }

    /// The position is at a token, or at the end.
    pub closed spec fn wf(&self) -> bool {
        self.index <= self.tokens@.len()
    }

    /// A cursor at the first of `tokens`.
    pub fn new(file_path: String, tokens: Vec<Token>) -> (r: Self)
        ensures
            r.wf(),
            r.tokens() == token_views(tokens@),
            r.index() == 0,
            r.path() == file_path@,
    {
        Lexer { file_path, tokens, index: 0 }
    }

    /// The path of the file that the tokens are from.
    pub fn file_path(&self) -> (r: &String)
        ensures
            r@ == self.path(),
    {
        &self.file_path
    }

    /// The position of the current token.
    pub fn position(&self) -> (r: usize)
        ensures
            r == self.index(),
    {
        self.index
    }

    /// The number of tokens.
    pub fn len(&self) -> (r: usize)
        ensures
            r == self.tokens().len(),
    {
        self.tokens.len()
    }

    /// The kind of the current token.
    pub fn get_token_type(&self) -> (r: TokenType)
        requires
            self.wf(),
        ensures
            r == type_at(self.tokens(), self.index()),
    {
        if self.index < self.tokens.len() {
            self.tokens[self.index].t_type
        } else {
            TokenType::EOF
        }
    }

    /// The kind of the token `ahead` positions behind the current one.
    pub fn peek_type(&self, ahead: usize) -> (r: TokenType)
        requires
            self.wf(),
        ensures
            r == type_at(self.tokens(), self.index() + ahead as nat),
    {
        if ahead < self.tokens.len() - self.index {
            self.tokens[self.index + ahead].t_type
        } else {
            TokenType::EOF
        }
    }

    /// The current token; at the end, a token of kind `EOF` without text.
    pub fn get_token(&self) -> (r: Token)
        requires
            self.wf(),
        ensures
            r.t_type == type_at(self.tokens(), self.index()),
            r.literal@ == literal_at(self.tokens(), self.index()),
            self.index() < self.tokens().len() ==> token_view(r) == self.tokens()[self.index() as int],
    {
        if self.index < self.tokens.len() {
            self.tokens[self.index].clone()
        } else {
            Token { t_type: TokenType::EOF, literal: String::new(), line: 0, col: 0 }
        }
    }

    /// Moves to the next token, if there is one, and returns it.
    pub fn next_token(&mut self) -> (r: Token)
        requires
            old(self).wf(),
        ensures
            final(self).wf(),
            final(self).tokens() == old(self).tokens(),
            final(self).path() == old(self).path(),
            final(self).index() == if old(self).index() < old(self).tokens().len() {
                old(self).index() + 1
            } else {
                old(self).index()
            },
            r.t_type == type_at(final(self).tokens(), final(self).index()),
            r.literal@ == literal_at(final(self).tokens(), final(self).index()),
    {
        if self.index < self.tokens.len() {
            self.index = self.index + 1;
        }
        self.get_token()
    }

    /// Moves to the next token, if there is one.
    pub fn advance(&mut self)
        requires
            old(self).wf(),
        ensures
            final(self).wf(),
            final(self).tokens() == old(self).tokens(),
            final(self).path() == old(self).path(),
            final(self).index() == if old(self).index() < old(self).tokens().len() {
                old(self).index() + 1
            } else {
                old(self).index()
            },
    {
        if self.index < self.tokens.len() {
            self.index = self.index + 1;
        }
    }

    /// The text of the current token; at the end, none.
    pub fn literal(&self) -> (r: String)
        requires
            self.wf(),
        ensures
            r@ == literal_at(self.tokens(), self.index()),
    {
        if self.index < self.tokens.len() {
            self.tokens[self.index].literal.clone()
        } else {
            String::new()
        }
    }

    /// Moves past the current token if it is of kind `t_type`.
    pub fn match_token(&mut self, t_type: TokenType) -> (r: Result<(), ParseError>)
        requires
            old(self).wf(),
        ensures
            final(self).wf(),
            final(self).tokens() == old(self).tokens(),
            final(self).path() == old(self).path(),
            ({
                let found = type_at(old(self).tokens(), old(self).index());
                let moved = if old(self).index() < old(self).tokens().len() {
                    old(self).index() + 1
                } else {
                    old(self).index()
                };
                match r {
                    Ok(()) => found == t_type && final(self).index() == moved,
                    Err(e) => found != t_type && final(self).index() == old(self).index() && e
                        == fail(
                        ParseErrorKind::Expected(t_type),
                        old(self).tokens(),
                        old(self).index(),
                    ),
                }
            }),
    {
        let found = self.get_token_type();
        if found == t_type {
            if self.index < self.tokens.len() {
                self.index = self.index + 1;
            }
            Ok(())
        } else {
            Err(ParseError { kind: ParseErrorKind::Expected(t_type), found, index: self.index })
        }
    }

    /// The error of kind `kind` at the current token.
    pub fn error(&self, kind: ParseErrorKind) -> (r: ParseError)
        requires
            self.wf(),
        ensures
            r == fail(kind, self.tokens(), self.index()),
    {
        ParseError { kind, found: self.get_token_type(), index: self.index }
    }

    /// The place of the current token: the path of the file, the line and
    /// the column, with colons in between.
    pub fn get_loc_string(&self) -> (r: String)
        requires
            self.wf(),
        ensures
            r@ == self.path() + ":"@ + decimal(line_at(self.tokens(), self.index())) + ":"@
                + decimal(col_at(self.tokens(), self.index())),
    {
        let (line, col) = if self.index < self.tokens.len() {
            (self.tokens[self.index].line, self.tokens[self.index].col)
        } else {
            (0, 0)
        };
        let mut r = self.file_path.clone();
        r.append(":");
        push_decimal(&mut r, line as u64);
        r.append(":");
        push_decimal(&mut r, col as u64);
        r
    }
}

} // verus!
