use crate::error::CompileError;
use vstd::prelude::*;

verus! {

/// One lexical token.  Malformed input is carried in-band as a
/// `LexicalError` token rather than stopping the scan.
#[derive(Debug)]
pub enum Token {
    If,
    Then,
    Else,
    While,
    Do,
    Const,
    Var,
    Procedure,
    Program,
    Begin,
    End,
    Call,
    Read,
    Write,
    Odd,
    Add,
    Sub,
    Mul,
    Div,
    Eq,
    Lt,
    Gt,
    Le,
    Ge,
    Ne,
    EqSign,
    ParL,
    ParR,
    Semicolon,
    Comma,
    Identifier(String),
    Integer(i64),
    LexicalError(CompileError),
}

/// A number that identifies a token's tag alone, payloads ignored.  Token
/// equality, and with it every FIRST/FOLLOW-set membership question, goes by
/// this tag.
pub open spec fn tok_tag(t: Token) -> int {
    match t {
        Token::If => 0,
        Token::Then => 1,
        Token::Else => 2,
        Token::While => 3,
        Token::Do => 4,
        Token::Const => 5,
        Token::Var => 6,
        Token::Procedure => 7,
        Token::Program => 8,
        Token::Begin => 9,
        Token::End => 10,
        Token::Call => 11,
        Token::Read => 12,
        Token::Write => 13,
        Token::Odd => 14,
        Token::Add => 15,
        Token::Sub => 16,
        Token::Mul => 17,
        Token::Div => 18,
        Token::Eq => 19,
        Token::Lt => 20,
        Token::Gt => 21,
        Token::Le => 22,
        Token::Ge => 23,
        Token::Ne => 24,
        Token::EqSign => 25,
        Token::ParL => 26,
        Token::ParR => 27,
        Token::Semicolon => 28,
        Token::Comma => 29,
        Token::Identifier(_) => 30,
        Token::Integer(_) => 31,
        Token::LexicalError(_) => 32,
    }
}

impl Token {
    /// The tag number of this token.
    pub fn tag_value(&self) -> (r: u32)
        ensures
            r as int == tok_tag(*self),
    {
        match self {
            Token::If => 0,
            Token::Then => 1,
            Token::Else => 2,
            Token::While => 3,
            Token::Do => 4,
            Token::Const => 5,
            Token::Var => 6,
            Token::Procedure => 7,
            Token::Program => 8,
            Token::Begin => 9,
            Token::End => 10,
            Token::Call => 11,
            Token::Read => 12,
            Token::Write => 13,
            Token::Odd => 14,
            Token::Add => 15,
            Token::Sub => 16,
            Token::Mul => 17,
            Token::Div => 18,
            Token::Eq => 19,
            Token::Lt => 20,
            Token::Gt => 21,
            Token::Le => 22,
            Token::Ge => 23,
            Token::Ne => 24,
            Token::EqSign => 25,
            Token::ParL => 26,
            Token::ParR => 27,
            Token::Semicolon => 28,
            Token::Comma => 29,
            Token::Identifier(_) => 30,
            Token::Integer(_) => 31,
            Token::LexicalError(_) => 32,
        }
    }
}

impl Clone for Token {
    /// An identical copy, payloads included.
    fn clone(&self) -> (r: Self)
        ensures
            r == *self,
    {
        match self {
            Token::If => Token::If,
            Token::Then => Token::Then,
            Token::Else => Token::Else,
            Token::While => Token::While,
            Token::Do => Token::Do,
            Token::Const => Token::Const,
            Token::Var => Token::Var,
            Token::Procedure => Token::Procedure,
            Token::Program => Token::Program,
            Token::Begin => Token::Begin,
            Token::End => Token::End,
            Token::Call => Token::Call,
            Token::Read => Token::Read,
            Token::Write => Token::Write,
            Token::Odd => Token::Odd,
            Token::Add => Token::Add,
            Token::Sub => Token::Sub,
            Token::Mul => Token::Mul,
            Token::Div => Token::Div,
            Token::Eq => Token::Eq,
            Token::Lt => Token::Lt,
            Token::Gt => Token::Gt,
            Token::Le => Token::Le,
            Token::Ge => Token::Ge,
            Token::Ne => Token::Ne,
            Token::EqSign => Token::EqSign,
            Token::ParL => Token::ParL,
            Token::ParR => Token::ParR,
            Token::Semicolon => Token::Semicolon,
            Token::Comma => Token::Comma,
            Token::Identifier(s) => Token::Identifier(s.clone()),
            Token::Integer(v) => Token::Integer(*v),
            Token::LexicalError(e) => Token::LexicalError(
                crate::error::CompileError {
                    line: e.line,
                    col: e.col,
                    info: e.info.clone(),
                    error_type: e.error_type,
                },
            ),
        }
    }
}

impl PartialEq for Token {
    /// Tokens compare by tag only: `Identifier("a") == Identifier("b")`,
    /// which is what lets set membership work on tag skeletons.
    fn eq(&self, other: &Token) -> bool {
        self.tag_value() == other.tag_value()
    }
}

impl vstd::std_specs::cmp::PartialEqSpecImpl for Token {
    open spec fn obeys_eq_spec() -> bool {
        true
    }

    open spec fn eq_spec(&self, other: &Token) -> bool {
        tok_tag(*self) == tok_tag(*other)
    }
}

impl Eq for Token {

}

impl From<CompileError> for Token {
    fn from(err: CompileError) -> (r: Self)
        ensures
            r == Token::LexicalError(err),
    {
        Token::LexicalError(err)
    }
}

impl vstd::std_specs::convert::FromSpecImpl<CompileError> for Token {
    open spec fn obeys_from_spec() -> bool {
        true
    }

    open spec fn from_spec(err: CompileError) -> Self {
        Token::LexicalError(err)
    }
}

} // verus!
