use crate::token::Token;
use vstd::prelude::*;

verus! {

/// Whether a token can begin a statement.
pub open spec fn in_first_statement(t: Token) -> bool {
    match t {
        Token::If => true,
        Token::While => true,
        Token::Call => true,
        Token::Read => true,
        Token::Write => true,
        Token::Begin => true,
        Token::Identifier(_) => true,
        _ => false,
    }
}

/// Whether a token can begin a factor (or a term, which starts the same).
pub open spec fn in_first_factor(t: Token) -> bool {
    match t {
        Token::Identifier(_) => true,
        Token::Integer(_) => true,
        Token::ParL => true,
        _ => false,
    }
}

/// Whether a token can begin an expression.
pub open spec fn in_first_exp(t: Token) -> bool {
    in_first_factor(t) || t matches Token::Add || t matches Token::Sub
}

/// Whether a token can begin a condition.
pub open spec fn in_first_l_exp(t: Token) -> bool {
    in_first_exp(t) || t matches Token::Odd
}

/// Whether a token can begin a block.
pub open spec fn in_first_block(t: Token) -> bool {
    match t {
        Token::Const => true,
        Token::Var => true,
        Token::Procedure => true,
        Token::Begin => true,
        _ => false,
    }
}

/// Whether a token is a relational operator.
pub open spec fn in_first_lop(t: Token) -> bool {
    match t {
        Token::Eq => true,
        Token::Ne => true,
        Token::Lt => true,
        Token::Le => true,
        Token::Gt => true,
        Token::Ge => true,
        _ => false,
    }
}

/// What can legally follow a required identifier.
pub open spec fn identifier_follow(t: Token) -> bool {
    t matches Token::Semicolon || t matches Token::EqSign || t matches Token::Comma
        || t matches Token::ParL || t matches Token::ParR
}

/// What can legally come after a construct expecting the given token: the
/// FOLLOW set, keyed by the expected token's tag.  On a mismatch, the
/// parser discards the offending token only when it is not in this set.
pub open spec fn token_follow(expected: Token, t: Token) -> bool {
    match expected {
        Token::If => in_first_l_exp(t),
        Token::While => in_first_l_exp(t),
        Token::Then => in_first_statement(t),
        Token::Else => in_first_statement(t),
        Token::Do => in_first_statement(t),
        Token::Begin => in_first_statement(t),
        Token::Const => t matches Token::Identifier(_),
        Token::Var => t matches Token::Identifier(_),
        Token::Procedure => t matches Token::Identifier(_),
        Token::Program => t matches Token::Identifier(_),
        Token::Call => t matches Token::Identifier(_),
        Token::End => false,
        Token::Read => t matches Token::ParL,
        Token::Write => t matches Token::ParL,
        Token::Odd => in_first_exp(t),
        Token::Add => in_first_factor(t),
        Token::Sub => in_first_factor(t),
        Token::Mul => in_first_factor(t),
        Token::Div => in_first_factor(t),
        Token::Eq => in_first_exp(t),
        Token::Lt => in_first_exp(t),
        Token::Gt => in_first_exp(t),
        Token::Le => in_first_exp(t),
        Token::Ge => in_first_exp(t),
        Token::Ne => in_first_exp(t),
        Token::EqSign => in_first_exp(t) || t matches Token::Integer(_),
        Token::ParL => in_first_exp(t) || t matches Token::Identifier(_),
        Token::ParR => t matches Token::Semicolon || t matches Token::Mul || t matches Token::Div
            || t matches Token::End || t matches Token::Else,
        Token::Semicolon => in_first_block(t) || in_first_statement(t),
        Token::Comma => t matches Token::Identifier(_) || in_first_exp(t),
        Token::Identifier(_) => identifier_follow(t),
        Token::Integer(_) => false,
        Token::LexicalError(_) => false,
    }
}

/// What can legally follow a factor: everything that may follow a term or
/// an expression, and the operators that may continue either.
pub open spec fn factor_follow(t: Token) -> bool {
    match t {
        Token::ParR => true,
        Token::Comma => true,
        Token::Semicolon => true,
        Token::End => true,
        Token::Else => true,
        Token::Then => true,
        Token::Do => true,
        Token::Add => true,
        Token::Sub => true,
        Token::Mul => true,
        Token::Div => true,
        _ => in_first_lop(t),
    }
}

fn is_first_statement(t: &Token) -> (r: bool)
    ensures
        r == in_first_statement(*t),
{
    match t {
        Token::If => true,
        Token::While => true,
        Token::Call => true,
        Token::Read => true,
        Token::Write => true,
        Token::Begin => true,
        Token::Identifier(_) => true,
        _ => false,
    }
}

fn is_first_factor(t: &Token) -> (r: bool)
    ensures
        r == in_first_factor(*t),
{
    match t {
        Token::Identifier(_) => true,
        Token::Integer(_) => true,
        Token::ParL => true,
        _ => false,
    }
}

fn is_first_exp(t: &Token) -> (r: bool)
    ensures
        r == in_first_exp(*t),
{
    is_first_factor(t) || matches!(t, Token::Add) || matches!(t, Token::Sub)
}

fn is_first_l_exp(t: &Token) -> (r: bool)
    ensures
        r == in_first_l_exp(*t),
{
    is_first_exp(t) || matches!(t, Token::Odd)
}

fn is_first_block(t: &Token) -> (r: bool)
    ensures
        r == in_first_block(*t),
{
    match t {
        Token::Const => true,
        Token::Var => true,
        Token::Procedure => true,
        Token::Begin => true,
        _ => false,
    }
}

fn is_first_lop(t: &Token) -> (r: bool)
    ensures
        r == in_first_lop(*t),
{
    match t {
        Token::Eq => true,
        Token::Ne => true,
        Token::Lt => true,
        Token::Le => true,
        Token::Gt => true,
        Token::Ge => true,
        _ => false,
    }
}

/// FOLLOW-set membership for a required token, as `token_follow` defines
/// it.
pub fn token_follow_contains(expected: &Token, t: &Token) -> (r: bool)
    ensures
        r == token_follow(*expected, *t),
{
    match expected {
        Token::If => is_first_l_exp(t),
        Token::While => is_first_l_exp(t),
        Token::Then => is_first_statement(t),
        Token::Else => is_first_statement(t),
        Token::Do => is_first_statement(t),
        Token::Begin => is_first_statement(t),
        Token::Const => matches!(t, Token::Identifier(_)),
        Token::Var => matches!(t, Token::Identifier(_)),
        Token::Procedure => matches!(t, Token::Identifier(_)),
        Token::Program => matches!(t, Token::Identifier(_)),
        Token::Call => matches!(t, Token::Identifier(_)),
        Token::End => false,
        Token::Read => matches!(t, Token::ParL),
        Token::Write => matches!(t, Token::ParL),
        Token::Odd => is_first_exp(t),
        Token::Add => is_first_factor(t),
        Token::Sub => is_first_factor(t),
        Token::Mul => is_first_factor(t),
        Token::Div => is_first_factor(t),
        Token::Eq => is_first_exp(t),
        Token::Lt => is_first_exp(t),
        Token::Gt => is_first_exp(t),
        Token::Le => is_first_exp(t),
        Token::Ge => is_first_exp(t),
        Token::Ne => is_first_exp(t),
        Token::EqSign => is_first_exp(t) || matches!(t, Token::Integer(_)),
        Token::ParL => is_first_exp(t) || matches!(t, Token::Identifier(_)),
        Token::ParR => matches!(t, Token::Semicolon) || matches!(t, Token::Mul) || matches!(
            t,
            Token::Div,
        ) || matches!(t, Token::End) || matches!(t, Token::Else),
        Token::Semicolon => is_first_block(t) || is_first_statement(t),
        Token::Comma => matches!(t, Token::Identifier(_)) || is_first_exp(t),
        Token::Identifier(_) => matches!(t, Token::Semicolon) || matches!(t, Token::EqSign)
            || matches!(t, Token::Comma) || matches!(t, Token::ParL) || matches!(t, Token::ParR),
        Token::Integer(_) => false,
        Token::LexicalError(_) => false,
    }
}

/// FOLLOW-set membership for a factor, as `factor_follow` defines it.
pub fn factor_follow_contains(t: &Token) -> (r: bool)
    ensures
        r == factor_follow(*t),
{
    match t {
        Token::ParR => true,
        Token::Comma => true,
        Token::Semicolon => true,
        Token::End => true,
        Token::Else => true,
        Token::Then => true,
        Token::Do => true,
        Token::Add => true,
        Token::Sub => true,
        Token::Mul => true,
        Token::Div => true,
        _ => is_first_lop(t),
    }
}

/// FOLLOW-set membership for a relational operator: what can begin its
/// right operand.
pub fn lop_follow_contains(t: &Token) -> (r: bool)
    ensures
        r == in_first_exp(*t),
{
    is_first_exp(t)
}

/// FOLLOW-set membership for an additive or multiplicative operator: what
/// can begin its right operand.
pub fn op_follow_contains(t: &Token) -> (r: bool)
    ensures
        r == in_first_factor(*t),
{
    is_first_factor(t)
}

} // verus!
