use crate::ast::{
    BlockExpr, BodyExpr, ConstDeclExpr, ConstExpr, ExpExpr, FactorExpr, IdExpr, IntegerExpr,
    LExpExpr, Location, LopExpr, MopExpr, AopExpr, ProcExpr, ProgramExpr, StatementExpr, TermExpr,
    VarDeclExpr,
};
use crate::error::{CompileError, CompileErrorType};
use crate::lexer::Lexer;
use crate::synchronizer::{factor_follow_contains, lop_follow_contains, op_follow_contains, token_follow, token_follow_contains};
use crate::token::{tok_tag, Token};
use vstd::prelude::*;
use vstd::string::StringExecFns;

verus! {

/// The printed name of a token, for diagnostics.
pub open spec fn tok_text_spec(t: Token) -> Seq<char> {
    match t {
        Token::If => "If"@,
        Token::Then => "Then"@,
        Token::Else => "Else"@,
        Token::While => "While"@,
        Token::Do => "Do"@,
        Token::Const => "Const"@,
        Token::Var => "Var"@,
        Token::Procedure => "Procedure"@,
        Token::Program => "Program"@,
        Token::Begin => "Begin"@,
        Token::End => "End"@,
        Token::Call => "Call"@,
        Token::Read => "Read"@,
        Token::Write => "Write"@,
        Token::Odd => "Odd"@,
        Token::Add => "+"@,
        Token::Sub => "-"@,
        Token::Mul => "*"@,
        Token::Div => "/"@,
        Token::Eq => "="@,
        Token::Lt => "<"@,
        Token::Gt => ">"@,
        Token::Le => "<="@,
        Token::Ge => ">="@,
        Token::Ne => "<>"@,
        Token::EqSign => ":="@,
        Token::ParL => "("@,
        Token::ParR => ")"@,
        Token::Semicolon => ";"@,
        Token::Comma => ","@,
        Token::Identifier(_) => "Identifier"@,
        Token::Integer(_) => "Integer"@,
        Token::LexicalError(_) => "LexicalErrorToken"@,
    }
}

fn tok_text(t: &Token) -> (r: String)
    ensures
        r@ == tok_text_spec(*t),
{
    let lit: &str = match t {
        Token::If => "If",
        Token::Then => "Then",
        Token::Else => "Else",
        Token::While => "While",
        Token::Do => "Do",
        Token::Const => "Const",
        Token::Var => "Var",
        Token::Procedure => "Procedure",
        Token::Program => "Program",
        Token::Begin => "Begin",
        Token::End => "End",
        Token::Call => "Call",
        Token::Read => "Read",
        Token::Write => "Write",
        Token::Odd => "Odd",
        Token::Add => "+",
        Token::Sub => "-",
        Token::Mul => "*",
        Token::Div => "/",
        Token::Eq => "=",
        Token::Lt => "<",
        Token::Gt => ">",
        Token::Le => "<=",
        Token::Ge => ">=",
        Token::Ne => "<>",
        Token::EqSign => ":=",
        Token::ParL => "(",
        Token::ParR => ")",
        Token::Semicolon => ";",
        Token::Comma => ",",
        Token::Identifier(_) => "Identifier",
        Token::Integer(_) => "Integer",
        Token::LexicalError(_) => "LexicalErrorToken",
    };
    lit.to_owned()
}

/// The `Expected X, but got Y` diagnostic text.
fn msg_expected_got(expected: &Token, got: &Token) -> (r: String)
    ensures
        r@ == "Expected `"@ + tok_text_spec(*expected) + "`, but got `"@ + tok_text_spec(*got)
            + "`"@,
{
    let mut s = "Expected `".to_owned();
    s.append(tok_text(expected).as_str());
    s.append("`, but got `");
    s.append(tok_text(got).as_str());
    s.append("`");
    s
}

/// The `Expected <field>, but got an unmatchable token` diagnostic text.
fn msg_unmatchable(what: &str, got: &Token) -> (r: String)
    ensures
        r@ == what@ + tok_text_spec(*got) + "`"@,
{
    let mut s = what.to_owned();
    s.append(tok_text(got).as_str());
    s.append("`");
    s
}

/// Turns a token stream into an abstract syntax tree by recursive descent,
/// one token of lookahead, reporting every syntax error it can instead of
/// stopping at the first one.  Diagnostics are collected in `errors`.
#[derive(Debug)]
pub struct Parser {
    pub lexer: Lexer,
    pub ast_entry: Option<Box<ProgramExpr>>,
    pub has_error: bool,
    pub errors: Vec<CompileError>,
}

/// What every parsing step keeps: the lexer stays well formed and never
/// moves backwards, the error flag never clears, diagnostics only
/// accumulate and each new one raises the flag, and the finished tree slot
/// is untouched.
pub open spec fn p_step(a: Parser, b: Parser) -> bool {
    &&& b.lexer.wf()
    &&& b.lexer.remaining() <= a.lexer.remaining()
    &&& (a.has_error ==> b.has_error)
    &&& a.errors@.len() <= b.errors@.len()
    &&& (b.errors@.len() > a.errors@.len() ==> b.has_error)
    &&& b.ast_entry == a.ast_entry
}

impl Parser {
    pub fn new(ctx: &str) -> (r: Self)
        ensures
            r.lexer.wf(),
            r.lexer.source@ == ctx@,
            r.lexer.pos == 0,
            r.lexer.ahead is None,
            r.lexer.line_num == 1,
            r.lexer.col_num == 0,
            r.ast_entry is None,
            r.has_error == false,
            r.errors@ == Seq::<CompileError>::empty(),
    {
        Parser { lexer: Lexer::new(ctx), ast_entry: None, has_error: false, errors: Vec::new() }
    }

    /// Record one syntax diagnostic at the current source position and
    /// raise the error flag.
    fn syn_err(&mut self, info: String)
        requires
            old(self).lexer.wf(),
        ensures
            p_step(*old(self), *final(self)),
            final(self).lexer == old(self).lexer,
            final(self).has_error,
            final(self).errors@.len() == old(self).errors@.len() + 1,
            final(self).errors@.last().info@ == info@,
            final(self).errors@.last().error_type == CompileErrorType::SyntaxError,
            final(self).errors@.last().line == old(self).lexer.line_num,
            final(self).errors@.last().col == old(self).lexer.col_num,
    {
        self.errors.push(
            CompileError {
                line: self.lexer.line_num,
                col: self.lexer.col_num,
                info,
                error_type: CompileErrorType::SyntaxError,
            },
        );
        self.has_error = true;
    }

    /// Require the next token to be `token`.  A lexical-error token is
    /// recorded and discarded; a mismatch is reported, and the offending
    /// token is discarded only when it cannot follow the expected one.
    /// Returns whether a token was consumed.
    fn consume_next(&mut self, token: Token) -> (consumed: bool)
        requires
            old(self).lexer.wf(),
        ensures
            p_step(*old(self), *final(self)),
            consumed ==> final(self).lexer.remaining() < old(self).lexer.remaining(),
            !consumed ==> final(self).has_error,
            !consumed ==> (final(self).lexer.remaining() == 0 || (final(self).lexer.ahead matches Some(t) && !(t matches Token::LexicalError(_)) && tok_tag(t)
                != tok_tag(token) && token_follow(token, t))),
            // a matching lookahead is consumed, and nothing else changes
            old(self).lexer.ahead matches Some(t) ==> ((!(t matches Token::LexicalError(_))
                && tok_tag(t) == tok_tag(token)) ==> (consumed && final(self).has_error == old(self).has_error && final(self).errors == old(self).errors && final(self).lexer.ahead is None && final(self).lexer.pos == old(self).lexer.pos && final(self).lexer.source == old(self).lexer.source)),
            // a lexical-error lookahead is discarded, and the failure the
            // lexer described is recorded as it is
            old(self).lexer.ahead matches Some(Token::LexicalError(e)) ==> (consumed && final(self).has_error && final(self).errors@ == old(self).errors@.push(e) && final(self).lexer.ahead is None && final(self).lexer.pos == old(self).lexer.pos),
            // a mismatched lookahead is reported by exactly one diagnostic
            // naming both tokens, and is discarded exactly when it cannot
            // follow the expected one; otherwise the cursor is untouched
            old(self).lexer.ahead matches Some(t) ==> ((!(t matches Token::LexicalError(_))
                && tok_tag(t) != tok_tag(token)) ==> (consumed == !token_follow(token, t)
                && final(self).has_error && final(self).errors@.len() == old(self).errors@.len()
                + 1 && final(self).errors@.last().info@ == "Expected `"@ + tok_text_spec(token)
                + "`, but got `"@ + tok_text_spec(t) + "`"@ && final(self).errors@.last().error_type == CompileErrorType::SyntaxError && (!consumed ==> final(self).lexer == old(self).lexer) && (consumed ==> final(self).lexer.ahead is None && final(self).lexer.pos == old(self).lexer.pos))),
            // at the end of the stream only the flag rises
            old(self).lexer.remaining() == 0 ==> (!consumed && final(self).has_error && final(self).errors == old(self).errors && final(self).lexer == old(self).lexer),
    {
        let t_opt = self.lexer.peek();
        match t_opt {
            None => {
                self.has_error = true;
                false
            },
            Some(t) => {
                if matches!(t, Token::LexicalError(_)) {
                    // the lexer already described this failure; keep it
                    if let Token::LexicalError(e) = t {
                        self.errors.push(e);
                    }
                    self.has_error = true;
                    let _ = self.lexer.next();
                    true
                } else if t == token {
                    let _ = self.lexer.next();
                    true
                } else {
                    let m = msg_expected_got(&token, &t);
                    self.syn_err(m);
                    if !token_follow_contains(&token, &t) {
                        let _ = self.lexer.next();
                        true
                    } else {
                        false
                    }
                }
            },
        }
    }

    /// Whether the next token is `token`, without consuming anything.  A
    /// missing or lexical-error token only raises the error flag.
    fn match_next(&mut self, token: Token) -> (r: bool)
        requires
            old(self).lexer.wf(),
        ensures
            p_step(*old(self), *final(self)),
            final(self).errors == old(self).errors,
            final(self).has_error == (old(self).has_error || final(self).lexer.ahead is None
                || final(self).lexer.ahead matches Some(Token::LexicalError(_))),
            r ==> (final(self).lexer.ahead matches Some(t) && !(t matches Token::LexicalError(_))
                && tok_tag(t) == tok_tag(token)),
            old(self).lexer.ahead is Some ==> final(self).lexer == old(self).lexer,
            old(self).lexer.ahead matches Some(t) ==> (!(t matches Token::LexicalError(_)) ==> (
            final(self).lexer == old(self).lexer && r == (tok_tag(t) == tok_tag(token)))),
            // the probe never drops a token: what it saw stays in the
            // lookahead slot, and only the end of the stream yields nothing
            final(self).lexer.ahead is None ==> (r == false && final(self).lexer.remaining()
                == 0),
            final(self).lexer.ahead matches Some(Token::LexicalError(_)) ==> r == false,
    {
        let t_opt = self.lexer.peek();
        match t_opt {
            None => {
                self.has_error = true;
                false
            },
            Some(t) => {
                if matches!(t, Token::LexicalError(_)) {
                    self.has_error = true;
                    false
                } else {
                    t == token
                }
            },
        }
    }

    /// Require the next token to be an identifier and hand its spelling
    /// out.  `Err(true)` means a lexical-error token was discarded;
    /// `Err(false)` any other failure.
    fn consume_next_identifier(&mut self) -> (r: Result<String, bool>)
        requires
            old(self).lexer.wf(),
        ensures
            p_step(*old(self), *final(self)),
            r is Ok ==> final(self).lexer.remaining() < old(self).lexer.remaining(),
            r == Err::<String, bool>(true) ==> final(self).lexer.remaining() < old(self).lexer.remaining(),
            // an identifier lookahead is consumed and handed out untouched
            old(self).lexer.ahead matches Some(Token::Identifier(s)) ==> (r == Ok::<String, bool>(s) && final(self).has_error == old(self).has_error && final(self).errors == old(self).errors && final(self).lexer.ahead is None && final(self).lexer.pos == old(self).lexer.pos),
            // a lexical-error lookahead is discarded and recorded as it is
            old(self).lexer.ahead matches Some(Token::LexicalError(e)) ==> (r == Err::<
                String,
                bool,
            >(true) && final(self).has_error && final(self).errors@ == old(self).errors@.push(e)
                && final(self).lexer.ahead is None && final(self).lexer.pos == old(self).lexer.pos),
            // any other lookahead fails, raising only the flag, and is
            // discarded exactly when it cannot follow an identifier
            old(self).lexer.ahead matches Some(t) ==> ((!(t matches Token::Identifier(_)) && !(
            t matches Token::LexicalError(_))) ==> (r == Err::<String, bool>(false) && final(self).has_error && final(self).errors == old(self).errors && (crate::synchronizer::identifier_follow(t) ==> final(self).lexer == old(self).lexer) && (!crate::synchronizer::identifier_follow(t) ==> final(self).lexer.ahead is None && final(self).lexer.pos == old(self).lexer.pos))),
            // at the end of the stream only the flag rises
            old(self).lexer.remaining() == 0 ==> (r == Err::<String, bool>(false) && final(self).has_error && final(self).errors == old(self).errors && final(self).lexer == old(self).lexer),
    {
        let t_opt = self.lexer.peek();
        match t_opt {
            None => {
                self.has_error = true;
                Err(false)
            },
            Some(t) => match t {
                Token::LexicalError(e) => {
                    self.errors.push(e);
                    self.has_error = true;
                    let _ = self.lexer.next();
                    Err(true)
                },
                Token::Identifier(id) => {
                    let _ = self.lexer.next();
                    Ok(id)
                },
                other => {
                    self.has_error = true;
                    if !token_follow_contains(&Token::Identifier(String::new()), &other) {
                        let _ = self.lexer.next();
                    }
                    Err(false)
                },
            },
        }
    }

    /// Require the next token to be an integer literal and hand its value
    /// out, with the same failure signalling as for identifiers.
    fn consume_next_integer(&mut self) -> (r: Result<i64, bool>)
        requires
            old(self).lexer.wf(),
        ensures
            p_step(*old(self), *final(self)),
            r is Ok ==> final(self).lexer.remaining() < old(self).lexer.remaining(),
            r == Err::<i64, bool>(true) ==> final(self).lexer.remaining() < old(self).lexer.remaining(),
            // an integer lookahead is consumed and its value handed out
            old(self).lexer.ahead matches Some(Token::Integer(v)) ==> (r == Ok::<i64, bool>(v)
                && final(self).has_error == old(self).has_error && final(self).errors == old(self).errors && final(self).lexer.ahead is None && final(self).lexer.pos == old(self).lexer.pos),
            // a lexical-error lookahead is discarded and recorded as it is
            old(self).lexer.ahead matches Some(Token::LexicalError(e)) ==> (r == Err::<i64, bool>(true) && final(self).has_error && final(self).errors@ == old(self).errors@.push(e)
                && final(self).lexer.ahead is None && final(self).lexer.pos == old(self).lexer.pos),
            // any other lookahead fails with only the flag raised; nothing
            // can follow a required integer, so it is always discarded
            old(self).lexer.ahead matches Some(t) ==> ((!(t matches Token::Integer(_)) && !(
            t matches Token::LexicalError(_))) ==> (r == Err::<i64, bool>(false) && final(self).has_error && final(self).errors == old(self).errors && final(self).lexer.ahead is None && final(self).lexer.pos == old(self).lexer.pos)),
            // at the end of the stream only the flag rises
            old(self).lexer.remaining() == 0 ==> (r == Err::<i64, bool>(false) && final(self).has_error && final(self).errors == old(self).errors && final(self).lexer == old(self).lexer),
    {
        let t_opt = self.lexer.peek();
        match t_opt {
            None => {
                self.has_error = true;
                Err(false)
            },
            Some(t) => match t {
                Token::LexicalError(e) => {
                    self.errors.push(e);
                    self.has_error = true;
                    let _ = self.lexer.next();
                    Err(true)
                },
                Token::Integer(v) => {
                    let _ = self.lexer.next();
                    Ok(v)
                },
                other => {
                    self.has_error = true;
                    if !token_follow_contains(&Token::Integer(0), &other) {
                        let _ = self.lexer.next();
                    }
                    Err(false)
                },
            },
        }
    }

    /// Discard the run of lexical-error tokens in front of the cursor;
    /// each one was already recorded when it was met.
    fn drain_lexical_errors(&mut self)
        requires
            old(self).lexer.wf(),
        ensures
            p_step(*old(self), *final(self)),
    {
        loop
            invariant
                self.lexer.wf(),
                p_step(*old(self), *self),
            decreases self.lexer.remaining(),
        {
            let t_opt = self.lexer.peek();
            match t_opt {
                Some(Token::LexicalError(_)) => {
                    let _ = self.consume_next_identifier();
                },
                _ => {
                    break;
                },
            }
        }
    }

    /// `<id>`: an identifier with its source position.
    fn parse_id(&mut self) -> (r: Option<Box<IdExpr>>)
        requires
            old(self).lexer.wf(),
        ensures
            p_step(*old(self), *final(self)),
            r is Some ==> final(self).lexer.remaining() < old(self).lexer.remaining(),
            r is None ==> final(self).has_error,
            r is None ==> final(self).errors@.len() > old(self).errors@.len(),
            old(self).lexer.ahead matches Some(Token::Identifier(s)) ==> (r matches Some(b)
                && b.0 == s),
    {
        match self.consume_next_identifier() {
            Ok(id) => {
                let loc = Location(self.lexer.line_num, self.lexer.col_num);
                Some(Box::new(IdExpr(id, loc)))
            },
            Err(is_lexical_error) => {
                if is_lexical_error {
                    self.drain_lexical_errors();
                }
                self.syn_err("Expected <id> field, but not found!".to_owned());
                None
            },
        }
    }

    /// `<integer>`: an integer literal with its source position.
    fn parse_integer(&mut self) -> (r: Option<Box<IntegerExpr>>)
        requires
            old(self).lexer.wf(),
        ensures
            p_step(*old(self), *final(self)),
            r is Some ==> final(self).lexer.remaining() < old(self).lexer.remaining(),
            r is None ==> final(self).has_error,
            r is None ==> final(self).errors@.len() > old(self).errors@.len(),
            old(self).lexer.ahead matches Some(Token::Integer(v)) ==> (r matches Some(b)
                && b.0 == v),
    {
        match self.consume_next_integer() {
            Ok(v) => {
                let loc = Location(self.lexer.line_num, self.lexer.col_num);
                Some(Box::new(IntegerExpr(v, loc)))
            },
            Err(is_lexical_error) => {
                if is_lexical_error {
                    self.drain_lexical_errors();
                }
                self.syn_err("Expected <integer> field, but not found!".to_owned());
                None
            },
        }
    }

    /// `<prog> -> program <id> ; <block>`
    fn parse_program(&mut self) -> (r: Option<Box<ProgramExpr>>)
        requires
            old(self).lexer.wf(),
        ensures
            p_step(*old(self), *final(self)),
            r is None ==> final(self).has_error,
            r is None ==> final(self).errors@.len() > old(self).errors@.len(),
    {
        self.consume_next(Token::Program);
        let id = self.parse_id();
        self.consume_next(Token::Semicolon);
        let block = self.parse_block();
        match (id, block) {
            (Some(id), Some(block)) => Some(Box::new(ProgramExpr { id, block })),
            _ => None,
        }
    }

    /// `<block> -> [<const-decl>][<var-decl>][<proc>]<body>`
    fn parse_block(&mut self) -> (r: Option<Box<BlockExpr>>)
        requires
            old(self).lexer.wf(),
        ensures
            p_step(*old(self), *final(self)),
            r is None ==> final(self).has_error,
            r is None ==> final(self).errors@.len() > old(self).errors@.len(),
        decreases self.lexer.remaining(), 9int,
    {
        let const_decl = if self.match_next(Token::Const) {
            self.parse_const_decl()
        } else {
            None
        };
        let var_decl = if self.match_next(Token::Var) {
            self.parse_var_decl()
        } else {
            None
        };
        let proc = if self.match_next(Token::Procedure) {
            self.parse_proc()
        } else {
            None
        };
        let body = self.parse_body();
        match body {
            Some(body) => Some(Box::new(BlockExpr { const_decl, var_decl, proc, body })),
            None => None,
        }
    }

    /// `<const-decl> -> const <const> {, <const>} ;`
    fn parse_const_decl(&mut self) -> (r: Option<Box<ConstDeclExpr>>)
        requires
            old(self).lexer.wf(),
        ensures
            p_step(*old(self), *final(self)),
            r is None ==> final(self).has_error,
            r is None ==> final(self).errors@.len() > old(self).errors@.len(),
    {
        let mut errored = false;
        let mut constants: Vec<Box<ConstExpr>> = Vec::new();
        self.consume_next(Token::Const);
        match self.parse_const() {
            Some(c) => constants.push(c),
            None => {
                errored = true;
            },
        }
        loop
            invariant
                self.lexer.wf(),
                p_step(*old(self), *self),
                errored ==> self.has_error,
                errored ==> self.errors@.len() > old(self).errors@.len(),
            decreases self.lexer.remaining(),
        {
            if !self.match_next(Token::Comma) {
                break;
            }
            self.consume_next(Token::Comma);
            match self.parse_const() {
                Some(c) => constants.push(c),
                None => {
                    errored = true;
                },
            }
        }
        if errored {
            return None;
        }
        self.consume_next(Token::Semicolon);
        Some(Box::new(ConstDeclExpr { constants }))
    }

    /// `<const> -> <id> := <integer>`
    fn parse_const(&mut self) -> (r: Option<Box<ConstExpr>>)
        requires
            old(self).lexer.wf(),
        ensures
            p_step(*old(self), *final(self)),
            r is None ==> final(self).has_error,
            r is None ==> final(self).errors@.len() > old(self).errors@.len(),
    {
        let id = self.parse_id();
        self.consume_next(Token::EqSign);
        let integer = self.parse_integer();
        match (id, integer) {
            (Some(id), Some(integer)) => Some(Box::new(ConstExpr { id, integer })),
            _ => None,
        }
    }

    /// `<var-decl> -> var <id> {, <id>} ;`
    fn parse_var_decl(&mut self) -> (r: Option<Box<VarDeclExpr>>)
        requires
            old(self).lexer.wf(),
        ensures
            p_step(*old(self), *final(self)),
            r is None ==> final(self).has_error,
            r is None ==> final(self).errors@.len() > old(self).errors@.len(),
    {
        let mut errored = false;
        let mut id_list: Vec<Box<IdExpr>> = Vec::new();
        self.consume_next(Token::Var);
        match self.parse_id() {
            Some(id) => id_list.push(id),
            None => {
                errored = true;
            },
        }
        loop
            invariant
                self.lexer.wf(),
                p_step(*old(self), *self),
                errored ==> self.has_error,
                errored ==> self.errors@.len() > old(self).errors@.len(),
            decreases self.lexer.remaining(),
        {
            if !self.match_next(Token::Comma) {
                break;
            }
            self.consume_next(Token::Comma);
            match self.parse_id() {
                Some(id) => id_list.push(id),
                None => {
                    errored = true;
                },
            }
        }
        self.consume_next(Token::Semicolon);
        if errored {
            return None;
        }
        Some(Box::new(VarDeclExpr { id_list }))
    }

    /// `<proc> -> procedure <id> ([<id> {, <id>}]) ; <block> {; <proc>}`
    fn parse_proc(&mut self) -> (r: Option<Box<ProcExpr>>)
        requires
            old(self).lexer.wf(),
        ensures
            p_step(*old(self), *final(self)),
            r is None ==> final(self).has_error,
            r is None ==> final(self).errors@.len() > old(self).errors@.len(),
        decreases self.lexer.remaining(), 8int,
    {
        if self.lexer.peek().is_none() {
            // a procedure was expected and the input ended: a hard error
            // with nothing left to recover from
            self.syn_err("Expected <proc> field, but got `None`".to_owned());
            return None;
        }
        let ghost m0 = self.lexer.remaining();
        let _consumed = self.consume_next(Token::Procedure);
        let id = self.parse_id();
        proof {
            assert(self.lexer.remaining() < m0);
        }
        self.consume_next(Token::ParL);
        let mut args: Vec<Box<IdExpr>> = Vec::new();
        let mut errored = false;
        if !self.match_next(Token::ParR) {
            match self.parse_id() {
                Some(id) => args.push(id),
                None => {
                    errored = true;
                },
            }
            loop
                invariant
                    self.lexer.wf(),
                    self.lexer.remaining() < m0,
                    p_step(*old(self), *self),
                    errored ==> self.has_error,
                    errored ==> self.errors@.len() > old(self).errors@.len(),
                    id is None ==> self.has_error,
                    id is None ==> self.errors@.len() > old(self).errors@.len(),
                decreases self.lexer.remaining(),
            {
                if !self.match_next(Token::Comma) {
                    break;
                }
                self.consume_next(Token::Comma);
                match self.parse_id() {
                    Some(id) => args.push(id),
                    None => {
                        errored = true;
                    },
                }
            }
            if errored {
                return None;
            }
        }
        self.consume_next(Token::ParR);
        self.consume_next(Token::Semicolon);
        let block = self.parse_block();
        let mut procs: Vec<Box<ProcExpr>> = Vec::new();
        loop
            invariant
                self.lexer.wf(),
                self.lexer.remaining() <= m0,
                p_step(*old(self), *self),
                errored ==> self.has_error,
                errored ==> self.errors@.len() > old(self).errors@.len(),
                id is None ==> self.has_error,
                id is None ==> self.errors@.len() > old(self).errors@.len(),
                block is None ==> self.has_error,
                block is None ==> self.errors@.len() > old(self).errors@.len(),
            decreases self.lexer.remaining(),
        {
            if !self.match_next(Token::Semicolon) {
                break;
            }
            self.consume_next(Token::Semicolon);
            if !self.match_next(Token::Procedure) {
                // that semicolon closed the declarations; the block's own
                // body follows
                break;
            }
            match self.parse_proc() {
                Some(proc) => procs.push(proc),
                None => {
                    errored = true;
                },
            }
        }
        if errored {
            return None;
        }
        match (id, block) {
            (Some(id), Some(block)) => Some(Box::new(ProcExpr { id, args, block, procs })),
            _ => None,
        }
    }

    /// `<body> -> begin <statement> {; <statement>} end`
    fn parse_body(&mut self) -> (r: Option<Box<BodyExpr>>)
        requires
            old(self).lexer.wf(),
        ensures
            p_step(*old(self), *final(self)),
            r is None ==> final(self).has_error,
            r is None ==> final(self).errors@.len() > old(self).errors@.len(),
        decreases self.lexer.remaining(), 7int,
    {
        self.consume_next(Token::Begin);
        self.parse_body_tail()
    }

    /// The body parse entered from a statement position, where the
    /// lookahead is already known to be `begin`.
    fn parse_body_at_begin(&mut self) -> (r: Option<Box<BodyExpr>>)
        requires
            old(self).lexer.wf(),
            old(self).lexer.ahead matches Some(Token::Begin),
        ensures
            p_step(*old(self), *final(self)),
            r is None ==> final(self).has_error,
            r is None ==> final(self).errors@.len() > old(self).errors@.len(),
        decreases self.lexer.remaining(), 4int,
    {
        self.consume_next(Token::Begin);
        self.parse_body_tail()
    }

    /// The statement list of a body, after `begin` was handled.
    fn parse_body_tail(&mut self) -> (r: Option<Box<BodyExpr>>)
        requires
            old(self).lexer.wf(),
        ensures
            p_step(*old(self), *final(self)),
            r is None ==> final(self).has_error,
            r is None ==> final(self).errors@.len() > old(self).errors@.len(),
        decreases self.lexer.remaining(), 6int,
    {
        let mut statements: Vec<Box<StatementExpr>> = Vec::new();
        let mut errored = false;
        match self.parse_statement() {
            Some(stmt) => statements.push(stmt),
            None => {
                errored = true;
            },
        }
        loop
            invariant
                self.lexer.wf(),
                p_step(*old(self), *self),
                errored ==> self.has_error,
                errored ==> self.errors@.len() > old(self).errors@.len(),
            decreases self.lexer.remaining(),
        {
            if !self.match_next(Token::Semicolon) {
                break;
            }
            self.consume_next(Token::Semicolon);
            match self.parse_statement() {
                Some(stmt) => statements.push(stmt),
                None => {
                    errored = true;
                },
            }
        }
        if errored {
            return None;
        }
        self.consume_next(Token::End);
        Some(Box::new(BodyExpr { statements }))
    }

    /// `<statement>`: one of the seven statement forms, chosen by the
    /// lookahead token.
    #[verifier::rlimit(60)]
    fn parse_statement(&mut self) -> (r: Option<Box<StatementExpr>>)
        requires
            old(self).lexer.wf(),
        ensures
            p_step(*old(self), *final(self)),
            r is None ==> final(self).has_error,
            r is None ==> final(self).errors@.len() > old(self).errors@.len(),
            // what comes back matches the leading token
            old(self).lexer.ahead matches Some(Token::If) ==> (r is None || *r->0 is If),
            old(self).lexer.ahead matches Some(Token::While) ==> (r is None || *r->0 is While),
            old(self).lexer.ahead matches Some(Token::Call) ==> (r is None || *r->0 is Call),
            old(self).lexer.ahead matches Some(Token::Read) ==> (r is None || *r->0 is Read),
            old(self).lexer.ahead matches Some(Token::Write) ==> (r is None || *r->0 is Write),
            old(self).lexer.ahead matches Some(Token::Begin) ==> (r is None || *r->0 is Body),
            old(self).lexer.ahead matches Some(Token::Identifier(_)) ==> (r is None
                || *r->0 is Id),
            // a token that cannot begin a statement is refused with exactly
            // one diagnostic and no tree
            old(self).lexer.ahead matches Some(t) ==> ((!crate::synchronizer::in_first_statement(t) && !(t matches Token::LexicalError(_))) ==> (r is None && final(self).errors@.len()
                == old(self).errors@.len() + 1)),
        decreases self.lexer.remaining(), 5int,
    {
        let t_opt = self.lexer.peek();
        match t_opt {
            None => {
                self.syn_err("Expected <statement> field, but got `None`".to_owned());
                None
            },
            Some(tok) => match tok {
                Token::If => {
                    self.consume_next(Token::If);
                    let l_exp = self.parse_l_exp();
                    self.consume_next(Token::Then);
                    let then_statement = self.parse_statement();
                    let else_statement = if self.match_next(Token::Else) {
                        self.consume_next(Token::Else);
                        self.parse_statement()
                    } else {
                        None
                    };
                    match (l_exp, then_statement) {
                        (Some(l_exp), Some(then_statement)) => Some(
                            Box::new(
                                StatementExpr::If { l_exp, then_statement, else_statement },
                            ),
                        ),
                        _ => None,
                    }
                },
                Token::While => {
                    self.consume_next(Token::While);
                    let l_exp = self.parse_l_exp();
                    self.consume_next(Token::Do);
                    let statement = self.parse_statement();
                    match (l_exp, statement) {
                        (Some(l_exp), Some(statement)) => Some(
                            Box::new(StatementExpr::While { l_exp, statement }),
                        ),
                        _ => None,
                    }
                },
                Token::Call => {
                    let mut errored = false;
                    self.consume_next(Token::Call);
                    let id = self.parse_id();
                    self.consume_next(Token::ParL);
                    let mut args: Vec<Box<ExpExpr>> = Vec::new();
                    if !self.match_next(Token::ParR) {
                        match self.parse_exp() {
                            Some(exp) => args.push(exp),
                            None => {
                                errored = true;
                            },
                        }
                        loop
                            invariant
                                self.lexer.wf(),
                                p_step(*old(self), *self),
                                errored ==> self.has_error,
                                errored ==> self.errors@.len() > old(self).errors@.len(),
                                id is None ==> self.has_error,
                                id is None ==> self.errors@.len() > old(self).errors@.len(),
                            decreases self.lexer.remaining(),
                        {
                            if !self.match_next(Token::Comma) {
                                break;
                            }
                            self.consume_next(Token::Comma);
                            match self.parse_exp() {
                                Some(exp) => args.push(exp),
                                None => {
                                    errored = true;
                                },
                            }
                        }
                    }
                    self.consume_next(Token::ParR);
                    if errored {
                        return None;
                    }
                    match id {
                        Some(id) => Some(Box::new(StatementExpr::Call { id, args })),
                        None => None,
                    }
                },
                Token::Read => {
                    let mut errored = false;
                    self.consume_next(Token::Read);
                    self.consume_next(Token::ParL);
                    let mut id_list: Vec<Box<IdExpr>> = Vec::new();
                    match self.parse_id() {
                        Some(id) => id_list.push(id),
                        None => {
                            errored = true;
                        },
                    }
                    loop
                        invariant
                            self.lexer.wf(),
                            p_step(*old(self), *self),
                            errored ==> self.has_error,
                            errored ==> self.errors@.len() > old(self).errors@.len(),
                        decreases self.lexer.remaining(),
                    {
                        if !self.match_next(Token::Comma) {
                            break;
                        }
                        self.consume_next(Token::Comma);
                        match self.parse_id() {
                            Some(id) => id_list.push(id),
                            None => {
                                errored = true;
                            },
                        }
                    }
                    self.consume_next(Token::ParR);
                    if errored {
                        return None;
                    }
                    Some(Box::new(StatementExpr::Read { id_list }))
                },
                Token::Write => {
                    let mut errored = false;
                    self.consume_next(Token::Write);
                    self.consume_next(Token::ParL);
                    let mut exps: Vec<Box<ExpExpr>> = Vec::new();
                    match self.parse_exp() {
                        Some(exp) => exps.push(exp),
                        None => {
                            errored = true;
                        },
                    }
                    loop
                        invariant
                            self.lexer.wf(),
                            p_step(*old(self), *self),
                            errored ==> self.has_error,
                            errored ==> self.errors@.len() > old(self).errors@.len(),
                        decreases self.lexer.remaining(),
                    {
                        if !self.match_next(Token::Comma) {
                            break;
                        }
                        self.consume_next(Token::Comma);
                        match self.parse_exp() {
                            Some(exp) => exps.push(exp),
                            None => {
                                errored = true;
                            },
                        }
                    }
                    self.consume_next(Token::ParR);
                    if errored {
                        return None;
                    }
                    Some(Box::new(StatementExpr::Write { exps }))
                },
                Token::Begin => {
                    match self.parse_body_at_begin() {
                        Some(body) => Some(Box::new(StatementExpr::Body { body })),
                        None => None,
                    }
                },
                Token::Identifier(_) => {
                    let id = self.parse_id();
                    self.consume_next(Token::EqSign);
                    let exp = self.parse_exp();
                    match (id, exp) {
                        (Some(id), Some(exp)) => Some(Box::new(StatementExpr::Id { id, exp })),
                        _ => None,
                    }
                },
                Token::LexicalError(_) => {
                    self.has_error = true;
                    self.drain_lexical_errors();
                    self.syn_err("Expected <statement> field, but not found!".to_owned());
                    self.consume_next(Token::EqSign);
                    let _exp = self.parse_exp();
                    None
                },
                other => {
                    let m = msg_unmatchable(
                        "Expected <statement> field, but got an unmatchable token `",
                        &other,
                    );
                    self.syn_err(m);
                    None
                },
            },
        }
    }

    /// `<l-exp> -> <exp> <lop> <exp> | odd <exp>`
    fn parse_l_exp(&mut self) -> (r: Option<Box<LExpExpr>>)
        requires
            old(self).lexer.wf(),
        ensures
            p_step(*old(self), *final(self)),
            r is None ==> final(self).has_error,
            r is None ==> final(self).errors@.len() > old(self).errors@.len(),
            // a token that cannot begin a condition is refused
            old(self).lexer.ahead matches Some(t) ==> ((!crate::synchronizer::in_first_l_exp(t)
                && !(t matches Token::LexicalError(_))) ==> r is None),
        decreases self.lexer.remaining(), 4int,
    {
        if self.match_next(Token::Odd) {
            self.consume_next(Token::Odd);
            match self.parse_exp() {
                Some(exp) => Some(Box::new(LExpExpr::Odd { exp })),
                None => None,
            }
        } else {
            let l_exp = self.parse_exp();
            let lop = self.parse_lop();
            let r_exp = self.parse_exp();
            match (l_exp, lop, r_exp) {
                (Some(l_exp), Some(lop), Some(r_exp)) => Some(
                    Box::new(LExpExpr::Exp { l_exp, lop, r_exp }),
                ),
                _ => None,
            }
        }
    }

    /// `<exp> -> [+|-] <term> {<aop> <term>}`
    fn parse_exp(&mut self) -> (r: Option<Box<ExpExpr>>)
        requires
            old(self).lexer.wf(),
        ensures
            p_step(*old(self), *final(self)),
            r is None ==> final(self).has_error,
            r is None ==> final(self).errors@.len() > old(self).errors@.len(),
            // a token that cannot begin an expression is refused
            old(self).lexer.ahead matches Some(t) ==> ((!crate::synchronizer::in_first_exp(t)
                && !(t matches Token::LexicalError(_))) ==> r is None),
        decreases self.lexer.remaining(), 3int,
    {
        let is_next_add = self.match_next(Token::Add);
        let is_next_sub = if is_next_add {
            false
        } else {
            self.match_next(Token::Sub)
        };
        if is_next_add {
            self.consume_next(Token::Add);
        }
        if is_next_sub {
            self.consume_next(Token::Sub);
        }
        let term = self.parse_term();
        let mut aop_terms: Vec<(Box<AopExpr>, Box<TermExpr>)> = Vec::new();
        let mut errored = false;
        loop
            invariant
                self.lexer.wf(),
                p_step(*old(self), *self),
                errored ==> self.has_error,
                errored ==> self.errors@.len() > old(self).errors@.len(),
                term is None ==> self.has_error,
                term is None ==> self.errors@.len() > old(self).errors@.len(),
            decreases self.lexer.remaining(),
        {
            let next_is_aop = {
                let a = self.match_next(Token::Add);
                if a {
                    true
                } else {
                    self.match_next(Token::Sub)
                }
            };
            if !next_is_aop {
                break;
            }
            let aop = self.parse_aop();
            let term2 = self.parse_term();
            match (aop, term2) {
                (Some(aop), Some(term2)) => aop_terms.push((aop, term2)),
                _ => {
                    errored = true;
                },
            }
        }
        if errored {
            return None;
        }
        match term {
            Some(term) => Some(Box::new(ExpExpr { is_negative: is_next_sub, term, aop_terms })),
            None => None,
        }
    }

    /// `<term> -> <factor> {<mop> <factor>}`
    fn parse_term(&mut self) -> (r: Option<Box<TermExpr>>)
        requires
            old(self).lexer.wf(),
        ensures
            p_step(*old(self), *final(self)),
            r is None ==> final(self).has_error,
            r is None ==> final(self).errors@.len() > old(self).errors@.len(),
            // a token that cannot begin a term is refused
            old(self).lexer.ahead matches Some(t) ==> ((!crate::synchronizer::in_first_factor(t)
                && !(t matches Token::LexicalError(_))) ==> r is None),
        decreases self.lexer.remaining(), 2int,
    {
        let factor = self.parse_factor();
        let mut mop_factors: Vec<(Box<MopExpr>, Box<FactorExpr>)> = Vec::new();
        let mut errored = false;
        loop
            invariant
                self.lexer.wf(),
                p_step(*old(self), *self),
                errored ==> self.has_error,
                errored ==> self.errors@.len() > old(self).errors@.len(),
                factor is None ==> self.has_error,
                factor is None ==> self.errors@.len() > old(self).errors@.len(),
            decreases self.lexer.remaining(),
        {
            let next_is_mop = {
                let m = self.match_next(Token::Mul);
                if m {
                    true
                } else {
                    self.match_next(Token::Div)
                }
            };
            if !next_is_mop {
                break;
            }
            let mop = self.parse_mop();
            let factor2 = self.parse_factor();
            match (mop, factor2) {
                (Some(mop), Some(factor2)) => mop_factors.push((mop, factor2)),
                _ => {
                    errored = true;
                },
            }
        }
        if errored {
            return None;
        }
        match factor {
            Some(factor) => Some(Box::new(TermExpr { factor, mop_factors })),
            None => None,
        }
    }

    /// `<factor> -> <id> | <integer> | (<exp>)`
    fn parse_factor(&mut self) -> (r: Option<Box<FactorExpr>>)
        requires
            old(self).lexer.wf(),
        ensures
            p_step(*old(self), *final(self)),
            r is None ==> final(self).has_error,
            r is None ==> final(self).errors@.len() > old(self).errors@.len(),
            // a literal or identifier lookahead always succeeds, carrying
            // its own value or spelling
            old(self).lexer.ahead matches Some(Token::Integer(v)) ==> (r matches Some(b)
                && *b matches FactorExpr::Integer(ie) && (*ie).0 == v && final(self).lexer.remaining() < old(self).lexer.remaining()),
            old(self).lexer.ahead matches Some(Token::Identifier(nm)) ==> (r matches Some(b)
                && *b matches FactorExpr::Id(id) && (*id).0 == nm && final(self).lexer.remaining()
                < old(self).lexer.remaining()),
            old(self).lexer.ahead matches Some(Token::ParL) ==> (r is None || *r->0 is Exp),
            // a token that cannot begin a factor is refused
            old(self).lexer.ahead matches Some(t) ==> ((!crate::synchronizer::in_first_factor(t)
                && !(t matches Token::LexicalError(_))) ==> r is None),
        decreases self.lexer.remaining(), 1int,
    {
        if self.match_next(Token::ParL) {
            self.consume_next(Token::ParL);
            let exp = self.parse_exp();
            self.consume_next(Token::ParR);
            match exp {
                Some(exp) => Some(Box::new(FactorExpr::Exp(exp))),
                None => None,
            }
        } else {
            let t_opt = self.lexer.peek();
            match t_opt {
                Some(Token::Identifier(_)) => {
                    match self.parse_id() {
                        Some(id) => Some(Box::new(FactorExpr::Id(id))),
                        None => None,
                    }
                },
                Some(Token::Integer(_)) => {
                    match self.parse_integer() {
                        Some(integer) => Some(Box::new(FactorExpr::Integer(integer))),
                        None => None,
                    }
                },
                Some(Token::LexicalError(_)) => {
                    self.has_error = true;
                    self.drain_lexical_errors();
                    self.syn_err(
                        "Expected `<id>` / `<integer>` / `(<exp>)` field, but not found!".to_owned(),
                    );
                    None
                },
                Some(t) => {
                    let m = msg_unmatchable(
                        "Expected `<id>` / `<integer>` / `(<exp>)` field, but got an unmatchable token `",
                        &t,
                    );
                    self.syn_err(m);
                    if !factor_follow_contains(&t) {
                        let _ = self.lexer.next();
                    }
                    None
                },
                None => {
                    self.syn_err(
                        "Expected `<id>` / `<integer>` / `(<exp>)` field, but got an unmatchable token `None`".to_owned(),
                    );
                    let _ = self.lexer.next();
                    None
                },
            }
        }
    }

    /// `<lop> -> = | <> | < | <= | > | >=`
    fn parse_lop(&mut self) -> (r: Option<Box<LopExpr>>)
        requires
            old(self).lexer.wf(),
        ensures
            p_step(*old(self), *final(self)),
            r is None ==> final(self).has_error,
            r is None ==> final(self).errors@.len() > old(self).errors@.len(),
            // a relational lookahead always succeeds as its own operator,
            // consuming exactly that token
            old(self).lexer.ahead matches Some(t) ==> (crate::synchronizer::in_first_lop(t) ==> (
            r is Some && final(self).lexer.remaining() < old(self).lexer.remaining() && final(self).has_error == old(self).has_error && final(self).errors == old(self).errors)),
            old(self).lexer.ahead matches Some(Token::Eq) ==> (r matches Some(b) && *b is Eq),
            old(self).lexer.ahead matches Some(Token::Ne) ==> (r matches Some(b) && *b is Ne),
            old(self).lexer.ahead matches Some(Token::Lt) ==> (r matches Some(b) && *b is Lt),
            old(self).lexer.ahead matches Some(Token::Le) ==> (r matches Some(b) && *b is Le),
            old(self).lexer.ahead matches Some(Token::Gt) ==> (r matches Some(b) && *b is Gt),
            old(self).lexer.ahead matches Some(Token::Ge) ==> (r matches Some(b) && *b is Ge),
    {
        let t_opt = self.lexer.peek();
        let loc = Location(self.lexer.line_num, self.lexer.col_num);
        match t_opt {
            Some(Token::Eq) => {
                let _ = self.lexer.next();
                Some(Box::new(LopExpr::Eq(loc)))
            },
            Some(Token::Lt) => {
                let _ = self.lexer.next();
                Some(Box::new(LopExpr::Lt(loc)))
            },
            Some(Token::Gt) => {
                let _ = self.lexer.next();
                Some(Box::new(LopExpr::Gt(loc)))
            },
            Some(Token::Le) => {
                let _ = self.lexer.next();
                Some(Box::new(LopExpr::Le(loc)))
            },
            Some(Token::Ge) => {
                let _ = self.lexer.next();
                Some(Box::new(LopExpr::Ge(loc)))
            },
            Some(Token::Ne) => {
                let _ = self.lexer.next();
                Some(Box::new(LopExpr::Ne(loc)))
            },
            Some(t) => {
                let m = msg_unmatchable("Expected <lop> field, but got an unmatchable token `", &t);
                self.syn_err(m);
                if !lop_follow_contains(&t) {
                    let _ = self.lexer.next();
                }
                None
            },
            None => {
                self.syn_err("Expected <lop> field, but got `None`".to_owned());
                let _ = self.lexer.next();
                None
            },
        }
    }

    /// `<aop> -> + | -`
    fn parse_aop(&mut self) -> (r: Option<Box<AopExpr>>)
        requires
            old(self).lexer.wf(),
        ensures
            p_step(*old(self), *final(self)),
            r is None ==> final(self).has_error,
            r is None ==> final(self).errors@.len() > old(self).errors@.len(),
            old(self).lexer.ahead matches Some(Token::Add) ==> r is Some && final(self).lexer.remaining() < old(self).lexer.remaining(),
            old(self).lexer.ahead matches Some(Token::Sub) ==> r is Some && final(self).lexer.remaining() < old(self).lexer.remaining(),
    {
        let loc = Location(self.lexer.line_num, self.lexer.col_num);
        if self.match_next(Token::Add) {
            self.consume_next(Token::Add);
            Some(Box::new(AopExpr::Add(loc)))
        } else if self.match_next(Token::Sub) {
            self.consume_next(Token::Sub);
            Some(Box::new(AopExpr::Sub(loc)))
        } else {
            let t_opt = self.lexer.peek();
            match t_opt {
                Some(t) => {
                    let m = msg_unmatchable(
                        "Expected <aop> field, but got an unmatchable token `",
                        &t,
                    );
                    self.syn_err(m);
                    if !op_follow_contains(&t) {
                        let _ = self.lexer.next();
                    }
                },
                None => {
                    self.syn_err(
                        "Expected <aop> field, but got an unmatchable token `None`".to_owned(),
                    );
                    let _ = self.lexer.next();
                },
            }
            None
        }
    }

    /// `<mop> -> * | /`
    fn parse_mop(&mut self) -> (r: Option<Box<MopExpr>>)
        requires
            old(self).lexer.wf(),
        ensures
            p_step(*old(self), *final(self)),
            r is None ==> final(self).has_error,
            r is None ==> final(self).errors@.len() > old(self).errors@.len(),
            old(self).lexer.ahead matches Some(Token::Mul) ==> r is Some && final(self).lexer.remaining() < old(self).lexer.remaining(),
            old(self).lexer.ahead matches Some(Token::Div) ==> r is Some && final(self).lexer.remaining() < old(self).lexer.remaining(),
    {
        let loc = Location(self.lexer.line_num, self.lexer.col_num);
        if self.match_next(Token::Mul) {
            self.consume_next(Token::Mul);
            Some(Box::new(MopExpr::Mul(loc)))
        } else if self.match_next(Token::Div) {
            self.consume_next(Token::Div);
            Some(Box::new(MopExpr::Div(loc)))
        } else {
            let t_opt = self.lexer.peek();
            match t_opt {
                Some(t) => {
                    let m = msg_unmatchable(
                        "Expected <mop> field, but got an unmatchable token `",
                        &t,
                    );
                    self.syn_err(m);
                    if !op_follow_contains(&t) {
                        let _ = self.lexer.next();
                    }
                },
                None => {
                    self.syn_err(
                        "Expected <mop> field, but got an unmatchable token `None`".to_owned(),
                    );
                    let _ = self.lexer.next();
                },
            }
            None
        }
    }

    /// Parse the whole source.  The tree that could be built is left in
    /// `ast_entry`, recovered or not; a parse with no diagnostics always
    /// leaves one there, and the caller consults `has_error` at the stage
    /// boundary before going on.
    pub fn parse(&mut self)
        requires
            old(self).lexer.wf(),
        ensures
            final(self).lexer.wf(),
            old(self).has_error ==> final(self).has_error,
            old(self).errors@.len() <= final(self).errors@.len(),
            final(self).errors@.len() > old(self).errors@.len() ==> final(self).has_error,
            !final(self).has_error ==> final(self).ast_entry is Some,
            final(self).ast_entry is None ==> final(self).has_error,
            final(self).ast_entry is None ==> final(self).errors@.len() > old(self).errors@.len(),
    {
        let program_expr = self.parse_program();
        self.ast_entry = program_expr;
    }

    /// Hand the finished tree out, leaving the slot empty.
    pub fn take_ast_entry(&mut self) -> (r: Option<Box<ProgramExpr>>)
        ensures
            r == old(self).ast_entry,
            final(self).ast_entry is None,
            final(self).lexer == old(self).lexer,
            final(self).has_error == old(self).has_error,
            final(self).errors == old(self).errors,
    {
        self.ast_entry.take()
    }
}

} // verus!
