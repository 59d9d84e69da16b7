use crate::util::{dec_digits, dec_string};
use vstd::prelude::*;
use vstd::string::StringExecFns;

verus! {

/// The three stages of the pipeline that can report a diagnostic.
#[derive(Debug, Clone, Copy, PartialEq, Eq, Structural)]
pub enum CompileErrorType {
    LexicalError,
    SyntaxError,
    SemanticError,
}

/// The printed name of a compile-error kind.
pub open spec fn error_type_chars(t: CompileErrorType) -> Seq<char> {
    match t {
        CompileErrorType::LexicalError => "LexicalError"@,
        CompileErrorType::SyntaxError => "SyntaxError"@,
        CompileErrorType::SemanticError => "SemanticError"@,
    }
}

impl CompileErrorType {
    /// The name of the kind, as the diagnostic header prints it.
    pub fn kind_name(&self) -> (r: String)
        ensures
            r@ == error_type_chars(*self),
    {
        match self {
            CompileErrorType::LexicalError => "LexicalError".to_owned(),
            CompileErrorType::SyntaxError => "SyntaxError".to_owned(),
            CompileErrorType::SemanticError => "SemanticError".to_owned(),
        }
    }
}

/// The text of one rendered diagnostic:
/// `<kind>{ Line: <line>, Col: <col> }\n  | ~~ <info>\n`.
pub open spec fn error_text(
    kind: Seq<char>,
    line: nat,
    col: nat,
    info: Seq<char>,
) -> Seq<char> {
    kind + "{ Line: "@ + dec_digits(line) + ", Col: "@ + dec_digits(col) + " }\n  | ~~ "@ + info
        + "\n"@
}

/// A diagnostic from the lexer, the parser or the translator.
#[derive(Debug, Clone, PartialEq, Eq)]
#[verifier::ext_equal]
pub struct CompileError {
    pub line: usize,
    pub col: usize,
    pub info: String,
    pub error_type: CompileErrorType,
}

impl CompileError {
    pub fn lexical_error_template() -> (r: Self)
        ensures
            r.line == 1,
            r.col == 0,
            r.info@ == Seq::<char>::empty(),
            r.error_type == CompileErrorType::LexicalError,
    {
        CompileError {
            line: 1,
            col: 0,
            info: String::new(),
            error_type: CompileErrorType::LexicalError,
        }
    }

    pub fn syntax_error_template() -> (r: Self)
        ensures
            r.line == 1,
            r.col == 0,
            r.info@ == Seq::<char>::empty(),
            r.error_type == CompileErrorType::SyntaxError,
    {
        CompileError {
            line: 1,
            col: 0,
            info: String::new(),
            error_type: CompileErrorType::SyntaxError,
        }
    }

    pub fn semantic_error_template() -> (r: Self)
        ensures
            r.line == 1,
            r.col == 0,
            r.info@ == Seq::<char>::empty(),
            r.error_type == CompileErrorType::SemanticError,
    {
        CompileError {
            line: 1,
            col: 0,
            info: String::new(),
            error_type: CompileErrorType::SemanticError,
        }
    }
}

/// The mathematical image of a diagnostic: the message as its character
/// sequence.
#[verifier::ext_equal]
pub ghost struct ErrV {
    pub line: usize,
    pub col: usize,
    pub info: Seq<char>,
    pub error_type: CompileErrorType,
}

impl View for CompileError {
    type V = ErrV;

    open spec fn view(&self) -> ErrV {
        ErrV { line: self.line, col: self.col, info: self.info@, error_type: self.error_type }
    }
}

/// Assembles a `CompileError` piece by piece; a missing piece falls back to
/// the template default.
#[derive(Debug, Clone)]
pub struct CompileErrorBuilder {
    pub line: Option<usize>,
    pub col: Option<usize>,
    pub info: Option<String>,
    pub error_type: Option<CompileErrorType>,
}

impl Default for CompileErrorBuilder {
    fn default() -> (r: Self)
        ensures
            r.line is None,
            r.col is None,
            r.info is None,
            r.error_type is None,
    {
        CompileErrorBuilder { line: None, col: None, info: None, error_type: None }
    }
}

impl From<crate::ast::Location> for CompileErrorBuilder {
    /// A semantic-error template at the given source position.
    fn from(value: crate::ast::Location) -> (r: Self)
        ensures
            r.line == Some(value.0),
            r.col == Some(value.1),
            r.info is Some && r.info->0@ == Seq::<char>::empty(),
            r.error_type == Some(CompileErrorType::SemanticError),
    {
        CompileErrorBuilder::semantic_error_template().with_line(value.0).with_col(value.1)
    }
}

impl vstd::std_specs::convert::FromSpecImpl<crate::ast::Location> for CompileErrorBuilder {
    open spec fn obeys_from_spec() -> bool {
        false
    }

    open spec fn from_spec(value: crate::ast::Location) -> Self {
        arbitrary()
    }
}

impl CompileErrorBuilder {
    pub fn lexical_error_template() -> (r: Self)
        ensures
            r.line == Some(1usize),
            r.col == Some(0usize),
            r.info is Some && r.info->0@ == Seq::<char>::empty(),
            r.error_type == Some(CompileErrorType::LexicalError),
    {
        Self::template(CompileErrorType::LexicalError)
    }

    pub fn syntax_error_template() -> (r: Self)
        ensures
            r.line == Some(1usize),
            r.col == Some(0usize),
            r.info is Some && r.info->0@ == Seq::<char>::empty(),
            r.error_type == Some(CompileErrorType::SyntaxError),
    {
        Self::template(CompileErrorType::SyntaxError)
    }

    pub fn semantic_error_template() -> (r: Self)
        ensures
            r.line == Some(1usize),
            r.col == Some(0usize),
            r.info is Some && r.info->0@ == Seq::<char>::empty(),
            r.error_type == Some(CompileErrorType::SemanticError),
    {
        Self::template(CompileErrorType::SemanticError)
    }

    pub fn template(error_type: CompileErrorType) -> (r: Self)
        ensures
            r.line == Some(1usize),
            r.col == Some(0usize),
            r.info is Some && r.info->0@ == Seq::<char>::empty(),
            r.error_type == Some(error_type),
    {
        CompileErrorBuilder {
            line: Some(1),
            col: Some(0),
            info: Some(String::new()),
            error_type: Some(error_type),
        }
    }

    pub fn new() -> (r: Self)
        ensures
            r.line is None,
            r.col is None,
            r.info is None,
            r.error_type is None,
    {
        Self::default()
    }

    pub fn with_line(self, line: usize) -> (r: Self)
        ensures
            r == (CompileErrorBuilder { line: Some(line), ..self }),
    {
        CompileErrorBuilder { line: Some(line), ..self }
    }

    pub fn with_col(self, col: usize) -> (r: Self)
        ensures
            r == (CompileErrorBuilder { col: Some(col), ..self }),
    {
        CompileErrorBuilder { col: Some(col), ..self }
    }

    /// Take line and column from the lexer's current position.
    pub fn with_lexer_ref(self, lexer: &crate::lexer::Lexer) -> (r: Self)
        ensures
            r == (CompileErrorBuilder {
                line: Some(lexer.line_num),
                col: Some(lexer.col_num),
                ..self
            }),
    {
        CompileErrorBuilder { line: Some(lexer.line_num), col: Some(lexer.col_num), ..self }
    }

    pub fn with_info(self, info: String) -> (r: Self)
        ensures
            r == (CompileErrorBuilder { info: Some(info), ..self }),
    {
        CompileErrorBuilder { info: Some(info), ..self }
    }

    pub fn with_error_type(self, error_type: CompileErrorType) -> (r: Self)
        ensures
            r == (CompileErrorBuilder { error_type: Some(error_type), ..self }),
    {
        CompileErrorBuilder { error_type: Some(error_type), ..self }
    }

    /// The finished diagnostic; absent pieces fall back to line 1, column 0,
    /// an empty message and the lexical kind.
    pub fn build(self) -> (r: CompileError)
        ensures
            r.line == (if self.line is Some {
                self.line->0
            } else {
                1usize
            }),
            r.col == (if self.col is Some {
                self.col->0
            } else {
                0usize
            }),
            r.info@ == (if self.info is Some {
                self.info->0@
            } else {
                Seq::<char>::empty()
            }),
            r.error_type == (if self.error_type is Some {
                self.error_type->0
            } else {
                CompileErrorType::LexicalError
            }),
    {
        let line = match self.line {
            Some(l) => l,
            None => 1,
        };
        let col = match self.col {
            Some(c) => c,
            None => 0,
        };
        let info = match self.info {
            Some(i) => i,
            None => String::new(),
        };
        let error_type = match self.error_type {
            Some(t) => t,
            None => CompileErrorType::LexicalError,
        };
        CompileError { line, col, info, error_type }
    }
}

/// Kinds of failure the virtual machine can report while running p-code.
#[derive(Debug, Clone, Copy, PartialEq, Eq, Structural)]
pub enum RuntimeErrorType {
    StackOverflow,
    InvalidInstruction,
    InvalidOperator,
    InvalidAddress,
    DivisionByZero,
}

/// The printed name of a runtime-error kind.
pub open spec fn runtime_error_type_chars(t: RuntimeErrorType) -> Seq<char> {
    match t {
        RuntimeErrorType::StackOverflow => "StackOverflow"@,
        RuntimeErrorType::InvalidInstruction => "InvalidInstruction"@,
        RuntimeErrorType::InvalidOperator => "InvalidOperator"@,
        RuntimeErrorType::InvalidAddress => "InvalidAddress"@,
        RuntimeErrorType::DivisionByZero => "DivisionByZero"@,
    }
}

impl RuntimeErrorType {
    /// The name of the kind, as the diagnostic header prints it.
    pub fn kind_name(&self) -> (r: String)
        ensures
            r@ == runtime_error_type_chars(*self),
    {
        match self {
            RuntimeErrorType::StackOverflow => "StackOverflow".to_owned(),
            RuntimeErrorType::InvalidInstruction => "InvalidInstruction".to_owned(),
            RuntimeErrorType::InvalidOperator => "InvalidOperator".to_owned(),
            RuntimeErrorType::InvalidAddress => "InvalidAddress".to_owned(),
            RuntimeErrorType::DivisionByZero => "DivisionByZero".to_owned(),
        }
    }
}

/// A failure raised while the virtual machine runs p-code.  `line` holds the
/// index of the faulting instruction.
#[derive(Debug, Clone, PartialEq, Eq)]
#[verifier::ext_equal]
pub struct RuntimeError {
    pub line: usize,
    pub info: String,
    pub error_type: RuntimeErrorType,
}

/// What every diagnostic of this crate can tell about itself.
pub trait ErrorTrait {
    fn line(&self) -> usize;

    fn col(&self) -> usize;

    fn info(&self) -> String;

    fn error_type(&self) -> String;

    fn as_string(&self) -> String;
}

impl ErrorTrait for CompileError {
    fn line(&self) -> (r: usize)
        ensures
            r == self.line,
    {
        self.line
    }

    fn col(&self) -> (r: usize)
        ensures
            r == self.col,
    {
        self.col
    }

    fn info(&self) -> (r: String)
        ensures
            r@ == self.info@,
    {
        self.info.clone()
    }

    fn error_type(&self) -> (r: String)
        ensures
            r@ == error_type_chars(self.error_type),
    {
        self.error_type.kind_name()
    }

    /// Renders the diagnostic in the fixed format.
    fn as_string(&self) -> (r: String)
        ensures
            r@ == error_text(
                error_type_chars(self.error_type),
                self.line as nat,
                self.col as nat,
                self.info@,
            ),
    {
        let mut s = self.error_type.kind_name();
        s.append("{ Line: ");
        s.append(dec_string(self.line as u64).as_str());
        s.append(", Col: ");
        s.append(dec_string(self.col as u64).as_str());
        s.append(" }\n  | ~~ ");
        s.append(self.info.as_str());
        s.append("\n");
        s
    }
}

impl ErrorTrait for RuntimeError {
    fn line(&self) -> (r: usize)
        ensures
            r == self.line,
    {
        self.line
    }

    fn col(&self) -> (r: usize)
        ensures
            r == 0,
    {
        0
    }

    fn info(&self) -> (r: String)
        ensures
            r@ == self.info@,
    {
        self.info.clone()
    }

    fn error_type(&self) -> (r: String)
        ensures
            r@ == runtime_error_type_chars(self.error_type),
    {
        self.error_type.kind_name()
    }

    /// Renders the diagnostic in the fixed format.
    fn as_string(&self) -> (r: String)
        ensures
            r@ == error_text(
                runtime_error_type_chars(self.error_type),
                self.line as nat,
                0,
                self.info@,
            ),
    {
        let mut s = self.error_type.kind_name();
        s.append("{ Line: ");
        s.append(dec_string(self.line as u64).as_str());
        s.append(", Col: ");
        s.append(dec_string(0).as_str());
        s.append(" }\n  | ~~ ");
        s.append(self.info.as_str());
        s.append("\n");
        s
    }
}

/// A failure from either half of the system: compiling or running.
#[derive(Debug, Clone)]
pub enum PL0Error {
    CompileError(CompileError),
    RuntimeError(RuntimeError),
}

impl From<CompileError> for PL0Error {
    fn from(err: CompileError) -> (r: Self)
        ensures
            r == PL0Error::CompileError(err),
    {
        PL0Error::CompileError(err)
    }
}

impl vstd::std_specs::convert::FromSpecImpl<CompileError> for PL0Error {
    open spec fn obeys_from_spec() -> bool {
        true
    }

    open spec fn from_spec(err: CompileError) -> Self {
        PL0Error::CompileError(err)
    }
}

impl From<RuntimeError> for PL0Error {
    fn from(err: RuntimeError) -> (r: Self)
        ensures
            r == PL0Error::RuntimeError(err),
    {
        PL0Error::RuntimeError(err)
    }
}

impl vstd::std_specs::convert::FromSpecImpl<RuntimeError> for PL0Error {
    open spec fn obeys_from_spec() -> bool {
        true
    }

    open spec fn from_spec(err: RuntimeError) -> Self {
        PL0Error::RuntimeError(err)
    }
}

} // verus!
