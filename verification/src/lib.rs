#![verifier::loop_isolation(false)]

pub mod ast;
pub mod error;
pub mod lexer;
pub mod optimizer;
pub mod parser;
pub mod pcode;
pub mod symbol_table;
pub mod synchronizer;
pub mod token;
pub mod translator;
pub mod util;
pub mod vm;
