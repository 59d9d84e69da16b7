use pl_0::error::CompileErrorType;
use pl_0::parser::Parser;

#[test]
fn missing_program_name_is_reported_without_aborting() {
    let mut parser = Parser::new("program ; begin write(1) end");
    parser.parse();
    assert!(parser.has_error);
    assert!(!parser.errors.is_empty());
    assert!(parser.errors.iter().all(|e| e.error_type == CompileErrorType::SyntaxError));
    // the program node needs its name, so no tree comes out
    assert!(parser.ast_entry.is_none());
}

#[test]
fn missing_assign_sign_recovers_to_the_value() {
    // the integer can follow `:=`, so the cursor is left alone and the
    // constant is still built
    let mut parser = Parser::new("program P; const a 5; begin write(a) end");
    parser.parse();
    assert!(parser.has_error);
    assert_eq!(parser.errors.len(), 1);
    assert_eq!(parser.errors[0].error_type, CompileErrorType::SyntaxError);
    let ast = parser.take_ast_entry().expect("recovery should still build a tree");
    let consts = ast.block.const_decl.as_ref().expect("the constant list survives");
    assert_eq!(consts.constants.len(), 1);
    assert_eq!(consts.constants[0].integer.0, 5);
}

#[test]
fn several_independent_errors_are_all_reported() {
    let mut parser = Parser::new("program P; var x; begin read(); write() end");
    parser.parse();
    assert!(parser.has_error);
    assert!(parser.errors.len() >= 2);
}

#[test]
fn condition_missing_from_if_does_not_abort() {
    let mut parser = Parser::new("program P; var a; begin if then a := 1 end");
    parser.parse();
    assert!(parser.has_error);
    assert!(!parser.errors.is_empty());
}

#[test]
fn non_ascii_keyword_becomes_lexical_errors() {
    let mut parser = Parser::new("\u{7a0b}\u{5e8f} P; begin write(1) end");
    parser.parse();
    assert!(parser.has_error);
    assert!(parser.errors.iter().any(|e| e.error_type == CompileErrorType::LexicalError));
}

#[test]
fn empty_input_fails_without_panicking() {
    let mut parser = Parser::new("");
    parser.parse();
    assert!(parser.has_error);
    assert!(parser.ast_entry.is_none());
}
