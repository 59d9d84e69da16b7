use pl_0::error::{CompileError, CompileErrorBuilder, CompileErrorType, ErrorTrait, PL0Error};
use pl_0::pcode::{PCodeManager, Pcode, PcodeType};
use pl_0::symbol_table::{SymTable, SymType};

#[test]
fn diagnostic_format() {
    let e = CompileError {
        line: 2,
        col: 3,
        info: "something went wrong".to_string(),
        error_type: CompileErrorType::SyntaxError,
    };
    assert_eq!(
        e.as_string(),
        "SyntaxError{ Line: 2, Col: 3 }\n  | ~~ something went wrong\n"
    );
    assert_eq!(e.line(), 2);
    assert_eq!(e.col(), 3);
    assert_eq!(e.error_type(), "SyntaxError");
}

#[test]
fn builder_assembles_every_piece() {
    let e = CompileErrorBuilder::new()
        .with_line(7)
        .with_col(9)
        .with_info("message".to_string())
        .with_error_type(CompileErrorType::SemanticError)
        .build();
    assert_eq!(e.line, 7);
    assert_eq!(e.col, 9);
    assert_eq!(e.info, "message");
    assert_eq!(e.error_type, CompileErrorType::SemanticError);
}

#[test]
fn builder_templates_and_defaults() {
    let e = CompileErrorBuilder::syntax_error_template().build();
    assert_eq!(e.line, 1);
    assert_eq!(e.col, 0);
    assert_eq!(e.info, "");
    assert_eq!(e.error_type, CompileErrorType::SyntaxError);
    let d = CompileErrorBuilder::new().build();
    assert_eq!(d.error_type, CompileErrorType::LexicalError);
    let l = CompileErrorBuilder::lexical_error_template().build();
    assert_eq!(l.error_type, CompileErrorType::LexicalError);
    let s = CompileErrorBuilder::semantic_error_template().build();
    assert_eq!(s.error_type, CompileErrorType::SemanticError);
}

#[test]
fn pl0_error_wraps_compile_errors() {
    let e = CompileErrorBuilder::syntax_error_template().build();
    let wrapped = PL0Error::from(e.clone());
    match wrapped {
        PL0Error::CompileError(inner) => assert_eq!(inner, e),
        PL0Error::RuntimeError(_) => panic!("wrong variant"),
    }
}

#[test]
fn symbol_table_resolves_innermost() {
    let mut t = SymTable::new();
    t.load_var("x", 0, 3);
    t.load_proc("p", 0, 4);
    t.load_var("x", 1, 3);
    // from the inner level, the later row shadows the outer one
    let inner = t.find_closest_sym("x", 1);
    assert_eq!(inner.level, 1);
    // from the outer level, the inner row is not visible
    let outer = t.find_closest_sym("x", 0);
    assert_eq!(outer.level, 0);
    assert!(matches!(outer.ty, SymType::Var));
}

#[test]
fn symbol_table_existence_checks() {
    let mut t = SymTable::new();
    t.load_const("c", 0, 42, 3);
    assert!(t.is_pre_exists("c", 0));
    assert!(t.is_pre_exists("c", 1));
    assert!(!t.is_pre_exists("d", 1));
    assert!(t.is_now_exists("c", 0));
    assert!(!t.is_now_exists("c", 1));
    assert!(t.try_find_closest_sym("d", 5).is_none());
}

#[test]
fn symbol_table_finds_latest_procedure() {
    let mut t = SymTable::new();
    assert!(t.get_proc_in_curr_level().is_none());
    t.load_proc("p", 0, 4);
    t.load_var("v", 1, 3);
    assert_eq!(t.get_proc_in_curr_level(), Some(0));
    t.load_proc("q", 1, 5);
    assert_eq!(t.get_proc_in_curr_level(), Some(2));
}

#[test]
fn symbol_table_row_patching() {
    let mut t = SymTable::new();
    t.load_proc("p", 0, 4);
    t.set_row_size(0, 2);
    t.set_row_val(0, 17);
    assert_eq!(t.table[0].size, 2);
    assert_eq!(t.table[0].val, 17);
    assert_eq!(t.table[0].name, "p");
}

#[test]
fn pcode_gen_and_patch() {
    let mut m = PCodeManager::new();
    assert_eq!(m.get_pcode_ptr(), 0);
    m.gen(PcodeType::JMP, 0, 0);
    m.gen(PcodeType::LIT, 0, 5);
    assert_eq!(m.get_pcode_ptr(), 2);
    m.patch_a(0, 2);
    assert!(matches!(m.pcode_list[0].f, PcodeType::JMP));
    assert_eq!(m.pcode_list[0].a, 2);
    assert_eq!(m.pcode_list[1].a, 5);
}

#[test]
fn pcode_setters() {
    let mut p = Pcode { f: PcodeType::LOD, l: 0, a: 0 };
    p.set_l(2);
    p.set_a(7);
    assert_eq!(p.l, 2);
    assert_eq!(p.a, 7);
    assert!(matches!(p.f, PcodeType::LOD));
}
