use pl_0::error::CompileErrorType;
use pl_0::optimizer::AstOptimizer;
use pl_0::parser::Parser;
use pl_0::pcode::PcodeType;
use pl_0::translator::Translator;
use pl_0::vm::{InterpretResult, VM};

fn run_program(src: &str, inputs: &[i64]) -> Vec<i64> {
    let mut parser = Parser::new(src);
    parser.parse();
    assert!(!parser.has_error, "unexpected parse errors: {:?}", parser.errors);
    let ast = parser.take_ast_entry().expect("no tree was produced");
    let mut translator = Translator::default();
    let code = match translator.translate(&ast) {
        Ok(code) => code,
        Err(()) => panic!("unexpected semantic errors: {:?}", translator.errors),
    };
    let mut vm = VM::new(code);
    for &v in inputs {
        vm.push_input(v);
    }
    match vm.interpret(1_000_000) {
        InterpretResult::Halted => {},
        other => panic!("the program did not halt: {:?}", other),
    }
    vm.get_outputs().clone()
}

fn semantic_errors(src: &str) -> Vec<pl_0::error::CompileError> {
    let mut parser = Parser::new(src);
    parser.parse();
    assert!(!parser.has_error, "unexpected parse errors: {:?}", parser.errors);
    let ast = parser.take_ast_entry().expect("no tree was produced");
    let mut translator = Translator::default();
    assert!(translator.translate(&ast).is_err(), "expected semantic errors");
    translator.errors
}

#[test]
fn end_to_end_sum_prints_three() {
    let out = run_program(
        "program P; var a, b, c; begin a := 1; b := 2; c := a + b; write(c) end",
        &[],
    );
    assert_eq!(out, vec![3]);
}

#[test]
fn scope_shadowing_resolves_each_x() {
    // the inner assignment hits the inner x only: the outer x keeps its 2
    let out = run_program(
        "program P; var x; procedure p(); var x; begin x := 1 end; begin x := 2; call p(); write(x) end",
        &[],
    );
    assert_eq!(out, vec![2]);
}

#[test]
fn redeclaration_yields_exactly_one_semantic_error() {
    let errors = semantic_errors("program P; var x, x; begin x := 1 end");
    assert_eq!(errors.len(), 1);
    assert_eq!(errors[0].error_type, CompileErrorType::SemanticError);
    assert_eq!(errors[0].info, "`x` is defined before");
}

#[test]
fn undeclared_identifier_yields_one_located_error() {
    let errors = semantic_errors("program P; var a;\nbegin write(y) end");
    assert_eq!(errors.len(), 1);
    assert_eq!(errors[0].error_type, CompileErrorType::SemanticError);
    assert_eq!(errors[0].info, "`y` is undefined");
    assert_eq!(errors[0].line, 2);
    assert!(errors[0].col > 0);
}

#[test]
fn arity_mismatch_states_both_counts() {
    let errors = semantic_errors(
        "program P; procedure p(a, b); begin a := 1 end; begin call p(1) end",
    );
    assert_eq!(errors.len(), 1);
    assert_eq!(errors[0].error_type, CompileErrorType::SemanticError);
    assert_eq!(errors[0].info, "`p` expects 2 args, but received 1");
}

#[test]
fn missing_semicolon_yields_one_syntax_error_and_a_tree() {
    let mut parser = Parser::new("program P; var a; begin a := 1 b := 2 end");
    parser.parse();
    assert!(parser.has_error);
    assert_eq!(parser.errors.len(), 1);
    assert_eq!(parser.errors[0].error_type, CompileErrorType::SyntaxError);
    let ast = parser.take_ast_entry().expect("recovery should still build a tree");
    assert_eq!(ast.block.body.statements.len(), 1);
}

#[test]
fn static_link_chase_reaches_the_outer_frame() {
    // inner stands two levels below the variables it reads and writes, and
    // calls itself through a one-hop static chain
    let src = "program P;\n\
               var n, acc;\n\
               procedure outer();\n\
                 procedure inner();\n\
                 begin\n\
                   if n > 0 then\n\
                   begin\n\
                     acc := acc + n;\n\
                     n := n - 1;\n\
                     call inner()\n\
                   end\n\
                 end;\n\
               begin\n\
                 call inner()\n\
               end;\n\
               begin\n\
                 n := 3;\n\
                 acc := 0;\n\
                 call outer();\n\
                 write(acc)\n\
               end";
    let out = run_program(src, &[]);
    assert_eq!(out, vec![6]);
}

#[test]
fn level_differences_stay_within_nesting_depth() {
    let src = "program P; var x; procedure o(); procedure i(); begin x := x + 1 end; begin call i() end; begin x := 0; call o(); write(x) end";
    let mut parser = Parser::new(src);
    parser.parse();
    assert!(!parser.has_error);
    let ast = parser.take_ast_entry().unwrap();
    let mut translator = Translator::default();
    let code = translator.translate(&ast).expect("no semantic errors");
    // nesting never goes deeper than two procedure levels here
    for p in code.pcode_list.iter() {
        if matches!(p.f, PcodeType::CAL | PcodeType::LOD | PcodeType::STO) {
            assert!(p.l <= 2, "level difference {} too deep in {:?}", p.l, p);
        }
    }
}

#[test]
fn retranslating_the_same_tree_is_byte_identical() {
    let src = "program P; const k := 2; var a; procedure p(v); begin a := v * k end; begin call p(7); write(a) end";
    let mut parser = Parser::new(src);
    parser.parse();
    assert!(!parser.has_error);
    let ast = parser.take_ast_entry().unwrap();
    let mut t1 = Translator::default();
    let c1 = t1.translate(&ast).expect("no semantic errors");
    let mut t2 = Translator::default();
    let c2 = t2.translate(&ast).expect("no semantic errors");
    assert_eq!(c1.pcode_list, c2.pcode_list);
}

#[test]
fn if_and_else_branches_run_on_their_conditions() {
    let out = run_program(
        "program P; var a; begin if a = 0 then write(1) else write(2); a := 5; if odd a then write(3) end",
        &[],
    );
    assert_eq!(out, vec![1, 3]);
}

#[test]
fn while_loop_sums_one_to_five() {
    let out = run_program(
        "program P; var i, s; begin i := 1; s := 0; while i <= 5 do begin s := s + i; i := i + 1 end; write(s) end",
        &[],
    );
    assert_eq!(out, vec![15]);
}

#[test]
fn read_feeds_the_program_positionally() {
    let out = run_program(
        "program P; var a, b; begin read(a, b); write(a + b, a * b) end",
        &[3, 4],
    );
    assert_eq!(out, vec![7, 12]);
}

#[test]
fn constants_load_their_values() {
    let out = run_program(
        "program P; const k := 10; var a; begin a := k * 2; write(a) end",
        &[],
    );
    assert_eq!(out, vec![20]);
}

#[test]
fn procedure_parameters_arrive_in_order() {
    let out = run_program(
        "program P; var r; procedure sub(a, b); begin r := a - b end; begin call sub(10, 4); write(r) end",
        &[],
    );
    assert_eq!(out, vec![6]);
}

#[test]
fn calling_a_variable_is_a_semantic_error() {
    let errors = semantic_errors("program P; var x; begin call x() end");
    assert_eq!(errors.len(), 1);
    assert_eq!(errors[0].info, "`x` is not a procedure");
}

#[test]
fn assigning_to_a_procedure_is_a_semantic_error() {
    let errors = semantic_errors(
        "program P; procedure p(); begin p := 1 end; begin call p() end",
    );
    assert_eq!(errors.len(), 1);
    assert_eq!(errors[0].info, "`p` is not a variable");
}

#[test]
fn translation_reports_every_independent_error() {
    let errors = semantic_errors("program P; var a; begin write(y); write(z) end");
    assert_eq!(errors.len(), 2);
    assert_eq!(errors[0].info, "`y` is undefined");
    assert_eq!(errors[1].info, "`z` is undefined");
}

#[test]
fn leading_minus_negates_the_first_term() {
    let out = run_program("program P; var a; begin a := -3; write(a + 1) end", &[]);
    assert_eq!(out, vec![-2]);
}

#[test]
fn parentheses_override_precedence() {
    let out = run_program("program P; begin write((1 + 2) * 3, 1 + 2 * 3) end", &[]);
    assert_eq!(out, vec![9, 7]);
}

#[test]
fn optimizer_passes_the_tree_through() {
    let mut parser = Parser::new("program P; var a; begin a := 4; write(a) end");
    parser.parse();
    assert!(!parser.has_error);
    let ast = parser.take_ast_entry().unwrap();
    let optimizer = AstOptimizer::new(ast);
    let ast = optimizer.optimize();
    let mut translator = Translator::default();
    let code = translator.translate(&ast).expect("no semantic errors");
    let mut vm = VM::new(code);
    assert!(matches!(vm.interpret(100_000), InterpretResult::Halted));
    assert_eq!(vm.get_outputs(), &vec![4]);
}

#[test]
fn parser_demo() {
    let mut parser = Parser::new("program P; begin write(1 + 2) end");
    parser.parse();
    assert!(!parser.has_error);
    assert!(parser.ast_entry.is_some());
}
