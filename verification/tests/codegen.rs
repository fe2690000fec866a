use poop::ast::Program;
use poop::codegen::{Codegen, Instr, Terminator};
use poop::errors::CodegenError;
use poop::execution_engine::ExecutionEngine;
use poop::lexer::{tokenize, RangeConverter};
use poop::parser::Parser;

const FUEL: u64 = 100_000;

fn parse(source: &str) -> Program {
    let mut parser = Parser::new(tokenize(source), RangeConverter::new(source));
    parser.parse().expect("This should be able to parse")
}

fn build(source: &str) -> Result<(ExecutionEngine, usize), CodegenError> {
    let mut codegen = Codegen::new("test");
    let main_fn = codegen.build_program(parse(source))?;
    Ok((ExecutionEngine::new(codegen), main_fn))
}

fn run(source: &str) -> i64 {
    let (ee, main_fn) = build(source).expect("generation should succeed");
    ee.run_as_main(main_fn, FUEL).expect("execution should succeed")
}

#[test]
fn block_value_is_last_statement() {
    assert_eq!(run("fn main() -> int { { let x = 5; x + 5 } }"), 10);
}

#[test]
fn block_ending_in_declaration_yields_bound_value() {
    assert_eq!(run("fn main() -> int { { let x = 5 } }"), 5);
}

#[test]
fn block_with_trailing_separator_yields_void_sentinel() {
    let source = "fn main() { let x = 5; }";
    let (ee, main_fn) = build(source).expect("generation should succeed");
    let args: Vec<i64> = Vec::new();
    // a void function runs to a void return, not a value
    assert_eq!(ee.run_function(main_fn, &args, FUEL), Ok(None));
    assert_eq!(ee.run_as_main(main_fn, FUEL), Ok(0));
}

#[test]
fn if_as_value_binds_then_branch() {
    assert_eq!(run("fn main() -> int { let x = if true { 1 } else { 2 }; x }"), 1);
}

#[test]
fn if_as_value_binds_else_branch() {
    assert_eq!(run("fn main() -> int { let x = if false { 1 } else { 2 }; x }"), 2);
}

#[test]
fn if_without_else_yields_zero_sentinel() {
    assert_eq!(run("fn main() -> int { if false { 1 } }"), 0);
}

#[test]
fn else_if_chain_executes() {
    let source = "fn pick(n: int) -> int { if n < 0 { 1 } else if n == 0 { 2 } else { 3 } }
fn main() -> int { pick(0 - 4) * 100 + pick(0) * 10 + pick(9) }";
    assert_eq!(run(source), 123);
}

#[test]
fn self_recursion_generates_and_executes() {
    let source = "fn f(n: int) -> int { if n <= 1 { 1 } else { f(n - 1) } }
fn main() -> int { f(5) }";
    assert_eq!(run(source), 1);
}

#[test]
fn recursive_sum_executes() {
    let source = "fn sum(n: int) -> int { if n <= 0 { 0 } else { n + sum(n - 1) } }
fn main() -> int { sum(10) }";
    assert_eq!(run(source), 55);
}

#[test]
fn arithmetic_and_precedence_execute() {
    assert_eq!(run("fn main() -> int { 3 + 4 * 5 }"), 23);
    assert_eq!(run("fn main() -> int { 3 * 4 + 5 }"), 17);
    assert_eq!(run("fn main() -> int { 3 * (4 + 5) }"), 27);
    assert_eq!(run("fn main() -> int { 20 / 4 - 2 }"), 3);
    // modulus binds below addition on both sides
    assert_eq!(run("fn main() -> int { 13 % 4 + 1 }"), 3);
}

#[test]
fn eager_logic_operators_execute_bitwise() {
    assert_eq!(run("fn main() -> int { if true && false { 1 } else { 2 } }"), 2);
    assert_eq!(run("fn main() -> int { if true || false { 1 } else { 2 } }"), 1);
}

#[test]
fn function_arguments_are_addressable() {
    let source = "fn add(a: int, b: int) -> int { let c = a + b; c }
fn main() -> int { add(20, 22) }";
    assert_eq!(run(source), 42);
}

#[test]
fn rebinding_overwrites_across_nested_blocks() {
    // one flat variable map per function: the inner binding wins
    let source = "fn main() -> int { let x = 1; { let x = 2; x }; x }";
    assert_eq!(run(source), 2);
}

#[test]
fn undeclared_variable_error_carries_the_name() {
    let err = build("fn main() -> int { nowhere }").err().unwrap();
    assert_eq!(err, CodegenError::UndeclaredVariable(String::from("nowhere")));
}

#[test]
fn undeclared_function_error_carries_the_name() {
    let err = build("fn main() -> int { missing(1) }").err().unwrap();
    assert_eq!(err, CodegenError::UndeclaredFunction(String::from("missing")));
}

#[test]
fn calls_to_not_yet_generated_functions_are_unresolved() {
    // single-pass generation: only self-calls may look forward
    let err = build("fn main() -> int { later() } fn later() -> int { 1 }").err().unwrap();
    assert_eq!(err, CodegenError::UndeclaredFunction(String::from("later")));
}

#[test]
fn missing_main_is_reported() {
    let err = build("fn helper() -> int { 1 }").err().unwrap();
    assert_eq!(err, CodegenError::UndeclaredFunction(String::from("main")));
}

#[test]
fn global_variables_are_unsupported() {
    let err = build("let x = 5; fn main() -> int { x }").err().unwrap();
    assert_eq!(
        err,
        CodegenError::UnsupportedConstruct(String::from("Global variables are not yet supported"))
    );
}

#[test]
fn generated_functions_pass_the_structural_check() {
    let source = "fn f(n: int) -> int { if n <= 1 { 1 } else { f(n - 1) } }
fn main() -> int { f(3) }";
    let (ee, _) = build(source).expect("generation should succeed");
    for func in ee.module.functions.iter() {
        assert!(func.verify());
    }
}

#[test]
fn every_phi_operand_comes_from_a_branch_to_its_merge_block() {
    // the diamond: each block a phi names must end with a branch to the
    // block holding the phi
    let source = "fn main() -> int { if 1 < 2 { 7 } else if 2 < 3 { 8 } else { 9 } }";
    let (ee, _) = build(source).expect("generation should succeed");
    let mut phis = 0;
    for func in ee.module.functions.iter() {
        for (b, block) in func.blocks.iter().enumerate() {
            for id in block.instrs.iter() {
                if let Instr::Phi(incoming) = &func.instrs[*id] {
                    phis += 1;
                    assert!(!incoming.is_empty());
                    for (pred, value) in incoming.iter() {
                        assert!(*value < func.instrs.len());
                        assert_eq!(
                            func.blocks[*pred].terminator,
                            Some(Terminator::Br(b))
                        );
                        // the operand is defined in that predecessor
                        assert!(func.blocks[*pred].instrs.contains(value));
                    }
                }
            }
        }
    }
    assert_eq!(phis, 2);
}

#[test]
fn printf_is_declared_and_stubbed() {
    // any runnable unit links the variadic print primitive as function 0
    let source = "fn main() -> int { printf(\"hi\") }";
    assert_eq!(run(source), 0);
}

#[test]
fn functions_are_resolvable_by_name() {
    let source = "fn f() -> int { 1 } fn main() -> int { f() }";
    let (ee, main_fn) = build(source).expect("generation should succeed");
    assert_eq!(ee.get_function(&String::from("main")), Some(main_fn));
    let f = ee.get_function(&String::from("f")).expect("f should resolve");
    assert_eq!(ee.module.functions[f].name, "f");
    assert_eq!(ee.get_function(&String::from("absent")), None);
}

#[test]
fn division_by_zero_is_reported() {
    let (ee, main_fn) = build("fn main() -> int { 1 / 0 }").expect("generation should succeed");
    assert_eq!(
        ee.run_as_main(main_fn, FUEL),
        Err(poop::execution_engine::EvalError::DivisionByZero)
    );
}
