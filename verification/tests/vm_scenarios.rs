use rox::compiler::CompileEnv;
use rox::compiler::Compiler;
use rox::compiler::FunctionType;
use rox::parser::Parser;
use rox::scanner::Scanner;
use rox::token::TokenType;
use rox::vm::ArithOp;
use rox::vm::VM;
use rox::vm::VmStep;

/// Runs a source text through the whole pipeline, answering the machine's
/// arithmetic, formatting and clock requests with real doubles.
fn run_source(source: &str) -> Result<Vec<String>, String> {
    let mut vm = compile_into_vm(source)?;
    drive(&mut vm)?;
    Ok(vm.output)
}

fn compile_into_vm(source: &str) -> Result<VM, String> {
    let scanner = Scanner::new(source.to_string());
    let tokens = match scanner.scan_tokens() {
        Ok(t) => t,
        Err(errors) => return Err(format!("{:?}", errors)),
    };
    let mut numbers: Vec<(String, u64)> = Vec::new();
    for t in &tokens {
        if let TokenType::Number(text) = &t.typ {
            let value: f64 = text.parse().unwrap();
            numbers.push((text.clone(), value.to_bits()));
        }
    }
    let mut parser = Parser::new(tokens);
    let program = match parser.parse() {
        Ok(p) => p,
        Err(e) => return Err(e.message),
    };
    let mut env = CompileEnv::new(numbers);
    let mut compiler = Compiler::new(FunctionType::Script);
    compiler.run(&program, &mut env)?;
    let mut vm = VM::new();
    vm.interpret(compiler.function);
    Ok(vm)
}

fn drive(vm: &mut VM) -> Result<(), String> {
    loop {
        match vm.step() {
            VmStep::KeepGoing => {}
            VmStep::Arith { op, lhs, rhs } => {
                let a = f64::from_bits(lhs);
                let b = f64::from_bits(rhs);
                let v = match op {
                    ArithOp::Add => a + b,
                    ArithOp::Subtract => a - b,
                    ArithOp::Multiply => a * b,
                    ArithOp::Divide => a / b,
                };
                vm.resume_number(v.to_bits());
            }
            VmStep::FormatNumber { bits } => {
                vm.resume_text(format!("{}", f64::from_bits(bits)));
            }
            VmStep::Clock => {
                vm.resume_number(0.0f64.to_bits());
            }
            VmStep::Done => return Ok(()),
            VmStep::Fault(e) => return Err(e.msg),
        }
    }
}

#[test]
fn arithmetic_precedence() {
    assert_eq!(run_source("print 1 + 2 * 3;").unwrap(), vec!["7"]);
}

#[test]
fn string_concatenation() {
    assert_eq!(
        run_source("let a = \"foo\"; let b = \"bar\"; print a + b;").unwrap(),
        vec!["foobar"]
    );
}

#[test]
fn if_else_branch() {
    assert_eq!(run_source("if (1 < 2) print \"y\"; else print \"n\";").unwrap(), vec!["y"]);
}

#[test]
fn for_loop_sum() {
    assert_eq!(
        run_source("let s = 0; for (let i = 1; i <= 5; i = i + 1) s = s + i; print s;").unwrap(),
        vec!["15"]
    );
}

#[test]
fn function_call() {
    assert_eq!(
        run_source("fun add(a, b) { return a + b; } print add(2, 40);").unwrap(),
        vec!["42"]
    );
}

#[test]
fn add_type_error_names_line_and_message() {
    let msg = run_source("print 1 + \"x\";").unwrap_err();
    assert!(msg.contains("Operands must be two numbers or two strings"));
    assert!(msg.contains("[line 1]"));
}

#[test]
fn undefined_variable_error() {
    let msg = run_source("print x;").unwrap_err();
    assert!(msg.contains("Undefined variable 'x'"));
}

#[test]
fn assign_undefined_variable_error() {
    let msg = run_source("x = 1;").unwrap_err();
    assert!(msg.contains("Cannot assign undefined variable x."));
}

#[test]
fn arity_mismatch_error() {
    let msg = run_source("fun f(a) { return a; } print f(1, 2);").unwrap_err();
    assert!(msg.contains("Expected 1 arguments but got 2"));
}

#[test]
fn call_non_callable_error() {
    let msg = run_source("let a = 1; print a(2);").unwrap_err();
    assert!(msg.contains("Can only call functions"));
}

#[test]
fn deep_recursion_overflows_frames() {
    let msg = run_source("fun f() { return f(); } print f();").unwrap_err();
    assert!(msg.contains("Stack overflow"));
}

#[test]
fn equality_and_inequality_agree() {
    assert_eq!(run_source("print 1 == 1;").unwrap(), vec!["true"]);
    assert_eq!(run_source("print 1 != 1;").unwrap(), vec!["false"]);
    assert_eq!(run_source("print \"a\" == 1;").unwrap(), vec!["false"]);
    assert_eq!(run_source("print \"a\" != 1;").unwrap(), vec!["true"]);
}

#[test]
fn negative_zero_equals_zero() {
    assert_eq!(run_source("print 0 == -0;").unwrap(), vec!["true"]);
}

#[test]
fn logical_operators_short_circuit() {
    assert_eq!(run_source("print true and false;").unwrap(), vec!["false"]);
    assert_eq!(run_source("print false or \"x\";").unwrap(), vec!["x"]);
    assert_eq!(run_source("print 0 and 1;").unwrap(), vec!["0"]);
}

#[test]
fn while_loop_counts() {
    assert_eq!(
        run_source("let i = 0; while (i < 3) { i = i + 1; } print i;").unwrap(),
        vec!["3"]
    );
}

#[test]
fn unary_negation() {
    assert_eq!(run_source("print -3;").unwrap(), vec!["-3"]);
    assert_eq!(run_source("print not true;").unwrap(), vec!["false"]);
}

#[test]
fn comparison_operators() {
    assert_eq!(run_source("print 2 <= 2;").unwrap(), vec!["true"]);
    assert_eq!(run_source("print 2 < 2;").unwrap(), vec!["false"]);
    assert_eq!(run_source("print 3 > 2;").unwrap(), vec!["true"]);
    assert_eq!(run_source("print 2 >= 3;").unwrap(), vec!["false"]);
}

#[test]
fn division_by_zero_follows_ieee() {
    assert_eq!(run_source("print 1 / 0;").unwrap(), vec!["inf"]);
}

#[test]
fn clock_is_predefined() {
    // the test driver answers the clock request with zero seconds
    assert_eq!(run_source("print clock();").unwrap(), vec!["0"]);
}

#[test]
fn print_function_values() {
    assert_eq!(run_source("fun f() { return 1; } print f;").unwrap(), vec!["<fn f>"]);
    assert_eq!(run_source("print clock;").unwrap(), vec!["<fn clock>"]);
}

#[test]
fn locals_shadow_in_blocks() {
    assert_eq!(
        run_source("let x = 1; { let x = 2; print x; } print x;").unwrap(),
        vec!["2", "1"]
    );
}

#[test]
fn expression_statement_leaves_stack_depth_unchanged() {
    // after an expression statement and its trailing POP, the value stack
    // holds exactly what it held before: here just the script function
    let mut vm = compile_into_vm("1 + 2 * 3;").unwrap();
    assert_eq!(vm.stack.len(), 1);
    drive(&mut vm).unwrap();
    assert_eq!(vm.stack.len(), 1);
    assert!(vm.output.is_empty());
}

#[test]
fn negate_requires_a_number() {
    let msg = run_source("print -\"x\";").unwrap_err();
    assert!(msg.contains("Operand must be a number"));
}

#[test]
fn not_requires_a_boolean() {
    let msg = run_source("print not 1;").unwrap_err();
    assert!(msg.contains("Operand must be a boolean"));
}

#[test]
fn fractional_arithmetic_prints_shortest_form() {
    assert_eq!(run_source("print 1.5 + 2.25;").unwrap(), vec!["3.75"]);
}

#[test]
fn function_values_compare_by_identity() {
    assert_eq!(
        run_source(
            "fun f() { return 1; } fun g() { return 1; } print f == f; print f == g;"
        )
        .unwrap(),
        vec!["true", "false"]
    );
}

#[test]
fn nested_function_calls() {
    assert_eq!(
        run_source(
            "fun twice(x) { return x + x; } fun four(x) { return twice(twice(x)); } print four(3);"
        )
        .unwrap(),
        vec!["12"]
    );
}

#[test]
fn multiline_error_reports_its_line() {
    let msg = run_source("print 1;\nprint 1 + \"x\";").unwrap_err();
    assert!(msg.contains("[line 2]"));
}
