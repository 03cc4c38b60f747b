use rox::compiler::CompileEnv;
use rox::compiler::Compiler;
use rox::compiler::FunctionType;
use rox::instr::Instr;
use rox::parser::Parser;
use rox::scanner::Scanner;
use rox::token::TokenType;

/// Scans, parses and compiles; panics unless compilation fails.
fn compile_err(source: &str) -> String {
    match compile_source(source) {
        Ok(_) => panic!("expected a compile error"),
        Err(m) => m,
    }
}

/// Scans, parses and compiles; returns the finished script compiler.
fn compile_source(source: &str) -> Result<Compiler, String> {
    let scanner = Scanner::new(source.to_string());
    let tokens = match scanner.scan_tokens() {
        Ok(t) => t,
        Err(errors) => return Err(format!("{:?}", errors)),
    };
    let mut numbers: Vec<(String, u64)> = Vec::new();
    for t in &tokens {
        if let TokenType::Number(text) = &t.typ {
            let value: f64 = text.parse().unwrap();
            numbers.push((text.clone(), value.to_bits()));
        }
    }
    let mut parser = Parser::new(tokens);
    let program = match parser.parse() {
        Ok(p) => p,
        Err(e) => return Err(e.message),
    };
    let mut env = CompileEnv::new(numbers);
    let mut compiler = Compiler::new(FunctionType::Script);
    compiler.run(&program, &mut env)?;
    Ok(compiler)
}

#[test]
fn disassembly_recovers_the_emitted_instructions() {
    let compiler = compile_source("print 1 + 2 * 3;").unwrap();
    let listing = compiler.function.chunk.disassemble().unwrap();
    assert_eq!(
        listing,
        vec![
            Instr::Constant(0),
            Instr::Constant(1),
            Instr::Constant(2),
            Instr::Multiply,
            Instr::Add,
            Instr::Print,
            Instr::Eof,
        ]
    );
}

#[test]
fn disassembly_of_an_if_shows_the_patched_jumps() {
    let compiler = compile_source("if (true) print 1;").unwrap();
    let listing = compiler.function.chunk.disassemble().unwrap();
    assert_eq!(
        listing,
        vec![
            Instr::True,
            Instr::JumpIfFalse(7),
            Instr::Pop,
            Instr::Constant(0),
            Instr::Print,
            Instr::Jump(1),
            Instr::Pop,
            Instr::Eof,
        ]
    );
}

#[test]
fn disassembly_of_a_while_shows_the_loop() {
    let compiler = compile_source("while (false) print 1;").unwrap();
    let listing = compiler.function.chunk.disassemble().unwrap();
    // False@0, JumpIfFalse@1, Pop@4, Constant@5, Print@7, Loop@8, Pop@11, Eof@12
    assert_eq!(
        listing,
        vec![
            Instr::False,
            Instr::JumpIfFalse(7),
            Instr::Pop,
            Instr::Constant(0),
            Instr::Print,
            Instr::Loop(11),
            Instr::Pop,
            Instr::Eof,
        ]
    );
}

#[test]
fn duplicate_local_is_a_compile_error() {
    let msg = compile_err("{ let a = 1; let a = 2; }");
    assert!(msg.contains("Already a variable with the name a"));
}

#[test]
fn let_without_initializer_is_rejected() {
    let msg = compile_err("let x;");
    assert!(msg.contains("Expected initializer"));
}

#[test]
fn null_literal_is_rejected() {
    let msg = compile_err("print null;");
    assert!(msg.contains("null is not supported"));
}

#[test]
fn too_many_constants_is_a_compile_error() {
    let mut source = String::new();
    for i in 0..300 {
        source.push_str(&format!("print \"s{}\";", i));
    }
    let msg = compile_err(&source);
    assert!(msg.contains("Too many constants"));
}

#[test]
fn unclosed_paren_is_a_parse_error() {
    let msg = compile_err("print (1;");
    assert!(msg.contains("Expect ')' after expression."));
}

#[test]
fn stray_character_is_a_scan_error() {
    let msg = compile_err("print @;");
    assert!(msg.contains("Unexpected character."));
}

#[test]
fn globals_compile_to_named_constants() {
    let compiler = compile_source("let a = 1; print a;").unwrap();
    let listing = compiler.function.chunk.disassemble().unwrap();
    assert_eq!(
        listing,
        vec![
            Instr::Constant(0),
            Instr::DefineGlobal(1),
            Instr::GetGlobal(2),
            Instr::Print,
            Instr::Eof,
        ]
    );
}

#[test]
fn block_locals_compile_to_slots() {
    let compiler = compile_source("{ let a = 1; a; }").unwrap();
    let listing = compiler.function.chunk.disassemble().unwrap();
    // slot 0 is reserved for the script itself, so the local sits in slot 1
    assert_eq!(
        listing,
        vec![
            Instr::Constant(0),
            Instr::GetLocal(1),
            Instr::Pop,
            Instr::Pop,
            Instr::Eof,
        ]
    );
}
