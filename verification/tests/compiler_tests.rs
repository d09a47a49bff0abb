//! Compilation results: emitted bytecode, constant pools, and compile errors.

use offside::chunk::Chunk;
use offside::compiler::Compiler;
use offside::compiler::CompilerError;
use offside::opcode::OpCode;
use offside::value::Value;

fn compile_chunk(source: &str) -> Chunk {
    let mut compiler = Compiler::new(source.as_bytes().to_vec());
    let output = compiler.compile().expect("Failed to compile");
    output.script_function.chunk
}

fn compile_errors(source: &str) -> Vec<CompilerError> {
    let mut compiler = Compiler::new(source.as_bytes().to_vec());
    match compiler.compile() {
        Ok(_) => panic!("expected a compile error"),
        Err(errors) => errors,
    }
}

fn number(text: &str) -> Value {
    Value::Number(text.parse::<f64>().unwrap().to_bits())
}

#[test]
fn error_trailing_arithmetic_op() {
    let source = r#"1 +"#;
    let expected_result = vec![
        CompilerError { line: 1, start: 3, len: 0, message: "Expected expression." },
    ];
    assert_eq!(expected_result, compile_errors(source));
}

#[test]
fn error_redeclaration() {
    let source = r#"
var g = 1
var g = 2"#;
    let expected_result = vec![
        CompilerError {
            line: 3,
            start: 15,
            len: 1,
            message: "Already a global variable with this name.",
        },
    ];
    assert_eq!(expected_result, compile_errors(source));
}

#[test]
fn arithmetic_chunk() {
    let chunk = compile_chunk("1 + 2 * (5 - 3)");
    let expected_bytes = vec![
        OpCode::Constant.as_byte(),
        0,
        OpCode::Constant.as_byte(),
        1,
        OpCode::Constant.as_byte(),
        2,
        OpCode::Constant.as_byte(),
        3,
        OpCode::Subtract.as_byte(),
        OpCode::Multiply.as_byte(),
        OpCode::Add.as_byte(),
        OpCode::Pop.as_byte(),
        OpCode::Null.as_byte(),
        OpCode::Return.as_byte(),
    ];
    assert_eq!(expected_bytes, chunk.bytes);
    assert_eq!(vec![number("1"), number("2"), number("5"), number("3")], chunk.constants);
}

#[test]
fn arithmetic_minus_unary_chunk() {
    let chunk = compile_chunk("-10.4");
    let expected_bytes = vec![
        OpCode::Constant.as_byte(),
        0,
        OpCode::Negate.as_byte(),
        OpCode::Pop.as_byte(),
        OpCode::Null.as_byte(),
        OpCode::Return.as_byte(),
    ];
    assert_eq!(expected_bytes, chunk.bytes);
    assert_eq!(vec![number("10.4")], chunk.constants);
}

#[test]
fn if_statement_bytecode() {
    // The expected sequence, operand bytes included:
    // True JumpIfFalse 0 7 Pop Constant 0 Pop Jump 0 1 Pop Null Return
    let chunk = compile_chunk("if true:\n    var x = 2");
    let expected_bytes = vec![
        OpCode::True.as_byte(),
        OpCode::JumpIfFalse.as_byte(),
        0,
        7,
        OpCode::Pop.as_byte(),
        OpCode::Constant.as_byte(),
        0,
        OpCode::Pop.as_byte(),
        OpCode::Jump.as_byte(),
        0,
        1,
        OpCode::Pop.as_byte(),
        OpCode::Null.as_byte(),
        OpCode::Return.as_byte(),
    ];
    assert_eq!(expected_bytes, chunk.bytes);
    assert_eq!(vec![number("2")], chunk.constants);
}

#[test]
fn global_declarations_chunk() {
    let source = r#"
var g = 1
var g2 = 2"#;
    let mut compiler = Compiler::new(source.as_bytes().to_vec());
    let output = compiler.compile().expect("Failed to compile");
    let expected_chunk = Chunk {
        bytes: vec![
            OpCode::Constant.as_byte(),
            0,
            OpCode::DefineGlobal.as_byte(),
            0,
            OpCode::Constant.as_byte(),
            1,
            OpCode::DefineGlobal.as_byte(),
            1,
            OpCode::Null.as_byte(),
            OpCode::Return.as_byte(),
        ],
        lines: vec![2, 2, 2, 2, 3, 3, 3, 3, 3, 3],
        constants: vec![number("1"), number("2")],
    };
    assert_eq!(expected_chunk, output.script_function.chunk);
    assert_eq!(2, output.globals_count);
}

#[test]
fn global_assignment_chunk() {
    let source = r#"
var g = 1
var g2 = 2
g = 4"#;
    let mut compiler = Compiler::new(source.as_bytes().to_vec());
    let output = compiler.compile().expect("Failed to compile");
    let expected_bytes = vec![
        OpCode::Constant.as_byte(),
        0,
        OpCode::DefineGlobal.as_byte(),
        0,
        OpCode::Constant.as_byte(),
        1,
        OpCode::DefineGlobal.as_byte(),
        1,
        OpCode::Constant.as_byte(),
        2,
        OpCode::SetGlobal.as_byte(),
        0,
        OpCode::Pop.as_byte(),
        OpCode::Null.as_byte(),
        OpCode::Return.as_byte(),
    ];
    assert_eq!(expected_bytes, output.script_function.chunk.bytes);
    assert_eq!(vec![number("1"), number("2"), number("4")], output.script_function.chunk.constants);
    assert_eq!(2, output.globals_count);
}

#[test]
fn chained_assignment_chunk() {
    let source = r#"
var a = 1
var b
var c = b = a"#;
    let mut compiler = Compiler::new(source.as_bytes().to_vec());
    let output = compiler.compile().expect("Failed to compile");
    let expected_bytes = vec![
        OpCode::Constant.as_byte(),
        0,
        OpCode::DefineGlobal.as_byte(),
        0,
        OpCode::Null.as_byte(),
        OpCode::DefineGlobal.as_byte(),
        1,
        OpCode::GetGlobal.as_byte(),
        0,
        OpCode::SetGlobal.as_byte(),
        1,
        OpCode::DefineGlobal.as_byte(),
        2,
        OpCode::Null.as_byte(),
        OpCode::Return.as_byte(),
    ];
    assert_eq!(expected_bytes, output.script_function.chunk.bytes);
    assert_eq!(3, output.globals_count);
}

#[test]
fn undeclared_global_reported_at_use_site() {
    // The parse completes; the end-of-compile check reports the lone use of
    // the never-declared `g`.
    let errors = compile_errors("g = 1");
    assert_eq!(
        vec![CompilerError { line: 1, start: 0, len: 1, message: "Undefined variable." }],
        errors,
    );
}

#[test]
fn redeclaration_message_and_position() {
    let errors = compile_errors("var g = 1\nvar g = 2");
    assert_eq!(
        vec![
            CompilerError {
                line: 2,
                start: 14,
                len: 1,
                message: "Already a global variable with this name.",
            },
        ],
        errors,
    );
}

#[test]
fn invalid_assignment_target() {
    let errors = compile_errors("var a = 1\nvar b = 2\na + b = 3");
    assert_eq!(1, errors.len());
    assert_eq!("Invalid assignment target.", errors[0].message);
}

#[test]
fn return_outside_function() {
    let errors = compile_errors("return 1");
    assert_eq!("Cannot return from top-level code.", errors[0].message);
}

#[test]
fn function_inside_function_rejected() {
    let errors = compile_errors(
        "fn outer():\n    fn inner():\n        return 1\n    return 2\n",
    );
    assert!(errors.iter().any(|e| e.message == "Cannot declare function inside another function."));
}

#[test]
fn duplicate_local_in_scope() {
    let errors = compile_errors("if true:\n    var x = 1\n    var x = 2\n");
    assert!(errors.iter().any(|e| e.message == "Already a variable with this name in scope."));
}

#[test]
fn lexical_error_is_reported() {
    let errors = compile_errors("var x = $\n");
    assert!(errors.iter().any(|e| e.message == "Unexpected character."));
}

#[test]
fn unterminated_string_is_reported() {
    let errors = compile_errors("var s = \"abc");
    assert!(errors.iter().any(|e| e.message == "Unterminated string."));
}

#[test]
fn number_constants_parse_exactly() {
    let chunk = compile_chunk("var a = 2.394\nvar b = 0.1\nvar c = 24\n");
    assert_eq!(vec![number("2.394"), number("0.1"), number("24")], chunk.constants);
}

#[test]
fn too_many_constants_in_one_chunk() {
    // 300 distinct literals overflow the one-byte constant index.
    let mut source = String::from("var a = 0");
    for i in 1..300 {
        source.push_str(&format!(" + {}", i));
    }
    source.push('\n');
    let errors = compile_errors(&source);
    assert!(errors.iter().any(|e| e.message == "Too many constants in one chunk. Max 256."));
}

#[test]
fn too_many_arguments() {
    let mut source = String::from("var a = 0\nfn f():\n    return 1\nf(");
    for i in 0..256 {
        if i > 0 {
            source.push_str(", ");
        }
        source.push('a');
    }
    source.push_str(")\n");
    let errors = compile_errors(&source);
    assert!(errors.iter().any(|e| e.message == "Cannot have more than 255 arguments"));
}

#[test]
fn too_much_code_to_jump_over() {
    // A conditional body longer than a two-byte operand can span is rejected
    // rather than silently truncated.
    let mut source = String::from("var a = 0\nif true:\n");
    for _ in 0..17000 {
        source.push_str("    a = 1\n");
    }
    let errors = compile_errors(&source);
    assert!(errors.iter().any(|e| e.message == "Too much code to jump over."));
}
