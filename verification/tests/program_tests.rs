//! Whole programs compiled and executed: the host loop drives `step` until
//! the machine finishes, serving `print` when the machine pauses for it.

use offside::compiler::Compiler;
use offside::value::NativeFunction;
use offside::value::Value;
use offside::vm::RuntimeError;
use offside::vm::VM;
use offside::vm::VmStep;

fn format_value(v: &Value) -> String {
    match v {
        Value::Bool(b) => format!("{}", b),
        Value::Number(bits) => format!("{}", f64::from_bits(*bits)),
        Value::Null => "NULL".to_string(),
        Value::String(s) => String::from_utf8_lossy(s).into_owned(),
        Value::Func(_) => "fn".to_string(),
        Value::NativeFunc(_) => "fn".to_string(),
    }
}

/// Compiles without any natives: global slots start at 0.
fn run_plain(source: &str) -> Result<VM, RuntimeError> {
    let mut compiler = Compiler::new(source.as_bytes().to_vec());
    let output = compiler.compile().expect("Failed to compile");
    let mut vm = VM::new();
    vm.interpret(output)?;
    loop {
        match vm.step()? {
            VmStep::Continue => {},
            VmStep::Done => break,
            VmStep::NativeCall(_, _) => {
                vm.resume_native(Value::Null).unwrap();
            },
        }
    }
    Ok(vm)
}

/// Compiles with `print` installed as the lone native (global slot 0) and
/// collects what it printed.
fn run_with_print(source: &str) -> Result<(VM, Vec<String>), RuntimeError> {
    let mut compiler = Compiler::new(source.as_bytes().to_vec());
    compiler.add_native(NativeFunction { name: "print".as_bytes().to_vec(), arity: 1 });
    let output = compiler.compile().expect("Failed to compile");
    let mut vm = VM::new();
    vm.interpret(output)?;
    let mut printed: Vec<String> = Vec::new();
    loop {
        match vm.step()? {
            VmStep::Continue => {},
            VmStep::Done => break,
            VmStep::NativeCall(native, args) => {
                assert_eq!(0, native, "only print is installed");
                assert_eq!(1, args.len());
                printed.push(format_value(&args[0]));
                vm.resume_native(Value::Null).unwrap();
            },
        }
    }
    Ok((vm, printed))
}

fn bits(text: &str) -> u64 {
    text.parse::<f64>().unwrap().to_bits()
}

#[test]
fn arithmetic_global() {
    // `*` binds tighter than `+`: 1 + (2 * (5 - 3)).
    let vm = run_plain("var x = 1 + 2 * (5 - 3)").unwrap();
    assert_eq!(Some(Value::Number(bits("5"))), vm.globals[0]);
    assert_eq!(0, vm.stack.len());
}

#[test]
fn fib_prints_55() {
    let source = "fn fib(n):\n    if n <= 1:\n        return n\n    return fib(n - 1) + fib(n - 2)\nprint(fib(10))\n";
    let (_, printed) = run_with_print(source).unwrap();
    assert_eq!(vec!["55".to_string()], printed);
}

#[test]
fn string_concatenation() {
    let (_, printed) = run_with_print("print(\"ab\" + \"cd\")\n").unwrap();
    assert_eq!(vec!["abcd".to_string()], printed);
}

#[test]
fn add_string_and_number_is_a_runtime_error() {
    let err = run_plain("var x = \"ab\" + 1\n").unwrap_err();
    assert_eq!("Add operands must both be strings or numbers", err.message);
}

#[test]
fn negate_non_number_is_a_runtime_error() {
    let err = run_plain("var x = -true\n").unwrap_err();
    assert_eq!("Negate operand must be number.", err.message);
}

#[test]
fn calling_a_non_callable_is_a_runtime_error() {
    let err = run_plain("var a = 1\na()\n").unwrap_err();
    assert_eq!("Failed to call callee", err.message);
}

#[test]
fn wrong_argument_count_is_a_runtime_error() {
    let err = run_plain("fn f(a):\n    return a\nf(1, 2)\n").unwrap_err();
    assert_eq!("Incorrect argument count.", err.message);
}

#[test]
fn forward_reference_read_before_definition() {
    // Forward references to later-declared globals compile; reading the slot
    // before its definition has executed is the runtime error.
    let err = run_plain("fn f():\n    return q\nvar r = f()\nvar q = 3\n").unwrap_err();
    assert_eq!("Undefined variable.", err.message);
}

#[test]
fn forward_reference_read_after_definition() {
    let vm = run_plain("fn f():\n    return q\nvar q = 3\nvar r = f()\n").unwrap();
    // slots: f, q, r
    assert_eq!(Some(Value::Number(bits("3"))), vm.globals[2]);
}

#[test]
fn while_loop_counts() {
    let source = "var i = 0\nvar sum = 0\nwhile i < 5:\n    sum = sum + i\n    i = i + 1\n";
    let vm = run_plain(source).unwrap();
    assert_eq!(Some(Value::Number(bits("10"))), vm.globals[1]);
}

#[test]
fn locals_shadow_and_pop() {
    let source = "var x = 1\nif true:\n    var y = 41\n    x = x + y\n";
    let vm = run_plain(source).unwrap();
    assert_eq!(Some(Value::Number(bits("42"))), vm.globals[0]);
    assert_eq!(0, vm.stack.len());
}

#[test]
fn division_is_ieee() {
    let vm = run_plain("var d = 7 / 2\n").unwrap();
    assert_eq!(Some(Value::Number(bits("3.5"))), vm.globals[0]);
}

#[test]
fn equality_and_comparison() {
    let source = "var a = 1 == 1\nvar b = 1 != 2\nvar c = 2 <= 2\nvar d = 3 > 4\n";
    let vm = run_plain(source).unwrap();
    assert_eq!(Some(Value::Bool(true)), vm.globals[0]);
    assert_eq!(Some(Value::Bool(true)), vm.globals[1]);
    assert_eq!(Some(Value::Bool(true)), vm.globals[2]);
    assert_eq!(Some(Value::Bool(false)), vm.globals[3]);
}

#[test]
fn short_circuit_and_or() {
    // `and` keeps the falsey left value; `or` keeps the first truthy value.
    let source = "var a = false and 1\nvar b = 2 or 3\nvar c = null or 7\n";
    let vm = run_plain(source).unwrap();
    assert_eq!(Some(Value::Bool(false)), vm.globals[0]);
    assert_eq!(Some(Value::Number(bits("2"))), vm.globals[1]);
    assert_eq!(Some(Value::Number(bits("7"))), vm.globals[2]);
}

#[test]
fn zero_is_truthy() {
    let vm = run_plain("var a = null\nif 0:\n    a = 1\n").unwrap();
    assert_eq!(Some(Value::Number(bits("1"))), vm.globals[0]);
}

#[test]
fn string_equality_is_by_content() {
    let vm = run_plain("var a = \"ab\" == \"ab\"\nvar b = \"ab\" == \"ac\"\n").unwrap();
    assert_eq!(Some(Value::Bool(true)), vm.globals[0]);
    assert_eq!(Some(Value::Bool(false)), vm.globals[1]);
}

#[test]
fn bare_return_yields_null() {
    let vm = run_plain("fn f():\n    return\nvar r = f()\n").unwrap();
    assert_eq!(Some(Value::Null), vm.globals[1]);
}

#[test]
fn frames_drained_at_termination() {
    // While running, at least one frame is live; none remain at the end.
    let mut compiler = Compiler::new("var x = 1\n".as_bytes().to_vec());
    let output = compiler.compile().expect("Failed to compile");
    let mut vm = VM::new();
    vm.interpret(output).unwrap();
    let mut finished = false;
    while !finished {
        let before_done = vm.call_frames.len();
        match vm.step().unwrap() {
            VmStep::Continue => {
                assert!(vm.call_frames.len() >= 1);
            },
            VmStep::Done => {
                assert_eq!(0, vm.call_frames.len());
                let _ = before_done;
                finished = true;
            },
            VmStep::NativeCall(_, _) => {
                vm.resume_native(Value::Null).unwrap();
            },
        }
    }
    assert_eq!(0, vm.stack.len());
}

#[test]
fn stack_never_dips_below_frame_base() {
    // At every instruction boundary the stack reaches at least to the
    // innermost frame's base.
    let source = "fn add(a, b):\n    return a + b\nvar s = add(add(1, 2), add(3, 4))\n";
    let mut compiler = Compiler::new(source.as_bytes().to_vec());
    let output = compiler.compile().expect("Failed to compile");
    let mut vm = VM::new();
    vm.interpret(output).unwrap();
    loop {
        for frame_index in 0..vm.call_frames.len() {
            assert!(vm.call_frames[frame_index].stack_offset <= vm.stack.len());
        }
        match vm.step().unwrap() {
            VmStep::Continue => {},
            VmStep::Done => break,
            VmStep::NativeCall(_, _) => {
                vm.resume_native(Value::Null).unwrap();
            },
        }
    }
    assert_eq!(Some(Value::Number(bits("10"))), vm.globals[1]);
}

#[test]
fn call_leaves_exactly_one_value() {
    // After a call completes, the caller's observable stack has gained
    // exactly one value: the returned one.
    let source = "fn one():\n    return 1\nvar a = one()\n";
    let mut compiler = Compiler::new(source.as_bytes().to_vec());
    let output = compiler.compile().expect("Failed to compile");
    let mut vm = VM::new();
    vm.interpret(output).unwrap();
    let mut depth_one_len: Option<usize> = None;
    loop {
        match vm.step().unwrap() {
            VmStep::Continue => {
                if vm.call_frames.len() == 2 && depth_one_len.is_none() {
                    // Just entered the callee: the callee value and arguments
                    // sit above the caller's part.
                    depth_one_len = Some(vm.call_frames[1].stack_offset);
                }
                if vm.call_frames.len() == 1 {
                    if let Some(base) = depth_one_len {
                        // Back in the caller: exactly one value stands where
                        // the callee and arguments were.
                        assert_eq!(base + 1, vm.stack.len());
                        depth_one_len = None;
                    }
                }
            },
            VmStep::Done => break,
            VmStep::NativeCall(_, _) => {
                vm.resume_native(Value::Null).unwrap();
            },
        }
    }
}

#[test]
fn nested_blocks_and_whiles() {
    let source = "var total = 0\nvar i = 0\nwhile i < 3:\n    var j = 0\n    while j < 3:\n        total = total + 1\n        j = j + 1\n    i = i + 1\n";
    let vm = run_plain(source).unwrap();
    assert_eq!(Some(Value::Number(bits("9"))), vm.globals[0]);
}

#[test]
fn if_else_chain() {
    let source = "var x = 2\nvar r = 0\nif x == 1:\n    r = 10\nelse if x == 2:\n    r = 20\nelse:\n    r = 30\n";
    let vm = run_plain(source).unwrap();
    assert_eq!(Some(Value::Number(bits("20"))), vm.globals[1]);
}

#[test]
fn negate_number() {
    let vm = run_plain("var m = -3\n").unwrap();
    assert_eq!(Some(Value::Number(bits("-3"))), vm.globals[0]);
}

#[test]
fn nan_equals_nothing() {
    // 0 / 0 is NaN, and NaN compares unequal even to itself.
    let vm = run_plain("var n = 0 / 0\nvar e = n == n\nvar lt = n < 1\n").unwrap();
    assert_eq!(Some(Value::Bool(false)), vm.globals[1]);
    assert_eq!(Some(Value::Bool(false)), vm.globals[2]);
}
