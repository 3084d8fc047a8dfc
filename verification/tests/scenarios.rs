use rmax::compiler::FloatLiteral;
use rmax::scanner::float_lexemes;
use rmax::value::{FloatAnswer, FloatRequest, Number, NumericOp, Rendered};
use rmax::vm::{InterpretResult, Status, VM};

fn floats_of(source: &str) -> Vec<FloatLiteral> {
    float_lexemes(source.to_string())
        .into_iter()
        .map(|lexeme| FloatLiteral { bits: lexeme.parse::<f64>().unwrap().to_bits(), lexeme })
        .collect()
}

fn as_float(n: Number) -> f64 {
    match n {
        Number::Integer(i) => i as f64,
        Number::Float(bits) => f64::from_bits(bits),
    }
}

fn answer(request: &FloatRequest) -> FloatAnswer {
    let a = as_float(request.left);
    let b = as_float(request.right);
    match request.op {
        NumericOp::Add => FloatAnswer::Number((a + b).to_bits()),
        NumericOp::Subtract => FloatAnswer::Number((a - b).to_bits()),
        NumericOp::Multiply => FloatAnswer::Number((a * b).to_bits()),
        NumericOp::Divide => FloatAnswer::Number((a / b).to_bits()),
        NumericOp::Greater => FloatAnswer::Truth(a > b),
        NumericOp::GreaterEqual => FloatAnswer::Truth(a >= b),
        NumericOp::Less => FloatAnswer::Truth(a < b),
        NumericOp::LessEqual => FloatAnswer::Truth(a <= b),
    }
}

fn show(piece: &Rendered) -> String {
    match piece {
        Rendered::Text(text) => text.clone(),
        Rendered::Float(bits) => format!("{}", f64::from_bits(*bits)),
    }
}

fn run(source: &str) -> (InterpretResult, Vec<String>, VM) {
    let mut vm = VM::new();
    let mut status = vm.interpret(source.to_string(), floats_of(source), 10_000);
    let mut rounds = 0;
    loop {
        match status {
            Status::Finished(result) => {
                let printed = vm.take_output().iter().map(show).collect();
                return (result, printed, vm);
            }
            Status::NeedsFloat(request) => {
                assert!(vm.resume(answer(&request)));
                status = vm.run(10_000);
            }
            Status::Running => {
                rounds += 1;
                assert!(rounds < 100, "the program does not end");
                status = vm.run(10_000);
            }
        }
    }
}

#[test]
fn prints_a_sum() {
    let (result, printed, _) = run("print 1 + 2\n");
    assert_eq!(result, InterpretResult::Success);
    assert_eq!(printed, vec!["3"]);
}

#[test]
fn adds_two_typed_variables() {
    let (result, printed, _) = run("int x = 10\nint y = 32\nprint x + y\n");
    assert_eq!(result, InterpretResult::Success);
    assert_eq!(printed, vec!["42"]);
}

#[test]
fn counts_in_a_while_loop() {
    let (result, printed, _) = run("int n = 0\nwhile n < 3 { print n\n n = n + 1\n }\n");
    assert_eq!(result, InterpretResult::Success);
    assert_eq!(printed, vec!["0", "1", "2"]);
}

#[test]
fn takes_the_first_branch_of_an_if() {
    let (result, printed, _) = run("if 1 < 2 { print \"a\"\n } else { print \"b\"\n }\n");
    assert_eq!(result, InterpretResult::Success);
    assert_eq!(printed, vec!["\"a\""]);
}

#[test]
fn takes_the_second_branch_of_an_if() {
    let (result, printed, _) = run("if 2 < 1 { print \"a\"\n } else { print \"b\"\n }\n");
    assert_eq!(result, InterpretResult::Success);
    assert_eq!(printed, vec!["\"b\""]);
}

#[test]
fn calls_a_function_defined_before_the_call() {
    let (result, printed, _) = run("square : int x { print x * x\n }\nsquare(7)\n");
    assert_eq!(result, InterpretResult::Success);
    assert_eq!(printed, vec!["49"]);
}

#[test]
fn calls_a_function_defined_after_the_call() {
    let (result, printed, _) = run("square(7)\nsquare : int x { print x * x\n }\n");
    assert_eq!(result, InterpretResult::Success);
    assert_eq!(printed, vec!["49"]);
}

#[test]
fn rejects_a_string_for_an_int_variable() {
    let (result, printed, vm) = run("int x = \"hi\"\n");
    assert_eq!(result, InterpretResult::CompileError);
    assert!(printed.is_empty());
    assert!(vm
        .diagnostics
        .iter()
        .any(|line| line.contains("Variable x is of type int but value is of type string")));
    assert_eq!(
        vm.diagnostics,
        vec!["[line 1] Error at 'hi': Variable x is of type int but value is of type string"]
    );
}

#[test]
fn computes_with_floats_through_the_host() {
    let (result, printed, _) = run("print 1.5 + 2\nprint 7 / 2\nprint 1.5 < 2\n");
    assert_eq!(result, InterpretResult::Success);
    assert_eq!(printed, vec!["3.5", "3.5", "true"]);
}

#[test]
fn reports_a_runtime_error_with_its_line() {
    let (result, printed, vm) = run("print 1\nprint 1 + \"a\"\n");
    assert_eq!(result, InterpretResult::RuntimeError);
    assert_eq!(printed, vec!["1"]);
    let fault = vm.fault.as_ref().unwrap();
    assert_eq!(fault.message, "Unsupported add operation on types int and string");
    assert_eq!(fault.line, 2);
}
