use rmax::scanner::{classify, CharClass};
use rmax::chunk::{Chunk, OpCode};
use rmax::compiler::FloatLiteral;
use rmax::object::ObjFunction;
use rmax::scanner::float_lexemes;
use rmax::value::{FloatAnswer, FloatRequest, Number, NumericOp, Rendered, Value};
use rmax::vm::{seed_slots, CallFrame, Effect, InterpretResult, Status, VM};

use rmax::chunk::OpCode::{
    Number as Word, OpAdd, OpCall, OpConstant, OpDivide, OpEof, OpEol, OpEqual, OpFalse, OpGet,
    OpGreater, OpJump, OpJumpIfFalse, OpJumpIfTrue, OpLess, OpLoop, OpNegate, OpNone, OpNot,
    OpNotEqual, OpPop, OpPrint, OpReturn, OpSet, OpTrue,
};

fn script(code: &[(OpCode, usize)], constants: Vec<Value>) -> ObjFunction {
    let mut chunk = Chunk::new();
    for value in constants {
        chunk.add_constant(value);
    }
    for (word, line) in code {
        chunk.write(*word, *line);
    }
    let mut function = ObjFunction::new();
    function.chunk = chunk;
    function
}

fn on_line_one(code: &[OpCode]) -> Vec<(OpCode, usize)> {
    code.iter().map(|word| (*word, 1)).collect()
}

fn machine(code: &[OpCode], constants: Vec<Value>) -> VM {
    let mut vm = VM::new();
    vm.load(script(&on_line_one(code), constants));
    vm
}

fn shown(vm: &mut VM) -> Vec<String> {
    vm.take_output()
        .iter()
        .map(|piece| match piece {
            Rendered::Text(text) => text.clone(),
            Rendered::Float(bits) => format!("{}", f64::from_bits(*bits)),
        })
        .collect()
}

fn fault_of(code: &[OpCode], constants: Vec<Value>) -> String {
    let mut vm = machine(code, constants);
    assert_eq!(vm.run(1000), Status::Finished(InterpretResult::RuntimeError));
    assert!(vm.frames.is_empty());
    vm.fault.unwrap().message
}

fn floats_of(source: &str) -> Vec<FloatLiteral> {
    float_lexemes(source.to_string())
        .into_iter()
        .map(|lexeme| FloatLiteral { bits: lexeme.parse::<f64>().unwrap().to_bits(), lexeme })
        .collect()
}

fn output_of(source: &str) -> Vec<String> {
    let mut vm = VM::new();
    let status = vm.interpret(source.to_string(), floats_of(source), 100_000);
    assert_eq!(status, Status::Finished(InterpretResult::Success), "{:?}", vm.fault);
    shown(&mut vm)
}

#[test]
fn a_new_machine_has_nothing_to_run() {
    let mut vm = VM::new();
    assert!(vm.frames.is_empty());
    assert_eq!(vm.step(), Status::Finished(InterpretResult::Success));
    assert_eq!(vm.run(10), Status::Finished(InterpretResult::Success));
    assert!(!vm.resume(FloatAnswer::Truth(true)));
}

#[test]
fn runs_constants_and_arithmetic() {
    let mut vm = machine(
        &[OpConstant, Word(0), OpConstant, Word(1), OpAdd, OpPrint, OpNone, OpReturn],
        vec![Value::Integer(40), Value::Integer(2)],
    );
    assert_eq!(vm.run(1000), Status::Finished(InterpretResult::Success));
    assert_eq!(shown(&mut vm), vec!["42"]);
    assert!(vm.frames.is_empty());
    assert!(vm.fault.is_none());
}

#[test]
fn steps_one_instruction_at_a_time() {
    let mut vm = machine(&[OpTrue, OpFalse, OpNone, OpPop, OpEol, OpEof], vec![]);
    assert_eq!(vm.step(), Status::Running);
    assert_eq!(vm.frames[0].ip, 1);
    assert!(vm.frames[0].slots[0] == Value::True);
    assert_eq!(vm.step(), Status::Running);
    assert_eq!(vm.step(), Status::Running);
    assert_eq!(vm.frames[0].slots.len(), 3);
    assert!(vm.frames[0].slots[1] == Value::False);
    assert!(vm.frames[0].slots[2] == Value::Nil);
    assert_eq!(vm.step(), Status::Running);
    assert_eq!(vm.frames[0].slots.len(), 2);
    assert_eq!(vm.step(), Status::Running);
    assert_eq!(vm.frames[0].ip, 5);
    assert_eq!(vm.step(), Status::Finished(InterpretResult::Success));
    assert!(vm.frames.is_empty());
}

#[test]
fn stops_when_the_fuel_is_used_up() {
    let mut vm = machine(&[OpEol, OpLoop, Word(3)], vec![]);
    assert_eq!(vm.run(0), Status::Running);
    assert_eq!(vm.frames[0].ip, 0);
    assert_eq!(vm.run(1), Status::Running);
    assert_eq!(vm.frames[0].ip, 1);
    assert_eq!(vm.run(1), Status::Running);
    assert_eq!(vm.frames[0].ip, 0);
    assert_eq!(vm.run(1001), Status::Running);
    assert_eq!(vm.frames[0].ip, 1);
    assert_eq!(vm.frames.len(), 1);
}

#[test]
fn set_keeps_the_value_on_top_and_get_copies_a_slot() {
    let mut vm = machine(
        &[OpConstant, Word(0), OpConstant, Word(1), OpSet, Word(0), OpGet, Word(0), OpEof],
        vec![Value::Integer(1), Value::Integer(2)],
    );
    assert_eq!(vm.run(4), Status::Running);
    let slots = &vm.frames[0].slots;
    assert_eq!(slots.len(), 3);
    assert!(slots[0] == Value::Integer(2));
    assert!(slots[1] == Value::Integer(2));
    assert!(slots[2] == Value::Integer(2));
}

#[test]
fn pop_on_empty_slots_does_nothing() {
    let mut vm = machine(&[OpPop, OpPop, OpEof], vec![]);
    assert_eq!(vm.run(10), Status::Finished(InterpretResult::Success));
}

#[test]
fn conditional_jumps_look_at_the_top_without_taking_it() {
    let mut vm = machine(&[OpTrue, OpJumpIfTrue, Word(1), OpPop, OpEol, OpEof], vec![]);
    assert_eq!(vm.run(2), Status::Running);
    assert_eq!(vm.frames[0].ip, 4);
    assert_eq!(vm.frames[0].slots.len(), 1);

    let mut vm = machine(&[OpTrue, OpJumpIfFalse, Word(1), OpPop, OpEol, OpEof], vec![]);
    assert_eq!(vm.run(2), Status::Running);
    assert_eq!(vm.frames[0].ip, 3);
    assert_eq!(vm.frames[0].slots.len(), 1);

    let mut vm = machine(&[OpFalse, OpJumpIfFalse, Word(1), OpPop, OpEol, OpEof], vec![]);
    assert_eq!(vm.run(2), Status::Running);
    assert_eq!(vm.frames[0].ip, 4);

    let mut vm = machine(&[OpJump, Word(2), OpPop, OpPop, OpEof], vec![]);
    assert_eq!(vm.run(1), Status::Running);
    assert_eq!(vm.frames[0].ip, 4);
}

#[test]
fn loop_jumps_back_from_behind_its_operand() {
    let mut vm = machine(&[OpEol, OpEol, OpLoop, Word(3), OpEof], vec![]);
    assert_eq!(vm.run(3), Status::Running);
    assert_eq!(vm.frames[0].ip, 1);
    let mut vm = machine(&[OpEol, OpEol, OpLoop, Word(4), OpEof], vec![]);
    assert_eq!(vm.run(3), Status::Running);
    assert_eq!(vm.frames[0].ip, 0);
}

#[test]
fn equality_and_negation_opcodes() {
    let mut vm = machine(
        &[
            OpConstant, Word(0), OpConstant, Word(0), OpEqual, OpPrint,
            OpConstant, Word(0), OpConstant, Word(1), OpEqual, OpPrint,
            OpConstant, Word(0), OpConstant, Word(1), OpNotEqual, OpPrint,
            OpConstant, Word(1), OpConstant, Word(0), OpGreater, OpPrint,
            OpConstant, Word(1), OpConstant, Word(0), OpLess, OpPrint,
            OpConstant, Word(0), OpNegate, OpPrint,
            OpConstant, Word(0), OpNot, OpPrint,
            OpNone, OpNot, OpPrint,
            OpEof,
        ],
        vec![Value::Integer(1), Value::Integer(2)],
    );
    assert_eq!(vm.run(1000), Status::Finished(InterpretResult::Success));
    assert_eq!(shown(&mut vm), vec!["true", "false", "true", "true", "false", "-1", "false", "true"]);
}

#[test]
fn malformed_bytecode_is_a_runtime_error() {
    assert_eq!(fault_of(&[Word(3)], vec![]), "Unknown opcode.");
    assert_eq!(fault_of(&[OpConstant], vec![]), "Expected an operand.");
    assert_eq!(fault_of(&[OpConstant, OpTrue], vec![]), "Expected an operand.");
    assert_eq!(fault_of(&[OpGet], vec![]), "Expected an operand.");
    assert_eq!(fault_of(&[OpSet, OpEol], vec![]), "Expected an operand.");
    assert_eq!(fault_of(&[OpJump], vec![]), "Expected an operand.");
    assert_eq!(fault_of(&[OpTrue, OpJumpIfTrue], vec![]), "Expected an operand.");
    assert_eq!(fault_of(&[OpLoop], vec![]), "Expected an operand.");
    assert_eq!(fault_of(&[OpCall], vec![]), "Expected an operand.");
    assert_eq!(fault_of(&[OpConstant, Word(0)], vec![]), "No such constant.");
    assert_eq!(fault_of(&[OpConstant, Word(5)], vec![Value::Nil]), "No such constant.");
    assert_eq!(fault_of(&[], vec![]), "Ran past the end of the code.");
    assert_eq!(fault_of(&[OpTrue], vec![]), "Ran past the end of the code.");
    assert_eq!(fault_of(&[OpJump, Word(0)], vec![]), "Ran past the end of the code.");
    assert_eq!(fault_of(&[OpJump, Word(1)], vec![]), "Jump out of range.");
    assert_eq!(fault_of(&[OpTrue, OpJumpIfTrue, Word(9)], vec![]), "Jump out of range.");
    assert_eq!(fault_of(&[OpLoop, Word(3)], vec![]), "Jump out of range.");
}

#[test]
fn too_few_operands_are_a_runtime_error() {
    for code in [
        vec![OpAdd],
        vec![OpTrue, OpAdd],
        vec![OpTrue, OpDivide],
        vec![OpEqual],
        vec![OpNone, OpLess],
        vec![OpNegate],
        vec![OpNot],
        vec![OpPrint],
        vec![OpReturn],
        vec![OpJumpIfTrue, Word(0)],
        vec![OpJumpIfFalse, Word(0)],
        vec![OpCall, Word(0)],
        vec![OpTrue, OpCall, Word(1)],
    ] {
        assert_eq!(fault_of(&code, vec![]), "Stack underflow.", "{:?}", code);
    }
}

#[test]
fn a_slot_without_variable_is_a_runtime_error() {
    assert_eq!(fault_of(&[OpGet, Word(0)], vec![]), "Undefined variable.");
    assert_eq!(fault_of(&[OpTrue, OpGet, Word(1)], vec![]), "Undefined variable.");
    assert_eq!(fault_of(&[OpTrue, OpGet, Word(usize::MAX)], vec![]), "Undefined variable.");
    assert_eq!(fault_of(&[OpSet, Word(0)], vec![]), "Undefined variable.");
    assert_eq!(fault_of(&[OpTrue, OpSet, Word(usize::MAX)], vec![]), "Undefined variable.");
}

#[test]
fn operands_of_the_wrong_type_are_a_runtime_error() {
    assert_eq!(fault_of(&[OpTrue, OpNegate], vec![]), "Operand must be a number.");
    assert_eq!(
        fault_of(&[OpTrue, OpNone, OpAdd], vec![]),
        "Unsupported add operation on types bool and none"
    );
    assert_eq!(
        fault_of(&[OpTrue, OpFalse, OpGreater], vec![]),
        "Unsupported comparison operation on types bool and bool"
    );
    assert_eq!(fault_of(&[OpTrue, OpCall, Word(0)], vec![]), "Can only call functions and classes.");
}

#[test]
fn a_runtime_error_names_the_line_of_the_instruction() {
    let mut vm = VM::new();
    vm.load(script(&[(OpTrue, 3), (OpEol, 4), (OpNegate, 7), (OpEof, 9)], vec![]));
    assert_eq!(vm.run(100), Status::Finished(InterpretResult::RuntimeError));
    let fault = vm.fault.as_ref().unwrap();
    assert_eq!(fault.message, "Operand must be a number.");
    assert_eq!(fault.line, 7);
    assert_eq!(vm.step(), Status::Finished(InterpretResult::RuntimeError));

    let mut vm = VM::new();
    vm.load(script(&[(OpGet, 2), (Word(5), 2)], vec![]));
    assert_eq!(vm.run(100), Status::Finished(InterpretResult::RuntimeError));
    assert_eq!(vm.fault.as_ref().unwrap().line, 2);

    let mut vm = VM::new();
    vm.load(script(&[], vec![]));
    assert_eq!(vm.run(100), Status::Finished(InterpretResult::RuntimeError));
    assert_eq!(vm.fault.as_ref().unwrap().line, 0);
}

#[test]
fn loading_a_script_clears_the_error() {
    let mut vm = machine(&[OpAdd], vec![]);
    assert_eq!(vm.run(10), Status::Finished(InterpretResult::RuntimeError));
    vm.load(script(&on_line_one(&[OpEof]), vec![]));
    assert!(vm.fault.is_none());
    assert_eq!(vm.frames.len(), 1);
    assert_eq!(vm.run(10), Status::Finished(InterpretResult::Success));
}

#[test]
fn a_float_operation_waits_for_the_host() {
    let mut vm = machine(
        &[OpConstant, Word(0), OpConstant, Word(1), OpAdd, OpPrint, OpEof],
        vec![Value::Float(1.5f64.to_bits()), Value::Integer(2)],
    );
    let request = FloatRequest {
        op: NumericOp::Add,
        left: Number::Float(1.5f64.to_bits()),
        right: Number::Integer(2),
    };
    assert_eq!(vm.run(1000), Status::NeedsFloat(request));
    assert_eq!(vm.pending, Some(request));
    assert!(vm.frames[0].slots.is_empty());
    assert_eq!(vm.run(1000), Status::NeedsFloat(request));
    assert_eq!(vm.step(), Status::NeedsFloat(request));
    assert!(!vm.resume(FloatAnswer::Truth(true)));
    assert_eq!(vm.pending, Some(request));
    assert!(vm.resume(FloatAnswer::Number(3.5f64.to_bits())));
    assert_eq!(vm.pending, None);
    assert!(vm.frames[0].slots[0] == Value::Float(3.5f64.to_bits()));
    assert!(!vm.resume(FloatAnswer::Number(0)));
    assert_eq!(vm.run(1000), Status::Finished(InterpretResult::Success));
    assert_eq!(shown(&mut vm), vec!["3.5"]);
}

#[test]
fn a_float_comparison_takes_a_truth_value() {
    let mut vm = machine(
        &[OpConstant, Word(0), OpConstant, Word(1), OpLess, OpPrint, OpEof],
        vec![Value::Integer(1), Value::Float(1.5f64.to_bits())],
    );
    let request = FloatRequest {
        op: NumericOp::Less,
        left: Number::Integer(1),
        right: Number::Float(1.5f64.to_bits()),
    };
    assert_eq!(vm.run(1000), Status::NeedsFloat(request));
    assert!(!vm.resume(FloatAnswer::Number(1)));
    assert!(vm.resume(FloatAnswer::Truth(true)));
    assert_eq!(vm.run(1000), Status::Finished(InterpretResult::Success));
    assert_eq!(shown(&mut vm), vec!["true"]);
}

#[test]
fn an_integer_division_asks_for_a_float() {
    let mut vm = machine(
        &[OpConstant, Word(0), OpConstant, Word(1), OpDivide, OpEof],
        vec![Value::Integer(7), Value::Integer(2)],
    );
    assert_eq!(
        vm.run(1000),
        Status::NeedsFloat(FloatRequest {
            op: NumericOp::Divide,
            left: Number::Integer(7),
            right: Number::Integer(2)
        })
    );
}

#[test]
fn take_output_empties_the_output() {
    let mut vm = machine(&[OpTrue, OpPrint, OpFalse, OpPrint, OpEof], vec![]);
    assert_eq!(vm.run(2), Status::Running);
    assert_eq!(shown(&mut vm), vec!["true"]);
    assert!(shown(&mut vm).is_empty());
    assert_eq!(vm.run(10), Status::Finished(InterpretResult::Success));
    assert_eq!(shown(&mut vm), vec!["false"]);
}

#[test]
fn a_call_builds_the_frame_of_the_callee() {
    let mut callee = script(&on_line_one(&[OpGet, Word(1), OpReturn]), vec![]);
    callee.name = "second".to_string();
    let mut caller = script(
        &on_line_one(&[
            OpConstant, Word(0), OpTrue, OpGet, Word(1), OpConstant, Word(1), OpConstant, Word(2),
            OpCall, Word(2), OpPrint, OpEof,
        ]),
        vec![Value::ObjFunction(callee), Value::Integer(10), Value::Integer(20)],
    );
    caller.functions_count = 1;
    let mut vm = VM::new();
    vm.load(caller);
    assert_eq!(vm.frames[0].slots.len(), 1);
    assert!(matches!(vm.frames[0].slots[0], Value::FunctionNone));
    assert_eq!(vm.run(6), Status::Running);
    assert_eq!(vm.frames.len(), 2);
    assert_eq!(vm.frames[0].slots.len(), 4);
    assert_eq!(vm.frames[0].ip, 11);
    let frame = &vm.frames[1];
    assert_eq!(frame.ip, 0);
    assert_eq!(frame.function.name, "second");
    assert_eq!(frame.slots.len(), 3);
    assert!(matches!(frame.slots[0], Value::FunctionNone));
    assert!(frame.slots[1] == Value::Integer(10));
    assert!(frame.slots[2] == Value::Integer(20));
    assert_eq!(vm.run(2), Status::Running);
    assert_eq!(vm.frames.len(), 1);
    assert_eq!(vm.frames[0].slots.len(), 5);
    assert!(vm.frames[0].slots[4] == Value::Integer(10));
    assert_eq!(vm.run(10), Status::Finished(InterpretResult::Success));
    assert_eq!(shown(&mut vm), vec!["10"]);
}

#[test]
fn a_call_needs_the_global_slots_of_the_caller() {
    let callee = script(&on_line_one(&[OpNone, OpReturn]), vec![]);
    let mut caller =
        script(&on_line_one(&[OpPop, OpPop, OpConstant, Word(0), OpCall, Word(0), OpEof]), vec![
            Value::ObjFunction(callee),
        ]);
    caller.functions_count = 2;
    let mut vm = VM::new();
    vm.load(caller);
    assert_eq!(vm.frames[0].slots.len(), 2);
    assert_eq!(vm.run(100), Status::Finished(InterpretResult::RuntimeError));
    assert_eq!(vm.fault.unwrap().message, "Stack underflow.");
}

#[test]
fn returning_from_the_last_frame_ends_the_program() {
    let mut vm = machine(&[OpTrue, OpReturn, OpPrint], vec![]);
    assert_eq!(vm.run(100), Status::Finished(InterpretResult::Success));
    assert!(vm.frames.is_empty());
    assert!(shown(&mut vm).is_empty());
}

#[test]
fn a_script_starts_with_its_global_functions_in_their_slots() {
    let mut first = ObjFunction::new();
    first.name = "first".to_string();
    let mut second = ObjFunction::new();
    second.name = "second".to_string();
    let mut function = script(
        &on_line_one(&[
            OpConstant, Word(1), OpSet, Word(0), OpEol,
            OpConstant, Word(0), OpSet, Word(5), OpEol,
            OpConstant, Word(2), OpSet, Word(2), OpEol,
            OpConstant, Word(3), OpSet, Word(1), OpEol,
            OpConstant, Word(2), OpSet, Word(0), OpEof,
        ]),
        vec![
            Value::Integer(1),
            Value::ObjFunction(first),
            Value::ObjFunction(second),
            Value::String("no function".to_string()),
        ],
    );
    function.functions_count = 3;
    let slots = seed_slots(&function);
    assert_eq!(slots.len(), 3);
    match &slots[0] {
        Value::ObjFunction(f) => assert_eq!(f.name, "second"),
        other => panic!("{:?}", other),
    }
    assert!(matches!(slots[1], Value::FunctionNone));
    match &slots[2] {
        Value::ObjFunction(f) => assert_eq!(f.name, "second"),
        other => panic!("{:?}", other),
    }
    function.functions_count = 0;
    assert!(seed_slots(&function).is_empty());
}

#[test]
fn a_frame_reports_what_an_instruction_asks_for() {
    let mut frame = CallFrame {
        ip: 0,
        function: script(&on_line_one(&[OpTrue, OpPrint, OpNone, OpReturn, OpEof]), vec![]),
        slots: Vec::new(),
    };
    assert!(matches!(frame.step(), Effect::Continue));
    match frame.step() {
        Effect::Print(Rendered::Text(text)) => assert_eq!(text, "true"),
        other => panic!("{:?}", other),
    }
    assert!(matches!(frame.step(), Effect::Continue));
    assert!(matches!(frame.step(), Effect::Return(Value::Nil)));
    assert!(matches!(frame.step(), Effect::Finish));
    match frame.step() {
        Effect::Fault(message) => assert_eq!(message, "Ran past the end of the code."),
        other => panic!("{:?}", other),
    }
    assert_eq!(frame.ip, 5);
}

#[test]
fn interpret_refuses_to_run_a_source_with_errors() {
    let mut vm = VM::new();
    let status = vm.interpret("print 1\nprint x\n".to_string(), Vec::new(), 1000);
    assert_eq!(status, Status::Finished(InterpretResult::CompileError));
    assert!(vm.frames.is_empty());
    assert!(vm.output.is_empty());
    assert_eq!(vm.diagnostics, vec!["[line 2] Error at 'x': Variable x could not be found."]);
}

#[test]
fn interpret_stops_when_the_fuel_is_used_up() {
    let mut vm = VM::new();
    let status = vm.interpret("while true { }\n".to_string(), Vec::new(), 50);
    assert_eq!(status, Status::Running);
    assert_eq!(vm.run(50), Status::Running);
    assert_eq!(vm.frames.len(), 1);
}

#[test]
fn arguments_arrive_in_their_order() {
    assert_eq!(output_of("f : int a, int b { print a - b\n }\nf(10, 4)\n"), vec!["6"]);
}

#[test]
fn a_function_can_call_another_global_function() {
    assert_eq!(
        output_of("g : int x { print x + 1\n }\nf : int y { g(10)\n print y\n }\nf(5)\n"),
        vec!["11", "5"]
    );
    assert_eq!(
        output_of("f : int y { g(10)\n print y\n }\ng : int x { print x + 1\n }\nf(5)\n"),
        vec!["11", "5"]
    );
}

#[test]
fn a_variable_can_be_an_argument() {
    assert_eq!(
        output_of("double : int x { print x + x\n }\nint a = 5\ndouble(a)\nprint a\n"),
        vec!["10", "5"]
    );
}

#[test]
fn prints_every_kind_of_value() {
    assert_eq!(
        output_of("print 12\nprint \"hi\"\nprint true\nprint false\nprint none\nint x\nprint x\n"),
        vec!["12", "\"hi\"", "true", "false", "none", "none"]
    );
    assert_eq!(output_of("f { }\nprint f\n"), vec!["<function f>"]);
}

#[test]
fn evaluates_expressions() {
    assert_eq!(output_of("print 1 + 2 * 3\n"), vec!["7"]);
    assert_eq!(output_of("print (1 + 2) * 3\n"), vec!["9"]);
    assert_eq!(output_of("print 10 - 4 - 3\n"), vec!["3"]);
    assert_eq!(output_of("print -5 + 2\n"), vec!["-3"]);
    assert_eq!(output_of("print !true\n"), vec!["false"]);
    assert_eq!(output_of("print \"a\" + \"b\"\n"), vec!["\"ab\""]);
    assert_eq!(output_of("print \"ab\" * 3\n"), vec!["\"ababab\""]);
    assert_eq!(output_of("print 1 == 1\nprint 1 != 1\nprint 2 >= 3\nprint 2 <= 3\n"), vec![
        "true", "false", "false", "true"
    ]);
    assert_eq!(output_of("print 1 == \"1\"\n"), vec!["false"]);
    assert_eq!(output_of("print true and false\nprint false or true\n"), vec!["false", "true"]);
    assert_eq!(output_of("x = 3\ny = x = 4\nprint x + y\n"), vec!["8"]);
}

#[test]
fn comments_do_not_run() {
    assert_eq!(output_of("print 1 -- print 2\n-* print 3\n *- print 4\n"), vec!["1", "4"]);
}

#[test]
fn a_script_with_an_error_is_not_loaded() {
    let mut function = script(&on_line_one(&[OpEof]), vec![]);
    function.chunk.had_error = true;
    let mut vm = VM::new();
    assert!(!vm.load(function));
    assert!(vm.frames.is_empty());
    assert!(vm.load(script(&on_line_one(&[OpEof]), vec![])));
    assert_eq!(vm.frames.len(), 1);
}

#[test]
fn interprets_by_the_classes_it_is_given() {
    let source = "x = 20\nprint x + 1\n";
    let mut vm = VM::new();
    let status = vm.interpret_classified(source.to_string(), classify(source), Vec::new(), 1000);
    assert_eq!(status, Status::Finished(InterpretResult::Success));
    assert_eq!(shown(&mut vm), vec!["21"]);

    let other = CharClass { letter: false, word: false };
    let mut vm = VM::new();
    let status = vm.interpret_classified(source.to_string(), vec![other; 19], Vec::new(), 1000);
    assert_eq!(status, Status::Finished(InterpretResult::CompileError));
    assert!(!vm.diagnostics.is_empty());
}
