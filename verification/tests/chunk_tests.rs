use rmax::chunk::{Chunk, OpCode};
use rmax::object::ObjFunction;
use rmax::value::{Rendered, Value};

fn text_of(line: &[Rendered]) -> String {
    line.iter()
        .map(|piece| match piece {
            Rendered::Text(text) => text.clone(),
            Rendered::Float(bits) => format!("{}", f64::from_bits(*bits)),
        })
        .collect()
}

fn sum_chunk() -> Chunk {
    let mut chunk = Chunk::new();
    let one = chunk.add_constant(Value::Integer(1));
    let two = chunk.add_constant(Value::Integer(2));
    chunk.write(OpCode::OpConstant, 1);
    chunk.write(OpCode::Number(one), 1);
    chunk.write(OpCode::OpConstant, 1);
    chunk.write(OpCode::Number(two), 1);
    chunk.write(OpCode::OpAdd, 1);
    chunk.write(OpCode::OpPrint, 1);
    chunk.write(OpCode::OpEol, 1);
    chunk.write(OpCode::OpNone, 2);
    chunk.write(OpCode::OpReturn, 2);
    chunk
}

#[test]
fn a_new_chunk_is_empty() {
    let chunk = Chunk::new();
    assert!(chunk.code.is_empty());
    assert!(chunk.lines.is_empty());
    assert!(chunk.constants.is_empty());
    assert!(!chunk.had_error);
}

#[test]
fn writing_appends_the_word() {
    let mut chunk = Chunk::new();
    chunk.write(OpCode::OpTrue, 3);
    chunk.write(OpCode::OpPop, 3);
    assert_eq!(chunk.code, vec![OpCode::OpTrue, OpCode::OpPop]);
}

#[test]
fn the_line_table_is_run_length_encoded() {
    let mut chunk = Chunk::new();
    chunk.write(OpCode::OpTrue, 1);
    assert_eq!(chunk.lines, vec![1, 1]);
    chunk.write(OpCode::OpPop, 1);
    assert_eq!(chunk.lines, vec![1, 2]);
    chunk.write(OpCode::OpFalse, 2);
    assert_eq!(chunk.lines, vec![1, 2, 2, 1]);
    chunk.write(OpCode::OpPop, 2);
    chunk.write(OpCode::OpPop, 2);
    assert_eq!(chunk.lines, vec![1, 2, 2, 3]);
    chunk.write(OpCode::OpNone, 1);
    assert_eq!(chunk.lines, vec![1, 2, 2, 3, 1, 1]);
}

#[test]
fn get_line_finds_the_line_each_word_was_written_on() {
    let mut chunk = Chunk::new();
    let lines = [1usize, 1, 2, 5, 5, 5, 9];
    for line in lines {
        chunk.write(OpCode::OpEol, line);
    }
    for (index, line) in lines.iter().enumerate() {
        assert_eq!(chunk.get_line(index), *line);
        assert_eq!(chunk.find_line(index), Some(*line));
    }
    assert_eq!(chunk.find_line(lines.len()), None);
    assert_eq!(chunk.find_line(usize::MAX), None);
}

#[test]
fn get_line_never_decreases_when_lines_are_written_in_order() {
    let chunk = sum_chunk();
    for index in 1..chunk.code.len() {
        assert!(chunk.get_line(index - 1) <= chunk.get_line(index));
    }
}

#[test]
fn find_line_of_an_empty_chunk_is_none() {
    assert_eq!(Chunk::new().find_line(0), None);
}

#[test]
fn constants_get_stable_indices() {
    let mut chunk = Chunk::new();
    assert_eq!(chunk.add_constant(Value::Integer(10)), 0);
    assert_eq!(chunk.add_constant(Value::String("a".to_string())), 1);
    assert_eq!(chunk.add_constant(Value::Integer(10)), 2);
    assert!(chunk.constants[0] == Value::Integer(10));
    assert!(chunk.constants[1] == Value::String("a".to_string()));
    assert_eq!(chunk.constants.len(), 3);
}

#[test]
fn as_number_reads_an_operand_word() {
    assert_eq!(OpCode::Number(0).as_number(), 0);
    assert_eq!(OpCode::Number(17).as_number(), 17);
    assert_eq!(OpCode::Number(usize::MAX).as_number(), usize::MAX);
}

#[test]
fn the_operand_table() {
    let with_operand = [
        OpCode::OpConstant,
        OpCode::OpSet,
        OpCode::OpGet,
        OpCode::OpJumpIfTrue,
        OpCode::OpJumpIfFalse,
        OpCode::OpJump,
        OpCode::OpLoop,
        OpCode::OpCall,
    ];
    let without_operand = [
        OpCode::OpAdd,
        OpCode::OpSubtract,
        OpCode::OpMultiply,
        OpCode::OpDivide,
        OpCode::OpNegate,
        OpCode::OpNot,
        OpCode::OpTrue,
        OpCode::OpFalse,
        OpCode::OpNone,
        OpCode::OpPrint,
        OpCode::OpEqual,
        OpCode::OpNotEqual,
        OpCode::OpGreater,
        OpCode::OpGreaterEqual,
        OpCode::OpLess,
        OpCode::OpLessEqual,
        OpCode::OpReturn,
        OpCode::OpEol,
        OpCode::OpEof,
        OpCode::OpPop,
        OpCode::Number(3),
    ];
    for op in with_operand {
        assert!(op.has_operand(), "{:?}", op);
    }
    for op in without_operand {
        assert!(!op.has_operand(), "{:?}", op);
    }
}

#[test]
fn disassembles_a_chunk_line_by_line() {
    let listing = sum_chunk().disassemble("<script>");
    let lines: Vec<String> = listing.iter().map(|line| text_of(line)).collect();
    assert_eq!(
        lines,
        vec![
            "== <script> ==",
            "0000    1 OP_CONSTANT                   1",
            "0002    | OP_CONSTANT                   2",
            "0004    | OP_ADD",
            "0005    | OP_PRINT",
            "0006    | OP_EOL",
            "0007    2 OP_NONE",
            "0008    | OP_RETURN",
        ]
    );
}

#[test]
fn disassembles_operands_and_constants() {
    let mut chunk = Chunk::new();
    let name = chunk.add_constant(Value::String("hi".to_string()));
    let half = chunk.add_constant(Value::Float(0.5f64.to_bits()));
    let mut function = ObjFunction::new();
    function.name = "f".to_string();
    let callee = chunk.add_constant(Value::ObjFunction(function));
    chunk.write(OpCode::OpConstant, 12);
    chunk.write(OpCode::Number(name), 12);
    chunk.write(OpCode::OpConstant, 12);
    chunk.write(OpCode::Number(half), 12);
    chunk.write(OpCode::OpConstant, 12345);
    chunk.write(OpCode::Number(callee), 12345);
    chunk.write(OpCode::OpSet, 12345);
    chunk.write(OpCode::Number(0), 12345);
    chunk.write(OpCode::OpGet, 12345);
    chunk.write(OpCode::Number(11), 12345);
    chunk.write(OpCode::OpJumpIfTrue, 12345);
    chunk.write(OpCode::Number(2), 12345);
    chunk.write(OpCode::OpJumpIfFalse, 12345);
    chunk.write(OpCode::Number(0), 12345);
    chunk.write(OpCode::OpJump, 12345);
    chunk.write(OpCode::Number(2), 12345);
    chunk.write(OpCode::OpLoop, 12345);
    chunk.write(OpCode::Number(4), 12345);
    chunk.write(OpCode::OpCall, 12345);
    chunk.write(OpCode::Number(1), 12345);
    let listing = chunk.disassemble("test");
    let lines: Vec<String> = listing.iter().map(|line| text_of(line)).collect();
    assert_eq!(
        lines,
        vec![
            "== test ==",
            "0000   12 OP_CONSTANT                   \"hi\"",
            "0002    | OP_CONSTANT                   0.5",
            "0004 12345 OP_CONSTANT                   <function f>",
            "0006    | OP_SET                        Number(0)",
            "0008    | OP_GET                        Number(11)",
            "0010    | OP_JUMP_IF_TRUE               Number(2)",
            "0012    | OP_JUMP_IF_FALSE              Number(0)",
            "0014    | OP_JUMP                       Number(2)",
            "0016    | OP_LOOP                       Number(4)",
            "0018    | OP_CALL                       Number(1)",
        ]
    );
    assert!(matches!(listing[2][1], Rendered::Float(_)));
}

#[test]
fn disassembles_every_plain_opcode() {
    let plain = [
        (OpCode::OpAdd, "OP_ADD"),
        (OpCode::OpSubtract, "OP_SUBTRACT"),
        (OpCode::OpMultiply, "OP_MULTIPLY"),
        (OpCode::OpDivide, "OP_DIVIDE"),
        (OpCode::OpNegate, "OP_NEGATE"),
        (OpCode::OpNot, "OP_NOT"),
        (OpCode::OpTrue, "OP_TRUE"),
        (OpCode::OpFalse, "OP_FALSE"),
        (OpCode::OpNone, "OP_NONE"),
        (OpCode::OpPrint, "OP_PRINT"),
        (OpCode::OpEqual, "OP_EQUAL"),
        (OpCode::OpNotEqual, "OP_NOT_EQUAL"),
        (OpCode::OpGreater, "OP_GREATER"),
        (OpCode::OpGreaterEqual, "OP_GREATER_EQUAL"),
        (OpCode::OpLess, "OP_LESS"),
        (OpCode::OpLessEqual, "OP_LESS_EQUAL"),
        (OpCode::OpReturn, "OP_RETURN"),
        (OpCode::OpEol, "OP_EOL"),
        (OpCode::OpEof, "OP_EOF"),
        (OpCode::OpPop, "OP_POP"),
    ];
    for (op, name) in plain {
        let mut chunk = Chunk::new();
        chunk.write(op, 7);
        let (pieces, operands) = chunk.disassemble_instruction(&op, 0);
        assert_eq!(operands, 0);
        assert_eq!(text_of(&pieces), format!("0000    7 {}", name));
    }
}

#[test]
fn an_instruction_with_an_operand_skips_one_word() {
    let mut chunk = Chunk::new();
    chunk.write(OpCode::OpEol, 1);
    chunk.write(OpCode::OpGet, 1);
    chunk.write(OpCode::Number(3), 1);
    let (pieces, operands) = chunk.disassemble_instruction(&OpCode::OpGet, 1);
    assert_eq!(operands, 1);
    assert_eq!(text_of(&pieces), "0001    | OP_GET                        Number(3)");
}

#[test]
fn chunks_compare_structurally() {
    assert!(sum_chunk().same_as(&sum_chunk()));
    let mut other = sum_chunk();
    other.had_error = true;
    assert!(!sum_chunk().same_as(&other));
    let mut longer = sum_chunk();
    longer.write(OpCode::OpEol, 2);
    assert!(!sum_chunk().same_as(&longer));
    assert!(sum_chunk().clone().same_as(&sum_chunk()));
}
