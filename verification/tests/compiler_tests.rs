use rmax::scanner::{classify, CharClass};
use rmax::chunk::{Chunk, OpCode};
use rmax::compiler::{Compiler, FloatLiteral, FunctionType, Precedence};
use rmax::object::{FunctionInfo, ObjFunction};
use rmax::scanner::{float_lexemes, Token, TokenType};
use rmax::value::Value;

use rmax::chunk::OpCode::{
    Number, OpAdd, OpCall, OpConstant, OpEol, OpGet, OpJump, OpJumpIfFalse, OpJumpIfTrue, OpLess,
    OpLoop, OpMultiply, OpNegate, OpNone, OpNot, OpPop, OpPrint, OpReturn, OpSet,
};

fn floats_of(source: &str) -> Vec<FloatLiteral> {
    float_lexemes(source.to_string())
        .into_iter()
        .map(|lexeme| FloatLiteral { bits: lexeme.parse::<f64>().unwrap().to_bits(), lexeme })
        .collect()
}

fn compile(source: &str) -> (ObjFunction, Compiler) {
    let mut compiler = Compiler::new();
    let function = compiler.compile(source.to_string(), floats_of(source));
    (function, compiler)
}

fn diagnostics(source: &str) -> Vec<String> {
    compile(source).1.diagnostics
}

fn check_chunk_in_order(chunk: &Chunk) {
    let code = &chunk.code;
    let mut index = 0;
    while index < code.len() {
        let op = code[index];
        assert!(!matches!(op, Number(_)), "operand where an opcode is expected at {}", index);
        if op.has_operand() {
            assert!(index + 1 < code.len(), "operand missing at {}", index);
            let operand = match code[index + 1] {
                Number(n) => n,
                other => panic!("{:?} where an operand is expected", other),
            };
            match op {
                OpJump | OpJumpIfFalse | OpJumpIfTrue => {
                    assert!(index + 2 + operand <= code.len(), "jump out of the code at {}", index)
                }
                OpLoop => assert!(operand <= index + 2, "loop out of the code at {}", index),
                OpConstant => assert!(operand < chunk.constants.len(), "no constant at {}", index),
                _ => {}
            }
            index += 2;
        } else {
            index += 1;
        }
    }
    assert_eq!(index, code.len());
    for index in 0..code.len() {
        assert!(chunk.find_line(index).is_some());
        if index > 0 {
            assert!(chunk.get_line(index - 1) <= chunk.get_line(index));
        }
    }
    assert_eq!(chunk.find_line(code.len()), None);
    assert_eq!(chunk.disassemble("listing").len(), 1 + code.iter().filter(|op| !matches!(op, Number(_))).count());
    for constant in &chunk.constants {
        if let Value::ObjFunction(function) = constant {
            check_chunk_in_order(&function.chunk);
        }
    }
}

#[test]
fn a_new_compiler_is_empty() {
    let compiler = Compiler::new();
    assert_eq!(compiler.function.name, "");
    assert!(compiler.function.chunk.code.is_empty());
    assert!(compiler.locals.is_empty());
    assert!(compiler.functions.is_empty());
    assert!(compiler.values.is_empty());
    assert_eq!(compiler.scope_depth, 0);
    assert_eq!(compiler.function_type, FunctionType::Script);
    assert!(compiler.immut_current_chunk().code.is_empty());
}

#[test]
fn current_chunk_is_the_chunk_of_the_function() {
    let mut compiler = Compiler::new();
    compiler.current_chunk().write(OpEol, 1);
    assert_eq!(compiler.function.chunk.code, vec![OpEol]);
    assert_eq!(compiler.immut_current_chunk().code, vec![OpEol]);
}

#[test]
fn compiles_a_print_statement() {
    let (function, compiler) = compile("print 1 + 2\n");
    assert!(!function.had_error());
    assert!(compiler.diagnostics.is_empty());
    assert_eq!(function.name, "");
    assert_eq!(
        function.chunk.code,
        vec![OpConstant, Number(0), OpConstant, Number(1), OpAdd, OpPrint, OpEol, OpNone, OpReturn]
    );
    assert_eq!(function.chunk.constants.len(), 2);
    assert!(function.chunk.constants[0] == Value::Integer(1));
    assert!(function.chunk.constants[1] == Value::Integer(2));
    assert_eq!(function.chunk.lines, vec![1, 7, 2, 2]);
}

#[test]
fn an_empty_source_compiles_to_a_return_of_none() {
    let (function, compiler) = compile("");
    assert!(!function.had_error());
    assert!(compiler.diagnostics.is_empty());
    assert_eq!(function.chunk.code, vec![OpNone, OpReturn]);
    assert_eq!(function.chunk.lines, vec![1, 2]);
}

#[test]
fn patches_the_jumps_of_an_if_statement() {
    let (function, _) = compile("if 1 < 2 { print \"a\"\n } else { print \"b\"\n }\n");
    assert!(!function.had_error());
    assert_eq!(
        function.chunk.code,
        vec![
            OpConstant,
            Number(0),
            OpConstant,
            Number(1),
            OpLess,
            OpJumpIfFalse,
            Number(7),
            OpPop,
            OpConstant,
            Number(2),
            OpPrint,
            OpEol,
            OpJump,
            Number(4),
            OpConstant,
            Number(3),
            OpPrint,
            OpEol,
            OpPop,
            OpEol,
            OpNone,
            OpReturn,
        ]
    );
}

#[test]
fn an_if_without_else_jumps_over_nothing() {
    let (function, _) = compile("if true { print 1\n }\n");
    assert_eq!(
        function.chunk.code,
        vec![
            OpConstant,
            Number(0),
            OpJumpIfFalse,
            Number(7),
            OpPop,
            OpConstant,
            Number(1),
            OpPrint,
            OpEol,
            OpJump,
            Number(0),
            OpPop,
            OpEol,
            OpNone,
            OpReturn,
        ]
    );
}

#[test]
fn compiles_a_while_loop_that_jumps_back_to_its_condition() {
    let (function, _) = compile("int n = 0\nwhile n < 3 { print n\n n = n + 1\n }\n");
    assert!(!function.had_error());
    assert_eq!(
        function.chunk.code,
        vec![
            OpConstant,
            Number(0),
            OpSet,
            Number(0),
            OpEol,
            OpGet,
            Number(0),
            OpConstant,
            Number(1),
            OpLess,
            OpJumpIfFalse,
            Number(15),
            OpPop,
            OpGet,
            Number(0),
            OpPrint,
            OpEol,
            OpGet,
            Number(0),
            OpConstant,
            Number(2),
            OpAdd,
            OpSet,
            Number(0),
            OpEol,
            OpLoop,
            Number(22),
            OpPop,
            OpEol,
            OpNone,
            OpReturn,
        ]
    );
    let loop_at = 25;
    let after_operand = loop_at + 2;
    assert_eq!(after_operand - 22, 5);
    assert_eq!(function.chunk.code[5], OpGet);
}

#[test]
fn a_break_behind_a_loop_is_a_jump_of_no_distance() {
    let (function, _) = compile("while false { } break\n");
    assert_eq!(
        function.chunk.code,
        vec![
            OpConstant,
            Number(0),
            OpJumpIfFalse,
            Number(3),
            OpPop,
            OpLoop,
            Number(7),
            OpPop,
            OpJump,
            Number(0),
            OpEol,
            OpNone,
            OpReturn,
        ]
    );
}

#[test]
fn compiles_short_circuit_operators() {
    let (function, _) = compile("print true and false\n");
    assert_eq!(
        function.chunk.code,
        vec![
            OpConstant,
            Number(0),
            OpJumpIfFalse,
            Number(3),
            OpPop,
            OpConstant,
            Number(1),
            OpPrint,
            OpEol,
            OpNone,
            OpReturn,
        ]
    );
    let (function, _) = compile("print false or true\n");
    assert_eq!(function.chunk.code[2], OpJumpIfTrue);
    assert_eq!(function.chunk.code[3], Number(3));
}

#[test]
fn compiles_unary_operators_behind_their_operand() {
    let (function, _) = compile("print -5\nprint !true\n");
    assert_eq!(
        function.chunk.code,
        vec![
            OpConstant,
            Number(0),
            OpNegate,
            OpPrint,
            OpEol,
            OpConstant,
            Number(1),
            OpNot,
            OpPrint,
            OpEol,
            OpNone,
            OpReturn,
        ]
    );
}

#[test]
fn factors_bind_tighter_than_terms() {
    let (function, _) = compile("print 1 + 2 * 3\n");
    assert_eq!(
        function.chunk.code,
        vec![
            OpConstant,
            Number(0),
            OpConstant,
            Number(1),
            OpConstant,
            Number(2),
            OpMultiply,
            OpAdd,
            OpPrint,
            OpEol,
            OpNone,
            OpReturn,
        ]
    );
    let (function, _) = compile("print (1 + 2) * 3\n");
    assert_eq!(
        function.chunk.code,
        vec![
            OpConstant,
            Number(0),
            OpConstant,
            Number(1),
            OpAdd,
            OpConstant,
            Number(2),
            OpMultiply,
            OpPrint,
            OpEol,
            OpNone,
            OpReturn,
        ]
    );
}

#[test]
fn comparisons_and_equality_associate_to_the_left() {
    let (function, _) = compile("print 1 < 2 == true\n");
    assert_eq!(
        function.chunk.code,
        vec![
            OpConstant,
            Number(0),
            OpConstant,
            Number(1),
            OpLess,
            OpConstant,
            Number(2),
            OpCode::OpEqual,
            OpPrint,
            OpEol,
            OpNone,
            OpReturn,
        ]
    );
    let (function, _) = compile("print 1 != 2 > false\n");
    assert_eq!(function.chunk.code[4], OpCode::OpNotEqual);
    assert_eq!(function.chunk.code[7], OpCode::OpGreater);
}

#[test]
fn compiles_a_function_definition_and_a_call() {
    let (function, compiler) = compile("square : int x { print x * x\n }\nsquare(7)\n");
    assert!(!function.had_error());
    assert!(compiler.diagnostics.is_empty());
    assert_eq!(function.functions_count, 1);
    assert_eq!(
        function.chunk.code,
        vec![
            OpConstant,
            Number(0),
            OpSet,
            Number(0),
            OpEol,
            OpGet,
            Number(0),
            OpConstant,
            Number(1),
            OpCall,
            Number(1),
            OpEol,
            OpEol,
            OpNone,
            OpReturn,
        ]
    );
    assert!(function.chunk.constants[1] == Value::Integer(7));
    let square = match &function.chunk.constants[0] {
        Value::ObjFunction(f) => f,
        other => panic!("{:?}", other),
    };
    assert_eq!(square.name, "square");
    assert_eq!(square.functions_count, 1);
    assert_eq!(square.function_info.name, "square");
    assert_eq!(square.function_info.arg_names, vec!["x"]);
    assert_eq!(square.function_info.arg_types, vec![TokenType::TypeInt]);
    assert_eq!(
        square.chunk.code,
        vec![OpGet, Number(1), OpGet, Number(1), OpMultiply, OpPrint, OpEol, OpNone, OpReturn]
    );
    assert_eq!(compiler.functions.len(), 1);
    assert_eq!(compiler.functions[0].name, "square");
    assert_eq!(compiler.locals.len(), 1);
    assert_eq!(compiler.locals[0].name.lexeme, "square");
    assert_eq!(compiler.locals[0].type_, TokenType::TypeFunction);
    assert!(compiler.locals[0].is_initialized);
}

#[test]
fn the_first_pass_lets_a_call_stand_before_the_definition() {
    let (function, compiler) = compile("square(7)\nsquare : int x { print x * x\n }\n");
    assert!(!function.had_error());
    assert!(compiler.diagnostics.is_empty());
    assert_eq!(function.functions_count, 1);
    assert_eq!(function.chunk.code[0], OpGet);
    assert_eq!(function.chunk.code[1], Number(0));
    assert_eq!(function.chunk.code[4], OpCall);
}

#[test]
fn the_first_pass_records_every_signature() {
    let (function, compiler) =
        compile("f { print 1\n }\ng : int a, string b { print a\n }\nint x = 3\n");
    assert!(compiler.diagnostics.is_empty());
    assert_eq!(function.functions_count, 2);
    assert_eq!(compiler.functions.len(), 2);
    assert_eq!(compiler.functions[0].name, "f");
    assert!(compiler.functions[0].arg_names.is_empty());
    assert_eq!(compiler.functions[1].name, "g");
    assert_eq!(compiler.functions[1].arg_names, vec!["a", "b"]);
    assert_eq!(compiler.functions[1].arg_types, vec![TokenType::TypeInt, TokenType::TypeString]);
    let names: Vec<&str> = compiler.locals.iter().map(|l| l.name.lexeme.as_str()).collect();
    assert_eq!(names, vec!["f", "g", "x"]);
}

#[test]
fn a_declaration_without_value_gets_the_none_of_its_type() {
    let (function, compiler) = compile("int a\nfloat b\nstring c\nbool d\ne\n");
    assert!(compiler.diagnostics.is_empty(), "{:?}", compiler.diagnostics);
    assert!(matches!(function.chunk.constants[0], Value::IntegerNone));
    assert!(matches!(function.chunk.constants[1], Value::FloatNone));
    assert!(matches!(function.chunk.constants[2], Value::StringNone));
    assert!(matches!(function.chunk.constants[3], Value::BoolNone));
    assert!(matches!(function.chunk.constants[4], Value::Nil));
    assert_eq!(&function.chunk.code[0..5], &[OpConstant, Number(0), OpSet, Number(0), OpEol]);
    assert_eq!(compiler.locals.len(), 5);
    assert!(compiler.locals.iter().all(|local| local.is_initialized));
    assert_eq!(compiler.locals[1].type_, TokenType::TypeFloat);
    assert_eq!(compiler.locals[4].type_, TokenType::Nil);
}

#[test]
fn redeclaring_a_name_uses_its_slot_again() {
    let (function, compiler) = compile("int x = 1\nx = 2\nint x = 3\n");
    assert!(compiler.diagnostics.is_empty());
    assert_eq!(compiler.locals.len(), 1);
    let sets: Vec<OpCode> = function
        .chunk
        .code
        .windows(2)
        .filter(|pair| pair[0] == OpSet)
        .map(|pair| pair[1])
        .collect();
    assert_eq!(sets, vec![Number(0), Number(0), Number(0)]);
}

#[test]
fn the_end_of_a_scope_pops_its_locals() {
    let (function, compiler) = compile("{ int a = 1\n int b = 2\n }\n");
    assert!(compiler.diagnostics.is_empty());
    assert!(compiler.locals.is_empty());
    assert_eq!(compiler.scope_depth, 0);
    assert_eq!(
        function.chunk.code,
        vec![
            OpConstant,
            Number(0),
            OpSet,
            Number(0),
            OpEol,
            OpConstant,
            Number(1),
            OpSet,
            Number(1),
            OpEol,
            OpPop,
            OpPop,
            OpEol,
            OpNone,
            OpReturn,
        ]
    );
}

#[test]
fn a_value_of_the_declared_type_is_accepted() {
    for source in [
        "int x = 1\n",
        "float x = 1.5\n",
        "string x = \"a\"\n",
        "bool x = true\n",
        "bool x = false\n",
        "x = 1\n",
        "x = \"a\"\n",
        "x = none\n",
    ] {
        let (function, compiler) = compile(source);
        assert!(compiler.diagnostics.is_empty(), "{}: {:?}", source, compiler.diagnostics);
        assert!(!function.had_error());
    }
}

#[test]
fn a_value_of_another_type_is_reported() {
    let cases = [
        ("int x = \"hi\"\n", "[line 1] Error at 'hi': Variable x is of type int but value is of type string"),
        ("int x = 1.5\n", "[line 1] Error at '1.5': Variable x is of type int but value is of type float"),
        ("float x = 1\n", "[line 1] Error at '1': Variable x is of type float but value is of type int"),
        ("string s = true\n", "[line 1] Error at 'true': Variable s is of type string but value is of type bool"),
        ("bool b = \"\"\n", "[line 1] Error at '': Variable b is of type bool but value is of type string"),
        ("bool b = none\n", "[line 1] Error at 'none': Variable b is of type bool but value is of type none"),
        ("int x = 1\nx = \"a\"\n", "[line 2] Error at 'a': Variable x is of type int but value is of type string"),
    ];
    for (source, expected) in cases {
        let (function, compiler) = compile(source);
        assert_eq!(compiler.diagnostics, vec![expected], "{}", source);
        assert!(function.had_error());
    }
}

#[test]
fn the_last_constant_stands_for_the_assigned_value() {
    let (_, compiler) = compile("int x = 1 + 2\n");
    assert!(compiler.diagnostics.is_empty());
    assert_eq!(compiler.values.len(), 1);
    assert_eq!(compiler.values[0].name, "x");
    assert!(compiler.values[0].value == Value::Integer(2));
}

#[test]
fn an_unknown_variable_is_reported_and_compiles_to_no_slot() {
    let (function, compiler) = compile("print x\n");
    assert_eq!(compiler.diagnostics, vec!["[line 1] Error at 'x': Variable x could not be found."]);
    assert!(function.had_error());
    assert_eq!(function.chunk.code[0], OpGet);
    assert_eq!(function.chunk.code[1], Number(usize::MAX));
}

#[test]
fn a_variable_in_its_own_initializer_is_reported() {
    let (function, compiler) = compile("int x = x\n");
    assert_eq!(
        compiler.diagnostics,
        vec!["[line 1] Error at 'x': Variable x is used before being initialized."]
    );
    assert!(function.had_error());
}

#[test]
fn a_call_with_the_wrong_number_of_arguments_is_reported() {
    assert_eq!(
        diagnostics("f : int a { }\nf(1, 2)\n"),
        vec!["[line 2] Error at '2': Expected 1 argument but got 2."]
    );
    assert_eq!(
        diagnostics("f : int a, int b { }\nf(1)\n"),
        vec!["[line 2] Error at '1': Expected 2 arguments but got 1."]
    );
    assert_eq!(
        diagnostics("f { }\nf(1)\n"),
        vec!["[line 2] Error at '1': Expected 0 arguments but got 1."]
    );
    assert!(diagnostics("f { }\nf()\n").is_empty());
    assert!(diagnostics("f : int a, int b { }\nf(1, 2)\n").is_empty());
}

#[test]
fn an_argument_of_the_wrong_type_is_reported() {
    assert_eq!(
        diagnostics("f : int a { }\nf(\"s\")\n"),
        vec!["[line 2] Error at 's': Expected argument of type int but got argument of type string."]
    );
    assert_eq!(
        diagnostics("f : string a { }\nstring t = \"x\"\nint n = 1\nf(t)\nf(n)\n"),
        vec!["[line 5] Error at 'n': Expected argument of type string but got argument of type int."]
    );
    assert_eq!(
        diagnostics("f : bool a, float b { }\nf(true, 1.5)\nf(false, 2)\n"),
        vec!["[line 3] Error at '2': Expected argument of type float but got argument of type integer."]
    );
}

#[test]
fn a_call_of_an_unknown_function_is_reported() {
    assert_eq!(
        diagnostics("int x = 1\nx(2)\n"),
        vec!["[line 2] Error at 'x': Function x could not be found."]
    );
}

#[test]
fn for_loops_are_reported_as_not_implemented() {
    let (function, compiler) = compile("for x in y\nprint 1\n");
    assert_eq!(
        compiler.diagnostics,
        vec!["[line 1] Error at 'for': For loops are not implemented."]
    );
    assert!(function.had_error());
    assert!(function.chunk.code.contains(&OpPrint));
}

#[test]
fn a_float_literal_needs_its_entry_in_the_table() {
    let mut compiler = Compiler::new();
    let function = compiler.compile("print 1.5\n".to_string(), Vec::new());
    assert_eq!(compiler.diagnostics, vec!["[line 1] Error at '1.5': Float literal has no value."]);
    assert!(function.had_error());

    let mut compiler = Compiler::new();
    let table = vec![
        FloatLiteral { lexeme: "1.5".to_string(), bits: 1.5f64.to_bits() },
        FloatLiteral { lexeme: "1.5".to_string(), bits: 0 },
    ];
    let function = compiler.compile("print 1.5\n".to_string(), table);
    assert!(compiler.diagnostics.is_empty());
    assert!(function.chunk.constants[0] == Value::Float(1.5f64.to_bits()));
}

#[test]
fn an_integer_literal_that_does_not_fit_is_reported() {
    let (function, compiler) = compile("print 99999999999999999999\n");
    assert_eq!(
        compiler.diagnostics,
        vec!["[line 1] Error at '99999999999999999999': Integer literal is out of range."]
    );
    assert!(function.had_error());
    let (function, _) = compile("print 9223372036854775807\n");
    assert!(function.chunk.constants[0] == Value::Integer(i64::MAX));
}

#[test]
fn an_assignment_to_what_is_no_variable_is_reported() {
    assert_eq!(
        diagnostics("1 = 2\n"),
        vec!["[line 1] Error at '=': Invalid assignment target."]
    );
}

#[test]
fn a_missing_expression_is_reported() {
    assert_eq!(diagnostics("print )\n"), vec!["[line 1] Error at ')': Expect expression."]);
}

#[test]
fn missing_delimiters_are_reported() {
    assert_eq!(
        diagnostics("print (1 + 2\n"),
        vec!["[line 1] Error at '': Expect ')' after expression."]
    );
    assert_eq!(
        diagnostics("print 1 2\n"),
        vec!["[line 1] Error at '2': Expect newline after value."]
    );
    assert_eq!(
        diagnostics("f { }\nf(1 2)\n"),
        vec!["[line 2] Error at '1': Expected 0 arguments but got 1."]
    );
}

#[test]
fn panic_mode_ends_at_the_next_line() {
    assert_eq!(
        diagnostics("print a b c\nprint d\nprint 1\n"),
        vec![
            "[line 1] Error at 'a': Variable a could not be found.",
            "[line 2] Error at 'd': Variable d could not be found.",
        ]
    );
}

#[test]
fn a_scan_error_is_a_compile_error() {
    let (function, compiler) = compile("print 1 # 2\n");
    assert!(function.had_error());
    assert_eq!(compiler.diagnostics[0], "[line 1] Error at '2': Error at next token.");
}

#[test]
fn a_header_error_of_the_first_pass_stays_among_the_diagnostics() {
    let (_, compiler) = compile("f : x { }\n");
    assert_eq!(
        compiler.diagnostics,
        vec!["[line 1] Error at 'x': Expect variable type annotation."]
    );
}

#[test]
fn a_compiler_can_compile_again() {
    let mut compiler = Compiler::new();
    let first = compiler.compile("int x = \"a\"\n".to_string(), Vec::new());
    assert!(first.had_error());
    assert_eq!(compiler.diagnostics.len(), 1);
    let second = compiler.compile("print 2\n".to_string(), Vec::new());
    assert!(!second.had_error());
    assert!(compiler.diagnostics.is_empty());
    assert_eq!(second.chunk.code, vec![OpConstant, Number(0), OpPrint, OpEol, OpNone, OpReturn]);
}

#[test]
fn compiled_chunks_are_in_order() {
    let sources = [
        "",
        "print 1 + 2\n",
        "int x = 10\nint y = 32\nprint x + y\n",
        "int n = 0\nwhile n < 3 { print n\n n = n + 1\n }\n",
        "if 1 < 2 { print \"a\"\n } else { print \"b\"\n }\n",
        "square : int x { print x * x\n }\nsquare(7)\n",
        "square(7)\nsquare : int x { print x * x\n }\n",
        "while true { while false { if 1 { } else { } } break\n }\n",
        "print 1 and 2 or 3 and (4 or 5)\n",
        "f { g : int a { print a\n }\n g(1)\n }\n",
        "int x = \"hi\"\nprint ) ( +\n{ { {\n",
        "a b c : { } } = = 1.5 \"open",
        "for x in y { }\n-* comment\n *- print -x\n",
    ];
    for source in sources {
        let (function, _) = compile(source);
        check_chunk_in_order(&function.chunk);
        let code = &function.chunk.code;
        assert_eq!(&code[code.len() - 2..], &[OpNone, OpReturn], "{}", source);
    }
}

#[test]
fn precedences_climb_by_one() {
    assert_eq!(Precedence::Lowest.rank(), 0);
    assert_eq!(Precedence::Assignment.rank(), 1);
    assert_eq!(Precedence::Primary.rank(), 10);
    assert_eq!(Precedence::Lowest.next(), Precedence::Assignment);
    assert_eq!(Precedence::Term.next(), Precedence::Factor);
    assert_eq!(Precedence::Equality.next(), Precedence::Comparison);
    assert_eq!(Precedence::Call.next(), Precedence::Primary);
    assert_eq!(Precedence::Primary.next(), Precedence::Primary);
}

#[test]
fn parse_rules_of_the_operators() {
    let compiler = Compiler::new();
    let rank = |kind: TokenType| compiler.get_rule(kind).precedence;
    assert_eq!(rank(TokenType::Plus), Precedence::Term);
    assert_eq!(rank(TokenType::Minus), Precedence::Term);
    assert_eq!(rank(TokenType::Star), Precedence::Factor);
    assert_eq!(rank(TokenType::Slash), Precedence::Factor);
    assert_eq!(rank(TokenType::And), Precedence::And);
    assert_eq!(rank(TokenType::Or), Precedence::Or);
    assert_eq!(rank(TokenType::LeftParen), Precedence::Call);
    for kind in [
        TokenType::EqualEqual,
        TokenType::BangEqual,
        TokenType::Greater,
        TokenType::GreaterEqual,
        TokenType::Less,
        TokenType::LessEqual,
    ] {
        assert_eq!(rank(kind), Precedence::Equality);
    }
    for kind in [TokenType::Newline, TokenType::Eof, TokenType::LeftBrace, TokenType::Equal] {
        assert_eq!(rank(kind), Precedence::Lowest);
    }
}

#[test]
fn locals_are_found_from_the_tail() {
    let mut compiler = Compiler::new();
    let named = |name: &str| Token { kind: TokenType::Identifier, lexeme: name.to_string(), line: 1 };
    assert_eq!(compiler.add_local(named("a"), TokenType::TypeInt), 0);
    assert_eq!(compiler.add_local(named("b"), TokenType::Nil), 1);
    assert_eq!(compiler.add_local(named("a"), TokenType::TypeString), 0);
    assert_eq!(compiler.locals.len(), 2);
    assert_eq!(compiler.locals[0].type_, TokenType::TypeInt);
    assert!(!compiler.locals[0].is_initialized);
    assert_eq!(compiler.find_local_index(&"b".to_string()), Some(1));
    assert_eq!(compiler.find_local_index(&"c".to_string()), None);
}

#[test]
fn signatures_compare_structurally() {
    let mut a = FunctionInfo::new("f".to_string());
    let mut b = FunctionInfo::new("f".to_string());
    assert!(a.same_as(&b));
    a.arg_names.push("x".to_string());
    a.arg_types.push(TokenType::TypeInt);
    assert!(!a.same_as(&b));
    b.arg_names.push("x".to_string());
    b.arg_types.push(TokenType::TypeInt);
    assert!(a.same_as(&b));
    assert!(a.clone().same_as(&a));
    assert!(!FunctionInfo::new("g".to_string()).same_as(&FunctionInfo::new("f".to_string())));
}

#[test]
fn compiles_by_the_classes_it_is_given() {
    let source = "x = 1\nprint x\n";
    let mut compiler = Compiler::new();
    let classified = compiler.compile_classified(source.to_string(), classify(source), Vec::new());
    let (plain, _) = compile(source);
    assert!(classified.same_as(&plain));
    assert!(!classified.had_error());

    let mut compiler = Compiler::new();
    let other = CharClass { letter: false, word: false };
    let unread = compiler.compile_classified(source.to_string(), vec![other; 14], Vec::new());
    assert!(unread.had_error());
    assert_eq!(compiler.diagnostics[0], "[line 1] Error at '=': Error at next token.");
}
