//! The single-pass compiler: a Pratt parser that resolves locals, checks
//! types at assignments and calls, and emits bytecode.
//!
//! Each routine of the compiler has a function of the same shape over the
//! views of the compiler and the parser, named `compiled_..` or
//! `declared_..`, which says what the routine does; [`compiled`] says it of
//! a whole source. Where such a function calls itself on the parser that
//! another one left, it first compares the tokens that are left: that
//! comparison bounds the recursion and nothing else, for the routines show
//! that no step of the compiler brings a token back.
use vstd::prelude::*;
use vstd::string::*;
use crate::chunk::{
    chunk_ok, clone_values, extends, last_line, lemma_patch, lemma_patch_loop, lemma_pool_grows,
    lemma_push_pair, lemma_push_plain, lines_after_write, operand_fits, runs_ascending, Chunk,
    ChunkView, OpCode,
};
use crate::object::{function_ok, FunctionInfo, FunctionInfoView, FunctionView, ObjFunction};
use crate::parser::{report_text, texts_view, weight, Parser, ParserView};
use crate::scanner::{
    kind_text, none_of, type_accepts, CharClass, SourceView, Token, TokenType, TokenView,
};
use crate::text::{integer_value, nat_digits, parse_integer, usize_to_string};
use crate::value::{kind_name, value_ok, Value, ValueView};

verus! {

/// The binding strength of an operator, from the loosest to the tightest.
#[derive(Copy, Clone, Debug, PartialEq, Eq, Structural)]
pub enum Precedence {
    Lowest,
    Assignment,
    Or,
    And,
    Equality,
    Comparison,
    Term,
    Factor,
    Unary,
    Call,
    Primary,
}

impl Precedence {
    /// The place of the precedence on the ladder, from zero.
    pub open spec fn spec_rank(&self) -> u8 {
        match self {
            Precedence::Lowest => 0,
            Precedence::Assignment => 1,
            Precedence::Or => 2,
            Precedence::And => 3,
            Precedence::Equality => 4,
            Precedence::Comparison => 5,
            Precedence::Term => 6,
            Precedence::Factor => 7,
            Precedence::Unary => 8,
            Precedence::Call => 9,
            Precedence::Primary => 10,
        }
    }

    /// The place of the precedence on the ladder, from zero.
    #[verifier::when_used_as_spec(spec_rank)]
    pub fn rank(&self) -> (r: u8)
        ensures
            r == self.spec_rank(),
    {
        match self {
            Precedence::Lowest => 0,
            Precedence::Assignment => 1,
            Precedence::Or => 2,
            Precedence::And => 3,
            Precedence::Equality => 4,
            Precedence::Comparison => 5,
            Precedence::Term => 6,
            Precedence::Factor => 7,
            Precedence::Unary => 8,
            Precedence::Call => 9,
            Precedence::Primary => 10,
        }
    }

    /// The next tighter precedence; the tightest stays what it is.
    pub fn next(&self) -> (r: Precedence)
        ensures
            r == tighter(*self),
            r.spec_rank() >= 1,
    {
        match self {
            Precedence::Lowest => Precedence::Assignment,
            Precedence::Assignment => Precedence::Or,
            Precedence::Or => Precedence::And,
            Precedence::And => Precedence::Equality,
            Precedence::Equality => Precedence::Comparison,
            Precedence::Comparison => Precedence::Term,
            Precedence::Term => Precedence::Factor,
            Precedence::Factor => Precedence::Unary,
            Precedence::Unary => Precedence::Call,
            Precedence::Call => Precedence::Primary,
            Precedence::Primary => Precedence::Primary,
        }
    }
}

/// The parse routine that a rule names.
#[derive(Copy, Clone, Debug, PartialEq, Eq, Structural)]
pub enum ParseFn {
    Nothing,
    Float,
    Integer,
    String,
    Literal,
    Grouping,
    Call,
    Unary,
    Binary,
    And,
    Or,
    Variable,
}

/// What a token means to the expression parser: how it starts an
/// expression, how it continues one, and how tightly it binds then.
#[derive(Copy, Clone, Debug, PartialEq, Eq, Structural)]
pub struct ParseRule {
    pub precedence: Precedence,
    pub prefix: ParseFn,
    pub infix: ParseFn,
}

/// The parse rule of each token kind.
pub open spec fn rule_of(kind: TokenType) -> ParseRule {
    match kind {
        TokenType::Float => ParseRule {
            precedence: Precedence::Lowest,
            prefix: ParseFn::Float,
            infix: ParseFn::Nothing,
        },
        TokenType::Integer => ParseRule {
            precedence: Precedence::Lowest,
            prefix: ParseFn::Integer,
            infix: ParseFn::Nothing,
        },
        TokenType::String => ParseRule {
            precedence: Precedence::Lowest,
            prefix: ParseFn::String,
            infix: ParseFn::Nothing,
        },
        TokenType::True | TokenType::False | TokenType::Nil => ParseRule {
            precedence: Precedence::Lowest,
            prefix: ParseFn::Literal,
            infix: ParseFn::Nothing,
        },
        TokenType::LeftParen => ParseRule {
            precedence: Precedence::Call,
            prefix: ParseFn::Grouping,
            infix: ParseFn::Call,
        },
        TokenType::Minus => ParseRule {
            precedence: Precedence::Term,
            prefix: ParseFn::Unary,
            infix: ParseFn::Binary,
        },
        TokenType::Plus => ParseRule {
            precedence: Precedence::Term,
            prefix: ParseFn::Nothing,
            infix: ParseFn::Binary,
        },
        TokenType::Star | TokenType::Slash => ParseRule {
            precedence: Precedence::Factor,
            prefix: ParseFn::Nothing,
            infix: ParseFn::Binary,
        },
        TokenType::And => ParseRule {
            precedence: Precedence::And,
            prefix: ParseFn::Nothing,
            infix: ParseFn::And,
        },
        TokenType::Or => ParseRule {
            precedence: Precedence::Or,
            prefix: ParseFn::Nothing,
            infix: ParseFn::Or,
        },
        TokenType::EqualEqual
        | TokenType::BangEqual
        | TokenType::Greater
        | TokenType::GreaterEqual
        | TokenType::Less
        | TokenType::LessEqual => ParseRule {
            precedence: Precedence::Equality,
            prefix: ParseFn::Nothing,
            infix: ParseFn::Binary,
        },
        TokenType::Bang => ParseRule {
            precedence: Precedence::Unary,
            prefix: ParseFn::Unary,
            infix: ParseFn::Nothing,
        },
        TokenType::Identifier => ParseRule {
            precedence: Precedence::Lowest,
            prefix: ParseFn::Variable,
            infix: ParseFn::Nothing,
        },
        _ => ParseRule {
            precedence: Precedence::Lowest,
            prefix: ParseFn::Nothing,
            infix: ParseFn::Nothing,
        },
    }
}

/// The opcode that a binary operator compiles to.
pub open spec fn binary_opcode(kind: TokenType) -> Option<OpCode> {
    match kind {
        TokenType::Plus => Some(OpCode::OpAdd),
        TokenType::Minus => Some(OpCode::OpSubtract),
        TokenType::Star => Some(OpCode::OpMultiply),
        TokenType::Slash => Some(OpCode::OpDivide),
        TokenType::BangEqual => Some(OpCode::OpNotEqual),
        TokenType::EqualEqual => Some(OpCode::OpEqual),
        TokenType::Greater => Some(OpCode::OpGreater),
        TokenType::GreaterEqual => Some(OpCode::OpGreaterEqual),
        TokenType::Less => Some(OpCode::OpLess),
        TokenType::LessEqual => Some(OpCode::OpLessEqual),
        _ => None,
    }
}

/// A local variable: its name, the depth of the scope that declared it, its
/// declared type, and whether its initializer has ended.
#[derive(Debug)]
pub struct Local {
    pub name: Token,
    pub depth: usize,
    pub type_: TokenType,
    pub is_initialized: bool,
}

/// The mathematical value of a [`Local`].
pub struct LocalView {
    pub name: TokenView,
    pub depth: usize,
    pub type_: TokenType,
    pub is_initialized: bool,
}

impl View for Local {
    type V = LocalView;

    open spec fn view(&self) -> LocalView {
        LocalView {
            name: self.name@,
            depth: self.depth,
            type_: self.type_,
            is_initialized: self.is_initialized,
        }
    }
}

impl Clone for Local {
    fn clone(&self) -> (r: Local)
        ensures
            r@ == self@,
    {
        Local {
            name: self.name.clone(),
            depth: self.depth,
            type_: self.type_,
            is_initialized: self.is_initialized,
        }
    }
}

/// What kind of function a compiler compiles.
#[derive(Clone, Copy, Debug, PartialEq, Eq, Structural)]
pub enum FunctionType {
    Function,
    Script,
    Method,
}

/// The constant that was last assigned to a named local.
#[derive(Debug)]
pub struct Assigned {
    pub name: String,
    pub value: Value,
}

/// The mathematical value of an [`Assigned`].
pub struct AssignedView {
    pub name: Seq<char>,
    pub value: ValueView,
}

impl View for Assigned {
    type V = AssignedView;

    open spec fn view(&self) -> AssignedView {
        AssignedView { name: self.name@, value: self.value@ }
    }
}

/// The value of a float literal: its text in the source, and the bits of
/// the float that the host reads from that text.
#[derive(Debug)]
pub struct FloatLiteral {
    pub lexeme: String,
    pub bits: u64,
}

/// The mathematical value of a [`FloatLiteral`].
pub struct FloatLiteralView {
    pub lexeme: Seq<char>,
    pub bits: u64,
}

impl View for FloatLiteral {
    type V = FloatLiteralView;

    open spec fn view(&self) -> FloatLiteralView {
        FloatLiteralView { lexeme: self.lexeme@, bits: self.bits }
    }
}

impl Clone for FloatLiteral {
    fn clone(&self) -> (r: FloatLiteral)
        ensures
            r@ == self@,
    {
        FloatLiteral { lexeme: self.lexeme.clone(), bits: self.bits }
    }
}

/// The compiler of one function: the function it builds, its locals, the
/// signatures of the global functions, and the constants last assigned to
/// its locals.
#[derive(Debug)]
pub struct Compiler {
    pub function: ObjFunction,
    pub function_type: FunctionType,
    pub locals: Vec<Local>,
    /// The signatures of the global functions, in the order of declaration;
    /// a later one of the same name replaces an earlier one.
    pub functions: Vec<FunctionInfo>,
    /// The constants assigned to named locals, in the order of assignment.
    pub values: Vec<Assigned>,
    pub scope_depth: usize,
    /// The values of the source's float literals.
    pub floats: Vec<FloatLiteral>,
    /// The diagnostics of the last compilation, oldest first.
    pub diagnostics: Vec<String>,
}

/// The mathematical value of a [`Compiler`].
pub struct CompilerView {
    pub function: FunctionView,
    pub function_type: FunctionType,
    pub locals: Seq<LocalView>,
    pub functions: Seq<FunctionInfoView>,
    pub values: Seq<AssignedView>,
    pub scope_depth: usize,
    pub floats: Seq<FloatLiteralView>,
    pub diagnostics: Seq<Seq<char>>,
}

/// The views of a sequence of locals.
pub open spec fn locals_view(locals: Seq<Local>) -> Seq<LocalView> {
    Seq::new(locals.len(), |i: int| locals[i]@)
}

/// The views of a sequence of signatures.
pub open spec fn infos_view(infos: Seq<FunctionInfo>) -> Seq<FunctionInfoView> {
    Seq::new(infos.len(), |i: int| infos[i]@)
}

/// The views of a sequence of assignments.
pub open spec fn assigned_view(values: Seq<Assigned>) -> Seq<AssignedView> {
    Seq::new(values.len(), |i: int| values[i]@)
}

/// The views of a table of float literals.
pub open spec fn floats_view(floats: Seq<FloatLiteral>) -> Seq<FloatLiteralView> {
    Seq::new(floats.len(), |i: int| floats[i]@)
}

impl View for Compiler {
    type V = CompilerView;

    open spec fn view(&self) -> CompilerView {
        CompilerView {
            function: self.function@,
            function_type: self.function_type,
            locals: locals_view(self.locals@),
            functions: infos_view(self.functions@),
            values: assigned_view(self.values@),
            scope_depth: self.scope_depth,
            floats: floats_view(self.floats@),
            diagnostics: texts_view(self.diagnostics@),
        }
    }
}

/// The index of the last local of the given name.
pub open spec fn find_local(locals: Seq<LocalView>, name: Seq<char>) -> Option<int>
    decreases locals.len(),
{
    if locals.len() == 0 {
        None
    } else if locals.last().name.lexeme == name {
        Some(locals.len() - 1)
    } else {
        find_local(locals.drop_last(), name)
    }
}

/// The signature that was last recorded under the given name.
pub open spec fn find_function(functions: Seq<FunctionInfoView>, name: Seq<char>) -> Option<
    FunctionInfoView,
>
    decreases functions.len(),
{
    if functions.len() == 0 {
        None
    } else if functions.last().name == name {
        Some(functions.last())
    } else {
        find_function(functions.drop_last(), name)
    }
}

/// The constant that was last assigned to the local of the given name.
pub open spec fn find_value(values: Seq<AssignedView>, name: Seq<char>) -> Option<ValueView>
    decreases values.len(),
{
    if values.len() == 0 {
        None
    } else if values.last().name == name {
        Some(values.last().value)
    } else {
        find_value(values.drop_last(), name)
    }
}

/// The bits of the float literal with the given text, from the first entry
/// of the table that has this text.
pub open spec fn find_float(floats: Seq<FloatLiteralView>, lexeme: Seq<char>) -> Option<u64>
    decreases floats.len(),
{
    if floats.len() == 0 {
        None
    } else if floats.first().lexeme == lexeme {
        Some(floats.first().bits)
    } else {
        find_float(floats.drop_first(), lexeme)
    }
}

/// How many locals at the end of the sequence were declared in a scope
/// deeper than `depth`.
pub open spec fn trailing_deeper(locals: Seq<LocalView>, depth: usize) -> nat
    decreases locals.len(),
{
    if locals.len() > 0 && locals.last().depth > depth {
        trailing_deeper(locals.drop_last(), depth) + 1
    } else {
        0
    }
}

/// The code `code` followed by `n` pop instructions.
pub open spec fn with_pops(code: Seq<OpCode>, n: nat) -> Seq<OpCode>
    decreases n,
{
    if n == 0 {
        code
    } else {
        with_pops(code, (n - 1) as nat).push(OpCode::OpPop)
    }
}

/// The line table after `n` more instructions on `line` were written.
pub open spec fn lines_after_writes(lines: Seq<usize>, line: usize, n: nat) -> Seq<usize>
    decreases n,
{
    if n == 0 {
        lines
    } else {
        lines_after_write(lines_after_writes(lines, line, (n - 1) as nat), line)
    }
}

/// The message for a value of the wrong type in an assignment.
pub open spec fn mismatch_message(name: Seq<char>, declared: TokenType, value: ValueView) -> Seq<
    char,
> {
    "Variable "@ + name + " is of type "@ + kind_text(declared) + " but value is of type "@
        + kind_name(value)
}

impl ChunkView {
    /// The chunk after an instruction word on the given line was written.
    pub open spec fn written(self, byte: OpCode, line: usize) -> ChunkView {
        ChunkView {
            code: self.code.push(byte),
            lines: lines_after_write(self.lines, line),
            ..self
        }
    }

    /// The chunk after a constant was added to its pool.
    pub open spec fn with_constant(self, value: ValueView) -> ChunkView {
        ChunkView { constants: self.constants.push(value), ..self }
    }

    /// The chunk after the word at `index` was replaced.
    pub open spec fn patched(self, index: int, byte: OpCode) -> ChunkView {
        ChunkView { code: self.code.update(index, byte), ..self }
    }
}

impl CompilerView {
    /// The compiler of a script before anything was compiled: an empty
    /// function, no locals.
    pub open spec fn new() -> CompilerView {
        CompilerView {
            function: ObjFunction::new_view(),
            function_type: FunctionType::Script,
            locals: Seq::empty(),
            functions: Seq::empty(),
            values: Seq::empty(),
            scope_depth: 0,
            floats: Seq::empty(),
            diagnostics: Seq::empty(),
        }
    }

    /// The compiler with another chunk for its function.
    pub open spec fn with_chunk(self, chunk: ChunkView) -> CompilerView {
        CompilerView { function: FunctionView { chunk: chunk, ..self.function }, ..self }
    }

    /// The chunk of the function that is being compiled.
    pub open spec fn chunk(self) -> ChunkView {
        self.function.chunk
    }

    /// The compiler after it wrote an opcode without operand.
    #[verifier::opaque]
    pub open spec fn emit(self, byte: OpCode, line: usize) -> CompilerView {
        self.with_chunk(self.chunk().written(byte, line))
    }

    /// The compiler after it wrote an opcode and its operand.
    #[verifier::opaque]
    pub open spec fn emit_pair(self, op: OpCode, operand: usize, line: usize) -> CompilerView {
        self.with_chunk(self.chunk().written(op, line).written(OpCode::Number(operand), line))
    }

    /// The compiler after it added a constant and wrote the instruction
    /// that loads it.
    #[verifier::opaque]
    pub open spec fn emit_constant(self, value: ValueView, line: usize) -> CompilerView {
        self.with_chunk(self.chunk().with_constant(value)).emit_pair(
            OpCode::OpConstant,
            self.chunk().constants.len() as usize,
            line,
        )
    }

    /// The compiler after it set the placeholder at `offset` to the
    /// distance from the word behind it to the end of the code.
    #[verifier::opaque]
    pub open spec fn patch_jump(self, offset: usize) -> CompilerView {
        self.with_chunk(
            self.chunk().patched(
                offset as int,
                OpCode::Number((self.chunk().code.len() - offset - 1) as usize),
            ),
        )
    }

    /// The compiler and the parser after an assignment to the local in the
    /// given slot: the constant added last stands for the value, a value
    /// that the local's declared type does not accept is reported, the
    /// assignment is recorded and the set instruction written. Nothing
    /// happens for a slot that holds no local, and an empty pool is
    /// reported.
    #[verifier::opaque]
    pub open spec fn set_variable(self, p: ParserView, register: usize) -> (
        CompilerView,
        ParserView,
    ) {
        let pool = self.chunk().constants;
        if register >= self.locals.len() {
            (self, p)
        } else if pool.len() == 0 {
            (self, p.reported(p.previous, "No value found to assign to the variable."@))
        } else {
            let local = self.locals[register as int];
            (
                (CompilerView {
                    values: self.values.push(
                        AssignedView { name: local.name.lexeme, value: pool.last() },
                    ),
                    ..self
                }).emit_pair(OpCode::OpSet, register, p.previous.line),
                if type_accepts(local.type_, pool.last()) {
                    p
                } else {
                    p.reported(
                        p.previous,
                        mismatch_message(local.name.lexeme, local.type_, pool.last()),
                    )
                },
            )
        }
    }

    /// The slot of the local of the given name, and the parser after the
    /// lookup: a local that is read inside its own initializer is reported,
    /// and so is a name without local, for which the slot is the largest
    /// number.
    #[verifier::opaque]
    pub open spec fn resolved(self, p: ParserView, name: Seq<char>) -> (usize, ParserView) {
        match find_local(self.locals, name) {
            Some(i) => (
                i as usize,
                if self.locals[i].is_initialized {
                    p
                } else {
                    p.reported(
                        p.previous,
                        "Variable "@ + name + " is used before being initialized."@,
                    )
                },
            ),
            None => (
                usize::MAX,
                p.reported(p.previous, "Variable "@ + name + " could not be found."@),
            ),
        }
    }

    /// The signature of the function of the given name, and the parser
    /// after the lookup: a name without function is reported at the token
    /// before the previous one, and its signature is empty.
    #[verifier::opaque]
    pub open spec fn function_info(self, p: ParserView, name: Seq<char>) -> (
        FunctionInfoView,
        ParserView,
    ) {
        match find_function(self.functions, name) {
            Some(info) => (info, p),
            None => (
                FunctionInfoView {
                    name: Seq::empty(),
                    arg_names: Seq::empty(),
                    arg_types: Seq::empty(),
                },
                p.reported(p.previous_2, "Function "@ + name + " could not be found."@),
            ),
        }
    }

    /// The compiler after it declared a local of the given name, or found
    /// the one that has the name already, and the local's slot.
    #[verifier::opaque]
    pub open spec fn add_local(self, name: TokenView, var_type: TokenType) -> (CompilerView, usize) {
        match find_local(self.locals, name.lexeme) {
            Some(i) => (self, i as usize),
            None => (
                CompilerView {
                    locals: self.locals.push(
                        LocalView {
                            name: name,
                            depth: self.scope_depth,
                            type_: var_type,
                            is_initialized: false,
                        },
                    ),
                    ..self
                },
                self.locals.len() as usize,
            ),
        }
    }

    /// The compiler after it entered a scope.
    pub open spec fn begin_scope(self) -> CompilerView {
        CompilerView {
            scope_depth: if self.scope_depth < usize::MAX {
                (self.scope_depth + 1) as usize
            } else {
                usize::MAX
            },
            ..self
        }
    }

    /// The compiler after it left a scope: the locals that were declared in
    /// it are dropped, and one pop instruction is written for each.
    #[verifier::opaque]
    pub open spec fn end_scope(self, line: usize) -> CompilerView {
        let depth = if self.scope_depth > 0 {
            (self.scope_depth - 1) as usize
        } else {
            0usize
        };
        let dropped = trailing_deeper(self.locals, depth);
        CompilerView {
            scope_depth: depth,
            locals: self.locals.subrange(0, self.locals.len() - dropped),
            ..self.with_chunk(
                ChunkView {
                    code: with_pops(self.chunk().code, dropped),
                    lines: lines_after_writes(self.chunk().lines, line, dropped),
                    ..self.chunk()
                },
            )
        }
    }

    /// The compiler after it wrote the jump back to `loop_start`.
    pub open spec fn emit_loop(self, loop_start: usize, line: usize) -> CompilerView {
        self.emit_pair(
            OpCode::OpLoop,
            (self.chunk().code.len() - loop_start + 2) as usize,
            line,
        )
    }

    /// The compiler of a function that is defined inside this one: it
    /// starts with this compiler's locals, constants, signatures and float
    /// literals, in a scope of its own.
    pub open spec fn nested(self, name: Seq<char>, function_type: FunctionType) -> CompilerView {
        CompilerView {
            function: FunctionView {
                name: name,
                chunk: ChunkView { constants: self.chunk().constants, ..ChunkView::empty() },
                function_info: FunctionInfoView {
                    name: Seq::empty(),
                    arg_names: Seq::empty(),
                    arg_types: Seq::empty(),
                },
                functions_count: self.function.functions_count,
            },
            function_type: function_type,
            locals: self.locals,
            functions: self.functions,
            values: Seq::empty(),
            scope_depth: 1,
            floats: self.floats,
            diagnostics: Seq::empty(),
        }
    }

    /// The compiler with the local in the given slot marked as initialized;
    /// unchanged for a slot that holds no local.
    #[verifier::opaque]
    pub open spec fn initialized(self, register: usize) -> CompilerView {
        if register < self.locals.len() {
            CompilerView {
                locals: self.locals.update(
                    register as int,
                    LocalView { is_initialized: true, ..self.locals[register as int] },
                ),
                ..self
            }
        } else {
            self
        }
    }
}

impl Compiler {
    /// The chunk that is being compiled is in order, and its last line is
    /// not behind `line`.
    pub open spec fn ready(&self, line: usize) -> bool {
        chunk_ok(self@.chunk()) && last_line(self@.chunk().lines) <= line
    }

    /// A compiler for a script: an empty function, no locals.
    pub fn new() -> (r: Compiler)
        ensures
            r@ == CompilerView::new(),
            r.ready(0),
    {
        reveal(chunk_ok);
        let r = Compiler {
            function: ObjFunction::new(),
            function_type: FunctionType::Script,
            locals: Vec::new(),
            functions: Vec::new(),
            values: Vec::new(),
            scope_depth: 0,
            floats: Vec::new(),
            diagnostics: Vec::new(),
        };
        assert(r@.locals =~= Seq::<LocalView>::empty());
        assert(r@.functions =~= Seq::<FunctionInfoView>::empty());
        assert(r@.values =~= Seq::<AssignedView>::empty());
        assert(r@.floats =~= Seq::<FloatLiteralView>::empty());
        assert(r@.diagnostics =~= Seq::<Seq<char>>::empty());
        r
    }

    /// The chunk that is being compiled.
    pub fn immut_current_chunk(&self) -> (r: &Chunk)
        ensures
            r@ == self@.chunk(),
    {
        &self.function.chunk
    }

    /// The chunk that is being compiled, to write to.
    pub fn current_chunk(&mut self) -> (r: &mut Chunk)
        ensures
            *r == old(self).function.chunk,
            final(self).function.chunk == *final(r),
            final(self).function.name == old(self).function.name,
            final(self).function.function_info == old(self).function.function_info,
            final(self).function.functions_count == old(self).function.functions_count,
            final(self).function_type == old(self).function_type,
            final(self).locals == old(self).locals,
            final(self).functions == old(self).functions,
            final(self).values == old(self).values,
            final(self).scope_depth == old(self).scope_depth,
            final(self).floats == old(self).floats,
            final(self).diagnostics == old(self).diagnostics,
    {
        &mut self.function.chunk
    }

    /// The parse rule of a token kind.
    pub fn get_rule(&self, kind: TokenType) -> (r: ParseRule)
        ensures
            r == rule_of(kind),
    {
        match kind {
            TokenType::Float => ParseRule {
                precedence: Precedence::Lowest,
                prefix: ParseFn::Float,
                infix: ParseFn::Nothing,
            },
            TokenType::Integer => ParseRule {
                precedence: Precedence::Lowest,
                prefix: ParseFn::Integer,
                infix: ParseFn::Nothing,
            },
            TokenType::String => ParseRule {
                precedence: Precedence::Lowest,
                prefix: ParseFn::String,
                infix: ParseFn::Nothing,
            },
            TokenType::True => ParseRule {
                precedence: Precedence::Lowest,
                prefix: ParseFn::Literal,
                infix: ParseFn::Nothing,
            },
            TokenType::False => ParseRule {
                precedence: Precedence::Lowest,
                prefix: ParseFn::Literal,
                infix: ParseFn::Nothing,
            },
            TokenType::Nil => ParseRule {
                precedence: Precedence::Lowest,
                prefix: ParseFn::Literal,
                infix: ParseFn::Nothing,
            },
            TokenType::LeftParen => ParseRule {
                precedence: Precedence::Call,
                prefix: ParseFn::Grouping,
                infix: ParseFn::Call,
            },
            TokenType::Minus => ParseRule {
                precedence: Precedence::Term,
                prefix: ParseFn::Unary,
                infix: ParseFn::Binary,
            },
            TokenType::Plus => ParseRule {
                precedence: Precedence::Term,
                prefix: ParseFn::Nothing,
                infix: ParseFn::Binary,
            },
            TokenType::Star => ParseRule {
                precedence: Precedence::Factor,
                prefix: ParseFn::Nothing,
                infix: ParseFn::Binary,
            },
            TokenType::Slash => ParseRule {
                precedence: Precedence::Factor,
                prefix: ParseFn::Nothing,
                infix: ParseFn::Binary,
            },
            TokenType::And => ParseRule {
                precedence: Precedence::And,
                prefix: ParseFn::Nothing,
                infix: ParseFn::And,
            },
            TokenType::Or => ParseRule {
                precedence: Precedence::Or,
                prefix: ParseFn::Nothing,
                infix: ParseFn::Or,
            },
            TokenType::EqualEqual => ParseRule {
                precedence: Precedence::Equality,
                prefix: ParseFn::Nothing,
                infix: ParseFn::Binary,
            },
            TokenType::BangEqual => ParseRule {
                precedence: Precedence::Equality,
                prefix: ParseFn::Nothing,
                infix: ParseFn::Binary,
            },
            TokenType::Greater => ParseRule {
                precedence: Precedence::Equality,
                prefix: ParseFn::Nothing,
                infix: ParseFn::Binary,
            },
            TokenType::GreaterEqual => ParseRule {
                precedence: Precedence::Equality,
                prefix: ParseFn::Nothing,
                infix: ParseFn::Binary,
            },
            TokenType::Less => ParseRule {
                precedence: Precedence::Equality,
                prefix: ParseFn::Nothing,
                infix: ParseFn::Binary,
            },
            TokenType::LessEqual => ParseRule {
                precedence: Precedence::Equality,
                prefix: ParseFn::Nothing,
                infix: ParseFn::Binary,
            },
            TokenType::Bang => ParseRule {
                precedence: Precedence::Unary,
                prefix: ParseFn::Unary,
                infix: ParseFn::Nothing,
            },
            TokenType::Identifier => ParseRule {
                precedence: Precedence::Lowest,
                prefix: ParseFn::Variable,
                infix: ParseFn::Nothing,
            },
            _ => ParseRule {
                precedence: Precedence::Lowest,
                prefix: ParseFn::Nothing,
                infix: ParseFn::Nothing,
            },
        }
    }

    /// Writes an opcode that carries no operand.
    pub fn emit_byte(&mut self, byte: OpCode, line: usize)
        requires
            old(self).ready(line),
            !(byte is Number),
            !byte.spec_has_operand(),
        ensures
            final(self).ready(line),
            final(self)@ == old(self)@.emit(byte, line),
            extends(old(self)@.chunk(), final(self)@.chunk()),
            final(self)@.chunk().code.len() == old(self)@.chunk().code.len() + 1,
    {
        proof {
            reveal(chunk_ok);
            reveal(CompilerView::emit);
            lemma_push_plain(
                self@.chunk().code,
                byte,
                self@.chunk().constants.len() as int,
            );
        }
        self.function.chunk.write(byte, line);
    }

    /// Writes an opcode and its operand.
    pub fn emit_2_bytes(&mut self, byte1: OpCode, operand: usize, line: usize)
        requires
            old(self).ready(line),
            operand_fits(
                byte1,
                operand,
                old(self)@.chunk().code.len() as int,
                old(self)@.chunk().constants.len() as int,
            ),
        ensures
            final(self).ready(line),
            final(self)@ == old(self)@.emit_pair(byte1, operand, line),
            extends(old(self)@.chunk(), final(self)@.chunk()),
            final(self)@.chunk().code.len() == old(self)@.chunk().code.len() + 2,
            final(self)@.chunk().code[old(self)@.chunk().code.len() as int] == byte1,
            final(self)@.chunk().constants == old(self)@.chunk().constants,
    {
        proof {
            reveal(chunk_ok);
            reveal(CompilerView::emit_pair);
            lemma_push_pair(
                self@.chunk().code,
                byte1,
                operand,
                self@.chunk().constants.len() as int,
            );
        }
        self.function.chunk.write(byte1, line);
        self.function.chunk.write(OpCode::Number(operand), line);
    }

    /// Adds a constant to the pool and returns its index.
    pub fn make_constant(&mut self, value: Value) -> (r: usize)
        requires
            value_ok(value@),
            chunk_ok(old(self)@.chunk()),
        ensures
            chunk_ok(final(self)@.chunk()),
            r == old(self)@.chunk().constants.len(),
            final(self)@ == old(self)@.with_chunk(old(self)@.chunk().with_constant(value@)),
            extends(old(self)@.chunk(), final(self)@.chunk()),
    {
        proof {
            reveal(chunk_ok);
            lemma_pool_grows(
                self@.chunk().code,
                self@.chunk().constants.len() as int,
                (self@.chunk().constants.len() + 1) as int,
            );
        }
        self.function.chunk.add_constant(value)
    }

    /// Adds a constant to the pool and writes the instruction that loads it.
    pub fn emit_constant(&mut self, value: Value, line: usize)
        requires
            value_ok(value@),
            old(self).ready(line),
        ensures
            final(self).ready(line),
            final(self)@ == old(self)@.emit_constant(value@, line),
            extends(old(self)@.chunk(), final(self)@.chunk()),
            final(self)@.chunk().constants == old(self)@.chunk().constants.push(value@),
    {
        proof {
            reveal(CompilerView::emit_constant);
        }
        let constant: usize = self.make_constant(value);
        self.emit_2_bytes(OpCode::OpConstant, constant, line);
    }

    /// Writes the default end of a function: it returns none.
    pub fn emit_return(&mut self, line: usize)
        requires
            old(self).ready(line),
        ensures
            final(self).ready(line),
            final(self)@ == old(self)@.emit(OpCode::OpNone, line).emit(OpCode::OpReturn, line),
            extends(old(self)@.chunk(), final(self)@.chunk()),
    {
        self.emit_byte(OpCode::OpNone, line);
        self.emit_byte(OpCode::OpReturn, line);
    }

    /// Writes the end of an expression statement.
    pub fn emit_eol(&mut self, line: usize)
        requires
            old(self).ready(line),
        ensures
            final(self).ready(line),
            final(self)@ == old(self)@.emit(OpCode::OpEol, line),
            extends(old(self)@.chunk(), final(self)@.chunk()),
    {
        self.emit_byte(OpCode::OpEol, line);
    }

    /// Writes a forward jump with a placeholder for its offset, and returns
    /// the index of the placeholder.
    pub fn emit_jump(&mut self, instruction: OpCode, line: usize) -> (r: usize)
        requires
            old(self).ready(line),
            instruction.is_forward_jump(),
        ensures
            final(self).ready(line),
            r == old(self)@.chunk().code.len() + 1,
            final(self)@ == old(self)@.emit_pair(instruction, 0, line),
            extends(old(self)@.chunk(), final(self)@.chunk()),
            final(self)@.chunk().code.len() == old(self)@.chunk().code.len() + 2,
            final(self)@.chunk().code[r - 1] == instruction,
    {
        self.emit_2_bytes(instruction, 0, line);
        self.function.chunk.code.len() - 1
    }

    /// Sets the placeholder at `offset` to the distance from the word
    /// behind it to the end of the code.
    pub fn patch_jump(&mut self, offset: usize)
        requires
            chunk_ok(old(self)@.chunk()),
            0 < offset < old(self)@.chunk().code.len(),
            old(self)@.chunk().code[offset - 1].is_forward_jump(),
        ensures
            chunk_ok(final(self)@.chunk()),
            final(self)@ == old(self)@.patch_jump(offset),
            final(self)@.chunk().lines == old(self)@.chunk().lines,
            final(self)@.chunk().constants == old(self)@.chunk().constants,
            final(self)@.chunk().code.len() == old(self)@.chunk().code.len(),
            forall|i: int|
                0 <= i < old(self)@.chunk().code.len() && i != offset ==> #[trigger] final(self)@.chunk().code[i]
                    == old(self)@.chunk().code[i],
    {
        let jump: usize = self.function.chunk.code.len() - offset - 1;
        proof {
            reveal(chunk_ok);
            reveal(CompilerView::patch_jump);
            lemma_patch(
                self@.chunk().code,
                offset as int,
                jump,
                self@.chunk().constants.len() as int,
            );
        }
        self.function.chunk.code.set(offset, OpCode::Number(jump));
    }

    /// Enters a scope.
    pub fn begin_scope(&mut self)
        ensures
            final(self)@ == old(self)@.begin_scope(),
            final(self)@.function == old(self)@.function,
    {
        if self.scope_depth < usize::MAX {
            self.scope_depth = self.scope_depth + 1;
        }
    }
}


impl Compiler {
    /// Leaves a scope: the locals that were declared in it are dropped, and
    /// one pop instruction is written for each.
    pub fn end_scope(&mut self, line: usize)
        requires
            old(self).ready(line),
        ensures
            final(self).ready(line),
            final(self)@ == old(self)@.end_scope(line),
            extends(old(self)@.chunk(), final(self)@.chunk()),
    {
        reveal(CompilerView::end_scope);
        reveal(CompilerView::emit);
        if self.scope_depth > 0 {
            self.scope_depth = self.scope_depth - 1;
        }
        let ghost before = old(self)@.locals;
        let ghost depth = self.scope_depth;
        let ghost total = trailing_deeper(before, self.scope_depth);
        let ghost mut done: nat = 0;
        proof {
            assert(before.subrange(0, before.len() as int) =~= before);
            lemma_trailing_deeper_bound(before, self.scope_depth);
        }
        while self.locals.len() > 0 && self.locals[self.locals.len() - 1].depth > self.scope_depth
            invariant
                self.ready(line),
                self.scope_depth == depth,
                done <= total <= before.len(),
                self@.locals == before.subrange(0, before.len() - done),
                trailing_deeper(self@.locals, self.scope_depth) + done == total,
                self@ == (CompilerView {
                    scope_depth: self.scope_depth,
                    locals: self@.locals,
                    ..old(self)@.with_chunk(
                        ChunkView {
                            code: with_pops(old(self)@.chunk().code, done),
                            lines: lines_after_writes(old(self)@.chunk().lines, line, done),
                            ..old(self)@.chunk()
                        },
                    )
                }),
                extends(old(self)@.chunk(), self@.chunk()),
            decreases self.locals.len(),
        {
            proof {
                reveal(CompilerView::emit);
            }
            self.emit_byte(OpCode::OpPop, line);
            let ghost locals_before = self@.locals;
            assert(locals_before.last() == self.locals@[self.locals@.len() - 1]@);
            self.locals.pop();
            proof {
                assert(self@.locals =~= locals_before.drop_last());
                assert(self@.locals =~= before.subrange(0, before.len() - (done + 1)));
                done = done + 1;
            }
        }
        proof {
            if self.locals@.len() > 0 {
                assert(self@.locals.last() == self.locals@[self.locals@.len() - 1]@);
            }
            assert(trailing_deeper(self@.locals, self.scope_depth) == 0);
        }
    }

    /// Declares a local of the given name, or finds the one that has the
    /// name already, and returns its index.
    pub fn add_local(&mut self, name: Token, var_type: TokenType) -> (r: usize)
        ensures
            (final(self)@, r) == old(self)@.add_local(name@, var_type),
            final(self)@.function == old(self)@.function,
            r < final(self)@.locals.len(),
            old(self)@.locals.len() <= final(self)@.locals.len(),
    {
        reveal(CompilerView::add_local);
        match self.find_local_index(&name.lexeme) {
            Some(i) => i,
            None => {
                let local = Local {
                    name,
                    depth: self.scope_depth,
                    type_: var_type,
                    is_initialized: false,
                };
                self.locals.push(local);
                assert(self@.locals =~= old(self)@.locals.push(local@));
                self.locals.len() - 1
            },
        }
    }

    /// The index of the last local of the given name.
    pub fn find_local_index(&self, name: &String) -> (r: Option<usize>)
        ensures
            match find_local(self@.locals, name@) {
                Some(i) => r matches Some(k) && k == i && 0 <= i < self@.locals.len(),
                None => r is None,
            },
    {
        let mut i: usize = self.locals.len();
        assert(self@.locals.subrange(0, i as int) =~= self@.locals);
        while i > 0
            invariant
                i <= self.locals.len(),
                find_local(self@.locals, name@) == find_local(
                    self@.locals.subrange(0, i as int),
                    name@,
                ),
            decreases i,
        {
            i = i - 1;
            proof {
                let upto = self@.locals.subrange(0, i + 1);
                assert(upto.drop_last() =~= self@.locals.subrange(0, i as int));
                assert(upto.last() == self@.locals[i as int]);
            }
            if self.locals[i].name.lexeme == *name {
                return Some(i);
            }
        }
        None
    }

    /// The signature that was last recorded under the given name.
    pub fn find_function_info(&self, name: &String) -> (r: Option<FunctionInfo>)
        ensures
            match find_function(self@.functions, name@) {
                Some(info) => r matches Some(found) && found@ == info,
                None => r is None,
            },
    {
        let mut i: usize = self.functions.len();
        assert(self@.functions.subrange(0, i as int) =~= self@.functions);
        while i > 0
            invariant
                i <= self.functions.len(),
                find_function(self@.functions, name@) == find_function(
                    self@.functions.subrange(0, i as int),
                    name@,
                ),
            decreases i,
        {
            i = i - 1;
            proof {
                let upto = self@.functions.subrange(0, i + 1);
                assert(upto.drop_last() =~= self@.functions.subrange(0, i as int));
                assert(upto.last() == self@.functions[i as int]);
            }
            if self.functions[i].name == *name {
                return Some(self.functions[i].clone());
            }
        }
        None
    }

    /// The constant that was last assigned to the local of the given name.
    pub fn find_assigned(&self, name: &String) -> (r: Option<Value>)
        ensures
            match find_value(self@.values, name@) {
                Some(value) => r matches Some(found) && found@ == value,
                None => r is None,
            },
    {
        let mut i: usize = self.values.len();
        assert(self@.values.subrange(0, i as int) =~= self@.values);
        while i > 0
            invariant
                i <= self.values.len(),
                find_value(self@.values, name@) == find_value(
                    self@.values.subrange(0, i as int),
                    name@,
                ),
            decreases i,
        {
            i = i - 1;
            proof {
                let upto = self@.values.subrange(0, i + 1);
                assert(upto.drop_last() =~= self@.values.subrange(0, i as int));
                assert(upto.last() == self@.values[i as int]);
            }
            if self.values[i].name == *name {
                return Some(self.values[i].value.clone());
            }
        }
        None
    }

    /// The bits of the float literal with the given text.
    pub fn find_float_bits(&self, lexeme: &String) -> (r: Option<u64>)
        ensures
            r == find_float(self@.floats, lexeme@),
    {
        let mut i: usize = 0;
        assert(self@.floats.subrange(0, self@.floats.len() as int) =~= self@.floats);
        while i < self.floats.len()
            invariant
                i <= self.floats.len(),
                find_float(self@.floats, lexeme@) == find_float(
                    self@.floats.subrange(i as int, self@.floats.len() as int),
                    lexeme@,
                ),
            decreases self.floats.len() - i,
        {
            proof {
                let from = self@.floats.subrange(i as int, self@.floats.len() as int);
                assert(from.drop_first() =~= self@.floats.subrange(
                    i + 1,
                    self@.floats.len() as int,
                ));
                assert(from.first() == self@.floats[i as int]);
            }
            if self.floats[i].lexeme == *lexeme {
                return Some(self.floats[i].bits);
            }
            i = i + 1;
        }
        None
    }

    /// Finds the local of the given name. Reports a variable that is read
    /// inside its own initializer, and one that does not exist; for the
    /// latter the index is the largest number, which is no slot.
    pub fn resolve_local(&self, parser: &mut Parser, name: &String) -> (r: usize)
        ensures
            final(parser).scanner == old(parser).scanner,
            (r, final(parser)@) == self@.resolved(old(parser)@, name@),
            final(parser)@.tokens_left() == old(parser)@.tokens_left(),
            final(parser)@.previous == old(parser)@.previous,
            final(parser)@.current == old(parser)@.current,
            final(parser)@.well_formed() == old(parser)@.well_formed(),
    {
        reveal(CompilerView::resolved);
        match self.find_local_index(name) {
            Some(i) => {
                if !self.locals[i].is_initialized {
                    let mut message = "Variable ".to_owned();
                    message.append(name.as_str());
                    message.append(" is used before being initialized.");
                    parser.error_at_previous(message.as_str());
                }
                i
            },
            None => {
                let mut message = "Variable ".to_owned();
                message.append(name.as_str());
                message.append(" could not be found.");
                parser.error_at_previous(message.as_str());
                usize::MAX
            },
        }
    }

    /// Records the constant that was assigned to a local.
    pub fn set_value(&mut self, var_name_register: usize, value: Value)
        requires
            var_name_register < old(self)@.locals.len(),
        ensures
            final(self)@ == (CompilerView {
                values: old(self)@.values.push(
                    AssignedView {
                        name: old(self)@.locals[var_name_register as int].name.lexeme,
                        value: value@,
                    },
                ),
                ..old(self)@
            }),
    {
        let name = self.locals[var_name_register].name.lexeme.clone();
        self.values.push(Assigned { name, value });
        assert(self@.values =~= old(self)@.values.push(
            AssignedView {
                name: old(self)@.locals[var_name_register as int].name.lexeme,
                value: value@,
            },
        ));
    }

    /// Assigns to the local in the given slot: the constant that was added
    /// to the pool last stands for the value, it is checked against the
    /// local's declared type, and the set instruction is written. A value of
    /// another type is reported. Nothing happens for a slot that holds no
    /// local.
    pub fn set_variable(&mut self, parser: &mut Parser, var_name_register: usize)
        requires
            old(parser).well_formed(),
            old(self).ready(old(parser)@.previous.line),
        ensures
            final(parser).well_formed(),
            final(parser).scanner == old(parser).scanner,
            final(parser)@.tokens_left() == old(parser)@.tokens_left(),
            final(parser)@.previous == old(parser)@.previous,
            final(parser)@.current == old(parser)@.current,
            final(self).ready(final(parser)@.previous.line),
            extends(old(self)@.chunk(), final(self)@.chunk()),
            (final(self)@, final(parser)@) == old(self)@.set_variable(
                old(parser)@,
                var_name_register,
            ),
    {
        reveal(CompilerView::set_variable);
        reveal(CompilerView::emit_pair);
        if var_name_register >= self.locals.len() {
            return ;
        }
        let pool_size: usize = self.function.chunk.constants.len();
        if pool_size == 0 {
            parser.error_at_previous("No value found to assign to the variable.");
            return ;
        }
        let value = self.function.chunk.constants[pool_size - 1].clone();
        let accepted = self.locals[var_name_register].type_.is_correct_type(&value);
        if !accepted {
            let mut message = "Variable ".to_owned();
            message.append(self.locals[var_name_register].name.lexeme.as_str());
            message.append(" is of type ");
            message.append(self.locals[var_name_register].type_.text().as_str());
            message.append(" but value is of type ");
            message.append(value.type_of().as_str());
            parser.error_at_previous(message.as_str());
        }
        self.set_value(var_name_register, value);
        self.emit_2_bytes(OpCode::OpSet, var_name_register, parser.previous.line);
    }

    /// The signature of the function of the given name; where there is
    /// none, that is reported at the token before the previous one, and the
    /// signature is one without a name and without parameters.
    pub fn function_info(&self, parser: &mut Parser, name: String) -> (r: FunctionInfo)
        ensures
            final(parser).scanner == old(parser).scanner,
            (r@, final(parser)@) == self@.function_info(old(parser)@, name@),
            final(parser)@.tokens_left() == old(parser)@.tokens_left(),
            final(parser)@.previous == old(parser)@.previous,
            final(parser)@.current == old(parser)@.current,
            final(parser)@.well_formed() == old(parser)@.well_formed(),
    {
        reveal(CompilerView::function_info);
        match self.find_function_info(&name) {
            None => {
                let mut message = "Function ".to_owned();
                message.append(name.as_str());
                message.append(" could not be found.");
                parser.error_at_previous_2(message.as_str());
                FunctionInfo::new(String::new())
            },
            Some(info) => info,
        }
    }
}

/// No more locals are dropped at the end of a scope than there are.
pub proof fn lemma_trailing_deeper_bound(locals: Seq<LocalView>, depth: usize)
    ensures
        trailing_deeper(locals, depth) <= locals.len(),
    decreases locals.len(),
{
    if locals.len() > 0 && locals.last().depth > depth {
        lemma_trailing_deeper_bound(locals.drop_last(), depth);
    }
}


/// The opcode that a unary operator compiles to.
pub open spec fn unary_opcode(kind: TokenType) -> Option<OpCode> {
    match kind {
        TokenType::Minus => Some(OpCode::OpNegate),
        TokenType::Bang => Some(OpCode::OpNot),
        _ => None,
    }
}

/// The value that a literal keyword stands for.
pub open spec fn literal_value(kind: TokenType) -> Option<ValueView> {
    match kind {
        TokenType::True => Some(ValueView::True),
        TokenType::False => Some(ValueView::False),
        TokenType::Nil => Some(ValueView::Nil),
        _ => None,
    }
}

/// Whether a token of the kind `argument` is a literal of the type that the
/// annotation `parameter` names.
pub open spec fn token_fits(parameter: TokenType, argument: TokenType) -> bool {
    match parameter {
        TokenType::TypeInt => argument == TokenType::Integer,
        TokenType::TypeFloat => argument == TokenType::Float,
        TokenType::TypeString => argument == TokenType::String,
        TokenType::TypeBool => argument == TokenType::True || argument == TokenType::False,
        _ => false,
    }
}

/// The message for a call with the wrong number of arguments.
pub open spec fn arity_message(expected: nat, got: nat) -> Seq<char> {
    "Expected "@ + nat_digits(expected) + (if expected == 1 {
        " argument but got "@
    } else {
        " arguments but got "@
    }) + nat_digits(got) + "."@
}

/// The message for an argument of the wrong type.
pub open spec fn argument_message(parameter: TokenType, got: Seq<char>) -> Seq<char> {
    "Expected argument of type "@ + kind_text(parameter) + " but got argument of type "@ + got
        + "."@
}

/// The parser after one argument was checked against its parameter's type:
/// a literal of that type passes; otherwise the argument's first token is
/// looked up among the constants assigned to locals, an unknown one is
/// reported, and so is a constant of another type.
pub open spec fn argument_checked(
    c: CompilerView,
    p: ParserView,
    parameter: TokenType,
    argument: TokenView,
) -> ParserView {
    if token_fits(parameter, argument.kind) {
        p
    } else {
        match find_value(c.values, argument.lexeme) {
            None => {
                let first = p.reported(
                    p.previous,
                    argument_message(parameter, kind_text(argument.kind)),
                );
                if type_accepts(parameter, ValueView::Nil) {
                    first
                } else {
                    first.reported(
                        first.previous,
                        argument_message(parameter, kind_name(ValueView::Nil)),
                    )
                }
            },
            Some(value) => if type_accepts(parameter, value) {
                p
            } else {
                p.reported(p.previous, argument_message(parameter, kind_name(value)))
            },
        }
    }
}

/// The parser after the arguments from `from` on were checked, each
/// against the parameter of its place, as far as there are parameters.
pub open spec fn arguments_checked(
    c: CompilerView,
    p: ParserView,
    info: FunctionInfoView,
    args: Seq<TokenView>,
    from: int,
) -> ParserView
    decreases args.len() - from,
{
    if 0 <= from < args.len() && from < info.arg_types.len() {
        arguments_checked(
            c,
            argument_checked(c, p, info.arg_types[from], args[from]),
            info,
            args,
            from + 1,
        )
    } else {
        p
    }
}

/// The compiler and the parser after a literal was compiled, whose token is
/// the previous one: its value is added to the pool and loaded. A float is
/// looked up in the table of float literals; a float without entry and an
/// integer that does not fit are reported.
pub open spec fn compiled_constant(c: CompilerView, p: ParserView, routine: ParseFn) -> (
    CompilerView,
    ParserView,
) {
    let line = p.previous.line;
    match routine {
        ParseFn::Float => match find_float(c.floats, p.previous.lexeme) {
            Some(bits) => (c.emit_constant(ValueView::Float(bits), line), p),
            None => (c, p.reported(p.previous, "Float literal has no value."@)),
        },
        ParseFn::Integer => match integer_value(p.previous.lexeme) {
            Some(value) => (c.emit_constant(ValueView::Integer(value), line), p),
            None => (c, p.reported(p.previous, "Integer literal is out of range."@)),
        },
        ParseFn::String => (c.emit_constant(ValueView::String(p.previous.lexeme), line), p),
        ParseFn::Literal => match literal_value(p.previous.kind) {
            Some(value) => (c.emit_constant(value, line), p),
            None => (c, p),
        },
        _ => (c, p),
    }
}

/// The compiler and the parser after the operators that follow an operand
/// were compiled, as long as they bind at least as tightly as `precedence`.
pub open spec fn compiled_infixes(
    c: CompilerView,
    p: ParserView,
    precedence: Precedence,
    can_assign: bool,
) -> (CompilerView, ParserView)
    decreases p.tokens_left(), 0nat,
{
    if precedence.spec_rank() <= rule_of(p.current.kind).precedence.spec_rank() {
        let pa = p.advanced();
        if pa.tokens_left() < p.tokens_left() {
            let (c1, s1) = match rule_of(pa.previous.kind).infix {
                ParseFn::Call => compiled_call(c, pa),
                ParseFn::Binary => compiled_binary(c, pa),
                ParseFn::And => compiled_and(c, pa),
                ParseFn::Or => compiled_or(c, pa),
                _ => (c, pa),
            };
            if s1.tokens_left() < p.tokens_left() {
                compiled_infixes(c1, s1, precedence, can_assign)
            } else {
                (c1, s1)
            }
        } else {
            (c, pa)
        }
    } else {
        (c, p)
    }
}

/// The compiler and the parser after an expression was compiled whose
/// operators bind at least as tightly as `precedence`: the parser advances,
/// the token it passed starts the expression by its prefix rule, and the
/// operators that follow continue it. A token that starts no expression
/// before a newline is reported, and so is an assignment to what is no
/// variable.
pub open spec fn compiled_precedence(c: CompilerView, p: ParserView, precedence: Precedence) -> (
    CompilerView,
    ParserView,
)
    decreases p.tokens_left(), 1nat,
{
    let s1 = p.advanced();
    let prefix = rule_of(s1.previous.kind).prefix;
    if prefix == ParseFn::Nothing && s1.previous.kind != TokenType::Newline && s1.current.kind
        == TokenType::Newline {
        (c, s1.reported(s1.previous, "Expect expression."@))
    } else {
        let can_assign = precedence.spec_rank() <= 1;
        let (c2, s2) = if prefix == ParseFn::Unary || prefix == ParseFn::Grouping || prefix
            == ParseFn::Variable {
            if s1.tokens_left() < p.tokens_left() {
                if prefix == ParseFn::Unary {
                    compiled_unary(c, s1)
                } else if prefix == ParseFn::Grouping {
                    compiled_grouping(c, s1)
                } else {
                    compiled_named_variable(c, s1, s1.previous.lexeme, can_assign)
                }
            } else {
                (c, s1)
            }
        } else {
            compiled_constant(c, s1, prefix)
        };
        let (c3, s3) = if s2.tokens_left() <= p.tokens_left() {
            compiled_infixes(c2, s2, precedence, can_assign)
        } else {
            (c2, s2)
        };
        if can_assign && s3.current.kind == TokenType::Equal {
            (c3, s3.advanced().reported(s3.advanced().previous, "Invalid assignment target."@))
        } else {
            (c3, s3)
        }
    }
}

/// The compiler and the parser after an expression was compiled.
pub open spec fn compiled_expression(c: CompilerView, p: ParserView) -> (CompilerView, ParserView)
    decreases p.tokens_left(), 2nat,
{
    compiled_precedence(c, p, Precedence::Assignment)
}

/// The compiler and the parser after the arguments of a call were
/// compiled, separated by commas, and the first token of each, added to
/// `args`.
pub open spec fn compiled_arguments(c: CompilerView, p: ParserView, args: Seq<TokenView>) -> (
    CompilerView,
    ParserView,
    Seq<TokenView>,
)
    decreases p.tokens_left(), 3nat,
{
    let (c1, s1) = compiled_expression(c, p);
    if s1.current.kind == TokenType::Comma {
        let pa = s1.advanced();
        if pa.tokens_left() < p.tokens_left() {
            compiled_arguments(c1, pa, args.push(p.current))
        } else {
            (c1, pa, args.push(p.current))
        }
    } else {
        (c1, s1, args.push(p.current))
    }
}

/// The compiler and the parser after the argument list of a call was
/// compiled, and the number of arguments. The callee is the function named
/// by the token before the opening parenthesis; the number of arguments
/// and their types are checked against its signature.
pub open spec fn compiled_argument_list(c: CompilerView, p: ParserView) -> (
    CompilerView,
    ParserView,
    usize,
)
    decreases p.tokens_left(), 4nat,
{
    let (info, s0) = c.function_info(p, p.previous_2.lexeme);
    let (c1, s1, args) = if s0.current.kind != TokenType::RightParen && s0.tokens_left()
        <= p.tokens_left() {
        compiled_arguments(c, s0, Seq::empty())
    } else {
        (c, s0, Seq::empty())
    };
    let s2 = if args.len() != info.arg_names.len() {
        s1.reported(s1.previous, arity_message(info.arg_names.len(), args.len()))
    } else {
        s1
    };
    let s3 = arguments_checked(c1, s2, info, args, 0);
    (c1, s3.consumed(TokenType::RightParen, "Expect ')' after arguments."@), args.len() as usize)
}

/// The compiler and the parser after a call was compiled, whose opening
/// parenthesis is the previous token.
pub open spec fn compiled_call(c: CompilerView, p: ParserView) -> (CompilerView, ParserView)
    decreases p.tokens_left(), 5nat,
{
    let (c1, s1, count) = compiled_argument_list(c, p);
    (c1.emit_pair(OpCode::OpCall, count, s1.previous.line), s1)
}

/// The compiler and the parser after a unary operation was compiled, whose
/// operator is the previous token: the operand first, then the operator.
pub open spec fn compiled_unary(c: CompilerView, p: ParserView) -> (CompilerView, ParserView)
    decreases p.tokens_left(), 5nat,
{
    let (c1, s1) = compiled_precedence(c, p, Precedence::Unary);
    match unary_opcode(p.previous.kind) {
        Some(op) => (c1.emit(op, s1.previous.line), s1),
        None => (c1, s1),
    }
}

/// The precedence that binds one step more tightly.
pub open spec fn tighter(precedence: Precedence) -> Precedence {
    match precedence {
        Precedence::Lowest => Precedence::Assignment,
        Precedence::Assignment => Precedence::Or,
        Precedence::Or => Precedence::And,
        Precedence::And => Precedence::Equality,
        Precedence::Equality => Precedence::Comparison,
        Precedence::Comparison => Precedence::Term,
        Precedence::Term => Precedence::Factor,
        Precedence::Factor => Precedence::Unary,
        Precedence::Unary => Precedence::Call,
        Precedence::Call => Precedence::Primary,
        Precedence::Primary => Precedence::Primary,
    }
}

/// The compiler and the parser after a binary operation was compiled,
/// whose operator is the previous token: the right operand first, with
/// operators that bind more tightly than this one, then the operator.
pub open spec fn compiled_binary(c: CompilerView, p: ParserView) -> (CompilerView, ParserView)
    decreases p.tokens_left(), 5nat,
{
    let (c1, s1) = compiled_precedence(c, p, tighter(rule_of(p.previous.kind).precedence));
    match binary_opcode(p.previous.kind) {
        Some(op) => (c1.emit(op, s1.previous.line), s1),
        None => (c1, s1),
    }
}

/// The compiler and the parser after a parenthesized expression was
/// compiled, whose opening parenthesis is the previous token.
pub open spec fn compiled_grouping(c: CompilerView, p: ParserView) -> (CompilerView, ParserView)
    decreases p.tokens_left(), 5nat,
{
    let (c1, s1) = compiled_expression(c, p);
    (c1, s1.consumed(TokenType::RightParen, "Expect ')' after expression."@))
}

/// The compiler and the parser after the right side of a short-circuit
/// operator was compiled: a jump over it that is taken when the left side
/// decides, the right side, and the jump's offset set.
pub open spec fn compiled_short_circuit(
    c: CompilerView,
    p: ParserView,
    jump: OpCode,
    precedence: Precedence,
) -> (CompilerView, ParserView)
    decreases p.tokens_left(), 4nat,
{
    let line = p.previous.line;
    let placeholder = (c.chunk().code.len() + 1) as usize;
    let (c1, s1) = compiled_precedence(
        c.emit_pair(jump, 0, line).emit(OpCode::OpPop, line),
        p,
        precedence,
    );
    (c1.patch_jump(placeholder), s1)
}

/// The compiler and the parser after the right side of `and` was compiled.
pub open spec fn compiled_and(c: CompilerView, p: ParserView) -> (CompilerView, ParserView)
    decreases p.tokens_left(), 5nat,
{
    compiled_short_circuit(c, p, OpCode::OpJumpIfFalse, Precedence::And)
}

/// The compiler and the parser after the right side of `or` was compiled.
pub open spec fn compiled_or(c: CompilerView, p: ParserView) -> (CompilerView, ParserView)
    decreases p.tokens_left(), 5nat,
{
    compiled_short_circuit(c, p, OpCode::OpJumpIfTrue, Precedence::Or)
}

/// The compiler and the parser after a variable was compiled: where an
/// assignment may stand and `=` follows, the right side and the set
/// instruction come first; the get instruction follows in either case.
pub open spec fn compiled_named_variable(
    c: CompilerView,
    p: ParserView,
    name: Seq<char>,
    can_assign: bool,
) -> (CompilerView, ParserView)
    decreases p.tokens_left(), 5nat,
{
    let (register, s1) = c.resolved(p, name);
    if can_assign && s1.current.kind == TokenType::Equal {
        let pa = s1.advanced();
        let (c2, s2) = if pa.tokens_left() <= p.tokens_left() {
            compiled_expression(c, pa)
        } else {
            (c, pa)
        };
        let (c3, s3) = c2.set_variable(s2, register);
        (c3.emit_pair(OpCode::OpGet, register, s3.previous.line), s3)
    } else {
        (c.emit_pair(OpCode::OpGet, register, s1.previous.line), s1)
    }
}


/// What every step of the compiler keeps: the chunk is only added to, no
/// token comes back, and the line of the previous token never goes back.
pub open spec fn kept(
    old_c: CompilerView,
    old_p: ParserView,
    new_c: CompilerView,
    new_p: ParserView,
) -> bool {
    &&& extends(old_c.chunk(), new_c.chunk())
    &&& new_p.tokens_left() <= old_p.tokens_left()
    &&& old_p.previous.line <= new_p.previous.line
}

/// The views of a sequence of tokens.
pub open spec fn tokens_view(tokens: Seq<Token>) -> Seq<TokenView> {
    Seq::new(tokens.len(), |i: int| tokens[i]@)
}

impl Compiler {
    /// The parser is in order, the chunk that is being compiled is in
    /// order, and its last line is not behind the previous token.
    pub open spec fn in_step(&self, parser: &Parser) -> bool {
        parser.well_formed() && self.ready(parser@.previous.line)
    }

    fn float(&mut self, parser: &mut Parser)
        requires
            old(self).in_step(old(parser)),
        ensures
            final(self).in_step(final(parser)),
            kept(old(self)@, old(parser)@, final(self)@, final(parser)@),
            (final(self)@, final(parser)@) == compiled_constant(
                old(self)@,
                old(parser)@,
                ParseFn::Float,
            ),
    {
        match self.find_float_bits(&parser.previous.lexeme) {
            Some(bits) => self.emit_constant(Value::Float(bits), parser.previous.line),
            None => parser.error_at_previous("Float literal has no value."),
        }
    }

    fn integer(&mut self, parser: &mut Parser)
        requires
            old(self).in_step(old(parser)),
        ensures
            final(self).in_step(final(parser)),
            kept(old(self)@, old(parser)@, final(self)@, final(parser)@),
            (final(self)@, final(parser)@) == compiled_constant(
                old(self)@,
                old(parser)@,
                ParseFn::Integer,
            ),
    {
        match parse_integer(parser.previous.lexeme.as_str()) {
            Some(value) => self.emit_constant(Value::Integer(value), parser.previous.line),
            None => parser.error_at_previous("Integer literal is out of range."),
        }
    }

    fn string(&mut self, parser: &mut Parser)
        requires
            old(self).in_step(old(parser)),
        ensures
            final(self).in_step(final(parser)),
            kept(old(self)@, old(parser)@, final(self)@, final(parser)@),
            (final(self)@, final(parser)@) == compiled_constant(
                old(self)@,
                old(parser)@,
                ParseFn::String,
            ),
    {
        let value = parser.previous.lexeme.clone();
        self.emit_constant(Value::String(value), parser.previous.line);
    }

    fn literal(&mut self, parser: &mut Parser)
        requires
            old(self).in_step(old(parser)),
        ensures
            final(self).in_step(final(parser)),
            kept(old(self)@, old(parser)@, final(self)@, final(parser)@),
            (final(self)@, final(parser)@) == compiled_constant(
                old(self)@,
                old(parser)@,
                ParseFn::Literal,
            ),
    {
        let line: usize = parser.previous.line;
        match parser.previous.kind {
            TokenType::True => self.emit_constant(Value::True, line),
            TokenType::False => self.emit_constant(Value::False, line),
            TokenType::Nil => self.emit_constant(Value::Nil, line),
            _ => {},
        }
    }

    fn prefix_rule(&mut self, parser: &mut Parser, routine: ParseFn, can_assign: bool)
        requires
            old(self).in_step(old(parser)),
        ensures
            final(self).in_step(final(parser)),
            kept(old(self)@, old(parser)@, final(self)@, final(parser)@),
            (final(self)@, final(parser)@) == (if routine == ParseFn::Unary {
                compiled_unary(old(self)@, old(parser)@)
            } else if routine == ParseFn::Grouping {
                compiled_grouping(old(self)@, old(parser)@)
            } else if routine == ParseFn::Variable {
                compiled_named_variable(
                    old(self)@,
                    old(parser)@,
                    old(parser)@.previous.lexeme,
                    can_assign,
                )
            } else {
                compiled_constant(old(self)@, old(parser)@, routine)
            }),
        decreases old(parser)@.tokens_left(), 7nat,
    {
        match routine {
            ParseFn::Float => self.float(parser),
            ParseFn::Integer => self.integer(parser),
            ParseFn::String => self.string(parser),
            ParseFn::Literal => self.literal(parser),
            ParseFn::Grouping => self.grouping(parser),
            ParseFn::Unary => self.unary(parser),
            ParseFn::Variable => self.variable(parser, can_assign),
            _ => {},
        }
    }

    fn infix_rule(&mut self, parser: &mut Parser, routine: ParseFn)
        requires
            old(self).in_step(old(parser)),
        ensures
            final(self).in_step(final(parser)),
            kept(old(self)@, old(parser)@, final(self)@, final(parser)@),
            (final(self)@, final(parser)@) == (match routine {
                ParseFn::Call => compiled_call(old(self)@, old(parser)@),
                ParseFn::Binary => compiled_binary(old(self)@, old(parser)@),
                ParseFn::And => compiled_and(old(self)@, old(parser)@),
                ParseFn::Or => compiled_or(old(self)@, old(parser)@),
                _ => (old(self)@, old(parser)@),
            }),
        decreases old(parser)@.tokens_left(), 7nat,
    {
        match routine {
            ParseFn::Call => self.call(parser),
            ParseFn::Binary => self.binary(parser),
            ParseFn::And => self.and(parser),
            ParseFn::Or => self.or(parser),
            _ => {},
        }
    }

    fn parse_precendence(&mut self, parser: &mut Parser, precedence: Precedence)
        requires
            old(self).in_step(old(parser)),
            precedence.spec_rank() >= 1,
        ensures
            final(self).in_step(final(parser)),
            kept(old(self)@, old(parser)@, final(self)@, final(parser)@),
            final(parser)@.tokens_left() + weight(old(parser)@.current) <= old(
                parser,
            )@.tokens_left(),
            (final(self)@, final(parser)@) == compiled_precedence(
                old(self)@,
                old(parser)@,
                precedence,
            ),
        decreases old(parser)@.tokens_left(), 1nat,
    {
        parser.advance();
        let prefix = self.get_rule(parser.previous.kind).prefix;
        if prefix == ParseFn::Nothing && parser.previous.kind != TokenType::Newline
            && parser.current.kind == TokenType::Newline {
            parser.error_at_previous("Expect expression.");
            return ;
        }
        let can_assign = precedence.rank() <= 1;
        if prefix != ParseFn::Nothing {
            self.prefix_rule(parser, prefix, can_assign);
        }
        let ghost target = compiled_infixes(self@, parser@, precedence, can_assign);
        while precedence.rank() <= self.get_rule(parser.current.kind).precedence.rank()
            invariant
                self.in_step(parser),
                precedence.spec_rank() >= 1,
                kept(old(self)@, old(parser)@, self@, parser@),
                parser@.tokens_left() + weight(old(parser)@.current) <= old(parser)@.tokens_left(),
                compiled_infixes(self@, parser@, precedence, can_assign) == target,
            decreases parser@.tokens_left(),
        {
            parser.advance();
            let infix = self.get_rule(parser.previous.kind).infix;
            self.infix_rule(parser, infix);
        }
        if can_assign && parser.match_token(TokenType::Equal) {
            parser.error_at_previous("Invalid assignment target.");
        }
    }

    fn expression(&mut self, parser: &mut Parser)
        requires
            old(self).in_step(old(parser)),
        ensures
            final(self).in_step(final(parser)),
            kept(old(self)@, old(parser)@, final(self)@, final(parser)@),
            final(parser)@.tokens_left() + weight(old(parser)@.current) <= old(
                parser,
            )@.tokens_left(),
            (final(self)@, final(parser)@) == compiled_expression(old(self)@, old(parser)@),
        decreases old(parser)@.tokens_left(), 2nat,
    {
        self.parse_precendence(parser, Precedence::Assignment);
    }

    fn grouping(&mut self, parser: &mut Parser)
        requires
            old(self).in_step(old(parser)),
        ensures
            final(self).in_step(final(parser)),
            kept(old(self)@, old(parser)@, final(self)@, final(parser)@),
            (final(self)@, final(parser)@) == compiled_grouping(old(self)@, old(parser)@),
        decreases old(parser)@.tokens_left(), 5nat,
    {
        self.expression(parser);
        parser.consume(TokenType::RightParen, "Expect ')' after expression.");
    }

    fn unary(&mut self, parser: &mut Parser)
        requires
            old(self).in_step(old(parser)),
        ensures
            final(self).in_step(final(parser)),
            kept(old(self)@, old(parser)@, final(self)@, final(parser)@),
            (final(self)@, final(parser)@) == compiled_unary(old(self)@, old(parser)@),
        decreases old(parser)@.tokens_left(), 5nat,
    {
        let operator_type = parser.previous.kind;
        self.parse_precendence(parser, Precedence::Unary);
        match unary_operator_for(operator_type) {
            Some(op) => self.emit_byte(op, parser.previous.line),
            None => {},
        }
    }

    fn binary(&mut self, parser: &mut Parser)
        requires
            old(self).in_step(old(parser)),
        ensures
            final(self).in_step(final(parser)),
            kept(old(self)@, old(parser)@, final(self)@, final(parser)@),
            (final(self)@, final(parser)@) == compiled_binary(old(self)@, old(parser)@),
        decreases old(parser)@.tokens_left(), 5nat,
    {
        let operator_type = parser.previous.kind;
        let rule = self.get_rule(operator_type);
        let precedence = rule.precedence.next();
        self.parse_precendence(parser, precedence);
        match operator_for(operator_type) {
            Some(op) => self.emit_byte(op, parser.previous.line),
            None => {},
        }
    }

    fn variable(&mut self, parser: &mut Parser, can_assign: bool)
        requires
            old(self).in_step(old(parser)),
        ensures
            final(self).in_step(final(parser)),
            kept(old(self)@, old(parser)@, final(self)@, final(parser)@),
            (final(self)@, final(parser)@) == compiled_named_variable(
                old(self)@,
                old(parser)@,
                old(parser)@.previous.lexeme,
                can_assign,
            ),
        decreases old(parser)@.tokens_left(), 6nat,
    {
        let name = parser.previous.lexeme.clone();
        self.named_variable(parser, name, can_assign);
    }

    fn named_variable(&mut self, parser: &mut Parser, name: String, can_assign: bool)
        requires
            old(self).in_step(old(parser)),
        ensures
            final(self).in_step(final(parser)),
            kept(old(self)@, old(parser)@, final(self)@, final(parser)@),
            (final(self)@, final(parser)@) == compiled_named_variable(
                old(self)@,
                old(parser)@,
                name@,
                can_assign,
            ),
        decreases old(parser)@.tokens_left(), 5nat,
    {
        let arg: usize = self.resolve_local(parser, &name);
        if can_assign && parser.match_token(TokenType::Equal) {
            self.expression(parser);
            self.set_variable(parser, arg);
        }
        self.emit_2_bytes(OpCode::OpGet, arg, parser.previous.line);
    }

    fn short_circuit(&mut self, parser: &mut Parser, jump: OpCode, precedence: Precedence)
        requires
            old(self).in_step(old(parser)),
            jump.is_forward_jump(),
            precedence.spec_rank() >= 1,
        ensures
            final(self).in_step(final(parser)),
            kept(old(self)@, old(parser)@, final(self)@, final(parser)@),
            (final(self)@, final(parser)@) == compiled_short_circuit(
                old(self)@,
                old(parser)@,
                jump,
                precedence,
            ),
        decreases old(parser)@.tokens_left(), 4nat,
    {
        let line: usize = parser.previous.line;
        let end_jump: usize = self.emit_jump(jump, line);
        self.emit_byte(OpCode::OpPop, line);
        let ghost middle = self@.chunk();
        self.parse_precendence(parser, precedence);
        assert(self@.chunk().code[end_jump - 1] == middle.code[end_jump - 1]);
        self.patch_jump(end_jump);
    }

    fn and(&mut self, parser: &mut Parser)
        requires
            old(self).in_step(old(parser)),
        ensures
            final(self).in_step(final(parser)),
            kept(old(self)@, old(parser)@, final(self)@, final(parser)@),
            (final(self)@, final(parser)@) == compiled_and(old(self)@, old(parser)@),
        decreases old(parser)@.tokens_left(), 5nat,
    {
        self.short_circuit(parser, OpCode::OpJumpIfFalse, Precedence::And);
    }

    fn or(&mut self, parser: &mut Parser)
        requires
            old(self).in_step(old(parser)),
        ensures
            final(self).in_step(final(parser)),
            kept(old(self)@, old(parser)@, final(self)@, final(parser)@),
            (final(self)@, final(parser)@) == compiled_or(old(self)@, old(parser)@),
        decreases old(parser)@.tokens_left(), 5nat,
    {
        self.short_circuit(parser, OpCode::OpJumpIfTrue, Precedence::Or);
    }

    fn call(&mut self, parser: &mut Parser)
        requires
            old(self).in_step(old(parser)),
        ensures
            final(self).in_step(final(parser)),
            kept(old(self)@, old(parser)@, final(self)@, final(parser)@),
            (final(self)@, final(parser)@) == compiled_call(old(self)@, old(parser)@),
        decreases old(parser)@.tokens_left(), 5nat,
    {
        let arg_count: usize = self.argument_list(parser);
        self.emit_2_bytes(OpCode::OpCall, arg_count, parser.previous.line);
    }

    fn argument_list(&mut self, parser: &mut Parser) -> (count: usize)
        requires
            old(self).in_step(old(parser)),
        ensures
            final(self).in_step(final(parser)),
            kept(old(self)@, old(parser)@, final(self)@, final(parser)@),
            (final(self)@, final(parser)@, count) == compiled_argument_list(
                old(self)@,
                old(parser)@,
            ),
        decreases old(parser)@.tokens_left(), 4nat,
    {
        let mut args: Vec<Token> = Vec::new();
        let name = parser.peek_previous_2().lexeme;
        let function_info = self.function_info(parser, name);
        assert(tokens_view(args@) =~= Seq::<TokenView>::empty());
        if !parser.check(TokenType::RightParen) {
            let ghost target = compiled_arguments(self@, parser@, tokens_view(args@));
            loop
                invariant_except_break
                    self.in_step(parser),
                    kept(old(self)@, old(parser)@, self@, parser@),
                    compiled_arguments(self@, parser@, tokens_view(args@)) == target,
                ensures
                    self.in_step(parser),
                    kept(old(self)@, old(parser)@, self@, parser@),
                    (self@, parser@, tokens_view(args@)) == target,
                decreases parser@.tokens_left(),
            {
                let ghost before = tokens_view(args@);
                let ghost start = parser@;
                args.push(parser.peek_current());
                assert(tokens_view(args@) =~= before.push(start.current));
                self.expression(parser);
                if !parser.match_token(TokenType::Comma) {
                    break ;
                }
            }
        }
        if args.len() != function_info.arg_names.len() {
            let mut message = "Expected ".to_owned();
            message.append(usize_to_string(function_info.arg_names.len()).as_str());
            if function_info.arg_names.len() == 1 {
                message.append(" argument but got ");
            } else {
                message.append(" arguments but got ");
            }
            message.append(usize_to_string(args.len()).as_str());
            message.append(".");
            parser.error_at_previous(message.as_str());
        }
        self.check_arguments(parser, &function_info, &args);
        parser.consume(TokenType::RightParen, "Expect ')' after arguments.");
        args.len()
    }

    /// Checks each argument of a call against the type of the parameter of
    /// its place, and reports those that do not fit.
    pub fn check_arguments(&self, parser: &mut Parser, info: &FunctionInfo, args: &Vec<Token>)
        ensures
            final(parser).scanner == old(parser).scanner,
            final(parser)@ == arguments_checked(
                self@,
                old(parser)@,
                info@,
                tokens_view(args@),
                0,
            ),
            final(parser)@.tokens_left() == old(parser)@.tokens_left(),
            final(parser)@.previous == old(parser)@.previous,
            final(parser)@.well_formed() == old(parser)@.well_formed(),
    {
        let mut i: usize = 0;
        while i < args.len() && i < info.arg_types.len()
            invariant
                parser.scanner == old(parser).scanner,
                parser@.tokens_left() == old(parser)@.tokens_left(),
                parser@.previous == old(parser)@.previous,
                parser@.well_formed() == old(parser)@.well_formed(),
                arguments_checked(self@, parser@, info@, tokens_view(args@), i as int)
                    == arguments_checked(self@, old(parser)@, info@, tokens_view(args@), 0),
            decreases args.len() - i,
        {
            let parameter = info.arg_types[i];
            if !token_kind_fits(parameter, args[i].kind) {
                match self.find_assigned(&args[i].lexeme) {
                    None => {
                        let message = argument_text(parameter, args[i].kind.text());
                        parser.error_at_previous(message.as_str());
                        if !parameter.is_correct_type(&Value::Nil) {
                            let second = argument_text(parameter, Value::Nil.type_of());
                            parser.error_at_previous(second.as_str());
                        }
                    },
                    Some(value) => {
                        if !parameter.is_correct_type(&value) {
                            let message = argument_text(parameter, value.type_of());
                            parser.error_at_previous(message.as_str());
                        }
                    },
                }
            }
            i = i + 1;
        }
    }
}

/// Whether a token of the kind `argument` is a literal of the type that the
/// annotation `parameter` names.
pub fn token_kind_fits(parameter: TokenType, argument: TokenType) -> (r: bool)
    ensures
        r == token_fits(parameter, argument),
{
    match parameter {
        TokenType::TypeInt => argument == TokenType::Integer,
        TokenType::TypeFloat => argument == TokenType::Float,
        TokenType::TypeString => argument == TokenType::String,
        TokenType::TypeBool => argument == TokenType::True || argument == TokenType::False,
        _ => false,
    }
}

/// The message for an argument of the wrong type.
pub fn argument_text(parameter: TokenType, got: String) -> (r: String)
    ensures
        r@ == argument_message(parameter, got@),
{
    let mut message = "Expected argument of type ".to_owned();
    message.append(parameter.text().as_str());
    message.append(" but got argument of type ");
    message.append(got.as_str());
    message.append(".");
    message
}


/// The opcode that a binary operator compiles to.
pub fn operator_for(kind: TokenType) -> (r: Option<OpCode>)
    ensures
        r == binary_opcode(kind),
        r matches Some(op) ==> !(op is Number) && !op.spec_has_operand(),
{
    match kind {
        TokenType::Plus => Some(OpCode::OpAdd),
        TokenType::Minus => Some(OpCode::OpSubtract),
        TokenType::Star => Some(OpCode::OpMultiply),
        TokenType::Slash => Some(OpCode::OpDivide),
        TokenType::BangEqual => Some(OpCode::OpNotEqual),
        TokenType::EqualEqual => Some(OpCode::OpEqual),
        TokenType::Greater => Some(OpCode::OpGreater),
        TokenType::GreaterEqual => Some(OpCode::OpGreaterEqual),
        TokenType::Less => Some(OpCode::OpLess),
        TokenType::LessEqual => Some(OpCode::OpLessEqual),
        _ => None,
    }
}

/// The opcode that a unary operator compiles to.
pub fn unary_operator_for(kind: TokenType) -> (r: Option<OpCode>)
    ensures
        r == unary_opcode(kind),
        r matches Some(op) ==> !(op is Number) && !op.spec_has_operand(),
{
    match kind {
        TokenType::Minus => Some(OpCode::OpNegate),
        TokenType::Bang => Some(OpCode::OpNot),
        _ => None,
    }
}


/// The compiler and the parser after a print statement was compiled, whose
/// keyword is the previous token.
pub open spec fn compiled_print(c: CompilerView, p: ParserView) -> (CompilerView, ParserView) {
    let (c1, s1) = compiled_expression(c, p);
    let s2 = s1.consumed(TokenType::Newline, "Expect newline after value."@);
    (c1.emit(OpCode::OpPrint, s2.previous.line).emit(OpCode::OpEol, s2.previous.line), s2)
}

/// The compiler and the parser after an expression statement was compiled.
pub open spec fn compiled_expression_statement(c: CompilerView, p: ParserView) -> (
    CompilerView,
    ParserView,
) {
    let (c1, s1) = compiled_expression(c, p);
    (c1.emit(OpCode::OpEol, s1.previous.line), s1)
}

/// The compiler and the parser after a name was declared: the parser
/// consumes an identifier, and the token it passed names the local.
pub open spec fn compiled_parse_variable(
    c: CompilerView,
    p: ParserView,
    message: Seq<char>,
    var_type: TokenType,
) -> (CompilerView, ParserView, usize) {
    let s1 = p.consumed(TokenType::Identifier, message);
    let (c1, register) = c.add_local(s1.previous, var_type);
    (c1, s1, register)
}

/// The compiler and the parser after a variable declaration or assignment
/// was compiled: an optional type annotation, the name, and either `=` with
/// the value or nothing, for which the variable gets the none of its type.
pub open spec fn compiled_variable_assignment(c: CompilerView, p: ParserView) -> (
    CompilerView,
    ParserView,
) {
    let var_type = if p.current.kind.spec_is_type() {
        p.current.kind
    } else {
        TokenType::Nil
    };
    let s0 = if p.current.kind.spec_is_type() {
        p.advanced()
    } else {
        p
    };
    let (c1, s1, register) = compiled_parse_variable(c, s0, "Expect variable name."@, var_type);
    let (c3, s3) = if s1.current.kind == TokenType::Equal {
        let (c2, s2) = compiled_expression(c1, s1.advanced());
        c2.set_variable(s2, register)
    } else {
        c1.emit_constant(none_of(var_type), s1.previous.line).set_variable(s1, register)
    };
    (c3.initialized(register), s3)
}

/// The compiler and the parser after a parameter of a function was
/// compiled: an optional type annotation and the name, which becomes an
/// initialized local.
pub open spec fn compiled_parameter(c: CompilerView, p: ParserView) -> (CompilerView, ParserView) {
    let var_type = if p.current.kind.spec_is_type() {
        p.current.kind
    } else {
        TokenType::Nil
    };
    let s0 = if p.current.kind.spec_is_type() {
        p.advanced()
    } else {
        p
    };
    let (c1, s1, register) = compiled_parse_variable(c, s0, "Expect variable name."@, var_type);
    (c1.initialized(register), s1)
}

/// The compiler and the parser after the parameters of a function were
/// compiled, separated by commas.
pub open spec fn compiled_parameters(c: CompilerView, p: ParserView) -> (CompilerView, ParserView)
    decreases p.tokens_left(),
{
    let (c1, s1) = compiled_parameter(c, p);
    if s1.current.kind == TokenType::Comma {
        let pa = s1.advanced();
        if pa.tokens_left() < p.tokens_left() {
            compiled_parameters(c1, pa)
        } else {
            (c1, pa)
        }
    } else {
        (c1, s1)
    }
}

/// The compiler and the parser after the declarations of a block were
/// compiled, up to the closing brace, which is consumed.
pub open spec fn compiled_block(c: CompilerView, p: ParserView) -> (CompilerView, ParserView)
    decreases p.tokens_left(), 3nat,
{
    if p.current.kind != TokenType::RightBrace && p.current.kind != TokenType::Eof {
        let (c1, s1) = compiled_declaration(c, p);
        if s1.tokens_left() < p.tokens_left() {
            compiled_block(c1, s1)
        } else {
            (c1, s1)
        }
    } else {
        (c, p.consumed(TokenType::RightBrace, "Expect '}' after block"@))
    }
}

/// The compiler and the parser after a statement was compiled: a print, an
/// if, a while or a for statement, a block, or an expression statement.
pub open spec fn compiled_statement(c: CompilerView, p: ParserView) -> (CompilerView, ParserView)
    decreases p.tokens_left(), 1nat,
{
    let pa = p.advanced();
    if p.current.kind == TokenType::Print {
        compiled_print(c, pa)
    } else if p.current.kind == TokenType::If {
        if pa.tokens_left() < p.tokens_left() {
            compiled_if(c, pa)
        } else {
            (c, pa)
        }
    } else if p.current.kind == TokenType::While {
        if pa.tokens_left() < p.tokens_left() {
            compiled_while(c, pa)
        } else {
            (c, pa)
        }
    } else if p.current.kind == TokenType::For {
        (c, pa.reported(pa.previous, "For loops are not implemented."@))
    } else if p.current.kind == TokenType::LeftBrace {
        if pa.tokens_left() < p.tokens_left() {
            let (c1, s1) = compiled_block(c.begin_scope(), pa);
            (c1.end_scope(s1.previous.line), s1)
        } else {
            (c, pa)
        }
    } else {
        compiled_expression_statement(c, p)
    }
}

/// The compiler and the parser after an if statement was compiled, whose
/// keyword is the previous token: the condition, a jump over the first
/// branch that is taken when the condition is false, a pop, the first
/// branch, a jump over the second branch, the second branch if there is
/// one, and a pop.
pub open spec fn compiled_if(c: CompilerView, p: ParserView) -> (CompilerView, ParserView)
    decreases p.tokens_left(), 4nat,
{
    let (c1, s1) = compiled_expression(c, p);
    let then_jump = (c1.chunk().code.len() + 1) as usize;
    let c2 = c1.emit_pair(OpCode::OpJumpIfFalse, 0, s1.previous.line).emit(
        OpCode::OpPop,
        s1.previous.line,
    );
    let (c3, s3) = if s1.tokens_left() <= p.tokens_left() {
        compiled_statement(c2, s1)
    } else {
        (c2, s1)
    };
    let else_jump = (c3.chunk().code.len() + 1) as usize;
    let c4 = c3.emit_pair(OpCode::OpJump, 0, s3.previous.line).patch_jump(then_jump);
    let (c5, s5) = if s3.current.kind == TokenType::Else && s3.advanced().tokens_left()
        <= p.tokens_left() {
        compiled_statement(c4, s3.advanced())
    } else {
        (c4, s3)
    };
    (c5.patch_jump(else_jump).emit(OpCode::OpPop, s5.previous.line), s5)
}

/// The compiler and the parser after a while statement was compiled, whose
/// keyword is the previous token: the condition, a jump out of the loop
/// that is taken when the condition is false, a pop, the body, the jump
/// back to the condition, and a pop. A `break` behind the loop compiles to
/// a jump of no distance.
pub open spec fn compiled_while(c: CompilerView, p: ParserView) -> (CompilerView, ParserView)
    decreases p.tokens_left(), 4nat,
{
    let loop_start = c.chunk().code.len() as usize;
    let (c1, s1) = compiled_expression(c, p);
    let exit_jump = (c1.chunk().code.len() + 1) as usize;
    let c2 = c1.emit_pair(OpCode::OpJumpIfFalse, 0, s1.previous.line).emit(
        OpCode::OpPop,
        s1.previous.line,
    );
    let (c3, s3) = if s1.tokens_left() <= p.tokens_left() {
        compiled_statement(c2, s1)
    } else {
        (c2, s1)
    };
    let c4 = c3.emit_loop(loop_start, s3.previous.line).patch_jump(exit_jump).emit(
        OpCode::OpPop,
        s3.previous.line,
    );
    if s3.current.kind == TokenType::Break {
        (c4.emit_pair(OpCode::OpJump, 0, s3.advanced().previous.line), s3.advanced())
    } else {
        (c4, s3)
    }
}

/// Whether a variable declaration or assignment starts at the current
/// token: a type annotation, or a name before `=` or a newline.
pub open spec fn starts_variable(p: ParserView) -> bool {
    (p.current.kind == TokenType::Identifier && (p.next.kind == TokenType::Equal || p.next.kind
        == TokenType::Newline)) || p.current.kind.spec_is_type()
}

/// Whether a function definition starts at the current token: a name
/// before `:` or `{`.
pub open spec fn starts_function(p: ParserView) -> bool {
    p.current.kind == TokenType::Identifier && (p.next.kind == TokenType::Colon || p.next.kind
        == TokenType::LeftBrace)
}

/// The compiler and the parser after a declaration was compiled: a
/// variable, a function, or a statement. After an error the parser skips
/// to the next line.
pub open spec fn compiled_declaration(c: CompilerView, p: ParserView) -> (CompilerView, ParserView)
    decreases p.tokens_left(), 2nat,
{
    let (c1, s1) = if starts_variable(p) {
        compiled_variable_assignment(c, p)
    } else if starts_function(p) {
        compiled_function_initialization(c, p)
    } else {
        compiled_statement(c, p)
    };
    if s1.panic_mode {
        (c1, s1.synchronized())
    } else {
        (c1, s1)
    }
}

/// The compiler and the parser after a function definition was compiled:
/// the name is declared, the function compiled, and the function value
/// assigned to the name.
pub open spec fn compiled_function_initialization(c: CompilerView, p: ParserView) -> (
    CompilerView,
    ParserView,
)
    decreases p.tokens_left(), 1nat,
{
    let (c1, s1, register) = compiled_parse_variable(
        c,
        p,
        "Expect function name."@,
        TokenType::TypeFunction,
    );
    let (c2, s2) = if s1.tokens_left() < p.tokens_left() {
        compiled_function(c1, s1, FunctionType::Function)
    } else {
        (c1, s1)
    };
    c2.set_variable(s2, register)
}

/// The compiler and the parser after a function was compiled whose name is
/// the previous token: a compiler of its own compiles the parameters and
/// the body and ends the code with a return of none; the function becomes
/// a constant of this compiler, which loads it.
pub open spec fn compiled_function(c: CompilerView, p: ParserView, function_type: FunctionType) -> (
    CompilerView,
    ParserView,
)
    decreases p.tokens_left(), 5nat,
{
    let name = p.previous.lexeme;
    let (n1, s1) = if p.current.kind == TokenType::Colon {
        compiled_parameters(c.nested(name, function_type), p.advanced())
    } else {
        (c.nested(name, function_type), p)
    };
    let (info, s2) = c.function_info(s1, name);
    let n2 = CompilerView { function: FunctionView { function_info: info, ..n1.function }, ..n1 };
    let s3 = s2.consumed(TokenType::LeftBrace, "Expect '{' before function body."@);
    let (n3, s4) = if s3.tokens_left() <= p.tokens_left() {
        compiled_block(n2, s3)
    } else {
        (n2, s3)
    };
    let n4 = n3.emit(OpCode::OpNone, s4.previous.line).emit(OpCode::OpReturn, s4.previous.line);
    (c.emit_constant(ValueView::ObjFunction(n4.function), s4.previous.line), s4)
}


/// Copies a vector of locals.
pub fn clone_locals(locals: &Vec<Local>) -> (r: Vec<Local>)
    ensures
        locals_view(r@) == locals_view(locals@),
{
    let mut out: Vec<Local> = Vec::new();
    let mut i: usize = 0;
    while i < locals.len()
        invariant
            i <= locals.len(),
            out@.len() == i,
            forall|j: int| 0 <= j < i ==> out@[j]@ == locals@[j]@,
        decreases locals.len() - i,
    {
        out.push(locals[i].clone());
        i += 1;
    }
    assert(locals_view(out@) =~= locals_view(locals@));
    out
}

/// Copies a vector of signatures.
pub fn clone_infos(infos: &Vec<FunctionInfo>) -> (r: Vec<FunctionInfo>)
    ensures
        infos_view(r@) == infos_view(infos@),
{
    let mut out: Vec<FunctionInfo> = Vec::new();
    let mut i: usize = 0;
    while i < infos.len()
        invariant
            i <= infos.len(),
            out@.len() == i,
            forall|j: int| 0 <= j < i ==> out@[j]@ == infos@[j]@,
        decreases infos.len() - i,
    {
        out.push(infos[i].clone());
        i += 1;
    }
    assert(infos_view(out@) =~= infos_view(infos@));
    out
}

/// Copies a table of float literals.
pub fn clone_floats(floats: &Vec<FloatLiteral>) -> (r: Vec<FloatLiteral>)
    ensures
        floats_view(r@) == floats_view(floats@),
{
    let mut out: Vec<FloatLiteral> = Vec::new();
    let mut i: usize = 0;
    while i < floats.len()
        invariant
            i <= floats.len(),
            out@.len() == i,
            forall|j: int| 0 <= j < i ==> out@[j]@ == floats@[j]@,
        decreases floats.len() - i,
    {
        out.push(floats[i].clone());
        i += 1;
    }
    assert(floats_view(out@) =~= floats_view(floats@));
    out
}

impl Compiler {
    fn print_statement(&mut self, parser: &mut Parser)
        requires
            old(self).in_step(old(parser)),
        ensures
            final(self).in_step(final(parser)),
            kept(old(self)@, old(parser)@, final(self)@, final(parser)@),
            (final(self)@, final(parser)@) == compiled_print(old(self)@, old(parser)@),
    {
        self.expression(parser);
        parser.consume(TokenType::Newline, "Expect newline after value.");
        self.emit_byte(OpCode::OpPrint, parser.previous.line);
        self.emit_eol(parser.previous.line);
    }

    fn expression_statement(&mut self, parser: &mut Parser)
        requires
            old(self).in_step(old(parser)),
        ensures
            final(self).in_step(final(parser)),
            kept(old(self)@, old(parser)@, final(self)@, final(parser)@),
            final(parser)@.tokens_left() + weight(old(parser)@.current) <= old(
                parser,
            )@.tokens_left(),
            (final(self)@, final(parser)@) == compiled_expression_statement(
                old(self)@,
                old(parser)@,
            ),
    {
        self.expression(parser);
        self.emit_eol(parser.previous.line);
    }

    fn for_statement(&mut self, parser: &mut Parser)
        ensures
            final(parser).scanner == old(parser).scanner,
            final(parser)@ == old(parser)@.reported(
                old(parser)@.previous,
                "For loops are not implemented."@,
            ),
            final(self)@ == old(self)@,
    {
        parser.error_at_previous("For loops are not implemented.");
    }

    fn declare_variable(&mut self, parser: &Parser, var_type: TokenType) -> (r: usize)
        ensures
            (final(self)@, r) == old(self)@.add_local(parser@.previous, var_type),
            final(self)@.function == old(self)@.function,
            r < final(self)@.locals.len(),
    {
        let name = parser.previous.clone();
        self.add_local(name, var_type)
    }

    fn parse_variable(&mut self, parser: &mut Parser, message: &str, var_type: TokenType) -> (r:
        usize)
        requires
            old(parser).well_formed(),
        ensures
            final(parser).well_formed(),
            final(parser)@.tokens_left() <= old(parser)@.tokens_left(),
            old(parser)@.current.kind == TokenType::Identifier ==> final(parser)@.tokens_left()
                < old(parser)@.tokens_left(),
            old(parser)@.previous.line <= final(parser)@.previous.line,
            final(self)@.function == old(self)@.function,
            r < final(self)@.locals.len(),
            (final(self)@, final(parser)@, r) == compiled_parse_variable(
                old(self)@,
                old(parser)@,
                message@,
                var_type,
            ),
    {
        parser.consume(TokenType::Identifier, message);
        self.declare_variable(parser, var_type)
    }

    fn mark_initialized(&mut self, register: usize)
        ensures
            final(self)@ == old(self)@.initialized(register),
            final(self)@.function == old(self)@.function,
    {
        reveal(CompilerView::initialized);
        if register < self.locals.len() {
            let mut local = self.locals[register].clone();
            local.is_initialized = true;
            self.locals.set(register, local);
            assert(self@.locals =~= old(self)@.locals.update(
                register as int,
                LocalView { is_initialized: true, ..old(self)@.locals[register as int] },
            ));
        }
    }

    fn variable_assignment(&mut self, parser: &mut Parser)
        requires
            old(self).in_step(old(parser)),
        ensures
            final(self).in_step(final(parser)),
            kept(old(self)@, old(parser)@, final(self)@, final(parser)@),
            starts_variable(old(parser)@) ==> final(parser)@.tokens_left() < old(
                parser,
            )@.tokens_left(),
            (final(self)@, final(parser)@) == compiled_variable_assignment(
                old(self)@,
                old(parser)@,
            ),
    {
        let mut var_type = TokenType::Nil;
        if parser.current.kind.is_type() {
            var_type = parser.current.kind;
            parser.advance();
        }
        let var_name_register: usize = self.parse_variable(
            parser,
            "Expect variable name.",
            var_type,
        );
        if parser.match_token(TokenType::Equal) {
            self.expression(parser);
            self.set_variable(parser, var_name_register);
        } else {
            self.emit_constant(var_type.get_none_type(), parser.previous.line);
            self.set_variable(parser, var_name_register);
        }
        self.mark_initialized(var_name_register);
    }

    fn parameter(&mut self, parser: &mut Parser)
        requires
            old(self).in_step(old(parser)),
        ensures
            final(self).in_step(final(parser)),
            kept(old(self)@, old(parser)@, final(self)@, final(parser)@),
            final(self)@.function == old(self)@.function,
            (final(self)@, final(parser)@) == compiled_parameter(old(self)@, old(parser)@),
    {
        let mut var_type = TokenType::Nil;
        if parser.current.kind.is_type() {
            var_type = parser.current.kind;
            parser.advance();
        }
        let var_name_register: usize = self.parse_variable(
            parser,
            "Expect variable name.",
            var_type,
        );
        self.mark_initialized(var_name_register);
    }

    fn parameters(&mut self, parser: &mut Parser)
        requires
            old(self).in_step(old(parser)),
        ensures
            final(self).in_step(final(parser)),
            kept(old(self)@, old(parser)@, final(self)@, final(parser)@),
            final(self)@.function == old(self)@.function,
            (final(self)@, final(parser)@) == compiled_parameters(old(self)@, old(parser)@),
    {
        let ghost target = compiled_parameters(self@, parser@);
        loop
            invariant_except_break
                self.in_step(parser),
                kept(old(self)@, old(parser)@, self@, parser@),
                self@.function == old(self)@.function,
                compiled_parameters(self@, parser@) == target,
            ensures
                self.in_step(parser),
                kept(old(self)@, old(parser)@, self@, parser@),
                self@.function == old(self)@.function,
                (self@, parser@) == target,
            decreases parser@.tokens_left(),
        {
            self.parameter(parser);
            if !parser.match_token(TokenType::Comma) {
                break ;
            }
        }
    }

    fn emit_loop(&mut self, loop_start: usize, line: usize)
        requires
            old(self).ready(line),
            loop_start <= old(self)@.chunk().code.len(),
        ensures
            final(self).ready(line),
            final(self)@ == old(self)@.emit_loop(loop_start, line),
            extends(old(self)@.chunk(), final(self)@.chunk()),
            final(self)@.chunk().code.len() == old(self)@.chunk().code.len() + 2,
    {
        self.emit_2_bytes(OpCode::OpLoop, 0, line);
        let length: usize = self.function.chunk.code.len();
        let offset: usize = length - loop_start;
        proof {
            reveal(chunk_ok);
            reveal(CompilerView::emit_pair);
            lemma_patch_loop(self@.chunk().code, offset, self@.chunk().constants.len() as int);
        }
        self.function.chunk.code.set(length - 1, OpCode::Number(offset));
        proof {
            assert(self@.chunk().code =~= old(self)@.chunk().code.push(OpCode::OpLoop).push(
                OpCode::Number(offset),
            ));
        }
    }

    fn block(&mut self, parser: &mut Parser)
        requires
            old(self).in_step(old(parser)),
        ensures
            final(self).in_step(final(parser)),
            kept(old(self)@, old(parser)@, final(self)@, final(parser)@),
            (final(self)@, final(parser)@) == compiled_block(old(self)@, old(parser)@),
        decreases old(parser)@.tokens_left(), 3nat,
    {
        let ghost target = compiled_block(self@, parser@);
        while !parser.check(TokenType::RightBrace) && !parser.check(TokenType::Eof)
            invariant
                self.in_step(parser),
                kept(old(self)@, old(parser)@, self@, parser@),
                compiled_block(self@, parser@) == target,
            decreases parser@.tokens_left(),
        {
            self.declaration(parser);
        }
        parser.consume(TokenType::RightBrace, "Expect '}' after block");
    }

    fn statement(&mut self, parser: &mut Parser)
        requires
            old(self).in_step(old(parser)),
        ensures
            final(self).in_step(final(parser)),
            kept(old(self)@, old(parser)@, final(self)@, final(parser)@),
            final(parser)@.tokens_left() + weight(old(parser)@.current) <= old(
                parser,
            )@.tokens_left(),
            (final(self)@, final(parser)@) == compiled_statement(old(self)@, old(parser)@),
        decreases old(parser)@.tokens_left(), 1nat,
    {
        if parser.match_token(TokenType::Print) {
            self.print_statement(parser);
        } else if parser.match_token(TokenType::If) {
            self.if_statement(parser);
        } else if parser.match_token(TokenType::While) {
            self.while_statement(parser);
        } else if parser.match_token(TokenType::For) {
            self.for_statement(parser);
        } else if parser.match_token(TokenType::LeftBrace) {
            self.begin_scope();
            self.block(parser);
            self.end_scope(parser.previous.line);
        } else {
            self.expression_statement(parser);
        }
    }

    fn if_statement(&mut self, parser: &mut Parser)
        requires
            old(self).in_step(old(parser)),
        ensures
            final(self).in_step(final(parser)),
            kept(old(self)@, old(parser)@, final(self)@, final(parser)@),
            (final(self)@, final(parser)@) == compiled_if(old(self)@, old(parser)@),
        decreases old(parser)@.tokens_left(), 4nat,
    {
        self.expression(parser);
        let then_jump: usize = self.emit_jump(OpCode::OpJumpIfFalse, parser.previous.line);
        self.emit_byte(OpCode::OpPop, parser.previous.line);
        let ghost after_then_jump = self@.chunk();
        self.statement(parser);
        let ghost after_then = self@.chunk();
        let else_jump: usize = self.emit_jump(OpCode::OpJump, parser.previous.line);
        assert(self@.chunk().code[then_jump - 1] == after_then.code[then_jump - 1]);
        assert(after_then.code[then_jump - 1] == after_then_jump.code[then_jump - 1]);
        self.patch_jump(then_jump);
        let ghost patched = self@.chunk();
        if parser.match_token(TokenType::Else) {
            self.statement(parser);
        }
        assert(self@.chunk().code[else_jump - 1] == patched.code[else_jump - 1]);
        self.patch_jump(else_jump);
        self.emit_byte(OpCode::OpPop, parser.previous.line);
    }

    fn while_statement(&mut self, parser: &mut Parser)
        requires
            old(self).in_step(old(parser)),
        ensures
            final(self).in_step(final(parser)),
            kept(old(self)@, old(parser)@, final(self)@, final(parser)@),
            (final(self)@, final(parser)@) == compiled_while(old(self)@, old(parser)@),
        decreases old(parser)@.tokens_left(), 4nat,
    {
        let loop_start: usize = self.function.chunk.code.len();
        self.expression(parser);
        let exit_jump: usize = self.emit_jump(OpCode::OpJumpIfFalse, parser.previous.line);
        self.emit_byte(OpCode::OpPop, parser.previous.line);
        let ghost after_exit_jump = self@.chunk();
        self.statement(parser);
        let ghost after_body = self@.chunk();
        self.emit_loop(loop_start, parser.previous.line);
        assert(self@.chunk().code[exit_jump - 1] == after_body.code[exit_jump - 1]);
        assert(after_body.code[exit_jump - 1] == after_exit_jump.code[exit_jump - 1]);
        self.patch_jump(exit_jump);
        self.emit_byte(OpCode::OpPop, parser.previous.line);
        if parser.match_token(TokenType::Break) {
            self.emit_jump(OpCode::OpJump, parser.previous.line);
        }
    }

    fn declaration(&mut self, parser: &mut Parser)
        requires
            old(self).in_step(old(parser)),
        ensures
            final(self).in_step(final(parser)),
            kept(old(self)@, old(parser)@, final(self)@, final(parser)@),
            final(parser)@.tokens_left() + weight(old(parser)@.current) <= old(
                parser,
            )@.tokens_left(),
            (final(self)@, final(parser)@) == compiled_declaration(old(self)@, old(parser)@),
        decreases old(parser)@.tokens_left(), 2nat,
    {
        if (parser.current.kind == TokenType::Identifier && (parser.next.kind == TokenType::Equal
            || parser.next.kind == TokenType::Newline)) || parser.current.kind.is_type() {
            self.variable_assignment(parser);
        } else if parser.current.kind == TokenType::Identifier && (parser.next.kind
            == TokenType::Colon || parser.next.kind == TokenType::LeftBrace) {
            self.function_initialization(parser);
        } else {
            self.statement(parser);
        }
        if parser.panic_mode {
            parser.synchronize();
        }
    }

    fn function_initialization(&mut self, parser: &mut Parser)
        requires
            old(self).in_step(old(parser)),
            old(parser)@.current.kind == TokenType::Identifier,
        ensures
            final(self).in_step(final(parser)),
            kept(old(self)@, old(parser)@, final(self)@, final(parser)@),
            final(parser)@.tokens_left() < old(parser)@.tokens_left(),
            (final(self)@, final(parser)@) == compiled_function_initialization(
                old(self)@,
                old(parser)@,
            ),
        decreases old(parser)@.tokens_left(), 1nat,
    {
        let var_name_register: usize = self.parse_variable(
            parser,
            "Expect function name.",
            TokenType::TypeFunction,
        );
        self.function(parser, FunctionType::Function);
        self.set_variable(parser, var_name_register);
    }

    /// The compiler of a function that is defined inside this one, whose
    /// name is the parser's previous token.
    fn nested(&self, parser: &Parser, function_type: FunctionType) -> (r: Compiler)
        requires
            chunk_ok(self@.chunk()),
        ensures
            r@ == self@.nested(parser@.previous.lexeme, function_type),
            r.ready(0),
    {
        reveal(chunk_ok);
        let mut compiler = Compiler::new();
        compiler.function_type = function_type;
        compiler.function.name = parser.previous.lexeme.clone();
        compiler.locals = clone_locals(&self.locals);
        compiler.function.chunk.constants = clone_values(&self.function.chunk.constants);
        compiler.function.functions_count = self.function.functions_count;
        compiler.functions = clone_infos(&self.functions);
        compiler.floats = clone_floats(&self.floats);
        compiler.scope_depth = 1;
        proof {
            assert forall|i: int| 0 <= i < compiler@.chunk().constants.len() implies value_ok(
                #[trigger] compiler@.chunk().constants[i],
            ) by {
                assert(value_ok(self@.chunk().constants[i]));
            }
        }
        compiler
    }

    /// Ends the function that is being compiled with a return of none, and
    /// hands it out; the compiler goes on with an empty function.
    fn end_compiler(&mut self, line: usize) -> (r: ObjFunction)
        requires
            old(self).ready(line),
        ensures
            r@ == old(self)@.emit(OpCode::OpNone, line).emit(OpCode::OpReturn, line).function,
            function_ok(r@),
            final(self)@ == (CompilerView { function: ObjFunction::new_view(), ..old(self)@ }),
            final(self).ready(0),
    {
        self.emit_return(line);
        let mut function = ObjFunction::new();
        std::mem::swap(&mut function, &mut self.function);
        proof {
            reveal(chunk_ok);
            reveal(CompilerView::emit);
        }
        function
    }

    #[verifier::rlimit(60)]
    fn function(&mut self, parser: &mut Parser, function_type: FunctionType)
        requires
            old(self).in_step(old(parser)),
        ensures
            final(self).in_step(final(parser)),
            kept(old(self)@, old(parser)@, final(self)@, final(parser)@),
            (final(self)@, final(parser)@) == compiled_function(
                old(self)@,
                old(parser)@,
                function_type,
            ),
        decreases old(parser)@.tokens_left(), 5nat,
    {
        let mut compiler = self.nested(parser, function_type);
        let ghost name_view = parser@.previous.lexeme;
        if parser.check(TokenType::Colon) {
            parser.advance();
            compiler.parameters(parser);
        }
        let ghost n1 = compiler@;
        let ghost s1 = parser@;
        let name = compiler.function.name.clone();
        assert(name@ == name_view);
        compiler.function.function_info = self.function_info(parser, name);
        let ghost n2 = compiler@;
        assert(n2 == (CompilerView {
            function: FunctionView {
                function_info: self@.function_info(s1, name_view).0,
                ..n1.function
            },
            ..n1
        }));
        assert(n2.chunk() == n1.chunk());
        parser.consume(TokenType::LeftBrace, "Expect '{' before function body.");
        compiler.block(parser);
        let func = compiler.end_compiler(parser.previous.line);
        self.emit_constant(Value::ObjFunction(func), parser.previous.line);
    }
}


/// The signature after the parameters of a function header were recorded,
/// and the parser behind them: each parameter is the current token, which
/// should be a type annotation, and the token behind it, which should be a
/// name; what is missing is reported.
pub open spec fn declared_parameters(info: FunctionInfoView, p: ParserView) -> (
    FunctionInfoView,
    ParserView,
)
    decreases p.tokens_left(),
{
    let s0 = if !p.current.kind.spec_is_type() {
        p.reported(p.current, "Expect variable type annotation."@)
    } else if p.next.kind != TokenType::Identifier {
        p.reported(p.next, "Expect variable name."@)
    } else {
        p
    };
    let recorded = FunctionInfoView {
        arg_types: info.arg_types.push(p.current.kind),
        arg_names: info.arg_names.push(p.next.lexeme),
        ..info
    };
    let s2 = s0.advanced().advanced();
    if s2.current.kind == TokenType::Comma {
        let pa = s2.advanced();
        if pa.tokens_left() < p.tokens_left() {
            declared_parameters(recorded, pa)
        } else {
            (recorded, pa)
        }
    } else {
        (recorded, s2)
    }
}

/// The compiler and the parser after the header of a global function was
/// recorded: its name becomes an initialized local, and its signature is
/// added to the signatures. The number of global functions is the number
/// of locals then.
pub open spec fn declared_function(c: CompilerView, p: ParserView) -> (CompilerView, ParserView) {
    let (c1, s1, register) = compiled_parse_variable(
        c,
        p,
        "Expect function name."@,
        TokenType::TypeFunction,
    );
    let c2 = c1.initialized(register);
    let named = FunctionInfoView {
        name: s1.previous.lexeme,
        arg_names: Seq::empty(),
        arg_types: Seq::empty(),
    };
    let (info, s2) = if s1.current.kind == TokenType::Colon {
        declared_parameters(named, s1.advanced())
    } else {
        (named, s1)
    };
    (
        CompilerView {
            functions: c2.functions.push(info),
            function: FunctionView { functions_count: c2.locals.len() as usize, ..c2.function },
            ..c2
        },
        s2,
    )
}

/// The compiler and the parser after one step of the first pass: the header
/// of a function is recorded and its body skipped, any other token is
/// passed. After an error the parser skips to the next line.
pub open spec fn declared_global(c: CompilerView, p: ParserView) -> (CompilerView, ParserView) {
    let (c1, s1) = if starts_function(p) {
        let (c0, s0) = declared_function(c, p);
        (c0, s0.skipped_body())
    } else {
        (c, p.advanced())
    };
    if s1.panic_mode {
        (c1, s1.synchronized())
    } else {
        (c1, s1)
    }
}

/// The compiler and the parser after the first pass over the source: the
/// headers of all global functions are recorded, and the parser is behind
/// `Eof`.
pub open spec fn declared_globals(c: CompilerView, p: ParserView) -> (CompilerView, ParserView)
    decreases p.tokens_left(),
{
    if p.current.kind == TokenType::Eof {
        (c, p.advanced())
    } else {
        let (c1, s1) = declared_global(c, p);
        if s1.tokens_left() < p.tokens_left() {
            declared_globals(c1, s1)
        } else {
            (c1, s1)
        }
    }
}

/// The compiler and the parser after the second pass over the source: all
/// declarations are compiled, and the parser is behind `Eof`.
pub open spec fn compiled_declarations(c: CompilerView, p: ParserView) -> (
    CompilerView,
    ParserView,
)
    decreases p.tokens_left(),
{
    if p.current.kind == TokenType::Eof {
        (c, p.advanced())
    } else {
        let (c1, s1) = compiled_declaration(c, p);
        if s1.tokens_left() < p.tokens_left() {
            compiled_declarations(c1, s1)
        } else {
            (c1, s1)
        }
    }
}

/// The function that a source compiles to, and the compiler afterwards.
/// A first pass records the headers of the global functions, so that a call
/// may stand before the definition; a second pass over the same source
/// compiles the declarations. The code ends with a return of none. The
/// function is marked where the second pass reported an error, and the
/// compiler holds every diagnostic of both passes.
pub open spec fn compiled(c: CompilerView, source: SourceView, floats: Seq<FloatLiteralView>) -> (
    FunctionView,
    CompilerView,
) {
    let (c1, s1) = declared_globals(
        CompilerView { floats: floats, ..c },
        ParserView::at_start(source).advanced(),
    );
    let (c2, s2) = compiled_declarations(c1, s1.reset().advanced());
    let c3 = c2.emit(OpCode::OpNone, s2.previous.line).emit(OpCode::OpReturn, s2.previous.line);
    (
        FunctionView {
            chunk: ChunkView {
                had_error: c3.chunk().had_error || s2.had_error,
                ..c3.chunk()
            },
            ..c3.function
        },
        CompilerView { function: ObjFunction::new_view(), diagnostics: s2.diagnostics, ..c3 },
    )
}

impl Compiler {
    /// Compiles a source to the function of its script. `floats` is the
    /// table of the source's float literals. The compiler keeps the
    /// diagnostics; the function is marked where there was an error.
    ///
    /// Whatever the source, the function is in order, and so is every
    /// function among its constants: the code is a sequence of whole
    /// instructions, every jump stays inside the code, every constant index
    /// is in the pool, and the lines of the instructions never decrease.
    pub fn compile(&mut self, source: String, floats: Vec<FloatLiteral>) -> (r: ObjFunction)
        requires
            old(self).ready(0),
        ensures
            (r@, final(self)@) == compiled(
                old(self)@,
                SourceView::of(source@),
                floats_view(floats@),
            ),
            function_ok(r@),
            r@.chunk.well_formed(),
            r@.chunk.code_ok(),
            runs_ascending(r@.chunk.lines),
            final(self).ready(0),
    {
        self.compile_from(Parser::new(source), floats)
    }

    /// Compiles a source whose characters have the given classes.
    pub fn compile_classified(
        &mut self,
        source: String,
        classes: Vec<CharClass>,
        floats: Vec<FloatLiteral>,
    ) -> (r: ObjFunction)
        requires
            old(self).ready(0),
        ensures
            (r@, final(self)@) == compiled(
                old(self)@,
                SourceView { text: source@, classes: classes@ },
                floats_view(floats@),
            ),
            function_ok(r@),
            r@.chunk.well_formed(),
            r@.chunk.code_ok(),
            runs_ascending(r@.chunk.lines),
            final(self).ready(0),
    {
        self.compile_from(Parser::with_classes(source, classes), floats)
    }

    /// Compiles the source of a parser that stands at its start.
    pub fn compile_from(&mut self, parser: Parser, floats: Vec<FloatLiteral>) -> (r: ObjFunction)
        requires
            old(self).ready(0),
            parser.well_formed(),
            parser@ == ParserView::at_start(parser@.source),
        ensures
            (r@, final(self)@) == compiled(old(self)@, parser@.source, floats_view(floats@)),
            function_ok(r@),
            r@.chunk.well_formed(),
            r@.chunk.code_ok(),
            runs_ascending(r@.chunk.lines),
            final(self).ready(0),
    {
        let ghost source = parser@.source;
        let mut parser = parser;
        self.floats = floats;
        self.start_compiler(&mut parser);

        let ghost globals_target = declared_globals(self@, parser@);
        assert(self@ == (CompilerView { floats: floats_view(floats@), ..old(self)@ }));
        assert(parser@ == ParserView::at_start(source).advanced());
        loop
            invariant_except_break
                parser.well_formed(),
                self.ready(0),
                declared_globals(self@, parser@) == globals_target,
            ensures
                parser.well_formed(),
                self.ready(0),
                (self@, parser@) == globals_target,
            decreases parser@.tokens_left(),
        {
            if parser.match_token(TokenType::Eof) {
                break ;
            }
            self.globals_declaration(&mut parser);
        }

        parser.reset();
        parser.advance();
        let ghost first = self@;
        let ghost start = parser@;

        loop
            invariant_except_break
                self.in_step(&parser),
                compiled_declarations(self@, parser@) == compiled_declarations(first, start),
            ensures
                self.in_step(&parser),
                (self@, parser@) == compiled_declarations(first, start),
            decreases parser@.tokens_left(),
        {
            if parser.match_token(TokenType::Eof) {
                break ;
            }
            self.declaration(&mut parser);
        }

        let mut function = self.end_compiler(parser.previous.line);
        let ghost ended = function@;
        if parser.had_error {
            function.chunk.had_error = true;
        }
        proof {
            reveal(chunk_ok);
            reveal(CompilerView::emit);
            assert(function@ == (FunctionView {
                chunk: ChunkView {
                    had_error: ended.chunk.had_error || parser.had_error,
                    ..ended.chunk
                },
                ..ended
            }));
        }
        self.diagnostics = parser.diagnostics;
        function
    }

    fn start_compiler(&mut self, parser: &mut Parser)
        requires
            old(parser).well_formed(),
        ensures
            final(parser).well_formed(),
            final(parser)@ == old(parser)@.advanced(),
            final(self)@ == old(self)@,
    {
        parser.advance();
    }

    fn globals_declaration(&mut self, parser: &mut Parser)
        requires
            old(parser).well_formed(),
        ensures
            final(parser).well_formed(),
            final(self)@.chunk() == old(self)@.chunk(),
            final(parser)@.tokens_left() + weight(old(parser)@.current) <= old(
                parser,
            )@.tokens_left(),
            (final(self)@, final(parser)@) == declared_global(old(self)@, old(parser)@),
    {
        if parser.current.kind == TokenType::Identifier && (parser.next.kind == TokenType::Colon
            || parser.next.kind == TokenType::LeftBrace) {
            self.function_declaration(parser);
            parser.skip_body();
        } else {
            parser.advance();
        }
        if parser.panic_mode {
            parser.synchronize();
        }
    }

    fn function_declaration(&mut self, parser: &mut Parser)
        requires
            old(parser).well_formed(),
        ensures
            final(parser).well_formed(),
            final(self)@.chunk() == old(self)@.chunk(),
            final(parser)@.tokens_left() <= old(parser)@.tokens_left(),
            old(parser)@.current.kind == TokenType::Identifier ==> final(parser)@.tokens_left()
                < old(parser)@.tokens_left(),
            (final(self)@, final(parser)@) == declared_function(old(self)@, old(parser)@),
    {
        let var_name_register: usize = self.parse_variable(
            parser,
            "Expect function name.",
            TokenType::TypeFunction,
        );
        self.mark_initialized(var_name_register);
        let function_name = parser.previous.lexeme.clone();
        let mut function_info = FunctionInfo::new(function_name);
        if parser.current.kind == TokenType::Colon {
            parser.advance();
            let ghost target = declared_parameters(function_info@, parser@);
            let ghost bound = parser@.tokens_left();
            loop
                invariant_except_break
                    parser.well_formed(),
                    parser@.tokens_left() <= bound,
                    declared_parameters(function_info@, parser@) == target,
                ensures
                    parser.well_formed(),
                    parser@.tokens_left() <= bound,
                    (function_info@, parser@) == target,
                decreases parser@.tokens_left(),
            {
                let ghost before = function_info@;
                let ghost at = parser@;
                if !parser.current.kind.is_type() {
                    parser.error_at_current("Expect variable type annotation.");
                } else if parser.next.kind != TokenType::Identifier {
                    parser.error_at_next("Expect variable name.");
                }
                function_info.arg_types.push(parser.current.kind);
                function_info.arg_names.push(parser.next.lexeme.clone());
                proof {
                    assert(function_info@.arg_names =~= before.arg_names.push(at.next.lexeme));
                    assert(function_info@ == (FunctionInfoView {
                        arg_types: before.arg_types.push(at.current.kind),
                        arg_names: before.arg_names.push(at.next.lexeme),
                        ..before
                    }));
                }
                parser.advance();
                parser.advance();
                if !parser.match_token(TokenType::Comma) {
                    break ;
                }
            }
        }
        let ghost added = function_info@;
        let ghost before_push = self@.functions;
        self.functions.push(function_info);
        assert(self@.functions =~= before_push.push(added));
        self.function.functions_count = self.locals.len();
    }
}


/// An assignment to a local is accepted exactly when the local's declared
/// type accepts the value: then the parser stays as it is; otherwise the
/// mismatch is reported at the previous token, which outside panic mode
/// records the diagnostic and marks the error.
pub proof fn lemma_assignment_checked(c: CompilerView, p: ParserView, register: usize)
    requires
        register < c.locals.len(),
        c.chunk().constants.len() > 0,
    ensures
        ({
            let local = c.locals[register as int];
            let value = c.chunk().constants.last();
            let after = c.set_variable(p, register).1;
            &&& type_accepts(local.type_, value) ==> after == p
            &&& !type_accepts(local.type_, value) ==> after == p.reported(
                p.previous,
                mismatch_message(local.name.lexeme, local.type_, value),
            )
            &&& !p.panic_mode ==> (after.had_error == (p.had_error || !type_accepts(
                local.type_,
                value,
            )))
            &&& !p.panic_mode && !type_accepts(local.type_, value) ==> after.diagnostics
                == p.diagnostics.push(
                report_text(p.previous, mismatch_message(local.name.lexeme, local.type_, value)),
            )
        }),
{
    reveal(CompilerView::set_variable);
}

} // verus!
