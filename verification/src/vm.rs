//! The stack virtual machine: call frames, the instruction cycle and the
//! call protocol.
use vstd::prelude::*;
use vstd::string::*;
use crate::chunk::{next_instruction, lookup_line, pieces_view, values_view, OpCode};
use crate::compiler::{compiled, floats_view, Compiler, CompilerView, FloatLiteral, FloatLiteralView};
use crate::object::{FunctionView, ObjFunction};
use crate::parser::texts_view;
use crate::scanner::{CharClass, SourceView};
use crate::value::{
    add_result, compare_result, div_result, mul_result, neg_result, outcome_view, sub_result, truth,
    truthy, value_text, values_equal, completed, Computation, ComputationView, FloatAnswer,
    FloatRequest, NumericOp, Rendered, RenderedView, Value, ValueView,
};

verus! {

/// The record of one call: where it stands in its function's code, and its
/// operand slots.
#[derive(Debug)]
pub struct CallFrame {
    pub ip: usize,
    pub function: ObjFunction,
    pub slots: Vec<Value>,
}

/// The mathematical value of a [`CallFrame`].
pub struct FrameView {
    pub ip: usize,
    pub function: FunctionView,
    pub slots: Seq<ValueView>,
}

impl View for CallFrame {
    type V = FrameView;

    open spec fn view(&self) -> FrameView {
        FrameView { ip: self.ip, function: self.function@, slots: values_view(self.slots@) }
    }
}

/// What one instruction asks of the machine beyond its own frame.
#[derive(Debug)]
pub enum Effect {
    /// Nothing: go on with the next instruction.
    Continue,
    /// A value was printed.
    Print(Rendered),
    /// The program ended.
    Finish,
    /// The program failed with this message.
    Fault(String),
    /// The host has to compute a float operation.
    Float(FloatRequest),
    /// A function was called: this is its frame.
    Call(CallFrame),
    /// The function returned this value.
    Return(Value),
}

/// The mathematical value of an [`Effect`].
pub enum EffectView {
    Continue,
    Print(RenderedView),
    Finish,
    Fault(Seq<char>),
    Float(FloatRequest),
    Call(FrameView),
    Return(ValueView),
}

impl View for Effect {
    type V = EffectView;

    open spec fn view(&self) -> EffectView {
        match self {
            Effect::Continue => EffectView::Continue,
            Effect::Print(p) => EffectView::Print(p@),
            Effect::Finish => EffectView::Finish,
            Effect::Fault(message) => EffectView::Fault(message@),
            Effect::Float(request) => EffectView::Float(*request),
            Effect::Call(frame) => EffectView::Call(frame@),
            Effect::Return(value) => EffectView::Return(value@),
        }
    }
}

/// The fault of a frame whose instruction pointer left its code.
pub open spec fn past_end() -> Seq<char> {
    "Ran past the end of the code."@
}

/// The fault of an opcode whose operand word is missing.
pub open spec fn missing_operand() -> Seq<char> {
    "Expected an operand."@
}

/// The fault of a word that is no opcode where one is expected.
pub open spec fn unknown_opcode() -> Seq<char> {
    "Unknown opcode."@
}

/// The fault of a constant index outside the pool.
pub open spec fn no_constant() -> Seq<char> {
    "No such constant."@
}

/// The fault of an instruction that finds too few operands in the slots.
pub open spec fn stack_underflow() -> Seq<char> {
    "Stack underflow."@
}

/// The fault of a slot that holds no variable.
pub open spec fn undefined_variable() -> Seq<char> {
    "Undefined variable."@
}

/// The fault of a jump that leaves the code.
pub open spec fn bad_jump() -> Seq<char> {
    "Jump out of range."@
}

/// The fault of a call of a value that is no function.
pub open spec fn not_callable() -> Seq<char> {
    "Can only call functions and classes."@
}

/// What an opcode with two operands computes from them.
pub open spec fn binary_result(op: OpCode, a: ValueView, b: ValueView) -> Result<
    ComputationView,
    Seq<char>,
> {
    match op {
        OpCode::OpAdd => add_result(a, b),
        OpCode::OpSubtract => sub_result(a, b),
        OpCode::OpMultiply => mul_result(a, b),
        OpCode::OpDivide => div_result(a, b),
        OpCode::OpEqual => Ok(ComputationView::Ready(truth(values_equal(a, b)))),
        OpCode::OpNotEqual => Ok(ComputationView::Ready(truth(!values_equal(a, b)))),
        OpCode::OpGreater => compare_result(NumericOp::Greater, a, b),
        OpCode::OpGreaterEqual => compare_result(NumericOp::GreaterEqual, a, b),
        OpCode::OpLess => compare_result(NumericOp::Less, a, b),
        OpCode::OpLessEqual => compare_result(NumericOp::LessEqual, a, b),
        _ => Err(unknown_opcode()),
    }
}

impl FrameView {
    /// The frame with its instruction pointer one word further.
    pub open spec fn advanced(self) -> FrameView {
        FrameView { ip: (self.ip + 1) as usize, ..self }
    }

    /// The number in the word at the instruction pointer, if that word is an
    /// operand.
    pub open spec fn operand(self) -> Option<usize> {
        if self.ip < self.function.chunk.code.len() {
            match self.function.chunk.code[self.ip as int] {
                OpCode::Number(n) => Some(n),
                _ => None,
            }
        } else {
            None
        }
    }

    /// The frame with one more value on top of its slots.
    pub open spec fn pushed(self, value: ValueView) -> FrameView {
        FrameView { slots: self.slots.push(value), ..self }
    }

    /// The frame without its topmost `n` slots.
    pub open spec fn dropped(self, n: int) -> FrameView {
        FrameView { slots: self.slots.subrange(0, self.slots.len() - n), ..self }
    }

    /// The frame with another value in the given slot.
    pub open spec fn stored(self, slot: int, value: ValueView) -> FrameView {
        FrameView { slots: self.slots.update(slot, value), ..self }
    }

    /// The frame with its instruction pointer at `ip`.
    pub open spec fn at(self, ip: int) -> FrameView {
        FrameView { ip: ip as usize, ..self }
    }

    /// The source line of the word before the instruction pointer, the last
    /// one read; zero where the line table does not hold it.
    pub open spec fn fault_line(self) -> usize {
        if self.ip == 0 {
            0
        } else {
            match lookup_line(self.function.chunk.lines, 0, self.ip - 1) {
                Some(line) => line,
                None => 0,
            }
        }
    }

    /// A jump by `offset` words beyond the instruction pointer.
    pub open spec fn jump_forward(self, offset: usize) -> (FrameView, EffectView) {
        if offset <= self.function.chunk.code.len() - self.ip {
            (self.at(self.ip + offset), EffectView::Continue)
        } else {
            (self, EffectView::Fault(bad_jump()))
        }
    }

    /// A jump by `offset` words back from the instruction pointer.
    pub open spec fn jump_back(self, offset: usize) -> (FrameView, EffectView) {
        if offset <= self.ip {
            (self.at(self.ip - offset), EffectView::Continue)
        } else {
            (self, EffectView::Fault(bad_jump()))
        }
    }

    /// An opcode with two operands: both leave the slots, and the result
    /// takes their place, unless the host has to compute it or the
    /// operands' types do not support the operation.
    pub open spec fn binary(self, op: OpCode) -> (FrameView, EffectView) {
        if self.slots.len() < 2 {
            (self, EffectView::Fault(stack_underflow()))
        } else {
            let b = self.slots[self.slots.len() - 1];
            let a = self.slots[self.slots.len() - 2];
            let rest = self.dropped(2);
            match binary_result(op, a, b) {
                Ok(ComputationView::Ready(v)) => (rest.pushed(v), EffectView::Continue),
                Ok(ComputationView::NeedsFloat(request)) => (rest, EffectView::Float(request)),
                Err(message) => (rest, EffectView::Fault(message)),
            }
        }
    }

    /// A conditional jump: it looks at the topmost slot without taking it,
    /// and jumps when its truthiness is `when`.
    pub open spec fn branch(self, when: bool) -> (FrameView, EffectView) {
        match self.operand() {
            None => (self, EffectView::Fault(missing_operand())),
            Some(offset) => {
                let next = self.advanced();
                if next.slots.len() == 0 {
                    (next, EffectView::Fault(stack_underflow()))
                } else if truthy(next.slots.last()) == when {
                    next.jump_forward(offset)
                } else {
                    (next, EffectView::Continue)
                }
            },
        }
    }

    /// A call with `count` arguments: the callee stands below them. Its
    /// frame starts with the caller's first `functions_count` slots, then
    /// the arguments, which leave the caller's slots.
    pub open spec fn call(self, count: usize) -> (FrameView, EffectView) {
        let n = self.slots.len();
        if n <= count {
            (self, EffectView::Fault(stack_underflow()))
        } else {
            match self.slots[n - 1 - count] {
                ValueView::ObjFunction(callee) => if self.function.functions_count > n {
                    (self, EffectView::Fault(stack_underflow()))
                } else {
                    (
                        self.dropped(count as int),
                        EffectView::Call(
                            FrameView {
                                ip: 0,
                                function: callee,
                                slots: self.slots.subrange(0, self.function.functions_count as int)
                                    + self.slots.subrange(n - count, n as int),
                            },
                        ),
                    )
                },
                _ => (self, EffectView::Fault(not_callable())),
            }
        }
    }

    /// The instruction `op`, read from the word before the instruction
    /// pointer.
    pub open spec fn execute(self, op: OpCode) -> (FrameView, EffectView) {
        match op {
            OpCode::OpConstant => match self.operand() {
                None => (self, EffectView::Fault(missing_operand())),
                Some(k) => if k < self.function.chunk.constants.len() {
                    (
                        self.advanced().pushed(self.function.chunk.constants[k as int]),
                        EffectView::Continue,
                    )
                } else {
                    (self.advanced(), EffectView::Fault(no_constant()))
                },
            },
            OpCode::OpAdd
            | OpCode::OpSubtract
            | OpCode::OpMultiply
            | OpCode::OpDivide
            | OpCode::OpEqual
            | OpCode::OpNotEqual
            | OpCode::OpGreater
            | OpCode::OpGreaterEqual
            | OpCode::OpLess
            | OpCode::OpLessEqual => self.binary(op),
            OpCode::OpNegate => if self.slots.len() == 0 {
                (self, EffectView::Fault(stack_underflow()))
            } else {
                match neg_result(self.slots.last()) {
                    Ok(v) => (self.dropped(1).pushed(v), EffectView::Continue),
                    Err(message) => (self, EffectView::Fault(message)),
                }
            },
            OpCode::OpNot => if self.slots.len() == 0 {
                (self, EffectView::Fault(stack_underflow()))
            } else {
                (self.dropped(1).pushed(truth(!truthy(self.slots.last()))), EffectView::Continue)
            },
            OpCode::OpTrue => (self.pushed(ValueView::True), EffectView::Continue),
            OpCode::OpFalse => (self.pushed(ValueView::False), EffectView::Continue),
            OpCode::OpNone => (self.pushed(ValueView::Nil), EffectView::Continue),
            OpCode::OpPrint => if self.slots.len() == 0 {
                (self, EffectView::Fault(stack_underflow()))
            } else {
                (self.dropped(1), EffectView::Print(value_text(self.slots.last())))
            },
            OpCode::OpReturn => if self.slots.len() == 0 {
                (self, EffectView::Fault(stack_underflow()))
            } else {
                (self.dropped(1), EffectView::Return(self.slots.last()))
            },
            OpCode::OpSet => match self.operand() {
                None => (self, EffectView::Fault(missing_operand())),
                Some(slot) => if slot < self.slots.len() {
                    (self.advanced().stored(slot as int, self.slots.last()), EffectView::Continue)
                } else {
                    (self.advanced(), EffectView::Fault(undefined_variable()))
                },
            },
            OpCode::OpGet => match self.operand() {
                None => (self, EffectView::Fault(missing_operand())),
                Some(slot) => if slot < self.slots.len() {
                    (self.advanced().pushed(self.slots[slot as int]), EffectView::Continue)
                } else {
                    (self.advanced(), EffectView::Fault(undefined_variable()))
                },
            },
            OpCode::OpEol => (self, EffectView::Continue),
            OpCode::OpEof => (self, EffectView::Finish),
            OpCode::OpPop => if self.slots.len() == 0 {
                (self, EffectView::Continue)
            } else {
                (self.dropped(1), EffectView::Continue)
            },
            OpCode::OpJumpIfTrue => self.branch(true),
            OpCode::OpJumpIfFalse => self.branch(false),
            OpCode::OpJump => match self.operand() {
                None => (self, EffectView::Fault(missing_operand())),
                Some(offset) => self.advanced().jump_forward(offset),
            },
            OpCode::OpLoop => match self.operand() {
                None => (self, EffectView::Fault(missing_operand())),
                Some(offset) => self.advanced().jump_back(offset),
            },
            OpCode::OpCall => match self.operand() {
                None => (self, EffectView::Fault(missing_operand())),
                Some(count) => self.advanced().call(count),
            },
            OpCode::Number(_) => (self, EffectView::Fault(unknown_opcode())),
        }
    }

    /// One instruction cycle of the frame: fetch the word at the instruction
    /// pointer, step over it, execute it.
    pub open spec fn step(self) -> (FrameView, EffectView) {
        if self.ip < self.function.chunk.code.len() {
            self.advanced().execute(self.function.chunk.code[self.ip as int])
        } else {
            (self, EffectView::Fault(past_end()))
        }
    }
}

/// Computes what an opcode with two operands yields for them.
pub fn apply_binary(op: OpCode, a: Value, b: Value) -> (r: Result<Computation, String>)
    ensures
        outcome_view(r) == binary_result(op, a@, b@),
{
    match op {
        OpCode::OpAdd => a.add(b),
        OpCode::OpSubtract => a.sub(b),
        OpCode::OpMultiply => a.mul(b),
        OpCode::OpDivide => a.div(b),
        OpCode::OpEqual => if a.equals(&b) {
            Ok(Computation::Ready(Value::True))
        } else {
            Ok(Computation::Ready(Value::False))
        },
        OpCode::OpNotEqual => if a.equals(&b) {
            Ok(Computation::Ready(Value::False))
        } else {
            Ok(Computation::Ready(Value::True))
        },
        OpCode::OpGreater => a.compare(b, NumericOp::Greater),
        OpCode::OpGreaterEqual => a.compare(b, NumericOp::GreaterEqual),
        OpCode::OpLess => a.compare(b, NumericOp::Less),
        OpCode::OpLessEqual => a.compare(b, NumericOp::LessEqual),
        _ => Err("Unknown opcode.".to_owned()),
    }
}

/// Copies the first `n` values of a vector.
pub fn clone_prefix(values: &Vec<Value>, n: usize) -> (r: Vec<Value>)
    requires
        n <= values@.len(),
    ensures
        values_view(r@) == values_view(values@).subrange(0, n as int),
{
    let mut out: Vec<Value> = Vec::new();
    let mut i: usize = 0;
    while i < n
        invariant
            i <= n <= values@.len(),
            out@.len() == i,
            forall|j: int| 0 <= j < i ==> out@[j]@ == values@[j]@,
        decreases n - i,
    {
        out.push(values[i].clone());
        i += 1;
    }
    assert(values_view(out@) =~= values_view(values@).subrange(0, n as int));
    out
}

impl CallFrame {
    /// Puts a value on top of the slots.
    pub fn push(&mut self, value: Value)
        ensures
            final(self)@ == old(self)@.pushed(value@),
    {
        self.slots.push(value);
        assert(values_view(self.slots@) =~= values_view(old(self).slots@).push(value@));
    }

    /// Takes the topmost value off the slots.
    pub fn pop(&mut self) -> (value: Value)
        requires
            old(self)@.slots.len() > 0,
        ensures
            final(self)@ == old(self)@.dropped(1),
            value@ == old(self)@.slots.last(),
    {
        let value = self.slots.pop().unwrap();
        assert(values_view(self.slots@) =~= values_view(old(self).slots@).subrange(
            0,
            old(self).slots@.len() - 1,
        ));
        value
    }

    /// Reads the operand word at the instruction pointer and steps over it;
    /// `None`, and nothing changes, where that word is no operand.
    pub fn read_operand(&mut self) -> (r: Option<usize>)
        ensures
            r == old(self)@.operand(),
            r is Some ==> final(self)@ == old(self)@.advanced(),
            r is None ==> final(self)@ == old(self)@,
            final(self).slots == old(self).slots,
            final(self).function == old(self).function,
    {
        if self.ip < self.function.chunk.code.len() {
            match self.function.chunk.code[self.ip] {
                OpCode::Number(n) => {
                    self.ip = self.ip + 1;
                    Some(n)
                },
                _ => None,
            }
        } else {
            None
        }
    }

    /// The source line of the word that was read last, zero where the line
    /// table does not hold it.
    pub fn fault_line(&self) -> (r: usize)
        ensures
            r == self@.fault_line(),
    {
        if self.ip == 0 {
            0
        } else {
            match self.function.chunk.find_line(self.ip - 1) {
                Some(line) => line,
                None => 0,
            }
        }
    }

    fn jump_forward(&mut self, offset: usize) -> (e: Effect)
        requires
            old(self)@.ip <= old(self)@.function.chunk.code.len(),
        ensures
            (final(self)@, e@) == old(self)@.jump_forward(offset),
    {
        if offset <= self.function.chunk.code.len() - self.ip {
            self.ip = self.ip + offset;
            Effect::Continue
        } else {
            Effect::Fault("Jump out of range.".to_owned())
        }
    }

    fn jump_back(&mut self, offset: usize) -> (e: Effect)
        ensures
            (final(self)@, e@) == old(self)@.jump_back(offset),
    {
        if offset <= self.ip {
            self.ip = self.ip - offset;
            Effect::Continue
        } else {
            Effect::Fault("Jump out of range.".to_owned())
        }
    }

    fn binary(&mut self, op: OpCode) -> (e: Effect)
        ensures
            (final(self)@, e@) == old(self)@.binary(op),
    {
        if self.slots.len() < 2 {
            return Effect::Fault("Stack underflow.".to_owned());
        }
        let b = self.pop();
        let a = self.pop();
        assert(self@ == old(self)@.dropped(2)) by {
            assert(self@.slots =~= old(self)@.dropped(2).slots);
        }
        match apply_binary(op, a, b) {
            Ok(Computation::Ready(v)) => {
                self.push(v);
                Effect::Continue
            },
            Ok(Computation::NeedsFloat(request)) => Effect::Float(request),
            Err(message) => Effect::Fault(message),
        }
    }

    fn branch(&mut self, when: bool) -> (e: Effect)
        requires
            old(self)@.ip <= old(self)@.function.chunk.code.len(),
        ensures
            (final(self)@, e@) == old(self)@.branch(when),
    {
        match self.read_operand() {
            None => Effect::Fault("Expected an operand.".to_owned()),
            Some(offset) => {
                let n: usize = self.slots.len();
                if n == 0 {
                    Effect::Fault("Stack underflow.".to_owned())
                } else if self.slots[n - 1].is_truthy() == when {
                    self.jump_forward(offset)
                } else {
                    Effect::Continue
                }
            },
        }
    }

    fn call(&mut self, count: usize) -> (e: Effect)
        ensures
            (final(self)@, e@) == old(self)@.call(count),
    {
        let n: usize = self.slots.len();
        if n <= count {
            return Effect::Fault("Stack underflow.".to_owned());
        }
        match &self.slots[n - 1 - count] {
            Value::ObjFunction(callee) => {
                if self.function.functions_count > n {
                    return Effect::Fault("Stack underflow.".to_owned());
                }
                let function = callee.clone();
                let mut slots = clone_prefix(&self.slots, self.function.functions_count);
                let mut arguments = self.slots.split_off(n - count);
                proof {
                    assert(values_view(self.slots@) =~= old(self)@.dropped(count as int).slots);
                }
                let ghost prefix = slots@;
                let ghost tail = arguments@;
                slots.append(&mut arguments);
                proof {
                    assert(values_view(slots@) =~= values_view(prefix) + values_view(tail));
                    assert(values_view(tail) =~= old(self)@.slots.subrange(n - count, n as int));
                }
                Effect::Call(CallFrame { ip: 0, function, slots })
            },
            _ => Effect::Fault("Can only call functions and classes.".to_owned()),
        }
    }

    /// Runs one instruction cycle of the frame.
    pub fn step(&mut self) -> (e: Effect)
        ensures
            (final(self)@, e@) == old(self)@.step(),
    {
        if self.ip >= self.function.chunk.code.len() {
            return Effect::Fault("Ran past the end of the code.".to_owned());
        }
        let op = self.function.chunk.code[self.ip];
        self.ip = self.ip + 1;
        let n: usize = self.slots.len();
        match op {
            OpCode::OpConstant => match self.read_operand() {
                None => Effect::Fault("Expected an operand.".to_owned()),
                Some(k) => if k < self.function.chunk.constants.len() {
                    let value = self.function.chunk.constants[k].clone();
                    self.push(value);
                    Effect::Continue
                } else {
                    Effect::Fault("No such constant.".to_owned())
                },
            },
            OpCode::OpAdd
            | OpCode::OpSubtract
            | OpCode::OpMultiply
            | OpCode::OpDivide
            | OpCode::OpEqual
            | OpCode::OpNotEqual
            | OpCode::OpGreater
            | OpCode::OpGreaterEqual
            | OpCode::OpLess
            | OpCode::OpLessEqual => self.binary(op),
            OpCode::OpNegate => if n == 0 {
                Effect::Fault("Stack underflow.".to_owned())
            } else if !self.slots[n - 1].is_number() {
                Effect::Fault("Operand must be a number.".to_owned())
            } else {
                let value = self.pop();
                match value.neg() {
                    Ok(v) => {
                        self.push(v);
                        Effect::Continue
                    },
                    Err(message) => Effect::Fault(message),
                }
            },
            OpCode::OpNot => if n == 0 {
                Effect::Fault("Stack underflow.".to_owned())
            } else {
                let value = self.pop();
                self.push(value.not());
                Effect::Continue
            },
            OpCode::OpTrue => {
                self.push(Value::True);
                Effect::Continue
            },
            OpCode::OpFalse => {
                self.push(Value::False);
                Effect::Continue
            },
            OpCode::OpNone => {
                self.push(Value::Nil);
                Effect::Continue
            },
            OpCode::OpPrint => if n == 0 {
                Effect::Fault("Stack underflow.".to_owned())
            } else {
                let value = self.pop();
                Effect::Print(value.render())
            },
            OpCode::OpReturn => if n == 0 {
                Effect::Fault("Stack underflow.".to_owned())
            } else {
                let value = self.pop();
                Effect::Return(value)
            },
            OpCode::OpSet => match self.read_operand() {
                None => Effect::Fault("Expected an operand.".to_owned()),
                Some(slot) => if slot < n {
                    let value = self.slots[n - 1].clone();
                    self.slots.set(slot, value);
                    proof {
                        assert(values_view(self.slots@) =~= old(self)@.slots.update(
                            slot as int,
                            old(self)@.slots.last(),
                        ));
                    }
                    Effect::Continue
                } else {
                    Effect::Fault("Undefined variable.".to_owned())
                },
            },
            OpCode::OpGet => match self.read_operand() {
                None => Effect::Fault("Expected an operand.".to_owned()),
                Some(slot) => if slot < n {
                    let value = self.slots[slot].clone();
                    self.push(value);
                    Effect::Continue
                } else {
                    Effect::Fault("Undefined variable.".to_owned())
                },
            },
            OpCode::OpEol => Effect::Continue,
            OpCode::OpEof => Effect::Finish,
            OpCode::OpPop => {
                if n > 0 {
                    let _ = self.pop();
                }
                Effect::Continue
            },
            OpCode::OpJumpIfTrue => self.branch(true),
            OpCode::OpJumpIfFalse => self.branch(false),
            OpCode::OpJump => match self.read_operand() {
                None => Effect::Fault("Expected an operand.".to_owned()),
                Some(offset) => self.jump_forward(offset),
            },
            OpCode::OpLoop => match self.read_operand() {
                None => Effect::Fault("Expected an operand.".to_owned()),
                Some(offset) => self.jump_back(offset),
            },
            OpCode::OpCall => match self.read_operand() {
                None => Effect::Fault("Expected an operand.".to_owned()),
                Some(count) => self.call(count),
            },
            OpCode::Number(_) => Effect::Fault("Unknown opcode.".to_owned()),
        }
    }
}


/// How interpreting a program ended.
#[derive(Debug, Clone, Copy, PartialEq, Eq, Structural)]
pub enum InterpretResult {
    Success,
    CompileError,
    RuntimeError,
}

/// Where the machine stands after it ran.
#[derive(Debug, Clone, Copy, PartialEq, Eq, Structural)]
pub enum Status {
    /// The program has not ended: the machine can run on.
    Running,
    /// The program ended.
    Finished(InterpretResult),
    /// The machine waits for the host to answer this float operation.
    NeedsFloat(FloatRequest),
}

/// A runtime error: its message, and the source line it came from.
#[derive(Debug)]
pub struct RuntimeFault {
    pub message: String,
    pub line: usize,
}

/// The mathematical value of a [`RuntimeFault`].
pub struct FaultView {
    pub message: Seq<char>,
    pub line: usize,
}

impl View for RuntimeFault {
    type V = FaultView;

    open spec fn view(&self) -> FaultView {
        FaultView { message: self.message@, line: self.line }
    }
}

/// The virtual machine: a stack of call frames, what the program printed,
/// the float operation it waits for, and the runtime error that ended it.
#[derive(Debug)]
pub struct VM {
    pub frames: Vec<CallFrame>,
    pub output: Vec<Rendered>,
    pub pending: Option<FloatRequest>,
    pub fault: Option<RuntimeFault>,
    /// The diagnostics of the source that was interpreted last.
    pub diagnostics: Vec<String>,
}

/// The mathematical value of a [`VM`].
pub struct MachineView {
    pub frames: Seq<FrameView>,
    pub output: Seq<RenderedView>,
    pub pending: Option<FloatRequest>,
    pub fault: Option<FaultView>,
    pub diagnostics: Seq<Seq<char>>,
}

/// The views of a stack of frames.
pub open spec fn frames_view(frames: Seq<CallFrame>) -> Seq<FrameView> {
    Seq::new(frames.len(), |i: int| frames[i]@)
}

/// The view of a runtime error that may be absent.
pub open spec fn fault_view(fault: Option<RuntimeFault>) -> Option<FaultView> {
    match fault {
        Some(f) => Some(f@),
        None => None,
    }
}

impl View for VM {
    type V = MachineView;

    open spec fn view(&self) -> MachineView {
        MachineView {
            frames: frames_view(self.frames@),
            output: pieces_view(self.output@),
            pending: self.pending,
            fault: fault_view(self.fault),
            diagnostics: texts_view(self.diagnostics@),
        }
    }
}

/// Whether the instruction at `index` binds a function constant to one of
/// the first `count` slots: a constant instruction that names a function,
/// followed by a set instruction for such a slot.
pub open spec fn binds_function(
    code: Seq<OpCode>,
    constants: Seq<ValueView>,
    index: int,
    count: int,
) -> bool {
    &&& 0 <= index
    &&& index + 3 < code.len()
    &&& code[index] == OpCode::OpConstant
    &&& code[index + 1] is Number
    &&& code[index + 2] == OpCode::OpSet
    &&& code[index + 3] is Number
    &&& code[index + 1]->0 < constants.len()
    &&& constants[code[index + 1]->0 as int] is ObjFunction
    &&& code[index + 3]->0 < count
}

/// The slots after every function binding from instruction `from` on was
/// made in them; a later binding of a slot replaces an earlier one.
pub open spec fn seeded(
    code: Seq<OpCode>,
    constants: Seq<ValueView>,
    from: int,
    slots: Seq<ValueView>,
) -> Seq<ValueView>
    decreases code.len() + 1 - from,
{
    if 0 <= from < code.len() {
        if binds_function(code, constants, from, slots.len() as int) {
            seeded(
                code,
                constants,
                next_instruction(code, from),
                slots.update(code[from + 3]->0 as int, constants[code[from + 1]->0 as int]),
            )
        } else {
            seeded(code, constants, next_instruction(code, from), slots)
        }
    } else {
        slots
    }
}

/// The slots that a script starts with: one for each of its global
/// functions, holding the function that the script binds to it, so that a
/// call may stand before the definition.
pub open spec fn initial_slots(function: FunctionView) -> Seq<ValueView> {
    seeded(
        function.chunk.code,
        function.chunk.constants,
        0,
        Seq::new(function.functions_count as nat, |i: int| ValueView::FunctionNone),
    )
}

impl MachineView {
    /// The machine after its topmost frame ran one instruction cycle.
    pub open spec fn step(self) -> (MachineView, Status) {
        if self.pending is Some {
            (self, Status::NeedsFloat(self.pending->0))
        } else if self.frames.len() == 0 {
            (
                self,
                Status::Finished(
                    if self.fault is Some {
                        InterpretResult::RuntimeError
                    } else {
                        InterpretResult::Success
                    },
                ),
            )
        } else {
            let (frame, effect) = self.frames.last().step();
            let below = self.frames.drop_last();
            match effect {
                EffectView::Continue => (
                    MachineView { frames: below.push(frame), ..self },
                    Status::Running,
                ),
                EffectView::Print(text) => (
                    MachineView { frames: below.push(frame), output: self.output.push(text), ..self },
                    Status::Running,
                ),
                EffectView::Finish => (
                    MachineView { frames: Seq::empty(), ..self },
                    Status::Finished(InterpretResult::Success),
                ),
                EffectView::Fault(message) => (
                    MachineView {
                        frames: Seq::empty(),
                        fault: Some(FaultView { message: message, line: frame.fault_line() }),
                        ..self
                    },
                    Status::Finished(InterpretResult::RuntimeError),
                ),
                EffectView::Float(request) => (
                    MachineView { frames: below.push(frame), pending: Some(request), ..self },
                    Status::NeedsFloat(request),
                ),
                EffectView::Call(callee) => (
                    MachineView { frames: below.push(frame).push(callee), ..self },
                    Status::Running,
                ),
                EffectView::Return(value) => if below.len() == 0 {
                    (
                        MachineView { frames: Seq::empty(), ..self },
                        Status::Finished(InterpretResult::Success),
                    )
                } else {
                    (
                        MachineView {
                            frames: below.drop_last().push(below.last().pushed(value)),
                            ..self
                        },
                        Status::Running,
                    )
                },
            }
        }
    }

    /// The machine after at most `fuel` instruction cycles: it stops early
    /// when the program ends or waits for the host.
    pub open spec fn run(self, fuel: nat) -> (MachineView, Status)
        decreases fuel,
    {
        if fuel == 0 {
            (self, Status::Running)
        } else {
            let (next, status) = self.step();
            if status == Status::Running {
                next.run((fuel - 1) as nat)
            } else {
                (next, status)
            }
        }
    }

    /// The machine after the host answered the float operation it waits
    /// for, and whether it took the answer.
    pub open spec fn resume(self, answer: FloatAnswer) -> (MachineView, bool) {
        if self.pending is Some && self.frames.len() > 0 && completed(self.pending->0, answer)
            is Some {
            (
                MachineView {
                    frames: self.frames.drop_last().push(
                        self.frames.last().pushed(completed(self.pending->0, answer)->0),
                    ),
                    pending: None,
                    ..self
                },
                true,
            )
        } else {
            (self, false)
        }
    }

    /// The machine with `function` loaded as the script to run: one frame
    /// at the start of its code, no pending operation, no error.
    pub open spec fn load(self, function: FunctionView) -> MachineView {
        MachineView {
            frames: seq![FrameView { ip: 0, function: function, slots: initial_slots(function) }],
            output: self.output,
            pending: None,
            fault: None,
            diagnostics: self.diagnostics,
        }
    }

    /// The machine after it interpreted a source: the source is compiled;
    /// where that reports an error the machine does not run, and otherwise
    /// it loads the script and runs at most `fuel` instruction cycles. The
    /// machine keeps the compiler's diagnostics in either case.
    pub open spec fn interpret(
        self,
        source: SourceView,
        floats: Seq<FloatLiteralView>,
        fuel: nat,
    ) -> (MachineView, Status) {
        let (function, compiler) = compiled(CompilerView::new(), source, floats);
        let informed = MachineView { diagnostics: compiler.diagnostics, ..self };
        if function.chunk.had_error {
            (informed, Status::Finished(InterpretResult::CompileError))
        } else {
            informed.load(function).run(fuel)
        }
    }
}

/// The slots that a script starts with.
pub fn seed_slots(function: &ObjFunction) -> (r: Vec<Value>)
    ensures
        values_view(r@) == initial_slots(function@),
{
    let mut slots: Vec<Value> = Vec::new();
    let mut i: usize = 0;
    while i < function.functions_count
        invariant
            i <= function.functions_count,
            slots@.len() == i,
            forall|j: int| 0 <= j < i ==> slots@[j]@ == ValueView::FunctionNone,
        decreases function.functions_count - i,
    {
        slots.push(Value::FunctionNone);
        i += 1;
    }
    assert(values_view(slots@) =~= Seq::new(
        function.functions_count as nat,
        |i: int| ValueView::FunctionNone,
    ));
    let code = &function.chunk.code;
    let constants = &function.chunk.constants;
    let mut index: usize = 0;
    while index < code.len()
        invariant
            code == &function.chunk.code,
            constants == &function.chunk.constants,
            seeded(function@.chunk.code, function@.chunk.constants, index as int, values_view(slots@))
                == initial_slots(function@),
        decreases code@.len() - index,
    {
        let op = code[index];
        let mut bound = false;
        let ghost before = values_view(slots@);
        if op == OpCode::OpConstant && code.len() - index > 3 {
            if let OpCode::Number(k) = code[index + 1] {
                if code[index + 2] == OpCode::OpSet && k < constants.len() {
                    if let OpCode::Number(slot) = code[index + 3] {
                        if slot < slots.len() {
                            if let Value::ObjFunction(f) = &constants[k] {
                                let value = Value::ObjFunction(f.clone());
                                slots.set(slot, value);
                                assert(values_view(slots@) =~= before.update(
                                    slot as int,
                                    function@.chunk.constants[k as int],
                                ));
                                bound = true;
                            }
                        }
                    }
                }
            }
        }
        proof {
            let code_view = function@.chunk.code;
            let pool = function@.chunk.constants;
            assert(bound == binds_function(code_view, pool, index as int, before.len() as int));
            let next = next_instruction(code_view, index as int);
            assert(seeded(code_view, pool, index as int, before) == seeded(
                code_view,
                pool,
                next,
                values_view(slots@),
            ));
            if next > code_view.len() {
                assert(seeded(code_view, pool, next, values_view(slots@)) == seeded(
                    code_view,
                    pool,
                    code_view.len() as int,
                    values_view(slots@),
                ));
            }
        }
        if op.has_operand() {
            if code.len() - index < 2 {
                index = code.len();
            } else {
                index = index + 2;
            }
        } else {
            index = index + 1;
        }
    }
    slots
}

impl VM {
    /// A machine without frames.
    pub fn new() -> (r: VM)
        ensures
            r@ == (MachineView {
                frames: Seq::empty(),
                output: Seq::empty(),
                pending: None,
                fault: None,
                diagnostics: Seq::empty(),
            }),
    {
        let r = VM {
            frames: Vec::new(),
            output: Vec::new(),
            pending: None,
            fault: None,
            diagnostics: Vec::new(),
        };
        assert(r@.frames =~= Seq::empty());
        assert(r@.output =~= Seq::empty());
        assert(r@.diagnostics =~= Seq::empty());
        r
    }

    /// Compiles a source and, where that reports no error, loads the script
    /// and runs at most `fuel` instruction cycles. `floats` is the table of
    /// the source's float literals.
    pub fn interpret(&mut self, source: String, floats: Vec<FloatLiteral>, fuel: usize) -> (r:
        Status)
        ensures
            (final(self)@, r) == old(self)@.interpret(
                SourceView::of(source@),
                floats_view(floats@),
                fuel as nat,
            ),
    {
        let mut compiler = Compiler::new();
        let function = compiler.compile(source, floats);
        self.start(compiler, function, fuel)
    }

    /// Interprets a source whose characters have the given classes.
    pub fn interpret_classified(
        &mut self,
        source: String,
        classes: Vec<CharClass>,
        floats: Vec<FloatLiteral>,
        fuel: usize,
    ) -> (r: Status)
        ensures
            (final(self)@, r) == old(self)@.interpret(
                SourceView { text: source@, classes: classes@ },
                floats_view(floats@),
                fuel as nat,
            ),
    {
        let mut compiler = Compiler::new();
        let function = compiler.compile_classified(source, classes, floats);
        self.start(compiler, function, fuel)
    }

    /// Takes over the diagnostics of a compiler and, where the function it
    /// compiled has no error, loads the function and runs at most `fuel`
    /// instruction cycles.
    pub fn start(&mut self, compiler: Compiler, function: ObjFunction, fuel: usize) -> (r: Status)
        ensures
            (final(self)@, r) == (if function@.chunk.had_error {
                (
                    MachineView { diagnostics: compiler@.diagnostics, ..old(self)@ },
                    Status::Finished(InterpretResult::CompileError),
                )
            } else {
                (MachineView { diagnostics: compiler@.diagnostics, ..old(self)@ }).load(
                    function@,
                ).run(fuel as nat)
            }),
    {
        let mut compiler = compiler;
        std::mem::swap(&mut self.diagnostics, &mut compiler.diagnostics);
        if !self.load(function) {
            return Status::Finished(InterpretResult::CompileError);
        }
        self.run(fuel)
    }

    /// Loads a compiled script: the machine then holds one frame at the
    /// start of the script's code. A script that was compiled with an error
    /// is not loaded.
    pub fn load(&mut self, function: ObjFunction) -> (loaded: bool)
        ensures
            loaded == !function@.chunk.had_error,
            final(self)@ == (if loaded {
                old(self)@.load(function@)
            } else {
                old(self)@
            }),
    {
        if function.had_error() {
            return false;
        }
        let slots = seed_slots(&function);
        let frame = CallFrame { ip: 0, function, slots };
        let mut frames: Vec<CallFrame> = Vec::new();
        frames.push(frame);
        self.frames = frames;
        self.pending = None;
        self.fault = None;
        assert(self@.frames =~= old(self)@.load(function@).frames);
        true
    }

    /// Runs one instruction cycle.
    pub fn step(&mut self) -> (r: Status)
        ensures
            (final(self)@, r) == old(self)@.step(),
    {
        if let Some(request) = self.pending {
            return Status::NeedsFloat(request);
        }
        match self.frames.pop() {
            None => {
                assert(self.frames@ =~= old(self).frames@);
                if self.fault.is_some() {
                    Status::Finished(InterpretResult::RuntimeError)
                } else {
                    Status::Finished(InterpretResult::Success)
                }
            },
            Some(frame) => {
                let mut frame = frame;
                let ghost below = frames_view(self.frames@);
                assert(below =~= old(self)@.frames.drop_last());
                let effect = frame.step();
                match effect {
                    Effect::Continue => {
                        self.frames.push(frame);
                        assert(self@.frames =~= below.push(frame@));
                        Status::Running
                    },
                    Effect::Print(text) => {
                        self.frames.push(frame);
                        self.output.push(text);
                        assert(self@.frames =~= below.push(frame@));
                        assert(self@.output =~= old(self)@.output.push(text@));
                        Status::Running
                    },
                    Effect::Finish => {
                        self.frames.clear();
                        assert(self@.frames =~= Seq::empty());
                        Status::Finished(InterpretResult::Success)
                    },
                    Effect::Fault(message) => {
                        let line = frame.fault_line();
                        self.frames.clear();
                        self.fault = Some(RuntimeFault { message, line });
                        assert(self@.frames =~= Seq::empty());
                        Status::Finished(InterpretResult::RuntimeError)
                    },
                    Effect::Float(request) => {
                        self.frames.push(frame);
                        self.pending = Some(request);
                        assert(self@.frames =~= below.push(frame@));
                        Status::NeedsFloat(request)
                    },
                    Effect::Call(callee) => {
                        self.frames.push(frame);
                        self.frames.push(callee);
                        assert(self@.frames =~= below.push(frame@).push(callee@));
                        Status::Running
                    },
                    Effect::Return(value) => match self.frames.pop() {
                        None => {
                            assert(self@.frames =~= Seq::empty());
                            Status::Finished(InterpretResult::Success)
                        },
                        Some(caller) => {
                            let mut caller = caller;
                            caller.push(value);
                            self.frames.push(caller);
                            assert(self@.frames =~= below.drop_last().push(
                                below.last().pushed(value@),
                            ));
                            Status::Running
                        },
                    },
                }
            },
        }
    }

    /// Runs at most `fuel` instruction cycles, and stops early when the
    /// program ends or waits for the host.
    pub fn run(&mut self, fuel: usize) -> (r: Status)
        ensures
            (final(self)@, r) == old(self)@.run(fuel as nat),
    {
        let mut remaining: usize = fuel;
        while remaining > 0
            invariant
                self@.run(remaining as nat) == old(self)@.run(fuel as nat),
            decreases remaining,
        {
            let status = self.step();
            if status != Status::Running {
                return status;
            }
            remaining = remaining - 1;
        }
        Status::Running
    }

    /// Hands the machine the host's answer to the float operation it waits
    /// for. Returns whether the machine took it: it does not where it waits
    /// for nothing, or for an answer of the other kind.
    pub fn resume(&mut self, answer: FloatAnswer) -> (accepted: bool)
        ensures
            (final(self)@, accepted) == old(self)@.resume(answer),
    {
        let request = match self.pending {
            Some(request) => request,
            None => {
                return false;
            },
        };
        if self.frames.len() == 0 {
            return false;
        }
        match request.complete(answer) {
            None => false,
            Some(value) => {
                let mut frame = self.frames.pop().unwrap();
                let ghost below = frames_view(self.frames@);
                assert(below =~= old(self)@.frames.drop_last());
                frame.push(value);
                self.frames.push(frame);
                self.pending = None;
                assert(self@.frames =~= below.push(frame@));
                true
            },
        }
    }

    /// Takes what the program printed since the last call, oldest first.
    pub fn take_output(&mut self) -> (r: Vec<Rendered>)
        ensures
            pieces_view(r@) == old(self)@.output,
            final(self)@ == (MachineView { output: Seq::empty(), ..old(self)@ }),
    {
        let mut taken: Vec<Rendered> = Vec::new();
        std::mem::swap(&mut taken, &mut self.output);
        assert(self@.output =~= Seq::empty());
        taken
    }
}

} // verus!
