//! Bytecode chunks: instruction words, the constant pool and the line table.
use vstd::prelude::*;
use vstd::string::*;
use crate::text::{nat_digits, pad_left, pad_left_string, pad_right, pad_right_string, usize_to_string};
use crate::value::{value_ok, value_text, value_view, Rendered, RenderedView, Value, ValueView};

verus! {

/// One word of bytecode: an opcode, or a raw number that is the inline
/// operand of the opcode before it.
#[derive(Copy, Clone, Debug, PartialEq, Eq, Structural)]
pub enum OpCode {
    OpConstant,
    OpAdd,
    OpSubtract,
    OpMultiply,
    OpDivide,
    OpNegate,
    OpNot,
    OpTrue,
    OpFalse,
    OpNone,
    OpPrint,
    OpEqual,
    OpNotEqual,
    OpGreater,
    OpGreaterEqual,
    OpLess,
    OpLessEqual,
    OpReturn,
    OpSet,
    OpGet,
    OpEol,
    OpEof,
    OpPop,
    OpJumpIfTrue,
    OpJumpIfFalse,
    OpJump,
    OpLoop,
    OpCall,
    Number(usize),
}

impl OpCode {
    /// Whether the word is an opcode that carries an inline operand.
    pub open spec fn spec_has_operand(&self) -> bool {
        match self {
            OpCode::OpConstant
            | OpCode::OpSet
            | OpCode::OpGet
            | OpCode::OpJumpIfTrue
            | OpCode::OpJumpIfFalse
            | OpCode::OpJump
            | OpCode::OpLoop
            | OpCode::OpCall => true,
            _ => false,
        }
    }

    /// Whether the word is an opcode that carries an inline operand.
    #[verifier::when_used_as_spec(spec_has_operand)]
    pub fn has_operand(&self) -> (r: bool)
        ensures
            r == self.spec_has_operand(),
    {
        match self {
            OpCode::OpConstant
            | OpCode::OpSet
            | OpCode::OpGet
            | OpCode::OpJumpIfTrue
            | OpCode::OpJumpIfFalse
            | OpCode::OpJump
            | OpCode::OpLoop
            | OpCode::OpCall => true,
            _ => false,
        }
    }

    /// Whether the word is one of the three forward jumps.
    pub open spec fn is_forward_jump(&self) -> bool {
        *self == OpCode::OpJump || *self == OpCode::OpJumpIfTrue || *self == OpCode::OpJumpIfFalse
    }

    /// The number that an operand word holds.
    pub fn as_number(&self) -> (r: usize)
        requires
            self is Number,
        ensures
            *self == OpCode::Number(r),
    {
        match self {
            OpCode::Number(n) => *n,
            _ => 0,
        }
    }
}

/// The name under which a disassembly shows an opcode; empty for an operand
/// word.
pub open spec fn mnemonic(op: OpCode) -> Seq<char> {
    match op {
        OpCode::OpConstant => "OP_CONSTANT"@,
        OpCode::OpAdd => "OP_ADD"@,
        OpCode::OpSubtract => "OP_SUBTRACT"@,
        OpCode::OpMultiply => "OP_MULTIPLY"@,
        OpCode::OpDivide => "OP_DIVIDE"@,
        OpCode::OpNegate => "OP_NEGATE"@,
        OpCode::OpNot => "OP_NOT"@,
        OpCode::OpTrue => "OP_TRUE"@,
        OpCode::OpFalse => "OP_FALSE"@,
        OpCode::OpNone => "OP_NONE"@,
        OpCode::OpPrint => "OP_PRINT"@,
        OpCode::OpEqual => "OP_EQUAL"@,
        OpCode::OpNotEqual => "OP_NOT_EQUAL"@,
        OpCode::OpGreater => "OP_GREATER"@,
        OpCode::OpGreaterEqual => "OP_GREATER_EQUAL"@,
        OpCode::OpLess => "OP_LESS"@,
        OpCode::OpLessEqual => "OP_LESS_EQUAL"@,
        OpCode::OpReturn => "OP_RETURN"@,
        OpCode::OpSet => "OP_SET"@,
        OpCode::OpGet => "OP_GET"@,
        OpCode::OpEol => "OP_EOL"@,
        OpCode::OpEof => "OP_EOF"@,
        OpCode::OpPop => "OP_POP"@,
        OpCode::OpJumpIfTrue => "OP_JUMP_IF_TRUE"@,
        OpCode::OpJumpIfFalse => "OP_JUMP_IF_FALSE"@,
        OpCode::OpJump => "OP_JUMP"@,
        OpCode::OpLoop => "OP_LOOP"@,
        OpCode::OpCall => "OP_CALL"@,
        OpCode::Number(_) => ""@,
    }
}

/// The word at `index` is an operand exactly when the word before it is an
/// opcode that carries one.
pub open spec fn operand_rule(code: Seq<OpCode>, index: int) -> bool {
    code[index] is Number <==> (index > 0 && code[index - 1].spec_has_operand())
}

/// Every operand word follows an opcode that carries an operand, every such
/// opcode is followed by an operand word, and no other word is a number.
pub open spec fn code_well_formed(code: Seq<OpCode>) -> bool {
    &&& forall|i: int| 0 <= i < code.len() ==> #[trigger] operand_rule(code, i)
    &&& (code.len() > 0 ==> !code[code.len() - 1].spec_has_operand())
}

/// The index of the instruction that follows the one at `index`.
pub open spec fn next_instruction(code: Seq<OpCode>, index: int) -> int {
    if code[index].spec_has_operand() {
        index + 2
    } else {
        index + 1
    }
}

/// Where a walk over the instructions ends that starts at `from` and steps
/// over each opcode together with its operand.
pub open spec fn walk_end(code: Seq<OpCode>, from: int) -> int
    decreases code.len() + 1 - from,
{
    if 0 <= from < code.len() {
        walk_end(code, next_instruction(code, from))
    } else {
        from
    }
}

/// Whether the word at `index` starts an instruction of well-formed code.
pub open spec fn starts_instruction(code: Seq<OpCode>, index: int) -> bool {
    0 <= index < code.len() && !(code[index] is Number)
}

/// A walk over well-formed code that starts at an instruction, or at the
/// end, visits opcodes only and ends exactly at the end of the code.
pub proof fn lemma_walk_consumes_code(code: Seq<OpCode>, from: int)
    requires
        code_well_formed(code),
        starts_instruction(code, from) || from == code.len(),
    ensures
        walk_end(code, from) == code.len(),
        from < code.len() ==> (starts_instruction(code, next_instruction(code, from))
            || next_instruction(code, from) == code.len()),
    decreases code.len() - from,
{
    if from < code.len() {
        let next = next_instruction(code, from);
        if code[from].spec_has_operand() {
            if from + 1 == code.len() {
                assert(!code[code.len() - 1].spec_has_operand());
            }
            assert(operand_rule(code, from + 1));
        }
        if next < code.len() {
            assert(operand_rule(code, next));
        }
        lemma_walk_consumes_code(code, next);
    }
}

/// A forward jump at `index` lands inside the code or at its end, and a
/// loop there jumps back no further than to the start of the code.
pub open spec fn jump_rule(code: Seq<OpCode>, index: int) -> bool {
    match (code[index], code[index + 1]) {
        (OpCode::OpJump, OpCode::Number(offset)) => index + 2 + offset <= code.len(),
        (OpCode::OpJumpIfTrue, OpCode::Number(offset)) => index + 2 + offset <= code.len(),
        (OpCode::OpJumpIfFalse, OpCode::Number(offset)) => index + 2 + offset <= code.len(),
        (OpCode::OpLoop, OpCode::Number(offset)) => offset <= index + 2,
        _ => true,
    }
}

/// Every forward jump lands inside the code or at its end, and every loop
/// jumps back no further than to the start of the code.
pub open spec fn jumps_in_range(code: Seq<OpCode>) -> bool {
    forall|i: int| 0 <= i < code.len() - 1 ==> #[trigger] jump_rule(code, i)
}

/// A constant instruction at `index` names a constant of a pool of the given
/// size.
pub open spec fn constant_rule(code: Seq<OpCode>, pool: int, index: int) -> bool {
    match (code[index], code[index + 1]) {
        (OpCode::OpConstant, OpCode::Number(k)) => k < pool,
        _ => true,
    }
}

/// Every constant instruction names a constant of the pool.
pub open spec fn constants_in_range(code: Seq<OpCode>, pool: int) -> bool {
    forall|i: int| 0 <= i < code.len() - 1 ==> #[trigger] constant_rule(code, pool, i)
}

/// The line table is a sequence of `(line, count)` pairs with counts of at
/// least one.
pub open spec fn runs_well_formed(lines: Seq<usize>) -> bool {
    &&& lines.len() % 2 == 0
    &&& forall|k: int| 0 <= k < lines.len() && k % 2 == 1 ==> #[trigger] lines[k] >= 1
}

/// The lines of the runs never decrease.
pub open spec fn runs_ascending(lines: Seq<usize>) -> bool {
    forall|k: int| 0 <= k < lines.len() - 2 && k % 2 == 0 ==> #[trigger] lines[k] <= lines[k + 2]
}

/// The line of each instruction, in order: the line table decoded.
pub open spec fn expand_lines(lines: Seq<usize>) -> Seq<usize>
    decreases lines.len(),
{
    if lines.len() < 2 {
        Seq::empty()
    } else {
        expand_lines(lines.subrange(0, lines.len() - 2)) + Seq::new(
            lines[lines.len() - 1] as nat,
            |i: int| lines[lines.len() - 2],
        )
    }
}

/// The line of the instruction word at `index`, counted from the run that
/// starts at word `k` of the table; `None` where the table ends before it.
pub open spec fn lookup_line(lines: Seq<usize>, k: int, index: int) -> Option<usize>
    decreases lines.len() - k,
{
    if k < 0 || k + 1 >= lines.len() {
        None
    } else if index < lines[k + 1] {
        Some(lines[k])
    } else {
        lookup_line(lines, k + 2, index - lines[k + 1])
    }
}

/// In a well-formed table, looking a line up from a run on finds the line
/// that the decoded table holds for the instruction.
pub proof fn lemma_lookup_line(lines: Seq<usize>, k: int, index: int)
    requires
        runs_well_formed(lines),
        0 <= k <= lines.len(),
        k % 2 == 0,
        0 <= index,
    ensures
        ({
            let at = expand_lines(lines.subrange(0, k)).len() + index;
            lookup_line(lines, k, index) == (if at < expand_lines(lines).len() {
                Some(expand_lines(lines)[at])
            } else {
                None
            })
        }),
    decreases lines.len() - k,
{
    if k == lines.len() {
        assert(lines.subrange(0, k) =~= lines);
    } else {
        let upto = lines.subrange(0, k + 2);
        lemma_expand_prefix(lines, k + 2);
        assert(upto.subrange(0, upto.len() - 2) =~= lines.subrange(0, k));
        if index >= lines[k + 1] {
            lemma_lookup_line(lines, k + 2, index - lines[k + 1]);
        }
    }
}

/// The line of the last run, or zero for an empty table.
pub open spec fn last_line(lines: Seq<usize>) -> usize {
    if lines.len() < 2 {
        0
    } else {
        lines[lines.len() - 2]
    }
}

/// The table after one more instruction on `line` was written.
pub open spec fn lines_after_write(lines: Seq<usize>, line: usize) -> Seq<usize> {
    if lines.len() > 1 && lines[lines.len() - 2] == line {
        lines.update(lines.len() - 1, (lines[lines.len() - 1] + 1) as usize)
    } else {
        lines.push(line).push(1)
    }
}

/// Decoding the first `k` words of a line table gives the start of what the
/// whole table decodes to.
pub proof fn lemma_expand_prefix(lines: Seq<usize>, k: int)
    requires
        lines.len() % 2 == 0,
        0 <= k <= lines.len(),
        k % 2 == 0,
    ensures
        expand_lines(lines.subrange(0, k)).len() <= expand_lines(lines).len(),
        forall|i: int|
            0 <= i < expand_lines(lines.subrange(0, k)).len() ==> expand_lines(lines)[i]
                == expand_lines(lines.subrange(0, k))[i],
    decreases lines.len(),
{
    if k == lines.len() {
        assert(lines.subrange(0, k) =~= lines);
    } else {
        let shorter = lines.subrange(0, lines.len() - 2);
        lemma_expand_prefix(shorter, k);
        assert(shorter.subrange(0, k) =~= lines.subrange(0, k));
    }
}

/// Writing one instruction appends its line to the decoded table.
pub proof fn lemma_expand_after_write(lines: Seq<usize>, line: usize)
    requires
        runs_well_formed(lines),
        lines.len() > 1 ==> lines[lines.len() - 1] < usize::MAX,
    ensures
        runs_well_formed(lines_after_write(lines, line)),
        expand_lines(lines_after_write(lines, line)) == expand_lines(lines).push(line),
        runs_ascending(lines) && last_line(lines) <= line ==> runs_ascending(
            lines_after_write(lines, line),
        ),
        last_line(lines_after_write(lines, line)) == line,
{
    let after = lines_after_write(lines, line);
    if lines.len() > 1 && lines[lines.len() - 2] == line {
        assert(after.subrange(0, after.len() - 2) =~= lines.subrange(0, lines.len() - 2));
        assert(expand_lines(after) =~= expand_lines(lines).push(line));
    } else {
        assert(after.subrange(0, after.len() - 2) =~= lines);
        assert(expand_lines(after) =~= expand_lines(lines).push(line));
    }
}

/// The decoded lines of an ascending table never decrease.
pub proof fn lemma_expand_ascending(lines: Seq<usize>, i: int, j: int)
    requires
        runs_well_formed(lines),
        runs_ascending(lines),
        0 <= i <= j < expand_lines(lines).len(),
    ensures
        expand_lines(lines)[i] <= expand_lines(lines)[j],
        expand_lines(lines)[j] <= last_line(lines),
    decreases lines.len(),
{
    if lines.len() >= 2 {
        let shorter = lines.subrange(0, lines.len() - 2);
        let before = expand_lines(shorter).len();
        assert(runs_well_formed(shorter));
        assert(runs_ascending(shorter)) by {
            assert forall|k: int| 0 <= k < shorter.len() - 2 && k % 2 == 0 implies #[trigger] shorter[k]
                <= shorter[k + 2] by {
                assert(lines[k] <= lines[k + 2]);
            }
        }
        if shorter.len() >= 2 {
            assert(lines[lines.len() - 4] <= lines[lines.len() - 4 + 2]);
            assert(last_line(shorter) <= last_line(lines));
        }
        if j < before {
            lemma_expand_ascending(shorter, i, j);
        } else if i < before {
            lemma_expand_ascending(shorter, i, i);
        }
    }
}

/// An appendable bytecode buffer with its constant pool and line table.
#[derive(Debug)]
pub struct Chunk {
    pub code: Vec<OpCode>,
    /// The line table, run-length encoded: `[line, count, line, count, ..]`.
    pub lines: Vec<usize>,
    pub constants: Vec<Value>,
    pub had_error: bool,
}

/// The mathematical value of a [`Chunk`].
pub struct ChunkView {
    pub code: Seq<OpCode>,
    pub lines: Seq<usize>,
    pub constants: Seq<ValueView>,
    pub had_error: bool,
}

impl ChunkView {
    /// The line table is consistent with the code: it is a sequence of runs
    /// that together count one line for each instruction word.
    pub open spec fn well_formed(&self) -> bool {
        runs_well_formed(self.lines) && expand_lines(self.lines).len() == self.code.len()
    }

    /// The source line of the instruction word at `index`.
    pub open spec fn line_of(&self, index: int) -> usize {
        expand_lines(self.lines)[index]
    }

    /// The code is a sequence of opcodes, each followed by its operand where
    /// it carries one, with jumps and constant indices in range.
    pub open spec fn code_ok(&self) -> bool {
        &&& code_well_formed(self.code)
        &&& jumps_in_range(self.code)
        &&& constants_in_range(self.code, self.constants.len() as int)
    }

    /// The offset and line columns that start the disassembly of the word at
    /// `index`.
    pub open spec fn listing_prefix(&self, index: int) -> Seq<char> {
        pad_left(nat_digits(index as nat), 4, '0') + " "@ + (if index > 0 && self.line_of(index)
            == self.line_of(index - 1) {
            "   | "@
        } else {
            pad_left(nat_digits(self.line_of(index) as nat), 4, ' ') + " "@
        })
    }

    /// The disassembly of `byte` as the word at `index`: one text for an
    /// opcode, with its operand where it carries one; for a constant
    /// instruction a second piece, the constant as it prints.
    pub open spec fn listing(&self, byte: OpCode, index: int) -> Seq<RenderedView> {
        if byte == OpCode::OpConstant {
            seq![
                RenderedView::Text(self.listing_prefix(index) + pad_right(mnemonic(byte), 30)),
                value_text(self.constants[self.code[index + 1]->0 as int]),
            ]
        } else if byte.spec_has_operand() {
            seq![
                RenderedView::Text(
                    self.listing_prefix(index) + pad_right(mnemonic(byte), 30) + "Number("@
                        + nat_digits(self.code[index + 1]->0 as nat) + ")"@,
                ),
            ]
        } else {
            seq![RenderedView::Text(self.listing_prefix(index) + mnemonic(byte))]
        }
    }

    /// Whether `byte` can be disassembled as the word at `index`: it is an
    /// opcode, its operand is there, and a constant's index is in the pool.
    pub open spec fn can_list(&self, byte: OpCode, index: int) -> bool {
        &&& self.well_formed()
        &&& 0 <= index < self.code.len()
        &&& !(byte is Number)
        &&& byte.spec_has_operand() ==> index + 1 < self.code.len() && self.code[index + 1] is Number
        &&& byte == OpCode::OpConstant ==> self.code[index + 1]->0 < self.constants.len()
    }

    /// The disassembly of the instructions from `from` on, one line each.
    pub open spec fn listing_from(&self, from: int) -> Seq<Seq<RenderedView>>
        decreases self.code.len() + 1 - from,
    {
        if 0 <= from < self.code.len() {
            seq![self.listing(self.code[from], from)] + self.listing_from(
                next_instruction(self.code, from),
            )
        } else {
            Seq::empty()
        }
    }

    /// The chunk without code, lines or constants.
    pub open spec fn empty() -> ChunkView {
        ChunkView { code: Seq::empty(), lines: Seq::empty(), constants: Seq::empty(), had_error: false }
    }
}

/// The views of a sequence of values.
pub open spec fn values_view(values: Seq<Value>) -> Seq<ValueView>
    decreases values,
{
    Seq::new(
        values.len(),
        |i: int|
            if 0 <= i < values.len() {
                value_view(values[i])
            } else {
                ValueView::Nil
            },
    )
}

/// The view of a chunk.
pub open spec fn chunk_view(c: Chunk) -> ChunkView
    decreases c,
{
    ChunkView {
        code: c.code@,
        lines: c.lines@,
        constants: values_view(c.constants@),
        had_error: c.had_error,
    }
}

impl View for Chunk {
    type V = ChunkView;

    open spec fn view(&self) -> ChunkView {
        chunk_view(*self)
    }
}

/// Copies a vector of values.
pub fn clone_values(values: &Vec<Value>) -> (r: Vec<Value>)
    ensures
        values_view(r@) == values_view(values@),
    decreases values,
{
    let mut out: Vec<Value> = Vec::new();
    let mut i: usize = 0;
    while i < values.len()
        invariant
            i <= values.len(),
            out@.len() == i,
            forall|j: int| 0 <= j < i ==> value_view(out@[j]) == value_view(values@[j]),
        decreases values.len() - i,
    {
        let v = values[i].clone();
        out.push(v);
        i += 1;
    }
    assert(values_view(out@) =~= values_view(values@));
    out
}

/// Whether two vectors of values have the same views.
pub fn same_values(a: &Vec<Value>, b: &Vec<Value>) -> (r: bool)
    ensures
        r == (values_view(a@) == values_view(b@)),
    decreases a,
{
    if a.len() != b.len() {
        assert(values_view(a@).len() != values_view(b@).len());
        return false;
    }
    let mut i: usize = 0;
    while i < a.len()
        invariant
            i <= a.len(),
            a.len() == b.len(),
            forall|j: int| 0 <= j < i ==> value_view(a@[j]) == value_view(b@[j]),
        decreases a.len() - i,
    {
        if !a[i].identical(&b[i]) {
            assert(values_view(a@)[i as int] != values_view(b@)[i as int]);
            return false;
        }
        i += 1;
    }
    assert(values_view(a@) =~= values_view(b@));
    true
}

/// Whether two vectors of instruction words are equal.
pub fn same_code(a: &Vec<OpCode>, b: &Vec<OpCode>) -> (r: bool)
    ensures
        r == (a@ == b@),
{
    if a.len() != b.len() {
        return false;
    }
    let mut i: usize = 0;
    while i < a.len()
        invariant
            i <= a.len(),
            a.len() == b.len(),
            forall|j: int| 0 <= j < i ==> a@[j] == b@[j],
        decreases a.len() - i,
    {
        if a[i] != b[i] {
            return false;
        }
        i += 1;
    }
    assert(a@ =~= b@);
    true
}

/// Whether two vectors of numbers are equal.
pub fn same_numbers(a: &Vec<usize>, b: &Vec<usize>) -> (r: bool)
    ensures
        r == (a@ == b@),
{
    if a.len() != b.len() {
        return false;
    }
    let mut i: usize = 0;
    while i < a.len()
        invariant
            i <= a.len(),
            a.len() == b.len(),
            forall|j: int| 0 <= j < i ==> a@[j] == b@[j],
        decreases a.len() - i,
    {
        if a[i] != b[i] {
            return false;
        }
        i += 1;
    }
    assert(a@ =~= b@);
    true
}

/// The views of a sequence of printable pieces.
pub open spec fn pieces_view(pieces: Seq<Rendered>) -> Seq<RenderedView> {
    Seq::new(pieces.len(), |i: int| pieces[i]@)
}

/// The views of a sequence of lines of printable pieces.
pub open spec fn listing_view(lines: Seq<Vec<Rendered>>) -> Seq<Seq<RenderedView>> {
    Seq::new(lines.len(), |i: int| pieces_view(lines[i]@))
}

/// In code that is in order, the opcode at the start of an instruction can
/// be disassembled, and the next instruction starts behind it.
pub proof fn lemma_can_list(c: ChunkView, index: int)
    requires
        c.well_formed(),
        c.code_ok(),
        starts_instruction(c.code, index),
    ensures
        c.can_list(c.code[index], index),
        starts_instruction(c.code, next_instruction(c.code, index)) || next_instruction(
            c.code,
            index,
        ) == c.code.len(),
{
    lemma_walk_consumes_code(c.code, index);
    if c.code[index].spec_has_operand() {
        if index + 1 == c.code.len() {
            assert(!c.code[c.code.len() - 1].spec_has_operand());
        }
        assert(operand_rule(c.code, index + 1));
        assert(constant_rule(c.code, c.constants.len() as int, index));
    }
}

/// The disassembly from an instruction on is its line, then the disassembly
/// from the next instruction on.
pub proof fn lemma_listing_step(c: ChunkView, done: Seq<Seq<RenderedView>>, index: int)
    requires
        0 <= index < c.code.len(),
    ensures
        done + c.listing_from(index) == done.push(c.listing(c.code[index], index)) + c.listing_from(
            next_instruction(c.code, index),
        ),
{
    assert(done + c.listing_from(index) =~= done.push(c.listing(c.code[index], index))
        + c.listing_from(next_instruction(c.code, index)));
}

/// In a well-formed line table no run counts more instructions than the
/// table decodes to.
pub proof fn lemma_expand_run_bound(lines: Seq<usize>)
    requires
        runs_well_formed(lines),
    ensures
        lines.len() > 1 ==> lines[lines.len() - 1] <= expand_lines(lines).len(),
{
}

impl Chunk {
    /// The empty chunk.
    pub fn new() -> (r: Chunk)
        ensures
            r@ == ChunkView::empty(),
    {
        let r = Chunk { code: Vec::new(), lines: Vec::new(), constants: Vec::new(), had_error: false };
        assert(r@.constants =~= Seq::empty());
        r
    }

    /// Appends an instruction word that stands on the given source line.
    pub fn write(&mut self, byte: OpCode, line: usize)
        requires
            old(self)@.well_formed(),
        ensures
            final(self)@.well_formed(),
            final(self)@.code == old(self)@.code.push(byte),
            final(self)@.lines == lines_after_write(old(self)@.lines, line),
            expand_lines(final(self)@.lines) == expand_lines(old(self)@.lines).push(line),
            final(self).constants == old(self).constants,
            final(self).had_error == old(self).had_error,
            old(self)@.code.len() < usize::MAX,
            last_line(final(self)@.lines) == line,
            runs_ascending(old(self)@.lines) && last_line(old(self)@.lines) <= line ==> runs_ascending(
                final(self)@.lines,
            ),
    {
        self.code.push(byte);
        let code_len: usize = self.code.len();
        proof {
            lemma_expand_run_bound(self.lines@);
            lemma_expand_after_write(self.lines@, line);
        }
        let lines_len: usize = self.lines.len();
        if lines_len > 1 && self.lines[lines_len - 2] == line {
            let count: usize = self.lines[lines_len - 1];
            self.lines.set(lines_len - 1, count + 1);
        } else {
            self.lines.push(line);
            self.lines.push(1);
        }
    }

    /// Appends a constant to the pool and returns its index.
    pub fn add_constant(&mut self, value: Value) -> (r: usize)
        ensures
            r == old(self)@.constants.len(),
            final(self)@.constants == old(self)@.constants.push(value@),
            final(self).constants@ == old(self).constants@.push(value),
            final(self).code == old(self).code,
            final(self).lines == old(self).lines,
            final(self).had_error == old(self).had_error,
    {
        self.constants.push(value);
        assert(self@.constants =~= old(self)@.constants.push(value@));
        self.constants.len() - 1
    }

    /// The source line of the instruction word at `index`.
    pub fn get_line(&self, index: usize) -> (r: usize)
        requires
            self@.well_formed(),
            index < self@.code.len(),
        ensures
            r == self@.line_of(index as int),
    {
        let mut seen: usize = 0;
        let mut k: usize = 0;
        while k < self.lines.len()
            invariant
                self@.well_formed(),
                index < self@.code.len(),
                k % 2 == 0,
                k <= self.lines@.len(),
                seen == expand_lines(self.lines@.subrange(0, k as int)).len(),
                seen <= index,
            decreases self.lines@.len() - k,
        {
            let count: usize = self.lines[k + 1];
            proof {
                let upto = self.lines@.subrange(0, k + 2);
                lemma_expand_prefix(self.lines@, k + 2);
                assert(upto.subrange(0, upto.len() - 2) =~= self.lines@.subrange(0, k as int));
                assert(expand_lines(upto).len() == seen + count);
                if index - seen < count {
                    assert(expand_lines(upto)[index as int] == self.lines@[k as int]);
                }
            }
            if index - seen < count {
                return self.lines[k];
            }
            seen = seen + count;
            k += 2;
        }
        proof {
            assert(self.lines@.subrange(0, k as int) =~= self.lines@);
        }
        0
    }

    /// The source line of the instruction word at `index`, or `None` where
    /// the line table does not reach that far.
    pub fn find_line(&self, index: usize) -> (r: Option<usize>)
        ensures
            r == lookup_line(self@.lines, 0, index as int),
            self@.well_formed() && index < self@.code.len() ==> r == Some(
                self@.line_of(index as int),
            ),
    {
        proof {
            if self@.well_formed() {
                assert(self@.lines.subrange(0, 0) =~= Seq::<usize>::empty());
                lemma_lookup_line(self@.lines, 0, index as int);
            }
        }
        let mut rest: usize = index;
        let mut k: usize = 0;
        while k < self.lines.len() && k + 1 < self.lines.len()
            invariant
                lookup_line(self@.lines, k as int, rest as int) == lookup_line(
                    self@.lines,
                    0,
                    index as int,
                ),
                self@.well_formed() && index < self@.code.len() ==> lookup_line(
                    self@.lines,
                    0,
                    index as int,
                ) == Some(self@.line_of(index as int)),
            decreases self.lines@.len() - k,
        {
            let count: usize = self.lines[k + 1];
            if rest < count {
                return Some(self.lines[k]);
            }
            rest = rest - count;
            k += 2;
        }
        None
    }

    /// Disassembles `byte` as the instruction word at `index`, and returns
    /// with the text how many operand words follow it.
    pub fn disassemble_instruction(&self, byte: &OpCode, index: usize) -> (r: (Vec<Rendered>, usize))
        requires
            self@.can_list(*byte, index as int),
        ensures
            pieces_view(r.0@) == self@.listing(*byte, index as int),
            r.1 == (if byte.spec_has_operand() {
                1usize
            } else {
                0usize
            }),
    {
        let mut head = pad_left_string(usize_to_string(index), 4, true);
        head.append(" ");
        let line: usize = self.get_line(index);
        if index > 0 && line == self.get_line(index - 1) {
            head.append("   | ");
        } else {
            let column = pad_left_string(usize_to_string(line), 4, false);
            head.append(column.as_str());
            head.append(" ");
        }
        assert(head@ =~= self@.listing_prefix(index as int));
        let name: &'static str = match byte {
            OpCode::OpConstant => "OP_CONSTANT",
            OpCode::OpAdd => "OP_ADD",
            OpCode::OpSubtract => "OP_SUBTRACT",
            OpCode::OpMultiply => "OP_MULTIPLY",
            OpCode::OpDivide => "OP_DIVIDE",
            OpCode::OpNegate => "OP_NEGATE",
            OpCode::OpNot => "OP_NOT",
            OpCode::OpTrue => "OP_TRUE",
            OpCode::OpFalse => "OP_FALSE",
            OpCode::OpNone => "OP_NONE",
            OpCode::OpPrint => "OP_PRINT",
            OpCode::OpEqual => "OP_EQUAL",
            OpCode::OpNotEqual => "OP_NOT_EQUAL",
            OpCode::OpGreater => "OP_GREATER",
            OpCode::OpGreaterEqual => "OP_GREATER_EQUAL",
            OpCode::OpLess => "OP_LESS",
            OpCode::OpLessEqual => "OP_LESS_EQUAL",
            OpCode::OpReturn => "OP_RETURN",
            OpCode::OpSet => "OP_SET",
            OpCode::OpGet => "OP_GET",
            OpCode::OpEol => "OP_EOL",
            OpCode::OpEof => "OP_EOF",
            OpCode::OpPop => "OP_POP",
            OpCode::OpJumpIfTrue => "OP_JUMP_IF_TRUE",
            OpCode::OpJumpIfFalse => "OP_JUMP_IF_FALSE",
            OpCode::OpJump => "OP_JUMP",
            OpCode::OpLoop => "OP_LOOP",
            OpCode::OpCall => "OP_CALL",
            OpCode::Number(_) => "",
        };
        assert(name@ == mnemonic(*byte));
        let mut pieces: Vec<Rendered> = Vec::new();
        if byte.has_operand() {
            let padded = pad_right_string(name.to_owned(), 30);
            head.append(padded.as_str());
            assert(head@ =~= self@.listing_prefix(index as int) + pad_right(mnemonic(*byte), 30));
            if *byte == OpCode::OpConstant {
                let text = self.constant_instruction(index);
                pieces.push(Rendered::Text(head));
                pieces.push(text);
                assert(pieces_view(pieces@) =~= self@.listing(*byte, index as int));
            } else {
                let operand = self.byte_instruction(index);
                head.append(operand.as_str());
                assert(head@ =~= self@.listing_prefix(index as int) + pad_right(mnemonic(*byte), 30)
                    + "Number("@ + nat_digits(self@.code[index + 1]->0 as nat) + ")"@);
                pieces.push(Rendered::Text(head));
                assert(pieces_view(pieces@) =~= self@.listing(*byte, index as int));
            }
            (pieces, 1)
        } else {
            head.append(name);
            assert(head@ =~= self@.listing_prefix(index as int) + mnemonic(*byte));
            pieces.push(Rendered::Text(head));
            assert(pieces_view(pieces@) =~= self@.listing(*byte, index as int));
            (pieces, 0)
        }
    }

    fn byte_instruction(&self, index: usize) -> (r: String)
        requires
            index + 1 < self@.code.len(),
            self@.code[index + 1] is Number,
        ensures
            r@ == "Number("@ + nat_digits(self@.code[index + 1]->0 as nat) + ")"@,
    {
        let code_len: usize = self.code.len();
        let slot: usize = self.code[index + 1].as_number();
        let mut out = "Number(".to_owned();
        out.append(usize_to_string(slot).as_str());
        out.append(")");
        out
    }

    fn constant_instruction(&self, index: usize) -> (r: Rendered)
        requires
            index + 1 < self@.code.len(),
            self@.code[index + 1] is Number,
            self@.code[index + 1]->0 < self@.constants.len(),
        ensures
            r@ == value_text(self@.constants[self@.code[index + 1]->0 as int]),
    {
        let code_len: usize = self.code.len();
        let constant: usize = self.code[index + 1].as_number();
        self.constants[constant].render()
    }

    /// Disassembles the whole chunk: a heading that holds `name`, then one
    /// line for each instruction.
    pub fn disassemble(&self, name: &str) -> (r: Vec<Vec<Rendered>>)
        requires
            self@.well_formed(),
            self@.code_ok(),
        ensures
            r@.len() >= 1,
            listing_view(r@) == seq![seq![RenderedView::Text("== "@ + name@ + " =="@)]]
                + self@.listing_from(0),
    {
        let mut heading = "== ".to_owned();
        heading.append(name);
        heading.append(" ==");
        let mut first: Vec<Rendered> = Vec::new();
        first.push(Rendered::Text(heading));
        let mut out: Vec<Vec<Rendered>> = Vec::new();
        out.push(first);
        assert(listing_view(out@) =~= seq![seq![RenderedView::Text("== "@ + name@ + " =="@)]]) by {
            assert(pieces_view(out@[0]@) =~= seq![RenderedView::Text("== "@ + name@ + " =="@)]);
        }
        let mut index: usize = 0;
        let ghost heading_line = seq![seq![RenderedView::Text("== "@ + name@ + " =="@)]];
        proof {
            if self@.code.len() > 0 {
                assert(operand_rule(self@.code, 0));
            }
        }
        while index < self.code.len()
            invariant
                self@.well_formed(),
                self@.code_ok(),
                index <= self@.code.len(),
                starts_instruction(self@.code, index as int) || index == self@.code.len(),
                out@.len() >= 1,
                listing_view(out@) + self@.listing_from(index as int) == heading_line
                    + self@.listing_from(0),
            decreases self@.code.len() - index,
        {
            let byte = self.code[index];
            proof {
                lemma_can_list(self@, index as int);
                lemma_listing_step(self@, listing_view(out@), index as int);
            }
            let (pieces, skip) = self.disassemble_instruction(&byte, index);
            let ghost before = listing_view(out@);
            out.push(pieces);
            assert(listing_view(out@) =~= before.push(self@.listing(byte, index as int)));
            index = index + 1 + skip;
        }
        proof {
            assert(self@.listing_from(index as int) =~= Seq::empty());
            assert(listing_view(out@) + self@.listing_from(index as int) =~= listing_view(out@));
        }
        out
    }

    /// Whether two chunks are structurally equal.
    pub fn same_as(&self, other: &Chunk) -> (r: bool)
        ensures
            r == (self@ == other@),
        decreases self,
    {
        same_code(&self.code, &other.code) && same_numbers(&self.lines, &other.lines) && same_values(
            &self.constants,
            &other.constants,
        ) && self.had_error == other.had_error
    }
}

impl Clone for Chunk {
    fn clone(&self) -> (r: Chunk)
        ensures
            r@ == self@,
        decreases self,
    {
        let code = self.code.clone();
        let lines = self.lines.clone();
        assert(code@ =~= self.code@);
        assert(lines@ =~= self.lines@);
        Chunk { code, lines, constants: clone_values(&self.constants), had_error: self.had_error }
    }
}


/// The chunk is in order, and so is every function among its constants:
/// its line table fits its code and never goes back, its code is a
/// sequence of whole instructions, and its jumps and constant indices are
/// in range.
#[verifier::opaque]
pub open spec fn chunk_ok(c: ChunkView) -> bool
    decreases c,
{
    &&& c.well_formed()
    &&& c.code_ok()
    &&& runs_ascending(c.lines)
    &&& forall|i: int| 0 <= i < c.constants.len() ==> value_ok(#[trigger] c.constants[i])
}

/// `new` extends `old`: code and constants of `old` stand at the start of
/// those of `new`.
pub open spec fn extends(old: ChunkView, new: ChunkView) -> bool {
    &&& old.code.len() <= new.code.len()
    &&& forall|i: int| 0 <= i < old.code.len() ==> #[trigger] new.code[i] == old.code[i]
    &&& old.constants.len() <= new.constants.len()
    &&& forall|i: int|
        0 <= i < old.constants.len() ==> #[trigger] new.constants[i] == old.constants[i]
}

/// Code stays in order when an opcode without operand is appended.
pub proof fn lemma_push_plain(code: Seq<OpCode>, byte: OpCode, pool: int)
    requires
        code_well_formed(code),
        jumps_in_range(code),
        constants_in_range(code, pool),
        !(byte is Number),
        !byte.spec_has_operand(),
    ensures
        code_well_formed(code.push(byte)),
        jumps_in_range(code.push(byte)),
        constants_in_range(code.push(byte), pool),
{
    let new = code.push(byte);
    assert forall|i: int| 0 <= i < new.len() implies #[trigger] operand_rule(new, i) by {
        if i < code.len() {
            assert(operand_rule(code, i));
        }
    }
    assert forall|i: int| 0 <= i < new.len() - 1 implies #[trigger] jump_rule(new, i) by {
        if i < code.len() - 1 {
            assert(jump_rule(code, i));
        }
    }
    assert forall|i: int| 0 <= i < new.len() - 1 implies #[trigger] constant_rule(new, pool, i) by {
        if i < code.len() - 1 {
            assert(constant_rule(code, pool, i));
        }
    }
}

/// Whether `operand` may follow the opcode `op` at the end of code of the
/// given length, with a constant pool of the given size: a forward jump
/// must land inside what is there, a loop must not jump back beyond the
/// start, a constant must be in the pool.
pub open spec fn operand_fits(op: OpCode, operand: usize, length: int, pool: int) -> bool {
    &&& op.spec_has_operand()
    &&& op.is_forward_jump() ==> operand == 0
    &&& op == OpCode::OpLoop ==> operand <= length + 2
    &&& op == OpCode::OpConstant ==> operand < pool
}

/// Code stays in order when an opcode and its operand are appended.
pub proof fn lemma_push_pair(code: Seq<OpCode>, op: OpCode, operand: usize, pool: int)
    requires
        code_well_formed(code),
        jumps_in_range(code),
        constants_in_range(code, pool),
        operand_fits(op, operand, code.len() as int, pool),
    ensures
        code_well_formed(code.push(op).push(OpCode::Number(operand))),
        jumps_in_range(code.push(op).push(OpCode::Number(operand))),
        constants_in_range(code.push(op).push(OpCode::Number(operand)), pool),
{
    let new = code.push(op).push(OpCode::Number(operand));
    assert forall|i: int| 0 <= i < new.len() implies #[trigger] operand_rule(new, i) by {
        if i < code.len() {
            assert(operand_rule(code, i));
        }
    }
    assert forall|i: int| 0 <= i < new.len() - 1 implies #[trigger] jump_rule(new, i) by {
        if i < code.len() - 1 {
            assert(jump_rule(code, i));
        }
    }
    assert forall|i: int| 0 <= i < new.len() - 1 implies #[trigger] constant_rule(new, pool, i) by {
        if i < code.len() - 1 {
            assert(constant_rule(code, pool, i));
        }
    }
}

/// Code stays in order when the operand of a forward jump is set to an
/// offset that lands inside the code or at its end.
pub proof fn lemma_patch(code: Seq<OpCode>, index: int, offset: usize, pool: int)
    requires
        code_well_formed(code),
        jumps_in_range(code),
        constants_in_range(code, pool),
        0 < index < code.len(),
        code[index - 1].is_forward_jump(),
        index + 1 + offset <= code.len(),
    ensures
        code_well_formed(code.update(index, OpCode::Number(offset))),
        jumps_in_range(code.update(index, OpCode::Number(offset))),
        constants_in_range(code.update(index, OpCode::Number(offset)), pool),
{
    let new = code.update(index, OpCode::Number(offset));
    assert(operand_rule(code, index));
    assert forall|i: int| 0 <= i < new.len() implies #[trigger] operand_rule(new, i) by {
        assert(operand_rule(code, i));
    }
    assert forall|i: int| 0 <= i < new.len() - 1 implies #[trigger] jump_rule(new, i) by {
        assert(jump_rule(code, i));
    }
    assert forall|i: int| 0 <= i < new.len() - 1 implies #[trigger] constant_rule(new, pool, i) by {
        assert(constant_rule(code, pool, i));
    }
}

/// Code stays in order when the operand of a loop at its end is set to an
/// offset that does not jump back beyond the start of the code.
pub proof fn lemma_patch_loop(code: Seq<OpCode>, offset: usize, pool: int)
    requires
        code_well_formed(code),
        jumps_in_range(code),
        constants_in_range(code, pool),
        code.len() >= 2,
        code[code.len() - 2] == OpCode::OpLoop,
        offset <= code.len(),
    ensures
        code_well_formed(code.update(code.len() - 1, OpCode::Number(offset))),
        jumps_in_range(code.update(code.len() - 1, OpCode::Number(offset))),
        constants_in_range(code.update(code.len() - 1, OpCode::Number(offset)), pool),
{
    let index = code.len() - 1;
    let new = code.update(index, OpCode::Number(offset));
    assert(operand_rule(code, index));
    assert forall|i: int| 0 <= i < new.len() implies #[trigger] operand_rule(new, i) by {
        assert(operand_rule(code, i));
    }
    assert forall|i: int| 0 <= i < new.len() - 1 implies #[trigger] jump_rule(new, i) by {
        assert(jump_rule(code, i));
    }
    assert forall|i: int| 0 <= i < new.len() - 1 implies #[trigger] constant_rule(new, pool, i) by {
        assert(constant_rule(code, pool, i));
    }
}

/// Constant indices stay in range when the pool grows.
pub proof fn lemma_pool_grows(code: Seq<OpCode>, pool: int, larger: int)
    requires
        constants_in_range(code, pool),
        pool <= larger,
    ensures
        constants_in_range(code, larger),
{
    assert forall|i: int| 0 <= i < code.len() - 1 implies #[trigger] constant_rule(code, larger, i) by {
        assert(constant_rule(code, pool, i));
    }
}

} // verus!
