//! Function objects: a compiled chunk with its name and signature.
use vstd::prelude::*;
use vstd::string::*;
use crate::chunk::{
    chunk_ok, chunk_view, jump_rule, lemma_expand_ascending, lemma_walk_consumes_code, operand_rule,
    runs_ascending, walk_end, Chunk, ChunkView, OpCode,
};
use crate::value::value_ok;
use crate::scanner::TokenType;

verus! {

/// The signature of a function: its name and its parameters' names and types.
#[derive(Debug)]
pub struct FunctionInfo {
    pub name: String,
    pub arg_names: Vec<String>,
    pub arg_types: Vec<TokenType>,
}

/// The mathematical value of a [`FunctionInfo`].
pub struct FunctionInfoView {
    pub name: Seq<char>,
    pub arg_names: Seq<Seq<char>>,
    pub arg_types: Seq<TokenType>,
}

/// A compiled function. The top-level script has the empty name.
#[derive(Debug)]
pub struct ObjFunction {
    pub name: String,
    pub chunk: Chunk,
    pub function_info: FunctionInfo,
    /// How many globally declared function constants precede this function's
    /// locals in the enclosing frame.
    pub functions_count: usize,
}

/// The mathematical value of an [`ObjFunction`].
pub struct FunctionView {
    pub name: Seq<char>,
    pub chunk: ChunkView,
    pub function_info: FunctionInfoView,
    pub functions_count: usize,
}

/// The text that stands for a function of the given name when it is
/// printed; the top-level script has the empty name.
pub open spec fn function_text(name: Seq<char>) -> Seq<char> {
    "<function "@ + (if name.len() == 0 {
        "<script>"@
    } else {
        name
    }) + ">"@
}

/// The function's chunk is in order, and so is every function among its
/// constants.
pub open spec fn function_ok(f: FunctionView) -> bool
    decreases f,
{
    chunk_ok(f.chunk)
}

/// The view of a vector of strings.
pub open spec fn strings_view(v: Seq<String>) -> Seq<Seq<char>> {
    Seq::new(v.len(), |i: int| v[i]@)
}

/// The view of a function object.
pub open spec fn function_view(f: ObjFunction) -> FunctionView
    decreases f,
{
    FunctionView {
        name: f.name@,
        chunk: chunk_view(f.chunk),
        function_info: f.function_info@,
        functions_count: f.functions_count,
    }
}

impl View for FunctionInfo {
    type V = FunctionInfoView;

    open spec fn view(&self) -> FunctionInfoView {
        FunctionInfoView {
            name: self.name@,
            arg_names: strings_view(self.arg_names@),
            arg_types: self.arg_types@,
        }
    }
}

impl View for ObjFunction {
    type V = FunctionView;

    open spec fn view(&self) -> FunctionView {
        function_view(*self)
    }
}

/// Copies a vector of strings.
pub fn clone_strings(v: &Vec<String>) -> (r: Vec<String>)
    ensures
        strings_view(r@) == strings_view(v@),
{
    let mut out: Vec<String> = Vec::new();
    let mut i: usize = 0;
    while i < v.len()
        invariant
            i <= v.len(),
            out@.len() == i,
            forall|j: int| 0 <= j < i ==> out@[j]@ == v@[j]@,
        decreases v.len() - i,
    {
        out.push(v[i].clone());
        i += 1;
    }
    assert(strings_view(out@) =~= strings_view(v@));
    out
}

/// Whether two vectors of strings hold the same texts.
pub fn same_strings(a: &Vec<String>, b: &Vec<String>) -> (r: bool)
    ensures
        r == (strings_view(a@) == strings_view(b@)),
{
    if a.len() != b.len() {
        assert(strings_view(a@).len() != strings_view(b@).len());
        return false;
    }
    let mut i: usize = 0;
    while i < a.len()
        invariant
            i <= a.len(),
            a.len() == b.len(),
            forall|j: int| 0 <= j < i ==> a@[j]@ == b@[j]@,
        decreases a.len() - i,
    {
        if a[i] != b[i] {
            assert(strings_view(a@)[i as int] != strings_view(b@)[i as int]);
            return false;
        }
        i += 1;
    }
    assert(strings_view(a@) =~= strings_view(b@));
    true
}

/// Whether two vectors of token kinds are equal.
pub fn same_types(a: &Vec<TokenType>, b: &Vec<TokenType>) -> (r: bool)
    ensures
        r == (a@ == b@),
{
    if a.len() != b.len() {
        return false;
    }
    let mut i: usize = 0;
    while i < a.len()
        invariant
            i <= a.len(),
            a.len() == b.len(),
            forall|j: int| 0 <= j < i ==> a@[j] == b@[j],
        decreases a.len() - i,
    {
        if a[i] != b[i] {
            return false;
        }
        i += 1;
    }
    assert(a@ =~= b@);
    true
}

impl FunctionInfo {
    /// A signature without parameters.
    pub fn new(name: String) -> (r: FunctionInfo)
        ensures
            r@ == (FunctionInfoView { name: name@, arg_names: Seq::empty(), arg_types: Seq::empty() }),
    {
        let r = FunctionInfo { name, arg_names: Vec::new(), arg_types: Vec::new() };
        assert(r@.arg_names =~= Seq::empty());
        r
    }

    /// Whether two signatures are equal.
    pub fn same_as(&self, other: &FunctionInfo) -> (r: bool)
        ensures
            r == (self@ == other@),
    {
        self.name == other.name && same_strings(&self.arg_names, &other.arg_names) && same_types(
            &self.arg_types,
            &other.arg_types,
        )
    }
}

impl Clone for FunctionInfo {
    fn clone(&self) -> (r: FunctionInfo)
        ensures
            r@ == self@,
    {
        let arg_types = self.arg_types.clone();
        assert(arg_types@ =~= self.arg_types@);
        FunctionInfo {
            name: self.name.clone(),
            arg_names: clone_strings(&self.arg_names),
            arg_types,
        }
    }
}

impl ObjFunction {
    /// The view of the empty top-level function.
    pub open spec fn new_view() -> FunctionView {
        FunctionView {
            name: Seq::empty(),
            chunk: ChunkView::empty(),
            function_info: FunctionInfoView {
                name: Seq::empty(),
                arg_names: Seq::empty(),
                arg_types: Seq::empty(),
            },
            functions_count: 0,
        }
    }

    /// The empty top-level function: no name, an empty chunk, no parameters.
    pub fn new() -> (r: ObjFunction)
        ensures
            r@ == ObjFunction::new_view(),
    {
        ObjFunction {
            name: String::new(),
            chunk: Chunk::new(),
            function_info: FunctionInfo::new(String::new()),
            functions_count: 0,
        }
    }

    /// Whether compiling this function reported a diagnostic.
    pub fn had_error(&self) -> (r: bool)
        ensures
            r == self@.chunk.had_error,
    {
        self.chunk.had_error
    }

    /// The text that stands for the function when it is printed.
    pub fn text(&self) -> (r: String)
        ensures
            r@ == function_text(self@.name),
    {
        let mut out = "<function ".to_owned();
        if self.name.as_str().is_empty() {
            out.append("<script>");
        } else {
            out.append(self.name.as_str());
        }
        out.append(">");
        out
    }

    /// Whether two functions are structurally equal.
    pub fn same_as(&self, other: &ObjFunction) -> (r: bool)
        ensures
            r == (self@ == other@),
        decreases self,
    {
        self.name == other.name && self.chunk.same_as(&other.chunk) && self.function_info.same_as(
            &other.function_info,
        ) && self.functions_count == other.functions_count
    }
}

impl Clone for ObjFunction {
    fn clone(&self) -> (r: ObjFunction)
        ensures
            r@ == self@,
        decreases self,
    {
        ObjFunction {
            name: self.name.clone(),
            chunk: self.chunk.clone(),
            function_info: self.function_info.clone(),
            functions_count: self.functions_count,
        }
    }
}


/// A function in order has a chunk whose line table fits its code and never
/// goes back, whose code is a sequence of whole instructions with jumps and
/// constant indices in range, and whose function constants are in order
/// too.
pub proof fn lemma_function_in_order(f: FunctionView)
    requires
        function_ok(f),
    ensures
        f.chunk.well_formed(),
        f.chunk.code_ok(),
        runs_ascending(f.chunk.lines),
        forall|i: int| 0 <= i < f.chunk.constants.len() ==> value_ok(#[trigger] f.chunk.constants[i]),
{
    reveal(chunk_ok);
}

/// In the code of a function in order, the operand of every forward jump is
/// an offset that lands inside the code or at its end, and the operand of
/// every loop is an offset that does not lead back beyond the start.
pub proof fn lemma_jumps_stay_in_code(f: FunctionView, index: int)
    requires
        function_ok(f),
        0 <= index < f.chunk.code.len(),
        f.chunk.code[index].is_forward_jump() || f.chunk.code[index] == OpCode::OpLoop,
    ensures
        index + 1 < f.chunk.code.len(),
        f.chunk.code[index + 1] is Number,
        f.chunk.code[index].is_forward_jump() ==> index + 2 + f.chunk.code[index + 1]->0
            <= f.chunk.code.len(),
        f.chunk.code[index] == OpCode::OpLoop ==> f.chunk.code[index + 1]->0 <= index + 2,
{
    reveal(chunk_ok);
    let code = f.chunk.code;
    if index + 1 == code.len() {
        assert(!code[code.len() - 1].spec_has_operand());
    }
    assert(operand_rule(code, index + 1));
    assert(jump_rule(code, index));
}

/// A walk over the code of a function in order, which starts at the first
/// word and steps over each opcode together with its operand, ends exactly
/// at the end of the code.
pub proof fn lemma_walk_consumes_function(f: FunctionView)
    requires
        function_ok(f),
    ensures
        walk_end(f.chunk.code, 0) == f.chunk.code.len(),
{
    reveal(chunk_ok);
    if f.chunk.code.len() > 0 {
        assert(operand_rule(f.chunk.code, 0));
    }
    lemma_walk_consumes_code(f.chunk.code, 0);
}

/// The source lines of the instruction words of a function in order never
/// decrease.
pub proof fn lemma_lines_never_decrease(f: FunctionView, i: int, j: int)
    requires
        function_ok(f),
        0 <= i <= j < f.chunk.code.len(),
    ensures
        f.chunk.line_of(i) <= f.chunk.line_of(j),
{
    reveal(chunk_ok);
    lemma_expand_ascending(f.chunk.lines, i, j);
}

} // verus!
