//! Runtime values and their typed arithmetic.
use vstd::prelude::*;
use vstd::string::*;
use vstd::std_specs::cmp::PartialEqSpecImpl;
use crate::object::{function_ok, function_text, function_view, FunctionView, ObjFunction};
use crate::text::{i64_to_string, int_digits};

verus! {

/// A runtime value.
///
/// A float is held as the bit pattern of an IEEE 754 binary64 number. The
/// typed-none variants are what a typed variable holds before it is assigned.
#[derive(Debug)]
pub enum Value {
    Float(u64),
    Integer(i64),
    String(String),
    Nil,
    True,
    ObjFunction(ObjFunction),
    False,
    IntegerNone,
    FloatNone,
    StringNone,
    BoolNone,
    FunctionNone,
}

/// The mathematical value of a [`Value`].
pub enum ValueView {
    Float(u64),
    Integer(i64),
    String(Seq<char>),
    Nil,
    True,
    ObjFunction(FunctionView),
    False,
    IntegerNone,
    FloatNone,
    StringNone,
    BoolNone,
    FunctionNone,
}

/// The view of a value.
pub open spec fn value_view(v: Value) -> ValueView
    decreases v,
{
    match v {
        Value::Float(bits) => ValueView::Float(bits),
        Value::Integer(i) => ValueView::Integer(i),
        Value::String(s) => ValueView::String(s@),
        Value::Nil => ValueView::Nil,
        Value::True => ValueView::True,
        Value::ObjFunction(f) => ValueView::ObjFunction(function_view(f)),
        Value::False => ValueView::False,
        Value::IntegerNone => ValueView::IntegerNone,
        Value::FloatNone => ValueView::FloatNone,
        Value::StringNone => ValueView::StringNone,
        Value::BoolNone => ValueView::BoolNone,
        Value::FunctionNone => ValueView::FunctionNone,
    }
}

/// A function value holds a function whose chunk is in order; any other
/// value is in order as it is.
pub open spec fn value_ok(v: ValueView) -> bool
    decreases v,
{
    match v {
        ValueView::ObjFunction(f) => function_ok(f),
        _ => true,
    }
}

impl View for Value {
    type V = ValueView;

    open spec fn view(&self) -> ValueView {
        value_view(*self)
    }
}

impl Value {
    /// Whether two values have the same view.
    pub fn identical(&self, other: &Value) -> (r: bool)
        ensures
            r == (self@ == other@),
        decreases self,
    {
        match (self, other) {
            (Value::Float(a), Value::Float(b)) => *a == *b,
            (Value::Integer(a), Value::Integer(b)) => *a == *b,
            (Value::String(a), Value::String(b)) => *a == *b,
            (Value::Nil, Value::Nil) => true,
            (Value::True, Value::True) => true,
            (Value::ObjFunction(f), Value::ObjFunction(g)) => f.same_as(g),
            (Value::False, Value::False) => true,
            (Value::IntegerNone, Value::IntegerNone) => true,
            (Value::FloatNone, Value::FloatNone) => true,
            (Value::StringNone, Value::StringNone) => true,
            (Value::BoolNone, Value::BoolNone) => true,
            (Value::FunctionNone, Value::FunctionNone) => true,
            _ => false,
        }
    }
}

impl Clone for Value {
    fn clone(&self) -> (r: Value)
        ensures
            r@ == self@,
        decreases self,
    {
        match self {
            Value::Float(bits) => Value::Float(*bits),
            Value::Integer(i) => Value::Integer(*i),
            Value::String(s) => Value::String(s.clone()),
            Value::Nil => Value::Nil,
            Value::True => Value::True,
            Value::ObjFunction(f) => Value::ObjFunction(f.clone()),
            Value::False => Value::False,
            Value::IntegerNone => Value::IntegerNone,
            Value::FloatNone => Value::FloatNone,
            Value::StringNone => Value::StringNone,
            Value::BoolNone => Value::BoolNone,
            Value::FunctionNone => Value::FunctionNone,
        }
    }
}


/// The sign bit of a float's bit pattern.
pub const FLOAT_SIGN: u64 = 0x8000_0000_0000_0000;

/// The bit pattern of positive infinity; a larger magnitude is not a number.
pub const FLOAT_INFINITY: u64 = 0x7FF0_0000_0000_0000;

/// The bit pattern without its sign bit.
pub open spec fn float_magnitude(bits: u64) -> u64 {
    if bits >= FLOAT_SIGN {
        (bits - FLOAT_SIGN) as u64
    } else {
        bits
    }
}

/// Whether the bit pattern is not a number.
pub open spec fn float_is_nan(bits: u64) -> bool {
    float_magnitude(bits) > FLOAT_INFINITY
}

/// Whether the bit pattern is positive or negative zero.
pub open spec fn float_is_zero(bits: u64) -> bool {
    float_magnitude(bits) == 0
}

/// Equality of two floats: a NaN equals nothing, the two zeros are equal,
/// and any other two floats are equal when their bits are.
pub open spec fn float_equal(a: u64, b: u64) -> bool {
    !float_is_nan(a) && !float_is_nan(b) && (a == b || (float_is_zero(a) && float_is_zero(b)))
}

/// The bit pattern with its sign bit flipped.
pub open spec fn float_negated(bits: u64) -> u64 {
    if bits >= FLOAT_SIGN {
        (bits - FLOAT_SIGN) as u64
    } else {
        (bits + FLOAT_SIGN) as u64
    }
}

/// A numeric operation that a float may take part in.
#[derive(Debug, Clone, Copy, PartialEq, Eq, Structural)]
pub enum NumericOp {
    Add,
    Subtract,
    Multiply,
    Divide,
    Greater,
    GreaterEqual,
    Less,
    LessEqual,
}

impl NumericOp {
    /// Whether the operation yields a truth value rather than a number.
    pub open spec fn spec_is_comparison(&self) -> bool {
        *self == NumericOp::Greater || *self == NumericOp::GreaterEqual || *self == NumericOp::Less
            || *self == NumericOp::LessEqual
    }

    /// Whether the operation yields a truth value rather than a number.
    #[verifier::when_used_as_spec(spec_is_comparison)]
    pub fn is_comparison(&self) -> (r: bool)
        ensures
            r == self.spec_is_comparison(),
    {
        match self {
            NumericOp::Greater
            | NumericOp::GreaterEqual
            | NumericOp::Less
            | NumericOp::LessEqual => true,
            _ => false,
        }
    }
}

/// A numeric operand: an integer, or the bits of a float.
#[derive(Debug, Clone, Copy, PartialEq, Eq, Structural)]
pub enum Number {
    Integer(i64),
    Float(u64),
}

/// An operation on numbers of which at least one is a float, or a division:
/// the library decides that it is needed, the host computes it.
#[derive(Debug, Clone, Copy, PartialEq, Eq, Structural)]
pub struct FloatRequest {
    pub op: NumericOp,
    pub left: Number,
    pub right: Number,
}

/// What the host computed for a [`FloatRequest`]: the bits of a float for an
/// arithmetic operation, a truth value for a comparison.
#[derive(Debug, Clone, Copy, PartialEq, Eq, Structural)]
pub enum FloatAnswer {
    Number(u64),
    Truth(bool),
}

/// The outcome of an operation on values: the resulting value, or the float
/// operation that yields it.
#[derive(Debug)]
pub enum Computation {
    Ready(Value),
    NeedsFloat(FloatRequest),
}

/// The mathematical value of a [`Computation`].
pub enum ComputationView {
    Ready(ValueView),
    NeedsFloat(FloatRequest),
}

impl View for Computation {
    type V = ComputationView;

    open spec fn view(&self) -> ComputationView {
        match self {
            Computation::Ready(v) => ComputationView::Ready(v@),
            Computation::NeedsFloat(r) => ComputationView::NeedsFloat(*r),
        }
    }
}

/// A printable text, or the bits of a float that the host formats.
#[derive(Debug)]
pub enum Rendered {
    Text(String),
    Float(u64),
}

/// The mathematical value of a [`Rendered`].
pub enum RenderedView {
    Text(Seq<char>),
    Float(u64),
}

impl View for Rendered {
    type V = RenderedView;

    open spec fn view(&self) -> RenderedView {
        match self {
            Rendered::Text(s) => RenderedView::Text(s@),
            Rendered::Float(bits) => RenderedView::Float(*bits),
        }
    }
}

impl Clone for Rendered {
    fn clone(&self) -> (r: Rendered)
        ensures
            r@ == self@,
    {
        match self {
            Rendered::Text(s) => Rendered::Text(s.clone()),
            Rendered::Float(bits) => Rendered::Float(*bits),
        }
    }
}

/// The view of the outcome of an operation that may fail with a message.
pub open spec fn outcome_view(r: Result<Computation, String>) -> Result<ComputationView, Seq<char>> {
    match r {
        Ok(c) => Ok(c@),
        Err(message) => Err(message@),
    }
}

/// The view of a value that may be absent because of an error message.
pub open spec fn checked_view(r: Result<Value, String>) -> Result<ValueView, Seq<char>> {
    match r {
        Ok(v) => Ok(v@),
        Err(message) => Err(message@),
    }
}

/// The truth value `b` as a value.
pub open spec fn truth(b: bool) -> ValueView {
    if b {
        ValueView::True
    } else {
        ValueView::False
    }
}

/// Truthiness: `True`, a number that is not zero and a string that is not
/// empty are truthy; everything else is falsy.
pub open spec fn truthy(v: ValueView) -> bool {
    match v {
        ValueView::True => true,
        ValueView::Integer(i) => i != 0,
        ValueView::Float(bits) => !float_is_zero(bits),
        ValueView::String(s) => s.len() != 0,
        _ => false,
    }
}

/// The name of a value's type, as diagnostics show it.
pub open spec fn kind_name(v: ValueView) -> Seq<char> {
    match v {
        ValueView::Float(_) => "float"@,
        ValueView::Integer(_) => "int"@,
        ValueView::True => "bool"@,
        ValueView::False => "bool"@,
        ValueView::String(_) => "string"@,
        ValueView::ObjFunction(_) => "function"@,
        _ => "none"@,
    }
}

/// The number that a numeric value holds.
pub open spec fn number_of(v: ValueView) -> Option<Number> {
    match v {
        ValueView::Integer(i) => Some(Number::Integer(i)),
        ValueView::Float(bits) => Some(Number::Float(bits)),
        _ => None,
    }
}

/// The text that stands for a value when it is printed.
pub open spec fn value_text(v: ValueView) -> RenderedView {
    match v {
        ValueView::String(s) => RenderedView::Text("\""@ + s + "\""@),
        ValueView::Float(bits) => RenderedView::Float(bits),
        ValueView::Integer(i) => RenderedView::Text(int_digits(i as int)),
        ValueView::True => RenderedView::Text("true"@),
        ValueView::False => RenderedView::Text("false"@),
        ValueView::ObjFunction(f) => RenderedView::Text(function_text(f.name)),
        _ => RenderedView::Text("none"@),
    }
}

/// The message for an operation that its operands' types do not support.
pub open spec fn unsupported(operation: Seq<char>, a: ValueView, b: ValueView) -> Seq<char> {
    "Unsupported "@ + operation + " operation on types "@ + kind_name(a) + " and "@ + kind_name(b)
}

/// What a numeric operation yields when no string is involved: the float
/// operation for two numbers, the message otherwise.
pub open spec fn numeric_request(op: NumericOp, operation: Seq<char>, a: ValueView, b: ValueView) -> Result<
    ComputationView,
    Seq<char>,
> {
    match (number_of(a), number_of(b)) {
        (Some(x), Some(y)) => Ok(
            ComputationView::NeedsFloat(FloatRequest { op: op, left: x, right: y }),
        ),
        _ => Err(unsupported(operation, a, b)),
    }
}

/// `s` repeated `n` times.
pub open spec fn repeated(s: Seq<char>, n: nat) -> Seq<char>
    decreases n,
{
    if n == 0 {
        Seq::empty()
    } else {
        repeated(s, (n - 1) as nat) + s
    }
}

/// Addition: integers add with wrap-around, strings concatenate, any other
/// two numbers need a float addition.
pub open spec fn add_result(a: ValueView, b: ValueView) -> Result<ComputationView, Seq<char>> {
    match (a, b) {
        (ValueView::Integer(x), ValueView::Integer(y)) => Ok(
            ComputationView::Ready(ValueView::Integer(x.wrapping_add(y))),
        ),
        (ValueView::String(x), ValueView::String(y)) => Ok(
            ComputationView::Ready(ValueView::String(x + y)),
        ),
        _ => numeric_request(NumericOp::Add, "add"@, a, b),
    }
}

/// Subtraction: integers subtract with wrap-around, any other two numbers
/// need a float subtraction.
pub open spec fn sub_result(a: ValueView, b: ValueView) -> Result<ComputationView, Seq<char>> {
    match (a, b) {
        (ValueView::Integer(x), ValueView::Integer(y)) => Ok(
            ComputationView::Ready(ValueView::Integer(x.wrapping_sub(y))),
        ),
        _ => numeric_request(NumericOp::Subtract, "substract"@, a, b),
    }
}

/// Multiplication: integers multiply with wrap-around, an integer that is
/// not negative repeats a string, any other two numbers need a float
/// multiplication.
pub open spec fn mul_result(a: ValueView, b: ValueView) -> Result<ComputationView, Seq<char>> {
    match (a, b) {
        (ValueView::Integer(x), ValueView::Integer(y)) => Ok(
            ComputationView::Ready(ValueView::Integer(x.wrapping_mul(y))),
        ),
        (ValueView::Integer(n), ValueView::String(s)) => if n >= 0 {
            Ok(ComputationView::Ready(ValueView::String(repeated(s, n as nat))))
        } else {
            Err(unsupported("multiply"@, a, b))
        },
        (ValueView::String(s), ValueView::Integer(n)) => if n >= 0 {
            Ok(ComputationView::Ready(ValueView::String(repeated(s, n as nat))))
        } else {
            Err(unsupported("multiply"@, a, b))
        },
        _ => numeric_request(NumericOp::Multiply, "multiply"@, a, b),
    }
}

/// Division: any two numbers need a float division, two integers too.
pub open spec fn div_result(a: ValueView, b: ValueView) -> Result<ComputationView, Seq<char>> {
    numeric_request(NumericOp::Divide, "divide"@, a, b)
}

/// Whether `x` stands in the relation `op` to `y`; false for an operation
/// that is no comparison.
pub open spec fn integers_compare(op: NumericOp, x: i64, y: i64) -> bool {
    match op {
        NumericOp::Greater => x > y,
        NumericOp::GreaterEqual => x >= y,
        NumericOp::Less => x < y,
        NumericOp::LessEqual => x <= y,
        _ => false,
    }
}

/// Ordering: two integers compare at once, any other two numbers need a
/// float comparison, other kinds are incomparable.
pub open spec fn compare_result(op: NumericOp, a: ValueView, b: ValueView) -> Result<
    ComputationView,
    Seq<char>,
> {
    match (a, b) {
        (ValueView::Integer(x), ValueView::Integer(y)) => Ok(
            ComputationView::Ready(truth(integers_compare(op, x, y))),
        ),
        _ => numeric_request(op, "comparison"@, a, b),
    }
}

/// Negation: an integer negates with wrap-around, a float flips its sign.
pub open spec fn neg_result(a: ValueView) -> Result<ValueView, Seq<char>> {
    match a {
        ValueView::Integer(x) => Ok(ValueView::Integer(0i64.wrapping_sub(x))),
        ValueView::Float(bits) => Ok(ValueView::Float(float_negated(bits))),
        _ => Err("Operand must be a number."@),
    }
}

/// Equality of values: structural on the same variant, with floats compared
/// as numbers; values of different variants are unequal.
pub open spec fn values_equal(a: ValueView, b: ValueView) -> bool {
    match (a, b) {
        (ValueView::Float(x), ValueView::Float(y)) => float_equal(x, y),
        _ => a == b,
    }
}

/// The value that completes a float request, if the answer is of the kind
/// that the operation yields.
pub open spec fn completed(request: FloatRequest, answer: FloatAnswer) -> Option<ValueView> {
    match answer {
        FloatAnswer::Number(bits) => if request.op.spec_is_comparison() {
            None
        } else {
            Some(ValueView::Float(bits))
        },
        FloatAnswer::Truth(b) => if request.op.spec_is_comparison() {
            Some(truth(b))
        } else {
            None
        },
    }
}

/// Whether the bits of a float are positive or negative zero.
pub fn float_bits_are_zero(bits: u64) -> (r: bool)
    ensures
        r == float_is_zero(bits),
{
    bits == 0 || bits == FLOAT_SIGN
}

/// Whether the bits of a float are not a number.
pub fn float_bits_are_nan(bits: u64) -> (r: bool)
    ensures
        r == float_is_nan(bits),
{
    let magnitude: u64 = if bits >= FLOAT_SIGN {
        bits - FLOAT_SIGN
    } else {
        bits
    };
    magnitude > FLOAT_INFINITY
}

/// Whether two floats, given by their bits, are equal as numbers.
pub fn float_bits_equal(a: u64, b: u64) -> (r: bool)
    ensures
        r == float_equal(a, b),
{
    !float_bits_are_nan(a) && !float_bits_are_nan(b) && (a == b || (float_bits_are_zero(a)
        && float_bits_are_zero(b)))
}

fn unsupported_message(operation: &str, type_self: &String, type_other: &String) -> (r: String)
    ensures
        r@ == "Unsupported "@ + operation@ + " operation on types "@ + type_self@ + " and "@
            + type_other@,
{
    let mut message = "Unsupported ".to_owned();
    message.append(operation);
    message.append(" operation on types ");
    message.append(type_self.as_str());
    message.append(" and ");
    message.append(type_other.as_str());
    message
}

fn repeat_string(s: &String, n: i64) -> (r: String)
    requires
        n >= 0,
    ensures
        r@ == repeated(s@, n as nat),
{
    let mut out = String::new();
    if s.as_str().is_empty() {
        proof {
            lemma_repeated_empty(s@, n as nat);
        }
        return out;
    }
    let mut i: i64 = 0;
    while i < n
        invariant
            0 <= i <= n,
            out@ == repeated(s@, i as nat),
        decreases n - i,
    {
        out.append(s.as_str());
        i += 1;
    }
    out
}

proof fn lemma_repeated_empty(s: Seq<char>, n: nat)
    requires
        s.len() == 0,
    ensures
        repeated(s, n) == Seq::<char>::empty(),
    decreases n,
{
    if n > 0 {
        lemma_repeated_empty(s, (n - 1) as nat);
        assert(repeated(s, n) =~= Seq::<char>::empty());
    }
}

impl FloatRequest {
    /// The value that the answer to this request stands for; `None` where
    /// the answer is not of the kind that the operation yields.
    pub fn complete(&self, answer: FloatAnswer) -> (r: Option<Value>)
        ensures
            match completed(*self, answer) {
                Some(v) => r matches Some(x) && x@ == v,
                None => r is None,
            },
    {
        match answer {
            FloatAnswer::Number(bits) => if self.op.is_comparison() {
                None
            } else {
                Some(Value::Float(bits))
            },
            FloatAnswer::Truth(b) => if self.op.is_comparison() {
                if b {
                    Some(Value::True)
                } else {
                    Some(Value::False)
                }
            } else {
                None
            },
        }
    }
}

impl Value {
    /// Truthiness of a value.
    pub fn is_truthy(&self) -> (r: bool)
        ensures
            r == truthy(self@),
    {
        match self {
            Value::True => true,
            Value::Integer(i) => *i != 0,
            Value::Float(bits) => !float_bits_are_zero(*bits),
            Value::String(s) => !s.as_str().is_empty(),
            _ => false,
        }
    }

    /// Whether the value is an integer or a float.
    pub fn is_number(&self) -> (r: bool)
        ensures
            r == (self@ is Integer || self@ is Float),
            r == number_of(self@).is_some(),
    {
        match self {
            Value::Float(_) | Value::Integer(_) => true,
            _ => false,
        }
    }

    /// The name of the value's type.
    pub fn type_of(&self) -> (r: String)
        ensures
            r@ == kind_name(self@),
    {
        match self {
            Value::Float(_) => "float".to_owned(),
            Value::Integer(_) => "int".to_owned(),
            Value::True => "bool".to_owned(),
            Value::False => "bool".to_owned(),
            Value::String(_) => "string".to_owned(),
            Value::ObjFunction(_) => "function".to_owned(),
            _ => "none".to_owned(),
        }
    }

    /// The text that stands for the value when it is printed.
    pub fn render(&self) -> (r: Rendered)
        ensures
            r@ == value_text(self@),
    {
        match self {
            Value::String(s) => {
                let mut out = "\"".to_owned();
                out.append(s.as_str());
                out.append("\"");
                Rendered::Text(out)
            },
            Value::Float(bits) => Rendered::Float(*bits),
            Value::Integer(i) => Rendered::Text(i64_to_string(*i)),
            Value::True => Rendered::Text("true".to_owned()),
            Value::False => Rendered::Text("false".to_owned()),
            Value::ObjFunction(f) => Rendered::Text(f.text()),
            _ => Rendered::Text("none".to_owned()),
        }
    }

    fn as_number(&self) -> (r: Option<Number>)
        ensures
            r == number_of(self@),
    {
        match self {
            Value::Integer(i) => Some(Number::Integer(*i)),
            Value::Float(bits) => Some(Number::Float(*bits)),
            _ => None,
        }
    }

    fn numeric(&self, other: &Value, op: NumericOp, operation: &str) -> (r: Result<Computation, String>)
        ensures
            outcome_view(r) == numeric_request(op, operation@, self@, other@),
    {
        match (self.as_number(), other.as_number()) {
            (Some(x), Some(y)) => Ok(
                Computation::NeedsFloat(FloatRequest { op: op, left: x, right: y }),
            ),
            _ => Err(unsupported_message(operation, &self.type_of(), &other.type_of())),
        }
    }

    /// Adds two values.
    pub fn add(self, other: Value) -> (r: Result<Computation, String>)
        ensures
            outcome_view(r) == add_result(self@, other@),
    {
        match (&self, &other) {
            (Value::Integer(a), Value::Integer(b)) => Ok(
                Computation::Ready(Value::Integer(a.wrapping_add(*b))),
            ),
            (Value::String(a), Value::String(b)) => {
                let mut out = a.clone();
                out.append(b.as_str());
                Ok(Computation::Ready(Value::String(out)))
            },
            _ => self.numeric(&other, NumericOp::Add, "add"),
        }
    }

    /// Subtracts `other` from this value.
    pub fn sub(self, other: Value) -> (r: Result<Computation, String>)
        ensures
            outcome_view(r) == sub_result(self@, other@),
    {
        match (&self, &other) {
            (Value::Integer(a), Value::Integer(b)) => Ok(
                Computation::Ready(Value::Integer(a.wrapping_sub(*b))),
            ),
            _ => self.numeric(&other, NumericOp::Subtract, "substract"),
        }
    }

    /// Multiplies two values.
    pub fn mul(self, other: Value) -> (r: Result<Computation, String>)
        ensures
            outcome_view(r) == mul_result(self@, other@),
    {
        match (&self, &other) {
            (Value::Integer(a), Value::Integer(b)) => Ok(
                Computation::Ready(Value::Integer(a.wrapping_mul(*b))),
            ),
            (Value::Integer(n), Value::String(s)) => if *n >= 0 {
                Ok(Computation::Ready(Value::String(repeat_string(s, *n))))
            } else {
                Err(unsupported_message("multiply", &self.type_of(), &other.type_of()))
            },
            (Value::String(s), Value::Integer(n)) => if *n >= 0 {
                Ok(Computation::Ready(Value::String(repeat_string(s, *n))))
            } else {
                Err(unsupported_message("multiply", &self.type_of(), &other.type_of()))
            },
            _ => self.numeric(&other, NumericOp::Multiply, "multiply"),
        }
    }

    /// Divides this value by `other`.
    pub fn div(self, other: Value) -> (r: Result<Computation, String>)
        ensures
            outcome_view(r) == div_result(self@, other@),
    {
        self.numeric(&other, NumericOp::Divide, "divide")
    }

    /// Compares this value with `other` by one of the four orderings.
    pub fn compare(self, other: Value, op: NumericOp) -> (r: Result<Computation, String>)
        ensures
            outcome_view(r) == compare_result(op, self@, other@),
    {
        match (&self, &other) {
            (Value::Integer(a), Value::Integer(b)) => {
                let holds = match op {
                    NumericOp::Greater => *a > *b,
                    NumericOp::GreaterEqual => *a >= *b,
                    NumericOp::Less => *a < *b,
                    NumericOp::LessEqual => *a <= *b,
                    _ => false,
                };
                if holds {
                    Ok(Computation::Ready(Value::True))
                } else {
                    Ok(Computation::Ready(Value::False))
                }
            },
            _ => self.numeric(&other, op, "comparison"),
        }
    }

    /// Negates a number.
    pub fn neg(self) -> (r: Result<Value, String>)
        ensures
            checked_view(r) == neg_result(self@),
    {
        match self {
            Value::Integer(a) => Ok(Value::Integer(0i64.wrapping_sub(a))),
            Value::Float(bits) => if bits >= FLOAT_SIGN {
                Ok(Value::Float(bits - FLOAT_SIGN))
            } else {
                Ok(Value::Float(bits + FLOAT_SIGN))
            },
            _ => Err("Operand must be a number.".to_owned()),
        }
    }

    /// Logical and of the two values' truthiness.
    pub fn bitand(self, other: Value) -> (r: Result<Value, String>)
        ensures
            checked_view(r) == Ok::<ValueView, Seq<char>>(truth(truthy(self@) && truthy(other@))),
    {
        let ret = self.is_truthy() && other.is_truthy();
        if ret {
            Ok(Value::True)
        } else {
            Ok(Value::False)
        }
    }

    /// Logical or of the two values' truthiness.
    pub fn bitor(self, other: Value) -> (r: Result<Value, String>)
        ensures
            checked_view(r) == Ok::<ValueView, Seq<char>>(truth(truthy(self@) || truthy(other@))),
    {
        let ret = self.is_truthy() || other.is_truthy();
        if ret {
            Ok(Value::True)
        } else {
            Ok(Value::False)
        }
    }

    /// Logical negation of the value's truthiness.
    pub fn not(self) -> (r: Value)
        ensures
            r@ == truth(!truthy(self@)),
    {
        if self.is_truthy() {
            Value::False
        } else {
            Value::True
        }
    }

    /// Whether two values are equal: structurally, with floats as numbers.
    pub fn equals(&self, other: &Value) -> (r: bool)
        ensures
            r == values_equal(self@, other@),
    {
        match (self, other) {
            (Value::Float(a), Value::Float(b)) => float_bits_equal(*a, *b),
            _ => self.identical(other),
        }
    }
}

impl PartialEq for Value {
    fn eq(&self, other: &Value) -> (r: bool) {
        self.equals(other)
    }
}

impl PartialEqSpecImpl for Value {
    open spec fn obeys_eq_spec() -> bool {
        true
    }

    open spec fn eq_spec(&self, other: &Value) -> bool {
        values_equal(self@, other@)
    }
}

/// The text that stands for a value when it is printed.
pub fn print_value(value: Value) -> (r: Rendered)
    ensures
        r@ == value_text(value@),
{
    value.render()
}

/// Equality of values is reflexive on every value but a float that is not a
/// number.
pub proof fn lemma_values_equal_reflexive(a: ValueView)
    requires
        a matches ValueView::Float(bits) ==> !float_is_nan(bits),
    ensures
        values_equal(a, a),
{
}

/// Equality of values is symmetric.
pub proof fn lemma_values_equal_symmetric(a: ValueView, b: ValueView)
    ensures
        values_equal(a, b) == values_equal(b, a),
{
}

/// Equality of values is transitive.
pub proof fn lemma_values_equal_transitive(a: ValueView, b: ValueView, c: ValueView)
    requires
        values_equal(a, b),
        values_equal(b, c),
    ensures
        values_equal(a, c),
{
}

} // verus!
