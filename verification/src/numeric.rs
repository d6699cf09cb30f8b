//! The boundary to the floating-point arithmetic that numbers use.
//!
//! Numbers are IEEE-754 double-precision values. The interpreter keeps them as
//! their bit patterns and never computes with them itself: every operation on
//! numbers is a question put to a numeric backend, a function that the caller
//! supplies. The interpreter is verified for every backend that answers each
//! question in one way only.
use vstd::prelude::*;

verus! {

/// A double-precision number, held as its IEEE-754 bit pattern.
#[derive(Clone, Copy, Debug, PartialEq, Eq, Structural)]
pub struct Number {
    pub bits: u64,
}

/// A question about numbers.
#[derive(Debug)]
pub enum NumQuery {
    /// The number that a numeric literal denotes, or `Invalid`.
    Parse(String),
    /// The text of a number as `{}` writes it.
    Show(Number),
    /// The text of a number as `{:.6}` writes it.
    ShowFixed(Number),
    Add(Number, Number),
    Sub(Number, Number),
    Neg(Number),
    Mul(Number, Number),
    /// Whether the first number is greater than the second.
    Greater(Number, Number),
    /// Whether the two numbers are equal as `==` compares them.
    Equal(Number, Number),
    /// Whether the first number is less than the second.
    Less(Number, Number),
    /// Whether the first number is less than or equal to the second.
    LessEq(Number, Number),
    /// Whether the first number is greater than or equal to the second.
    GreaterEq(Number, Number),
    /// The first number divided by the second.
    Div(Number, Number),
    /// The absolute value.
    Abs(Number),
    /// The first number raised to the power of the second.
    Expt(Number, Number),
    /// The quotient of the division, truncated toward zero.
    Quotient(Number, Number),
    /// The remainder of the truncated division (the sign of the dividend).
    Remainder(Number, Number),
    /// The remainder of the floored division (the sign of the divisor).
    Modulo(Number, Number),
    /// Whether the number is zero.
    IsZero(Number),
    /// Whether the number is an even integer.
    IsEven(Number),
    /// Whether the number is an odd integer.
    IsOdd(Number),
    /// Whether the number has no fractional part.
    IsInteger(Number),
    /// A count as a number.
    FromCount(usize),
    /// The number converted to an exit code as `as i32` converts it.
    ExitCode(Number),
}

/// An answer about numbers.
#[derive(Debug)]
pub enum NumReply {
    Num(Number),
    Truth(bool),
    Code(i32),
    Text(String),
    Invalid,
}

/// The content of a [`NumQuery`].
pub enum NumAsk {
    Parse(Seq<char>),
    Show(Number),
    ShowFixed(Number),
    Add(Number, Number),
    Sub(Number, Number),
    Neg(Number),
    Mul(Number, Number),
    Greater(Number, Number),
    Equal(Number, Number),
    Less(Number, Number),
    LessEq(Number, Number),
    GreaterEq(Number, Number),
    Div(Number, Number),
    Abs(Number),
    Expt(Number, Number),
    Quotient(Number, Number),
    Remainder(Number, Number),
    Modulo(Number, Number),
    IsZero(Number),
    IsEven(Number),
    IsOdd(Number),
    IsInteger(Number),
    FromCount(usize),
    ExitCode(Number),
}

/// The content of a [`NumReply`].
pub enum NumAnswer {
    Num(Number),
    Truth(bool),
    Code(i32),
    Text(Seq<char>),
    Invalid,
}

impl View for NumQuery {
    type V = NumAsk;

    open spec fn view(&self) -> NumAsk {
        match self {
            NumQuery::Parse(s) => NumAsk::Parse(s@),
            NumQuery::Show(n) => NumAsk::Show(*n),
            NumQuery::ShowFixed(n) => NumAsk::ShowFixed(*n),
            NumQuery::Add(a, b) => NumAsk::Add(*a, *b),
            NumQuery::Sub(a, b) => NumAsk::Sub(*a, *b),
            NumQuery::Neg(a) => NumAsk::Neg(*a),
            NumQuery::Mul(a, b) => NumAsk::Mul(*a, *b),
            NumQuery::Greater(a, b) => NumAsk::Greater(*a, *b),
            NumQuery::Equal(a, b) => NumAsk::Equal(*a, *b),
            NumQuery::Less(a, b) => NumAsk::Less(*a, *b),
            NumQuery::LessEq(a, b) => NumAsk::LessEq(*a, *b),
            NumQuery::GreaterEq(a, b) => NumAsk::GreaterEq(*a, *b),
            NumQuery::Div(a, b) => NumAsk::Div(*a, *b),
            NumQuery::Abs(a) => NumAsk::Abs(*a),
            NumQuery::Expt(a, b) => NumAsk::Expt(*a, *b),
            NumQuery::Quotient(a, b) => NumAsk::Quotient(*a, *b),
            NumQuery::Remainder(a, b) => NumAsk::Remainder(*a, *b),
            NumQuery::Modulo(a, b) => NumAsk::Modulo(*a, *b),
            NumQuery::IsZero(a) => NumAsk::IsZero(*a),
            NumQuery::IsEven(a) => NumAsk::IsEven(*a),
            NumQuery::IsOdd(a) => NumAsk::IsOdd(*a),
            NumQuery::IsInteger(a) => NumAsk::IsInteger(*a),
            NumQuery::FromCount(c) => NumAsk::FromCount(*c),
            NumQuery::ExitCode(a) => NumAsk::ExitCode(*a),
        }
    }
}

impl View for NumReply {
    type V = NumAnswer;

    open spec fn view(&self) -> NumAnswer {
        match self {
            NumReply::Num(n) => NumAnswer::Num(*n),
            NumReply::Truth(b) => NumAnswer::Truth(*b),
            NumReply::Code(c) => NumAnswer::Code(*c),
            NumReply::Text(s) => NumAnswer::Text(s@),
            NumReply::Invalid => NumAnswer::Invalid,
        }
    }
}

/// The answer that backend `f` gives to question `q`.
pub open spec fn answer<F: Fn(NumQuery) -> NumReply>(f: F, q: NumAsk) -> NumAnswer {
    let qr = choose|qr: (NumQuery, NumReply)| qr.0@ == q && #[trigger] call_ensures(f, (qr.0,), qr.1);
    qr.1@
}

/// `f` can be asked any question, and gives one answer to each.
pub open spec fn is_backend<F: Fn(NumQuery) -> NumReply>(f: F) -> bool {
    &&& forall|q: NumQuery| call_requires(f, (q,))
    &&& forall|q: NumQuery, r: NumReply| #[trigger] call_ensures(f, (q,), r) ==> r@ == answer(f, q@)
}

/// Puts a question to the backend.
pub fn ask<F: Fn(NumQuery) -> NumReply>(f: &F, q: NumQuery) -> (r: NumReply)
    requires
        is_backend(*f),
    ensures
        r@ == answer(*f, q@),
{
    let ghost gq = q;
    let r = f(q);
    assert(call_ensures(*f, (gq,), r));
    r
}

/// The number that the backend answers to `q`, if it answers with one.
pub open spec fn answer_number<F: Fn(NumQuery) -> NumReply>(f: F, q: NumAsk) -> Option<Number> {
    match answer(f, q) {
        NumAnswer::Num(n) => Some(n),
        _ => None,
    }
}

/// The truth value that the backend answers to `q`; anything else counts as false.
pub open spec fn answer_truth<F: Fn(NumQuery) -> NumReply>(f: F, q: NumAsk) -> bool {
    match answer(f, q) {
        NumAnswer::Truth(b) => b,
        _ => false,
    }
}

/// The text that the backend answers to `q`; anything else counts as empty.
pub open spec fn answer_text<F: Fn(NumQuery) -> NumReply>(f: F, q: NumAsk) -> Seq<char> {
    match answer(f, q) {
        NumAnswer::Text(s) => s,
        _ => Seq::empty(),
    }
}

/// The exit code that the backend answers to `q`; anything else counts as 0.
pub open spec fn answer_code<F: Fn(NumQuery) -> NumReply>(f: F, q: NumAsk) -> i32 {
    match answer(f, q) {
        NumAnswer::Code(c) => c,
        _ => 0,
    }
}

/// Asks for a truth value.
pub fn ask_truth<F: Fn(NumQuery) -> NumReply>(f: &F, q: NumQuery) -> (b: bool)
    requires
        is_backend(*f),
    ensures
        b == answer_truth(*f, q@),
{
    match ask(f, q) {
        NumReply::Truth(b) => b,
        _ => false,
    }
}

/// Asks for a text.
pub fn ask_text<F: Fn(NumQuery) -> NumReply>(f: &F, q: NumQuery) -> (s: String)
    requires
        is_backend(*f),
    ensures
        s@ == answer_text(*f, q@),
{
    match ask(f, q) {
        NumReply::Text(s) => s,
        _ => String::new(),
    }
}

/// Asks for an exit code.
pub fn ask_code<F: Fn(NumQuery) -> NumReply>(f: &F, q: NumQuery) -> (c: i32)
    requires
        is_backend(*f),
    ensures
        c == answer_code(*f, q@),
{
    match ask(f, q) {
        NumReply::Code(c) => c,
        _ => 0,
    }
}

/// Asks for a number.
pub fn ask_number<F: Fn(NumQuery) -> NumReply>(f: &F, q: NumQuery) -> (n: Option<Number>)
    requires
        is_backend(*f),
    ensures
        n == answer_number(*f, q@),
{
    match ask(f, q) {
        NumReply::Num(n) => Some(n),
        _ => None,
    }
}

} // verus!
