//! The errors that tokenizing, parsing and evaluating report.
use vstd::prelude::*;
use crate::text::{push_decimal, push_str, decimal, push_char};

verus! {

/// An error of the interpreter.
#[derive(Debug)]
pub enum LispError {
    InvalidNumber(String),
    SyntaxError(String),
    RuntimeError(String),
    /// `(exit code)` was evaluated: the program asks to stop with this code.
    Exit(i32),
    Other(String),
}

/// The content of a [`LispError`], with its message as characters.
pub enum Fault {
    InvalidNumber(Seq<char>),
    SyntaxError(Seq<char>),
    RuntimeError(Seq<char>),
    Exit(i32),
    Other(Seq<char>),
}

impl View for LispError {
    type V = Fault;

    open spec fn view(&self) -> Fault {
        match self {
            LispError::InvalidNumber(s) => Fault::InvalidNumber(s@),
            LispError::SyntaxError(s) => Fault::SyntaxError(s@),
            LispError::RuntimeError(s) => Fault::RuntimeError(s@),
            LispError::Exit(c) => Fault::Exit(*c),
            LispError::Other(s) => Fault::Other(s@),
        }
    }
}

/// The decimal form of a signed integer, as `{}` formats it.
pub open spec fn signed_decimal(n: int) -> Seq<char> {
    if n < 0 { seq!['-'] + decimal((-n) as nat) } else { decimal(n as nat) }
}

/// Appends the decimal form of `n` to `s`.
pub fn push_signed(s: &mut String, n: i32)
    ensures
        final(s)@ == old(s)@ + signed_decimal(n as int),
{
    if n < 0 {
        push_char(s, '-');
        let m: u32 = if n == i32::MIN { 2147483648u32 } else { (-n) as u32 };
        push_decimal(s, m as usize);
        assert(old(s)@.push('-') + decimal(m as nat) =~= old(s)@ + (seq!['-'] + decimal(m as nat)));
    } else {
        push_decimal(s, n as usize);
    }
}

/// The text that displaying an error shows.
pub open spec fn fault_message(e: Fault) -> Seq<char> {
    match e {
        Fault::InvalidNumber(s) => "Invalid number literal: "@ + s,
        Fault::SyntaxError(s) => "Syntax error: "@ + s,
        Fault::RuntimeError(s) => "Runtime error: "@ + s,
        Fault::Exit(c) => "Exit with code "@ + signed_decimal(c as int),
        Fault::Other(s) => s,
    }
}

impl LispError {
    /// The text that displaying this error shows.
    pub fn message(&self) -> (m: String)
        ensures
            m@ == fault_message(self@),
    {
        let mut m = String::new();
        match self {
            LispError::InvalidNumber(s) => {
                push_str(&mut m, "Invalid number literal: ");
                push_str(&mut m, s.as_str());
            },
            LispError::SyntaxError(s) => {
                push_str(&mut m, "Syntax error: ");
                push_str(&mut m, s.as_str());
            },
            LispError::RuntimeError(s) => {
                push_str(&mut m, "Runtime error: ");
                push_str(&mut m, s.as_str());
            },
            LispError::Exit(c) => {
                push_str(&mut m, "Exit with code ");
                push_signed(&mut m, *c);
            },
            LispError::Other(s) => {
                push_str(&mut m, s.as_str());
            },
        }
        m
    }
}

/// A runtime error with the given message.
pub fn runtime_error(msg: &str) -> (e: LispError)
    ensures
        e@ == Fault::RuntimeError(msg@),
{
    LispError::RuntimeError(crate::text::string_from(msg))
}

/// A syntax error with the given message.
pub fn syntax_error(msg: &str) -> (e: LispError)
    ensures
        e@ == Fault::SyntaxError(msg@),
{
    LispError::SyntaxError(crate::text::string_from(msg))
}

} // verus!
