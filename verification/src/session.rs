//! What the front ends make of a piece of source text: the terminal's answer
//! to one line, and what the editor's Run button adds to the output panel.
use vstd::prelude::*;
use std::rc::Rc;
use crate::{execute_source, execute_spec};
use crate::error::{Fault, LispError, fault_message, signed_decimal, push_signed};
use crate::eval_env::{EvalEnv, Scopes, eval_spec, MAX_EVAL_DEPTH};
use crate::numeric::{NumQuery, NumReply, is_backend};
use crate::output::Output;
use crate::parser::{Parser, parse_at};
use crate::text::{chars_of, is_white_space, is_whitespace_char, push_str, string_from,
    string_from_chars, push_char};
use crate::tokenizer::{tokenize, tokenize_spec};
use crate::value::show;

verus! {

/// `s` without its leading and trailing white space, as `str::trim` cuts it.
pub open spec fn trimmed(s: Seq<char>) -> Seq<char>
    decreases s.len(),
{
    if s.len() == 0 {
        s
    } else if is_white_space(s[0]) {
        trimmed(s.skip(1))
    } else if is_white_space(s.last()) {
        trimmed(s.drop_last())
    } else {
        s
    }
}

/// The characters of `s` with leading and trailing white space removed.
pub fn trim_text(s: &str) -> (r: String)
    ensures
        r@ == trimmed(s@),
{
    let chars = chars_of(s);
    let mut lo: usize = 0;
    let mut hi: usize = chars.len();
    assert(chars@.subrange(0, hi as int) =~= chars@);
    while lo < hi && is_whitespace_char(chars[lo])
        invariant
            lo <= hi == chars@.len(),
            trimmed(s@) == trimmed(chars@.subrange(lo as int, hi as int)),
        decreases hi - lo,
    {
        assert(chars@.subrange(lo as int, hi as int).skip(1) =~= chars@.subrange(lo + 1, hi as int));
        lo += 1;
    }
    while hi > lo && is_whitespace_char(chars[hi - 1])
        invariant
            lo <= hi <= chars@.len(),
            lo < hi ==> !is_white_space(chars@[lo as int]),
            trimmed(s@) == trimmed(chars@.subrange(lo as int, hi as int)),
        decreases hi - lo,
    {
        let ghost sub = chars@.subrange(lo as int, hi as int);
        assert(sub.drop_last() =~= chars@.subrange(lo as int, hi - 1));
        assert(sub[0] == chars@[lo as int]);
        hi -= 1;
    }
    let mut v: Vec<char> = Vec::new();
    let mut k = lo;
    while k < hi
        invariant
            lo <= k <= hi <= chars@.len(),
            v@ == chars@.subrange(lo as int, k as int),
        decreases hi - k,
    {
        v.push(chars[k]);
        assert(chars@.subrange(lo as int, k + 1) =~= chars@.subrange(lo as int, k as int).push(chars@[k as int]));
        k += 1;
    }
    string_from_chars(v.as_slice())
}

/// The terminal's answer to one line of input.
pub enum LineReply {
    /// The line is blank: nothing to show.
    Nothing,
    /// The value of the line's expression, as displayed.
    Value(String),
    /// What went wrong, as the terminal reports it.
    Error(String),
    /// The program asked to stop with this exit code.
    Exit(i32),
}

/// The content of a [`LineReply`].
pub enum LineAnswer {
    Nothing,
    Value(Seq<char>),
    Error(Seq<char>),
    Exit(i32),
}

impl View for LineReply {
    type V = LineAnswer;

    open spec fn view(&self) -> LineAnswer {
        match self {
            LineReply::Nothing => LineAnswer::Nothing,
            LineReply::Value(s) => LineAnswer::Value(s@),
            LineReply::Error(s) => LineAnswer::Error(s@),
            LineReply::Exit(c) => LineAnswer::Exit(*c),
        }
    }
}

/// How the terminal answers a line: a blank line gets no answer; otherwise the
/// first expression read from the trimmed line is evaluated and its value
/// shown. A tokenizing or evaluation failure is reported after `Error: `, a
/// reading failure after `Parse error: `; `(exit code)` asks to stop.
pub open spec fn line_answer<F: Fn(NumQuery) -> NumReply>(f: F, line: Seq<char>, env: Scopes, out: Seq<char>) -> (LineAnswer, Scopes, Seq<char>) {
    let t = trimmed(line);
    if t.len() == 0 {
        (LineAnswer::Nothing, env, out)
    } else {
        match tokenize_spec(f, t) {
            Err(x) => (LineAnswer::Error("Error: "@ + fault_message(x)), env, out),
            Ok(ts) => match parse_at(f, ts, 0) {
                Err(x) => (LineAnswer::Error("Parse error: "@ + fault_message(x)), env, out),
                Ok((e, _)) => {
                    let (r, env1, out1) = eval_spec(f, MAX_EVAL_DEPTH as nat, env, 0, out, e);
                    match r {
                        Ok(v) => (LineAnswer::Value(show(f, v)), env1, out1),
                        Err(Fault::Exit(c)) => (LineAnswer::Exit(c), env1, out1),
                        Err(x) => (LineAnswer::Error("Error: "@ + fault_message(x)), env1, out1),
                    }
                },
            },
        }
    }
}

fn error_reply(prefix: &str, e: &LispError) -> (r: LineReply)
    ensures
        r@ == LineAnswer::Error(prefix@ + fault_message(e@)),
{
    let mut m = string_from(prefix);
    let text = e.message();
    push_str(&mut m, text.as_str());
    LineReply::Error(m)
}

/// Answers one line typed at the terminal, evaluating it in `env`; what the
/// evaluation prints goes to `out`.
pub fn respond_to_line<F: Fn(NumQuery) -> NumReply>(line: &str, env: &mut EvalEnv, f: &F, out: &mut Output) -> (r: LineReply)
    requires
        is_backend(*f),
    ensures
        (r@, final(env)@, final(out)@) == line_answer(*f, line@, old(env)@, old(out)@),
{
    let input = trim_text(line);
    if input.as_str().is_empty() {
        return LineReply::Nothing;
    }
    let tokens = match tokenize(input.as_str(), f) {
        Ok(tokens) => tokens,
        Err(e) => return error_reply("Error: ", &e),
    };
    let mut parser = Parser::new(tokens);
    let expr = match parser.parse(f) {
        Ok(expr) => expr,
        Err(e) => return error_reply("Parse error: ", &e),
    };
    match env.eval(Rc::new(expr), f, out) {
        Ok(value) => LineReply::Value(value.to_display_string(f)),
        Err(LispError::Exit(code)) => LineReply::Exit(code),
        Err(e) => error_reply("Error: ", &e),
    }
}

/// `s` ending in a newline: as it is when empty or already so, else with one added.
pub open spec fn with_final_newline(s: Seq<char>) -> Seq<char> {
    if s.len() == 0 || s.last() == '\n' { s } else { s.push('\n') }
}

/// The line that reports how a run ended: nothing on success, the exit code
/// when the program asked to stop, the error otherwise.
pub open spec fn result_line(r: Result<(), Fault>) -> Seq<char> {
    match r {
        Ok(()) => Seq::empty(),
        Err(Fault::Exit(code)) => "Program requested exit with code "@ + signed_decimal(code as int) + ".\n"@,
        Err(x) => "Error: "@ + fault_message(x) + "\n"@,
    }
}

/// What the Run button adds to the output panel, and the bindings afterwards:
/// a request for code when the trimmed input is empty; otherwise a running
/// notice, what the program printed (ending in a newline), and how the run
/// ended. Every value is printed on a line of its own.
pub open spec fn run_report<F: Fn(NumQuery) -> NumReply>(f: F, input: Seq<char>, env: Scopes) -> (Seq<char>, Scopes) {
    let source = trimmed(input);
    if source.len() == 0 {
        ("Please enter some Lisp code.\n"@, env)
    } else {
        let (r, env1, printed) = execute_spec(f, source, env, Seq::empty(), true);
        (">>> Running...\n"@ + with_final_newline(printed) + result_line(r), env1)
    }
}

/// Runs the editor's input in `env` and returns the text for the output panel.
pub fn run_current_input<F: Fn(NumQuery) -> NumReply>(input: &str, env: &mut EvalEnv, f: &F) -> (r: String)
    requires
        is_backend(*f),
    ensures
        (r@, final(env)@) == run_report(*f, input@, old(env)@),
{
    let source = trim_text(input);
    if source.as_str().is_empty() {
        return string_from("Please enter some Lisp code.\n");
    }
    let mut report = string_from(">>> Running...\n");
    let mut out = Output::new();
    let result = execute_source(source.as_str(), env, true, f, &mut out);
    let printed = out.take();
    push_str(&mut report, printed.as_str());
    let chars = chars_of(printed.as_str());
    if chars.len() > 0 && chars[chars.len() - 1] != '\n' {
        push_char(&mut report, '\n');
    }
    match result {
        Ok(()) => {},
        Err(LispError::Exit(code)) => {
            push_str(&mut report, "Program requested exit with code ");
            push_signed(&mut report, code);
            push_str(&mut report, ".\n");
        },
        Err(e) => {
            push_str(&mut report, "Error: ");
            let text = e.message();
            push_str(&mut report, text.as_str());
            push_str(&mut report, "\n");
        },
    }
    report
}

} // verus!
