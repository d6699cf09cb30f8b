//! A small Lisp interpreter: tokenizer, parser, evaluator and the editor
//! support of its graphical front end.
pub mod text;
pub mod editor;
pub mod error;
pub mod numeric;
pub mod output;
pub mod token;
pub mod tokenizer;
pub mod value;
pub mod parser;
pub mod builtins;
pub mod eval_env;
pub mod form;
pub mod laws;
pub mod docs;
pub mod session;

use vstd::prelude::*;
use std::rc::Rc;
use crate::error::{LispError, Fault};
use crate::eval_env::{EvalEnv, Scopes, eval_spec, MAX_EVAL_DEPTH};
use crate::numeric::{NumQuery, NumReply, is_backend};
use crate::output::Output;
use crate::parser::{Parser, parse_at, lemma_parse_advances};
use crate::token::{Lexeme, lexemes};
use crate::tokenizer::{tokenize, tokenize_spec};
use crate::value::show;

verus! {

/// Evaluates the expressions read from `ts` from position `p` on, one after
/// the other, writing each value on a line of its own when `print_results`
/// holds; stops at the first error.
pub open spec fn run_from<F: Fn(NumQuery) -> NumReply>(f: F, ts: Seq<Lexeme>, p: int, env: Scopes, out: Seq<char>, print_results: bool) -> (Result<(), Fault>, Scopes, Seq<char>)
    decreases ts.len() - p,
{
    if p < 0 || p >= ts.len() {
        (Ok(()), env, out)
    } else {
        match parse_at(f, ts, p) {
            Err(x) => (Err(x), env, out),
            Ok((e, q)) => if q <= p || q > ts.len() {
                (Ok(()), env, out)
            } else {
                let (r, env1, out1) = eval_spec(f, MAX_EVAL_DEPTH as nat, env, 0, out, e);
                match r {
                    Err(x) => (Err(x), env1, out1),
                    Ok(v) => run_from(f, ts, q, env1,
                        if print_results { out1 + show(f, v) + seq!['\n'] } else { out1 },
                        print_results),
                }
            },
        }
    }
}

/// Runs Lisp source text: tokenizes it, then reads and evaluates its
/// expressions in turn.
pub open spec fn execute_spec<F: Fn(NumQuery) -> NumReply>(f: F, source: Seq<char>, env: Scopes, out: Seq<char>, print_results: bool) -> (Result<(), Fault>, Scopes, Seq<char>) {
    match tokenize_spec(f, source) {
        Err(x) => (Err(x), env, out),
        Ok(ts) => run_from(f, ts, 0, env, out, print_results),
    }
}

/// The result of running source text, as a result over contents.
pub open spec fn unit_outcome(r: Result<(), LispError>) -> Result<(), Fault> {
    match r {
        Ok(()) => Ok(()),
        Err(e) => Err(e@),
    }
}

/// Runs Lisp source text in `env`, writing each value to `out` when
/// `print_results` holds.
pub fn execute_source<F: Fn(NumQuery) -> NumReply>(source: &str, env: &mut EvalEnv, print_results: bool, f: &F, out: &mut Output) -> (r: Result<(), LispError>)
    requires
        is_backend(*f),
    ensures
        (unit_outcome(r), final(env)@, final(out)@) == execute_spec(*f, source@, old(env)@, old(out)@, print_results),
{
    let tokens = tokenize(source, f)?;
    let ghost ts = lexemes(tokens@);
    let mut parser = Parser::new(tokens);
    while parser.has_tokens()
        invariant
            is_backend(*f),
            parser.tokens_spec() == ts,
            0 <= parser.pos_spec() <= ts.len(),
            execute_spec(*f, source@, old(env)@, old(out)@, print_results)
                == run_from(*f, ts, parser.pos_spec(), env@, out@, print_results),
        decreases ts.len() - parser.pos_spec(),
    {
        let ghost p = parser.pos_spec();
        proof {
            lemma_parse_advances(*f, ts, p);
        }
        let expr = parser.parse(f)?;
        let value = env.eval(Rc::new(expr), f, out)?;
        if print_results {
            let text = value.to_display_string(f);
            crate::output::writeln(out, text.as_str());
        }
    }
    Ok(())
}

} // verus!
