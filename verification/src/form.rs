//! The special forms: `define`, `lambda`, `quote`, `if`, `and` and `or`.
use vstd::prelude::*;
use std::rc::Rc;
use crate::builtins::{outcome, prepend_items};
use crate::error::{LispError, Fault, runtime_error};
use crate::eval_env::{EvalEnv, Scopes, Outcome, eval_spec, eval_list_spec, eval_body_spec, apply_spec, define_in};
use crate::numeric::{NumQuery, NumReply, is_backend};
use crate::output::Output;
use crate::text::{str_equals, string_from};
use crate::value::{Value, ValuePtr, Datum, datum_of, datums, list_items, make_list, is_false_datum,
    share, texts};

verus! {

/// The special forms.
#[derive(Clone, Copy, Debug, PartialEq, Eq, Structural)]
pub enum SpecialForm {
    Define,
    Lambda,
    Quote,
    If,
    And,
    Or,
    Begin,
    Cond,
    Let,
    Quasiquote,
}

/// The special form a name denotes.
pub open spec fn special_form(name: Seq<char>) -> Option<SpecialForm> {
    if name == "define"@ {
        Some(SpecialForm::Define)
    } else if name == "lambda"@ {
        Some(SpecialForm::Lambda)
    } else if name == "quote"@ {
        Some(SpecialForm::Quote)
    } else if name == "if"@ {
        Some(SpecialForm::If)
    } else if name == "and"@ {
        Some(SpecialForm::And)
    } else if name == "or"@ {
        Some(SpecialForm::Or)
    } else if name == "begin"@ {
        Some(SpecialForm::Begin)
    } else if name == "cond"@ {
        Some(SpecialForm::Cond)
    } else if name == "let"@ {
        Some(SpecialForm::Let)
    } else if name == "quasiquote"@ {
        Some(SpecialForm::Quasiquote)
    } else {
        None
    }
}

/// The special form that `name` denotes, if any.
pub fn lookup_special_form(name: &str) -> (r: Option<SpecialForm>)
    ensures
        r == special_form(name@),
{
    if str_equals(name, "define") {
        Some(SpecialForm::Define)
    } else if str_equals(name, "lambda") {
        Some(SpecialForm::Lambda)
    } else if str_equals(name, "quote") {
        Some(SpecialForm::Quote)
    } else if str_equals(name, "if") {
        Some(SpecialForm::If)
    } else if str_equals(name, "and") {
        Some(SpecialForm::And)
    } else if str_equals(name, "or") {
        Some(SpecialForm::Or)
    } else if str_equals(name, "begin") {
        Some(SpecialForm::Begin)
    } else if str_equals(name, "cond") {
        Some(SpecialForm::Cond)
    } else if str_equals(name, "let") {
        Some(SpecialForm::Let)
    } else if str_equals(name, "quasiquote") {
        Some(SpecialForm::Quasiquote)
    } else {
        None
    }
}

/// The names of a sequence of symbols, or `None` when one is not a symbol.
pub open spec fn symbols_of(ds: Seq<Datum>) -> Option<Seq<Seq<char>>>
    decreases ds.len(),
{
    if ds.len() == 0 {
        Some(Seq::empty())
    } else {
        match ds[0] {
            Datum::Symbol(s) => match symbols_of(ds.skip(1)) {
                Some(rest) => Some(seq![s] + rest),
                None => None,
            },
            _ => None,
        }
    }
}

/// An outcome that fails with a runtime error and changes nothing.
pub open spec fn fail(msg: Seq<char>, env: Scopes, out: Seq<char>) -> Outcome {
    (Err(Fault::RuntimeError(msg)), env, out)
}

/// What a special form does with its (unevaluated) arguments.
///
/// `(define name expr)` binds `name` to the value of `expr`;
/// `(define (name params...) body...)` binds `name` to a procedure;
/// `(lambda (params...) body...)` is a procedure; `(quote x)` is `x`;
/// `(if c a b)` evaluates `b` when `c` is `#f` and `a` otherwise;
/// `and` and `or` evaluate left to right and stop at the first false or
/// true value. `define` yields `()`. `(begin e...)` evaluates the expressions
/// in turn and yields the last value (`()` when there is none); `cond`
/// evaluates the body of the first clause whose test holds ([`cond_select`]);
/// `(let ((name expr)...) body...)` is the call of a procedure with those
/// parameters and that body on the values of the expressions;
/// `(quasiquote x)` is `x` with its unquoted parts evaluated ([`quasi_spec`]).
pub open spec fn form_spec<F: Fn(NumQuery) -> NumReply>(f: F, fuel: nat, form: SpecialForm, args: Seq<Datum>, env: Scopes, k: nat, out: Seq<char>) -> Outcome
    decreases fuel, 5nat, 0nat,
{
    match form {
        SpecialForm::Define => if args.len() < 2 {
            fail("define requires at least 2 arguments"@, env, out)
        } else {
            match args[0] {
                Datum::Symbol(name) => if args.len() != 2 {
                    fail("define variable form requires 2 arguments"@, env, out)
                } else {
                    let (r, env1, out1) = eval_spec(f, fuel, env, k, out, args[1]);
                    match r {
                        Err(x) => (Err(x), env1, out1),
                        Ok(v) => (Ok(Datum::Nil), define_in(env1, k, name, v), out1),
                    }
                },
                _ => match list_items(args[0]) {
                    None => fail("define function signature must be a proper list"@, env, out),
                    Some(sig) => if sig.len() == 0 {
                        fail("define function signature cannot be empty"@, env, out)
                    } else {
                        match sig[0] {
                            Datum::Symbol(name) => match symbols_of(sig.skip(1)) {
                                None => fail("lambda parameters must be symbols"@, env, out),
                                Some(params) => (
                                    Ok(Datum::Nil),
                                    define_in(env, k, name, Datum::Lambda(params, Box::new(make_list(args.skip(1))), k)),
                                    out,
                                ),
                            },
                            _ => fail("define function name must be symbol"@, env, out),
                        }
                    },
                },
            }
        },
        SpecialForm::Lambda => (lambda_spec(args, k), env, out),
        SpecialForm::Quote => (quote_spec(args), env, out),
        SpecialForm::If => if args.len() != 3 {
            fail("if requires 3 arguments"@, env, out)
        } else {
            let (r, env1, out1) = eval_spec(f, fuel, env, k, out, args[0]);
            match r {
                Err(x) => (Err(x), env1, out1),
                Ok(c) => if is_false_datum(c) {
                    eval_spec(f, fuel, env1, k, out1, args[2])
                } else {
                    eval_spec(f, fuel, env1, k, out1, args[1])
                },
            }
        },
        SpecialForm::And => if args.len() == 0 {
            (Ok(Datum::Boolean(true)), env, out)
        } else {
            and_spec(f, fuel, env, k, out, args, Datum::Boolean(true))
        },
        SpecialForm::Or => or_spec(f, fuel, env, k, out, args),
        SpecialForm::Begin => eval_body_spec(f, fuel, env, k, out, args, Datum::Nil),
        SpecialForm::Cond => {
            let (sel, env1, out1) = cond_select(f, fuel, env, k, out, args);
            match sel {
                Err(x) => (Err(x), env1, out1),
                Ok(None) => (Ok(Datum::Nil), env1, out1),
                Ok(Some((v, body))) => eval_body_spec(f, fuel, env1, k, out1, body, v),
            }
        },
        SpecialForm::Quasiquote => if args.len() != 1 {
            fail("quasiquote requires 1 argument"@, env, out)
        } else {
            quasi_spec(f, fuel, env, k, out, args[0])
        },
        SpecialForm::Let => if args.len() < 2 {
            fail("let requires bindings and body"@, env, out)
        } else {
            match let_bindings(args[0]) {
                None => fail("let bindings must be (name expr) pairs"@, env, out),
                Some((names, exprs)) => {
                    let (r, env1, out1) = eval_list_spec(f, fuel, env, k, out, exprs);
                    match r {
                        Err(x) => (Err(x), env1, out1),
                        Ok(vals) => apply_spec(f, fuel, env1, k, out1,
                            Datum::Lambda(names, Box::new(make_list(args.skip(1))), k), vals),
                    }
                },
            }
        },
    }
}

/// The clause of a `cond` that fires: its clauses are tried in turn, each a
/// non-empty list; a clause headed by `else` fires at once (with `()` as the
/// value of an empty body), any other when the value of its head is not
/// `#f` (that value being the result when its body is empty). Yields the
/// value and the body of the clause that fired, or `None` when none does.
pub open spec fn cond_select<F: Fn(NumQuery) -> NumReply>(f: F, fuel: nat, env: Scopes, k: nat, out: Seq<char>, clauses: Seq<Datum>) -> (Result<Option<(Datum, Seq<Datum>)>, Fault>, Scopes, Seq<char>)
    decreases fuel, 1nat, clauses.len(),
{
    if clauses.len() == 0 {
        (Ok(None), env, out)
    } else {
        match list_items(clauses[0]) {
            None => (Err(Fault::RuntimeError("cond clause must be a non-empty list"@)), env, out),
            Some(items) => if items.len() == 0 {
                (Err(Fault::RuntimeError("cond clause must be a non-empty list"@)), env, out)
            } else if items[0] == Datum::Symbol("else"@) {
                (Ok(Some((Datum::Nil, items.skip(1)))), env, out)
            } else {
                let (r, env1, out1) = eval_spec(f, fuel, env, k, out, items[0]);
                match r {
                    Err(x) => (Err(x), env1, out1),
                    Ok(v) => if is_false_datum(v) {
                        cond_select(f, fuel, env1, k, out1, clauses.skip(1))
                    } else {
                        (Ok(Some((v, items.skip(1)))), env1, out1)
                    },
                }
            },
        }
    }
}

/// Whether `d` is the list `(name x)`.
pub open spec fn is_tagged(d: Datum, name: Seq<char>) -> bool {
    match d {
        Datum::Pair(a, r) => *a == Datum::Symbol(name) && match *r {
            Datum::Pair(_, n) => *n == Datum::Nil,
            _ => false,
        },
        _ => false,
    }
}

/// The `x` of a list `(name x)`.
pub open spec fn tagged_arg(d: Datum) -> Datum {
    match d {
        Datum::Pair(_, r) => match *r {
            Datum::Pair(x, _) => *x,
            _ => Datum::Nil,
        },
        _ => Datum::Nil,
    }
}

/// The value of a quasiquoted template: `(unquote x)` is the value of `x`;
/// an element `(unquote-splicing x)` of a list is replaced by the elements of
/// the list that `x` evaluates to; other pairs are rebuilt from their parts,
/// left part first; anything else stands for itself. Unquoted parts are
/// evaluated left to right, stopping at the first error; templates nested in
/// the template are not counted apart.
pub open spec fn quasi_spec<F: Fn(NumQuery) -> NumReply>(f: F, fuel: nat, env: Scopes, k: nat, out: Seq<char>, d: Datum) -> Outcome
    decreases fuel, 1nat, datum_size(d),
{
    if is_tagged(d, "unquote"@) {
        eval_spec(f, fuel, env, k, out, tagged_arg(d))
    } else {
        match d {
            Datum::Pair(a, rest) => if is_tagged(*a, "unquote-splicing"@) {
                let (r, env1, out1) = eval_spec(f, fuel, env, k, out, tagged_arg(*a));
                match r {
                    Err(x) => (Err(x), env1, out1),
                    Ok(v) => match list_items(v) {
                        None => (Err(Fault::RuntimeError("unquote-splicing expects a list"@)), env1, out1),
                        Some(items) => {
                            let (rr, env2, out2) = quasi_spec(f, fuel, env1, k, out1, *rest);
                            match rr {
                                Ok(t) => (Ok(prepend_items(items, t)), env2, out2),
                                Err(x) => (Err(x), env2, out2),
                            }
                        },
                    },
                }
            } else {
                let (ra, env1, out1) = quasi_spec(f, fuel, env, k, out, *a);
                match ra {
                    Err(x) => (Err(x), env1, out1),
                    Ok(va) => {
                        let (rr, env2, out2) = quasi_spec(f, fuel, env1, k, out1, *rest);
                        match rr {
                            Ok(vr) => (Ok(Datum::Pair(Box::new(va), Box::new(vr))), env2, out2),
                            Err(x) => (Err(x), env2, out2),
                        }
                    },
                }
            },
            _ => (Ok(d), env, out),
        }
    }
}

/// The number of pairs and atoms a value is built of.
pub open spec fn datum_size(d: Datum) -> nat
    decreases d,
{
    match d {
        Datum::Pair(a, b) => 1 + datum_size(*a) + datum_size(*b),
        _ => 1,
    }
}

/// The names and expressions of a list of `(name expr)` pairs, or `None`
/// when it is not one.
pub open spec fn binding_pairs(items: Seq<Datum>) -> Option<(Seq<Seq<char>>, Seq<Datum>)>
    decreases items.len(),
{
    if items.len() == 0 {
        Some((Seq::empty(), Seq::empty()))
    } else {
        match (list_items(items[0]), binding_pairs(items.skip(1))) {
            (Some(pair), Some((names, exprs))) => if pair.len() == 2 && pair[0] is Symbol {
                Some((seq![pair[0]->Symbol_0] + names, seq![pair[1]] + exprs))
            } else {
                None
            },
            _ => None,
        }
    }
}

/// The bindings of a `let`: a proper list of `(name expr)` pairs.
pub open spec fn let_bindings(d: Datum) -> Option<(Seq<Seq<char>>, Seq<Datum>)> {
    match list_items(d) {
        Some(items) => binding_pairs(items),
        None => None,
    }
}

/// `(lambda (params...) body...)` in scope `k`: a procedure with those
/// parameters and body, made in scope `k`.
pub open spec fn lambda_spec(args: Seq<Datum>, k: nat) -> Result<Datum, Fault> {
    if args.len() < 2 {
        Err(Fault::RuntimeError("lambda requires parameters and body"@))
    } else {
        match list_items(args[0]) {
            None => Err(Fault::RuntimeError("lambda parameter list must be a proper list"@)),
            Some(ps) => match symbols_of(ps) {
                None => Err(Fault::RuntimeError("lambda parameters must be symbols"@)),
                Some(params) => Ok(Datum::Lambda(params, Box::new(make_list(args.skip(1))), k)),
            },
        }
    }
}

/// `(quote x)`: `x` itself.
pub open spec fn quote_spec(args: Seq<Datum>) -> Result<Datum, Fault> {
    if args.len() != 1 {
        Err(Fault::RuntimeError("quote requires 1 argument"@))
    } else {
        Ok(args[0])
    }
}

/// `and` over the remaining expressions: the first false value, or the last
/// value when none is false.
pub open spec fn and_spec<F: Fn(NumQuery) -> NumReply>(f: F, fuel: nat, env: Scopes, k: nat, out: Seq<char>, es: Seq<Datum>, last: Datum) -> Outcome
    decreases fuel, 1nat, es.len(),
{
    if es.len() == 0 {
        (Ok(last), env, out)
    } else {
        let (r, env1, out1) = eval_spec(f, fuel, env, k, out, es[0]);
        match r {
            Err(x) => (Err(x), env1, out1),
            Ok(v) => if is_false_datum(v) {
                (Ok(v), env1, out1)
            } else {
                and_spec(f, fuel, env1, k, out1, es.skip(1), v)
            },
        }
    }
}

/// `or` over the remaining expressions: the first value that is not false,
/// or `#f` when there is none.
pub open spec fn or_spec<F: Fn(NumQuery) -> NumReply>(f: F, fuel: nat, env: Scopes, k: nat, out: Seq<char>, es: Seq<Datum>) -> Outcome
    decreases fuel, 1nat, es.len(),
{
    if es.len() == 0 {
        (Ok(Datum::Boolean(false)), env, out)
    } else {
        let (r, env1, out1) = eval_spec(f, fuel, env, k, out, es[0]);
        match r {
            Err(x) => (Err(x), env1, out1),
            Ok(v) => if !is_false_datum(v) {
                (Ok(v), env1, out1)
            } else {
                or_spec(f, fuel, env1, k, out1, es.skip(1))
            },
        }
    }
}

fn fail_with(msg: &str) -> (r: Result<ValuePtr, LispError>)
    ensures
        outcome(r) == Err::<Datum, Fault>(Fault::RuntimeError(msg@)),
{
    Err(runtime_error(msg))
}

fn nil_ptr() -> (r: ValuePtr)
    ensures
        datum_of(*r) == Datum::Nil,
{
    Rc::new(Value::Nil)
}

/// The names of the symbols `items[from..]`, or `None` when one is not a symbol.
fn param_names(items: &[ValuePtr], from: usize) -> (r: Option<Vec<String>>)
    requires
        from <= items@.len(),
    ensures
        match r {
            Some(names) => symbols_of(datums(items@).skip(from as int)) == Some(texts(names@)),
            None => symbols_of(datums(items@).skip(from as int)) is None,
        },
{
    let mut names: Vec<String> = Vec::new();
    let mut i = from;
    while i < items.len()
        invariant
            from <= i <= items@.len(),
            symbols_of(datums(items@).skip(from as int)) == match symbols_of(datums(items@).skip(i as int)) {
                Some(rest) => Some(texts(names@) + rest),
                None => None,
            },
        decreases items.len() - i,
    {
        let ghost rest = datums(items@).skip(i as int);
        let ghost before = texts(names@);
        assert(rest[0] == datum_of(*items@[i as int]));
        assert(rest.skip(1) =~= datums(items@).skip(i + 1));
        match items[i].as_symbol() {
            Some(s) => {
                names.push(string_from(s));
                proof {
                    assert(texts(names@) =~= before.push(s@));
                    match symbols_of(datums(items@).skip(i + 1)) {
                        Some(more) => {
                            assert(before + (seq![s@] + more) =~= texts(names@) + more);
                        },
                        None => {},
                    }
                }
            },
            None => {
                return None;
            },
        }
        i += 1;
    }
    assert(datums(items@).skip(i as int) =~= Seq::<Datum>::empty());
    assert(texts(names@) + Seq::<Seq<char>>::empty() =~= texts(names@));
    Some(names)
}

/// The list of the expressions `args[1..]`.
fn body_list(args: &[ValuePtr]) -> (r: ValuePtr)
    requires
        args@.len() >= 1,
    ensures
        datum_of(*r) == make_list(datums(args@).skip(1)),
{
    let mut body: ValuePtr = Rc::new(Value::Nil);
    let mut k = args.len();
    assert(datums(args@).skip(k as int) =~= Seq::<Datum>::empty());
    while k > 1
        invariant
            1 <= k <= args@.len(),
            datum_of(*body) == make_list(datums(args@).skip(k as int)),
        decreases k,
    {
        k -= 1;
        let ghost s = datums(args@).skip(k as int);
        assert(s[0] == datum_of(*args@[k as int]));
        assert(s.skip(1) =~= datums(args@).skip(k + 1));
        let head = share(&args[k]);
        body = Rc::new(Value::Pair(head, body));
    }
    body
}

/// Evaluates a special form.
pub fn eval_form<F: Fn(NumQuery) -> NumReply>(form: SpecialForm, args: &[ValuePtr], env: &mut EvalEnv, k: usize, f: &F, out: &mut Output, fuel: usize) -> (r: Result<ValuePtr, LispError>)
    requires
        is_backend(*f),
    ensures
        (outcome(r), final(env)@, final(out)@) == form_spec(*f, fuel as nat, form, datums(args@), old(env)@, k as nat, old(out)@),
    decreases fuel, 6nat, 0nat,
{
    match form {
        SpecialForm::Define => define_form(args, env, k, f, out, fuel),
        SpecialForm::Lambda => lambda_form(args, k),
        SpecialForm::Quote => quote_form(args),
        SpecialForm::If => if_form(args, env, k, f, out, fuel),
        SpecialForm::And => and_form(args, env, k, f, out, fuel),
        SpecialForm::Or => or_form(args, env, k, f, out, fuel),
        SpecialForm::Begin => begin_form(args, env, k, f, out, fuel),
        SpecialForm::Cond => cond_form(args, env, k, f, out, fuel),
        SpecialForm::Let => let_form(args, env, k, f, out, fuel),
        SpecialForm::Quasiquote => quasi_form(args, env, k, f, out, fuel),
    }
}

/// `(define name expr)` or `(define (name params...) body...)`, binding the
/// name in scope `k` (an index past the last scope binds nothing).
pub fn define_form<F: Fn(NumQuery) -> NumReply>(args: &[ValuePtr], env: &mut EvalEnv, k: usize, f: &F, out: &mut Output, fuel: usize) -> (r: Result<ValuePtr, LispError>)
    requires
        is_backend(*f),
    ensures
        (outcome(r), final(env)@, final(out)@) == form_spec(*f, fuel as nat, SpecialForm::Define, datums(args@), old(env)@, k as nat, old(out)@),
    decreases fuel, 1nat, 0nat,
{
    if args.len() < 2 {
        return fail_with("define requires at least 2 arguments");
    }
    let ghost ds = datums(args@);
    assert(ds[0] == datum_of(*args@[0]));
    assert(ds[1] == datum_of(*args@[1]));
    if let Value::Symbol(name) = &*args[0] {
        if args.len() != 2 {
            return fail_with("define variable form requires 2 arguments");
        }
        let value = env.eval_in(k, share(&args[1]), f, out, fuel)?;
        env.define_in(k, string_from(name.as_str()), value);
        return Ok(nil_ptr());
    }
    let signature = match args[0].to_vec() {
        Ok(s) => s,
        Err(_) => return fail_with("define function signature must be a proper list"),
    };
    if signature.len() == 0 {
        return fail_with("define function signature cannot be empty");
    }
    assert(datums(signature@)[0] == datum_of(*signature@[0]));
    let name = match signature[0].as_symbol() {
        Some(n) => string_from(n),
        None => return fail_with("define function name must be symbol"),
    };
    let params = match param_names(signature.as_slice(), 1) {
        Some(p) => p,
        None => return fail_with("lambda parameters must be symbols"),
    };
    let body = body_list(args);
    let lambda = Rc::new(Value::LambdaProc { params, body, scope: k });
    env.define_in(k, name, lambda);
    Ok(nil_ptr())
}

/// `(lambda (params...) body...)`.
pub fn lambda_form(args: &[ValuePtr], k: usize) -> (r: Result<ValuePtr, LispError>)
    ensures
        outcome(r) == lambda_spec(datums(args@), k as nat),
{
    if args.len() < 2 {
        return fail_with("lambda requires parameters and body");
    }
    assert(datums(args@)[0] == datum_of(*args@[0]));
    let items = match args[0].to_vec() {
        Ok(i) => i,
        Err(_) => return fail_with("lambda parameter list must be a proper list"),
    };
    assert(datums(items@).skip(0) =~= datums(items@));
    let params = match param_names(items.as_slice(), 0) {
        Some(p) => p,
        None => return fail_with("lambda parameters must be symbols"),
    };
    let body = body_list(args);
    Ok(Rc::new(Value::LambdaProc { params, body, scope: k }))
}

/// `(quote x)`.
pub fn quote_form(args: &[ValuePtr]) -> (r: Result<ValuePtr, LispError>)
    ensures
        outcome(r) == quote_spec(datums(args@)),
{
    if args.len() != 1 {
        return fail_with("quote requires 1 argument");
    }
    assert(datums(args@)[0] == datum_of(*args@[0]));
    Ok(share(&args[0]))
}

/// `(if c a b)`.
pub fn if_form<F: Fn(NumQuery) -> NumReply>(args: &[ValuePtr], env: &mut EvalEnv, k: usize, f: &F, out: &mut Output, fuel: usize) -> (r: Result<ValuePtr, LispError>)
    requires
        is_backend(*f),
    ensures
        (outcome(r), final(env)@, final(out)@) == form_spec(*f, fuel as nat, SpecialForm::If, datums(args@), old(env)@, k as nat, old(out)@),
    decreases fuel, 1nat, 0nat,
{
    if args.len() != 3 {
        return fail_with("if requires 3 arguments");
    }
    let ghost ds = datums(args@);
    assert(ds[0] == datum_of(*args@[0]));
    assert(ds[1] == datum_of(*args@[1]));
    assert(ds[2] == datum_of(*args@[2]));
    let cond = env.eval_in(k, share(&args[0]), f, out, fuel)?;
    if cond.is_false() {
        env.eval_in(k, share(&args[2]), f, out, fuel)
    } else {
        env.eval_in(k, share(&args[1]), f, out, fuel)
    }
}

/// `(and e...)`.
pub fn and_form<F: Fn(NumQuery) -> NumReply>(args: &[ValuePtr], env: &mut EvalEnv, k: usize, f: &F, out: &mut Output, fuel: usize) -> (r: Result<ValuePtr, LispError>)
    requires
        is_backend(*f),
    ensures
        (outcome(r), final(env)@, final(out)@) == form_spec(*f, fuel as nat, SpecialForm::And, datums(args@), old(env)@, k as nat, old(out)@),
    decreases fuel, 1nat, 0nat,
{
    let mut last: ValuePtr = Rc::new(Value::Boolean(true));
    if args.len() == 0 {
        return Ok(last);
    }
    let ghost ds = datums(args@);
    assert(ds.skip(0) =~= ds);
    let mut i: usize = 0;
    while i < args.len()
        invariant
            is_backend(*f),
            i <= args@.len(),
            ds == datums(args@),
            ds.len() > 0,
            form_spec(*f, fuel as nat, SpecialForm::And, ds, old(env)@, k as nat, old(out)@)
                == and_spec(*f, fuel as nat, env@, k as nat, out@, ds.skip(i as int), datum_of(*last)),
        decreases args.len() - i,
    {
        let ghost rest = ds.skip(i as int);
        assert(rest[0] == datum_of(*args@[i as int]));
        assert(rest.skip(1) =~= ds.skip(i + 1));
        last = env.eval_in(k, share(&args[i]), f, out, fuel)?;
        if last.is_false() {
            return Ok(last);
        }
        i += 1;
    }
    assert(ds.skip(i as int) =~= Seq::<Datum>::empty());
    Ok(last)
}

/// `(or e...)`.
pub fn or_form<F: Fn(NumQuery) -> NumReply>(args: &[ValuePtr], env: &mut EvalEnv, k: usize, f: &F, out: &mut Output, fuel: usize) -> (r: Result<ValuePtr, LispError>)
    requires
        is_backend(*f),
    ensures
        (outcome(r), final(env)@, final(out)@) == form_spec(*f, fuel as nat, SpecialForm::Or, datums(args@), old(env)@, k as nat, old(out)@),
    decreases fuel, 1nat, 0nat,
{
    let ghost ds = datums(args@);
    assert(ds.skip(0) =~= ds);
    let mut i: usize = 0;
    while i < args.len()
        invariant
            is_backend(*f),
            i <= args@.len(),
            ds == datums(args@),
            form_spec(*f, fuel as nat, SpecialForm::Or, ds, old(env)@, k as nat, old(out)@)
                == or_spec(*f, fuel as nat, env@, k as nat, out@, ds.skip(i as int)),
        decreases args.len() - i,
    {
        let ghost rest = ds.skip(i as int);
        assert(rest[0] == datum_of(*args@[i as int]));
        assert(rest.skip(1) =~= ds.skip(i + 1));
        let value = env.eval_in(k, share(&args[i]), f, out, fuel)?;
        if value.is_true() {
            return Ok(value);
        }
        i += 1;
    }
    assert(ds.skip(i as int) =~= Seq::<Datum>::empty());
    Ok(Rc::new(Value::Boolean(false)))
}

/// Evaluates `items[from..]` in turn: the value of the last, or `last` when
/// there are none.
pub(crate) fn eval_body<F: Fn(NumQuery) -> NumReply>(items: &[ValuePtr], from: usize, last: ValuePtr, env: &mut EvalEnv, k: usize, f: &F, out: &mut Output, fuel: usize) -> (r: Result<ValuePtr, LispError>)
    requires
        is_backend(*f),
        from <= items@.len(),
    ensures
        (outcome(r), final(env)@, final(out)@) == eval_body_spec(*f, fuel as nat, old(env)@, k as nat, old(out)@, datums(items@).skip(from as int), datum_of(*last)),
    decreases fuel, 1nat, 0nat,
{
    let ghost ds = datums(items@);
    let ghost first = last@;
    let mut last = last;
    let mut i = from;
    while i < items.len()
        invariant
            is_backend(*f),
            from <= i <= items@.len(),
            ds == datums(items@),
            eval_body_spec(*f, fuel as nat, old(env)@, k as nat, old(out)@, ds.skip(from as int), first)
                == eval_body_spec(*f, fuel as nat, env@, k as nat, out@, ds.skip(i as int), datum_of(*last)),
        decreases items.len() - i,
    {
        let ghost rest = ds.skip(i as int);
        assert(rest[0] == datum_of(*items@[i as int]));
        assert(rest.skip(1) =~= ds.skip(i + 1));
        last = env.eval_in(k, share(&items[i]), f, out, fuel)?;
        i += 1;
    }
    assert(ds.skip(i as int) =~= Seq::<Datum>::empty());
    Ok(last)
}

/// `(begin e...)`.
pub fn begin_form<F: Fn(NumQuery) -> NumReply>(args: &[ValuePtr], env: &mut EvalEnv, k: usize, f: &F, out: &mut Output, fuel: usize) -> (r: Result<ValuePtr, LispError>)
    requires
        is_backend(*f),
    ensures
        (outcome(r), final(env)@, final(out)@) == form_spec(*f, fuel as nat, SpecialForm::Begin, datums(args@), old(env)@, k as nat, old(out)@),
    decreases fuel, 2nat, 0nat,
{
    assert(datums(args@).skip(0) =~= datums(args@));
    eval_body(args, 0, nil_ptr(), env, k, f, out, fuel)
}

/// Whether a value is the symbol `else`.
fn is_else(v: &Value) -> (r: bool)
    ensures
        r == (v@ == Datum::Symbol("else"@)),
{
    match v.as_symbol() {
        Some(name) => str_equals(name, "else"),
        None => false,
    }
}

/// `(cond (test e...)... (else e...))`.
pub fn cond_form<F: Fn(NumQuery) -> NumReply>(args: &[ValuePtr], env: &mut EvalEnv, k: usize, f: &F, out: &mut Output, fuel: usize) -> (r: Result<ValuePtr, LispError>)
    requires
        is_backend(*f),
    ensures
        (outcome(r), final(env)@, final(out)@) == form_spec(*f, fuel as nat, SpecialForm::Cond, datums(args@), old(env)@, k as nat, old(out)@),
    decreases fuel, 2nat, 0nat,
{
    let ghost ds = datums(args@);
    assert(ds.skip(0) =~= ds);
    let mut i: usize = 0;
    while i < args.len()
        invariant
            is_backend(*f),
            i <= args@.len(),
            ds == datums(args@),
            cond_select(*f, fuel as nat, old(env)@, k as nat, old(out)@, ds) == cond_select(*f, fuel as nat, env@, k as nat, out@, ds.skip(i as int)),
        decreases args.len() - i,
    {
        let ghost rest = ds.skip(i as int);
        assert(rest[0] == datum_of(*args@[i as int]));
        assert(rest.skip(1) =~= ds.skip(i + 1));
        let items = match args[i].to_vec() {
            Ok(v) => v,
            Err(_) => return fail_with("cond clause must be a non-empty list"),
        };
        if items.len() == 0 {
            return fail_with("cond clause must be a non-empty list");
        }
        assert(datums(items@)[0] == datum_of(*items@[0]));
        if is_else(&*items[0]) {
            return eval_body(items.as_slice(), 1, nil_ptr(), env, k, f, out, fuel);
        }
        let v = env.eval_in(k, share(&items[0]), f, out, fuel)?;
        if !v.is_false() {
            return eval_body(items.as_slice(), 1, v, env, k, f, out, fuel);
        }
        i += 1;
    }
    assert(ds.skip(i as int) =~= Seq::<Datum>::empty());
    Ok(nil_ptr())
}

/// The names and expressions of `(name expr)` pairs, or `None` when `items`
/// are not such pairs.
fn binding_parts(items: &Vec<ValuePtr>) -> (r: Option<(Vec<String>, Vec<ValuePtr>)>)
    ensures
        match r {
            Some((names, exprs)) => binding_pairs(datums(items@)) == Some((texts(names@), datums(exprs@))),
            None => binding_pairs(datums(items@)) is None,
        },
{
    let ghost ds = datums(items@);
    let mut names: Vec<String> = Vec::new();
    let mut exprs: Vec<ValuePtr> = Vec::new();
    let mut i: usize = 0;
    assert(ds.skip(0) =~= ds);
    while i < items.len()
        invariant
            i <= items@.len(),
            ds == datums(items@),
            binding_pairs(ds) == match binding_pairs(ds.skip(i as int)) {
                Some((ns, es)) => Some((texts(names@) + ns, datums(exprs@) + es)),
                None => None,
            },
        decreases items.len() - i,
    {
        let ghost rest = ds.skip(i as int);
        let ghost before_names = texts(names@);
        let ghost before_exprs = datums(exprs@);
        assert(rest[0] == datum_of(*items@[i as int]));
        assert(rest.skip(1) =~= ds.skip(i + 1));
        let pair = match items[i].to_vec() {
            Ok(p) => p,
            Err(_) => return None,
        };
        if pair.len() != 2 {
            return None;
        }
        assert(datums(pair@)[0] == datum_of(*pair@[0]));
        assert(datums(pair@)[1] == datum_of(*pair@[1]));
        let name = match pair[0].as_symbol() {
            Some(n) => string_from(n),
            None => return None,
        };
        names.push(name);
        exprs.push(share(&pair[1]));
        proof {
            assert(texts(names@) =~= before_names.push(datums(pair@)[0]->Symbol_0));
            assert(datums(exprs@) =~= before_exprs.push(datums(pair@)[1]));
            match binding_pairs(ds.skip(i + 1)) {
                Some((ns, es)) => {
                    assert(before_names + (seq![datums(pair@)[0]->Symbol_0] + ns) =~= texts(names@) + ns);
                    assert(before_exprs + (seq![datums(pair@)[1]] + es) =~= datums(exprs@) + es);
                },
                None => {},
            }
        }
        i += 1;
    }
    assert(ds.skip(i as int) =~= Seq::<Datum>::empty());
    assert(texts(names@) + Seq::<Seq<char>>::empty() =~= texts(names@));
    assert(datums(exprs@) + Seq::<Datum>::empty() =~= datums(exprs@));
    Some((names, exprs))
}

/// `(let ((name expr)...) body...)`.
pub fn let_form<F: Fn(NumQuery) -> NumReply>(args: &[ValuePtr], env: &mut EvalEnv, k: usize, f: &F, out: &mut Output, fuel: usize) -> (r: Result<ValuePtr, LispError>)
    requires
        is_backend(*f),
    ensures
        (outcome(r), final(env)@, final(out)@) == form_spec(*f, fuel as nat, SpecialForm::Let, datums(args@), old(env)@, k as nat, old(out)@),
    decreases fuel, 5nat, 0nat,
{
    if args.len() < 2 {
        return fail_with("let requires bindings and body");
    }
    assert(datums(args@)[0] == datum_of(*args@[0]));
    let items = match args[0].to_vec() {
        Ok(v) => v,
        Err(_) => return fail_with("let bindings must be (name expr) pairs"),
    };
    let (names, exprs) = match binding_parts(&items) {
        Some(p) => p,
        None => return fail_with("let bindings must be (name expr) pairs"),
    };
    assert(datums(exprs@).skip(0) =~= datums(exprs@));
    let vals = env.eval_list(k, &exprs, 0, f, out, fuel)?;
    let body = body_list(args);
    let procedure = Rc::new(Value::LambdaProc { params: names, body, scope: k });
    env.apply(k, procedure, vals, f, out, fuel)
}

/// The `x` of `v` when `v` is the list `(name x)`.
fn tagged_value(v: &Value, name: &str) -> (r: Option<ValuePtr>)
    ensures
        match r {
            Some(x) => is_tagged(v@, name@) && datum_of(*x) == tagged_arg(v@),
            None => !is_tagged(v@, name@),
        },
{
    match v {
        Value::Pair(a, r) => {
            let ghost vd = v@;
            assert(vd == Datum::Pair(Box::new(datum_of(**a)), Box::new(datum_of(**r))));
            let is_name = match &**a {
                Value::Symbol(s) => str_equals(s.as_str(), name),
                _ => false,
            };
            assert(is_name == (datum_of(**a) == Datum::Symbol(name@)));
            if !is_name {
                return None;
            }
            match &**r {
                Value::Pair(x, n) => {
                    assert(datum_of(**r) == Datum::Pair(Box::new(datum_of(**x)), Box::new(datum_of(**n))));
                    if n.is_nil() {
                        Some(share(x))
                    } else {
                        None
                    }
                },
                _ => None,
            }
        },
        _ => None,
    }
}

/// The value of the quasiquoted template `d`.
fn quasi<F: Fn(NumQuery) -> NumReply>(d: &ValuePtr, env: &mut EvalEnv, k: usize, f: &F, out: &mut Output, fuel: usize) -> (r: Result<ValuePtr, LispError>)
    requires
        is_backend(*f),
    ensures
        (outcome(r), final(env)@, final(out)@) == quasi_spec(*f, fuel as nat, old(env)@, k as nat, old(out)@, datum_of(**d)),
    decreases fuel, 1nat, datum_size(datum_of(**d)),
{
    if let Some(x) = tagged_value(&**d, "unquote") {
        return env.eval_in(k, x, f, out, fuel);
    }
    match &**d {
        Value::Pair(a, rest) => {
            if let Some(x) = tagged_value(&**a, "unquote-splicing") {
                let v = env.eval_in(k, x, f, out, fuel)?;
                let items = match v.to_vec() {
                    Ok(items) => items,
                    Err(_) => return Err(runtime_error("unquote-splicing expects a list")),
                };
                let tail = quasi(rest, env, k, f, out, fuel)?;
                let r = crate::builtins::prepend_ptrs(&items, items.len(), tail);
                assert(datums(items@).take(items@.len() as int) =~= datums(items@));
                Ok(r)
            } else {
                let va = quasi(a, env, k, f, out, fuel)?;
                let vr = quasi(rest, env, k, f, out, fuel)?;
                Ok(Rc::new(Value::Pair(va, vr)))
            }
        },
        _ => Ok(share(d)),
    }
}

/// `(quasiquote x)`.
pub fn quasi_form<F: Fn(NumQuery) -> NumReply>(args: &[ValuePtr], env: &mut EvalEnv, k: usize, f: &F, out: &mut Output, fuel: usize) -> (r: Result<ValuePtr, LispError>)
    requires
        is_backend(*f),
    ensures
        (outcome(r), final(env)@, final(out)@) == form_spec(*f, fuel as nat, SpecialForm::Quasiquote, datums(args@), old(env)@, k as nat, old(out)@),
    decreases fuel, 2nat, 0nat,
{
    if args.len() != 1 {
        return fail_with("quasiquote requires 1 argument");
    }
    assert(datums(args@)[0] == datum_of(*args@[0]));
    quasi(&args[0], env, k, f, out, fuel)
}

} // verus!
