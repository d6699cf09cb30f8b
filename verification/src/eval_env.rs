//! Environments, their scopes, and the evaluation of expressions.
use vstd::prelude::*;
use std::rc::Rc;
use crate::builtins::{outcome, display_text, print_text, pure_spec};
use crate::error::{LispError, Fault, runtime_error};
use crate::form::{special_form, form_spec, lookup_special_form};
use crate::numeric::{NumQuery, NumReply, is_backend};
use crate::output::Output;
use crate::text::{decimal, push_decimal, push_str, string_from};
use crate::value::{Value, ValuePtr, Datum, Builtin, datum_of, datums, list_items, self_evaluating, make_list,
    is_false_datum,
    share, texts};

verus! {

/// A name bound to a value.
pub struct Binding {
    pub name: String,
    pub value: ValuePtr,
}

/// Bindings, oldest first: names with their values.
pub type Bindings = Seq<(Seq<char>, Datum)>;

/// The contents of a sequence of bindings.
pub open spec fn bindings_of(bs: Seq<Binding>) -> Bindings {
    bs.map_values(|b: Binding| (b.name@, datum_of(*b.value)))
}

/// A scope: the bindings made in it, oldest first, and the scope it was made
/// in, whose bindings it sees as well.
pub struct Scope {
    pub bindings: Bindings,
    pub parent: Option<nat>,
}

/// The scopes of an environment: the global scope first, then one for each
/// procedure call, in the order they were made.
pub type Scopes = Seq<Scope>;

/// What evaluating gives: the result, the scopes afterwards, and all the
/// text printed so far.
pub type Outcome = (Result<Datum, Fault>, Scopes, Seq<char>);

/// The value a name is bound to: its most recent binding.
pub open spec fn lookup(env: Bindings, name: Seq<char>) -> Option<Datum>
    decreases env.len(),
{
    if env.len() == 0 {
        None
    } else if env.last().0 == name {
        Some(env.last().1)
    } else {
        lookup(env.drop_last(), name)
    }
}

/// The value a name has in scope `k`: its most recent binding there, or else
/// its value in the scope that `k` was made in.
pub open spec fn lookup_in(s: Scopes, k: nat, name: Seq<char>) -> Option<Datum>
    decreases k,
{
    if k >= s.len() {
        None
    } else {
        match lookup(s[k as int].bindings, name) {
            Some(v) => Some(v),
            None => match s[k as int].parent {
                Some(p) => if p < k { lookup_in(s, p, name) } else { None },
                None => None,
            },
        }
    }
}

/// The scopes after binding `name` to `v` in scope `k`; an index past the
/// last scope leaves them unchanged.
pub open spec fn define_in(s: Scopes, k: nat, name: Seq<char>, v: Datum) -> Scopes {
    if k < s.len() {
        s.update(k as int, Scope { bindings: s[k as int].bindings.push((name, v)), parent: s[k as int].parent })
    } else {
        s
    }
}

/// The error reported when evaluation nests deeper than its budget allows.
pub open spec fn depth_fault() -> Fault {
    Fault::RuntimeError("Maximum recursion depth exceeded"@)
}

/// The bindings of a procedure's parameters to its arguments, in order.
pub open spec fn bind_params(params: Seq<Seq<char>>, args: Seq<Datum>) -> Bindings {
    Seq::new(params.len(), |i: int| (params[i], args[i]))
}


/// Evaluates `e` in scope `k` of `env`, with `fuel` as the budget of nested
/// evaluations.
/// Booleans, numbers, strings and built-in procedures evaluate to themselves;
/// a symbol to the value bound to it; a list whose head names a special form
/// is that form; any other list evaluates its head to a procedure and its
/// other elements, left to right, to the arguments, and applies the one to
/// the others.
pub open spec fn eval_spec<F: Fn(NumQuery) -> NumReply>(f: F, fuel: nat, env: Scopes, k: nat, out: Seq<char>, e: Datum) -> Outcome
    decreases fuel, 0nat, 0nat,
{
    if fuel == 0 {
        (Err(depth_fault()), env, out)
    } else if self_evaluating(e) {
        (Ok(e), env, out)
    } else {
        match e {
            Datum::Nil => (Err(Fault::RuntimeError("Evaluating nil is prohibited."@)), env, out),
            Datum::Symbol(name) => match lookup_in(env, k, name) {
                Some(v) => (Ok(v), env, out),
                None => (Err(Fault::RuntimeError("Variable "@ + name + " not defined."@)), env, out),
            },
            _ => match list_items(e) {
                None => (Err(Fault::RuntimeError("Malformed list."@)), env, out),
                Some(items) => if items.len() == 0 {
                    (Err(Fault::RuntimeError("Empty list"@)), env, out)
                } else if items[0] is Symbol && special_form(items[0]->Symbol_0) is Some {
                    form_spec(f, (fuel - 1) as nat, special_form(items[0]->Symbol_0)->0, items.skip(1), env, k, out)
                } else {
                    let (rp, env1, out1) = eval_spec(f, (fuel - 1) as nat, env, k, out, items[0]);
                    match rp {
                        Err(x) => (Err(x), env1, out1),
                        Ok(p) => {
                            let (ra, env2, out2) = eval_list_spec(f, (fuel - 1) as nat, env1, k, out1, items.skip(1));
                            match ra {
                                Err(x) => (Err(x), env2, out2),
                                Ok(args) => apply_spec(f, (fuel - 1) as nat, env2, k, out2, p, args),
                            }
                        },
                    }
                },
            },
        }
    }
}

/// Evaluates expressions left to right, stopping at the first error.
pub open spec fn eval_list_spec<F: Fn(NumQuery) -> NumReply>(f: F, fuel: nat, env: Scopes, k: nat, out: Seq<char>, es: Seq<Datum>) -> (Result<Seq<Datum>, Fault>, Scopes, Seq<char>)
    decreases fuel, 1nat, es.len(),
{
    if es.len() == 0 {
        (Ok(Seq::empty()), env, out)
    } else {
        let (r, env1, out1) = eval_spec(f, fuel, env, k, out, es[0]);
        match r {
            Err(x) => (Err(x), env1, out1),
            Ok(v) => {
                let (rs, env2, out2) = eval_list_spec(f, fuel, env1, k, out1, es.skip(1));
                match rs {
                    Ok(vs) => (Ok(seq![v] + vs), env2, out2),
                    Err(x) => (Err(x), env2, out2),
                }
            },
        }
    }
}

/// Evaluates the expressions of a body in turn: the value of the last one, or
/// `last` when there are none.
pub open spec fn eval_body_spec<F: Fn(NumQuery) -> NumReply>(f: F, fuel: nat, env: Scopes, k: nat, out: Seq<char>, es: Seq<Datum>, last: Datum) -> Outcome
    decreases fuel, 1nat, es.len(),
{
    if es.len() == 0 {
        (Ok(last), env, out)
    } else {
        let (r, env1, out1) = eval_spec(f, fuel, env, k, out, es[0]);
        match r {
            Err(x) => (Err(x), env1, out1),
            Ok(v) => eval_body_spec(f, fuel, env1, k, out1, es.skip(1), v),
        }
    }
}

/// The scopes with a new scope, made in scope `parent`, that binds `params`
/// to `args`.
pub open spec fn call_scopes(env: Scopes, params: Seq<Seq<char>>, args: Seq<Datum>, parent: nat) -> Scopes {
    env.push(Scope { bindings: bind_params(params, args), parent: Some(parent) })
}

/// Applies a procedure to arguments. A built-in procedure does its work (in
/// scope `k` where it evaluates); a procedure made by `lambda` makes a new
/// scope inside the scope it was made in, binds its parameters there, and
/// evaluates its body in that scope.
pub open spec fn apply_spec<F: Fn(NumQuery) -> NumReply>(f: F, fuel: nat, env: Scopes, k: nat, out: Seq<char>, p: Datum, args: Seq<Datum>) -> Outcome
    decreases fuel, 4nat, 0nat,
{
    match p {
        Datum::Builtin(b) => builtin_spec(f, fuel, env, k, out, b, args),
        Datum::Lambda(params, body, scope) => if params.len() != args.len() {
            (Err(Fault::RuntimeError("Expected "@ + decimal(params.len()) + " arguments, got "@ + decimal(args.len()))), env, out)
        } else {
            let es = match list_items(*body) {
                Some(es) => es,
                None => Seq::empty(),
            };
            eval_body_spec(f, fuel, call_scopes(env, params, args, scope), env.len(), out, es, Datum::Nil)
        },
        _ => (Err(Fault::RuntimeError("Attempted to call a non-procedure value"@)), env, out),
    }
}

/// What a built-in procedure does: `apply` and `eval` evaluate further,
/// `display`, `displayln`, `newline` and `print` write to the output, and the
/// others compute their result from their arguments alone.
pub open spec fn builtin_spec<F: Fn(NumQuery) -> NumReply>(f: F, fuel: nat, env: Scopes, k: nat, out: Seq<char>, b: Builtin, args: Seq<Datum>) -> Outcome
    decreases fuel, 3nat, 0nat,
{
    match b {
        Builtin::Apply => if args.len() != 2 {
            (Err(Fault::RuntimeError("apply requires 2 arguments"@)), env, out)
        } else {
            match list_items(args[1]) {
                None => (Err(Fault::RuntimeError("Malformed list."@)), env, out),
                Some(l) => if fuel == 0 {
                    (Err(depth_fault()), env, out)
                } else {
                    apply_spec(f, (fuel - 1) as nat, env, k, out, args[0], l)
                },
            }
        },
        Builtin::Eval => if args.len() != 1 {
            (Err(Fault::RuntimeError("eval requires 1 argument"@)), env, out)
        } else {
            eval_spec(f, fuel, env, k, out, args[0])
        },
        Builtin::Display => if args.len() != 1 {
            (Err(Fault::RuntimeError("display requires 1 argument"@)), env, out)
        } else {
            (Ok(Datum::Nil), env, out + display_text(f, args[0]))
        },
        Builtin::Displayln => if args.len() != 1 {
            (Err(Fault::RuntimeError("displayln requires 1 argument"@)), env, out)
        } else {
            (Ok(Datum::Nil), env, out + display_text(f, args[0]) + seq!['\n'])
        },
        Builtin::Newline => if args.len() != 0 {
            (Err(Fault::RuntimeError("newline requires 0 arguments"@)), env, out)
        } else {
            (Ok(Datum::Nil), env, out + seq!['\n'])
        },
        Builtin::Print => (Ok(Datum::Nil), env, out + print_text(f, args)),
        Builtin::MapProc => if args.len() != 2 {
            (Err(Fault::RuntimeError("map requires 2 arguments"@)), env, out)
        } else {
            match list_items(args[1]) {
                None => (Err(Fault::RuntimeError("map expects a list"@)), env, out),
                Some(items) => if fuel == 0 {
                    (Err(depth_fault()), env, out)
                } else {
                    let (r, env1, out1) = map_spec(f, (fuel - 1) as nat, env, k, out, args[0], items);
                    match r {
                        Ok(vs) => (Ok(make_list(vs)), env1, out1),
                        Err(x) => (Err(x), env1, out1),
                    }
                },
            }
        },
        Builtin::FilterProc => if args.len() != 2 {
            (Err(Fault::RuntimeError("filter requires 2 arguments"@)), env, out)
        } else {
            match list_items(args[1]) {
                None => (Err(Fault::RuntimeError("filter expects a list"@)), env, out),
                Some(items) => if fuel == 0 {
                    (Err(depth_fault()), env, out)
                } else {
                    let (r, env1, out1) = filter_spec(f, (fuel - 1) as nat, env, k, out, args[0], items);
                    match r {
                        Ok(vs) => (Ok(make_list(vs)), env1, out1),
                        Err(x) => (Err(x), env1, out1),
                    }
                },
            }
        },
        Builtin::ReduceProc => if args.len() != 2 {
            (Err(Fault::RuntimeError("reduce requires 2 arguments"@)), env, out)
        } else {
            match list_items(args[1]) {
                None => (Err(Fault::RuntimeError("reduce expects a list"@)), env, out),
                Some(items) => if items.len() == 0 {
                    (Err(Fault::RuntimeError("reduce requires a non-empty list"@)), env, out)
                } else if fuel == 0 {
                    (Err(depth_fault()), env, out)
                } else {
                    reduce_spec(f, (fuel - 1) as nat, env, k, out, args[0], items[0], items.skip(1))
                },
            }
        },
        _ => (pure_spec(f, b, args), env, out),
    }
}

/// `(map proc list)`: the results of applying the procedure to each element
/// in turn, stopping at the first error.
pub open spec fn map_spec<F: Fn(NumQuery) -> NumReply>(f: F, fuel: nat, env: Scopes, k: nat, out: Seq<char>, p: Datum, items: Seq<Datum>) -> (Result<Seq<Datum>, Fault>, Scopes, Seq<char>)
    decreases fuel, 5nat, items.len(),
{
    if items.len() == 0 {
        (Ok(Seq::empty()), env, out)
    } else {
        let (r, env1, out1) = apply_spec(f, fuel, env, k, out, p, seq![items[0]]);
        match r {
            Err(x) => (Err(x), env1, out1),
            Ok(v) => prepend_values(seq![v], map_spec(f, fuel, env1, k, out1, p, items.skip(1))),
        }
    }
}

/// `(filter pred list)`: the elements for which the predicate's value is not
/// `#f`, in order, stopping at the first error.
pub open spec fn filter_spec<F: Fn(NumQuery) -> NumReply>(f: F, fuel: nat, env: Scopes, k: nat, out: Seq<char>, p: Datum, items: Seq<Datum>) -> (Result<Seq<Datum>, Fault>, Scopes, Seq<char>)
    decreases fuel, 5nat, items.len(),
{
    if items.len() == 0 {
        (Ok(Seq::empty()), env, out)
    } else {
        let (r, env1, out1) = apply_spec(f, fuel, env, k, out, p, seq![items[0]]);
        match r {
            Err(x) => (Err(x), env1, out1),
            Ok(v) => if is_false_datum(v) {
                filter_spec(f, fuel, env1, k, out1, p, items.skip(1))
            } else {
                prepend_values(seq![items[0]], filter_spec(f, fuel, env1, k, out1, p, items.skip(1)))
            },
        }
    }
}

/// `(reduce proc list)` from `acc` on: the procedure applied to the value so
/// far and each further element in turn.
pub open spec fn reduce_spec<F: Fn(NumQuery) -> NumReply>(f: F, fuel: nat, env: Scopes, k: nat, out: Seq<char>, p: Datum, acc: Datum, rest: Seq<Datum>) -> Outcome
    decreases fuel, 5nat, rest.len(),
{
    if rest.len() == 0 {
        (Ok(acc), env, out)
    } else {
        let (r, env1, out1) = apply_spec(f, fuel, env, k, out, p, seq![acc, rest[0]]);
        match r {
            Err(x) => (Err(x), env1, out1),
            Ok(v) => reduce_spec(f, fuel, env1, k, out1, p, v, rest.skip(1)),
        }
    }
}

/// The names and procedures an environment starts with.
pub open spec fn initial_bindings() -> Bindings {
    seq![
        ("atom?"@, Datum::Builtin(Builtin::AtomPred)),
        ("boolean?"@, Datum::Builtin(Builtin::BooleanPred)),
        ("+"@, Datum::Builtin(Builtin::Add)),
        ("-"@, Datum::Builtin(Builtin::Sub)),
        ("*"@, Datum::Builtin(Builtin::Mul)),
        (">"@, Datum::Builtin(Builtin::Gt)),
        ("length"@, Datum::Builtin(Builtin::Length)),
        ("cdr"@, Datum::Builtin(Builtin::Cdr)),
        ("apply"@, Datum::Builtin(Builtin::Apply)),
        ("display"@, Datum::Builtin(Builtin::Display)),
        ("displayln"@, Datum::Builtin(Builtin::Displayln)),
        ("error"@, Datum::Builtin(Builtin::Error)),
        ("eval"@, Datum::Builtin(Builtin::Eval)),
        ("exit"@, Datum::Builtin(Builtin::Exit)),
        ("integer?"@, Datum::Builtin(Builtin::IntegerPred)),
        ("list?"@, Datum::Builtin(Builtin::ListPred)),
        ("null?"@, Datum::Builtin(Builtin::NullPred)),
        ("newline"@, Datum::Builtin(Builtin::Newline)),
        ("number?"@, Datum::Builtin(Builtin::NumberPred)),
        ("pair?"@, Datum::Builtin(Builtin::PairPred)),
        ("print"@, Datum::Builtin(Builtin::Print)),
        ("procedure?"@, Datum::Builtin(Builtin::ProcedurePred)),
        ("string?"@, Datum::Builtin(Builtin::StringPred)),
        ("symbol?"@, Datum::Builtin(Builtin::SymbolPred)),
        ("car"@, Datum::Builtin(Builtin::Car)),
        ("cons"@, Datum::Builtin(Builtin::Cons)),
        ("list"@, Datum::Builtin(Builtin::List)),
        ("not"@, Datum::Builtin(Builtin::Not)),
        ("equal?"@, Datum::Builtin(Builtin::EqualPred)),
        ("append"@, Datum::Builtin(Builtin::Append)),
        ("abs"@, Datum::Builtin(Builtin::Abs)),
        ("expt"@, Datum::Builtin(Builtin::Expt)),
        ("quotient"@, Datum::Builtin(Builtin::Quotient)),
        ("remainder"@, Datum::Builtin(Builtin::Remainder)),
        ("modulo"@, Datum::Builtin(Builtin::Modulo)),
        ("/"@, Datum::Builtin(Builtin::Div)),
        ("="@, Datum::Builtin(Builtin::NumEq)),
        ("<"@, Datum::Builtin(Builtin::Lt)),
        ("<="@, Datum::Builtin(Builtin::Le)),
        (">="@, Datum::Builtin(Builtin::Ge)),
        ("zero?"@, Datum::Builtin(Builtin::ZeroPred)),
        ("even?"@, Datum::Builtin(Builtin::EvenPred)),
        ("odd?"@, Datum::Builtin(Builtin::OddPred)),
        ("map"@, Datum::Builtin(Builtin::MapProc)),
        ("filter"@, Datum::Builtin(Builtin::FilterProc)),
        ("reduce"@, Datum::Builtin(Builtin::ReduceProc)),
        ("eq?"@, Datum::Builtin(Builtin::EqPred)),
    ]
}

/// The scopes an environment starts with: the global scope, holding the
/// built-in procedures.
pub open spec fn initial_scopes() -> Scopes {
    seq![Scope { bindings: initial_bindings(), parent: None }]
}

/// A scope of an environment: its bindings and the scope it was made in.
struct Frame {
    bindings: Vec<Binding>,
    parent: Option<usize>,
}

/// The content of a frame.
spec fn scope_of(fr: Frame) -> Scope {
    Scope {
        bindings: bindings_of(fr.bindings@),
        parent: match fr.parent {
            Some(p) => Some(p as nat),
            None => None,
        },
    }
}

/// An environment: the scopes that evaluation reads and extends. Scope 0 is
/// the global scope; each call of a procedure made by `lambda` adds one.
/// Procedures refer to the scope they were made in by its index, so the
/// scopes of finished calls are kept for as long as the environment lives.
pub struct EvalEnv {
    frames: Vec<Frame>,
}

impl View for EvalEnv {
    type V = Scopes;

    closed spec fn view(&self) -> Scopes {
        self.frames@.map_values(|fr: Frame| scope_of(fr))
    }
}

/// The budget of nested evaluations that [`EvalEnv::eval`] allows: as many
/// as a `usize` counts, so evaluation goes as deep as the machine's stack
/// lets it. Each expression evaluated inside another, and each call that
/// `apply`, `map`, `filter` or `reduce` makes, spends one unit, and each unit
/// spent stands for frames on the stack, so the budget is never the limit in
/// practice. [`EvalEnv::eval_with_depth`] takes a smaller budget, past which
/// evaluation stops with "Maximum recursion depth exceeded".
pub const MAX_EVAL_DEPTH: usize = usize::MAX;

/// The result of evaluating a list of expressions, as contents.
pub open spec fn outcomes(r: Result<Vec<ValuePtr>, LispError>) -> Result<Seq<Datum>, Fault> {
    match r {
        Ok(vs) => Ok(datums(vs@)),
        Err(e) => Err(e@),
    }
}

/// `r` with `vs` in front of its values.
pub open spec fn prepend_values(vs: Seq<Datum>, r: (Result<Seq<Datum>, Fault>, Scopes, Seq<char>)) -> (Result<Seq<Datum>, Fault>, Scopes, Seq<char>) {
    (match r.0 {
        Ok(ws) => Ok(vs + ws),
        Err(x) => Err(x),
    }, r.1, r.2)
}

fn depth_error() -> (e: LispError)
    ensures
        e@ == depth_fault(),
{
    runtime_error("Maximum recursion depth exceeded")
}

/// The value of the most recent binding of `name` among `bs`.
fn find_binding(bs: &Vec<Binding>, name: &String) -> (r: Option<ValuePtr>)
    ensures
        match r {
            Some(v) => lookup(bindings_of(bs@), name@) == Some(datum_of(*v)),
            None => lookup(bindings_of(bs@), name@) is None,
        },
{
    let mut i = bs.len();
    assert(bindings_of(bs@).take(i as int) =~= bindings_of(bs@));
    while i > 0
        invariant
            i <= bs@.len(),
            lookup(bindings_of(bs@), name@) == lookup(bindings_of(bs@).take(i as int), name@),
        decreases i,
    {
        let ghost pre = bindings_of(bs@).take(i as int);
        assert(pre.drop_last() =~= bindings_of(bs@).take(i - 1));
        if bs[i - 1].name == *name {
            return Some(share(&bs[i - 1].value));
        }
        i -= 1;
    }
    None
}

impl EvalEnv {
    /// A fresh environment: a global scope holding the built-in procedures.
    pub fn new() -> (env: EvalEnv)
        ensures
            env@ == initial_scopes(),
    {
        let mut frames: Vec<Frame> = Vec::new();
        frames.push(Frame { bindings: crate::builtins::builtin_map(), parent: None });
        let env = EvalEnv { frames };
        assert(env@ =~= initial_scopes());
        env
    }

    /// Binds `name` to `value` in the global scope, hiding any earlier
    /// binding of the name there.
    pub fn define(&mut self, name: String, value: ValuePtr)
        ensures
            final(self)@ == define_in(old(self)@, 0, name@, datum_of(*value)),
    {
        self.define_in(0, name, value);
    }

    /// Binds `name` to `value` in scope `k`. An index past the last scope
    /// binds nothing.
    pub fn define_in(&mut self, k: usize, name: String, value: ValuePtr)
        ensures
            final(self)@ == define_in(old(self)@, k as nat, name@, datum_of(*value)),
    {
        if k < self.frames.len() {
            let ghost before = self.frames@;
            let ghost entry = (name@, value@);
            self.frames[k].bindings.push(Binding { name, value });
            proof {
                assert(bindings_of(self.frames@[k as int].bindings@) =~= bindings_of(before[k as int].bindings@).push(entry));
                assert(self@ =~= define_in(before.map_values(|fr: Frame| scope_of(fr)), k as nat, entry.0, entry.1));
            }
        }
    }

    /// The value that `name` has in the global scope.
    pub fn lookup(&self, name: &String) -> (r: Option<ValuePtr>)
        ensures
            match r {
                Some(v) => lookup_in(self@, 0, name@) == Some(datum_of(*v)),
                None => lookup_in(self@, 0, name@) is None,
            },
    {
        self.lookup_in(0, name)
    }

    /// The value that `name` has in scope `k`.
    pub fn lookup_in(&self, k: usize, name: &String) -> (r: Option<ValuePtr>)
        ensures
            match r {
                Some(v) => lookup_in(self@, k as nat, name@) == Some(datum_of(*v)),
                None => lookup_in(self@, k as nat, name@) is None,
            },
    {
        let mut cur = k;
        loop
            invariant
                lookup_in(self@, k as nat, name@) == lookup_in(self@, cur as nat, name@),
            decreases cur,
        {
            if cur >= self.frames.len() {
                return None;
            }
            let ghost sc = self@[cur as int];
            assert(sc == scope_of(self.frames@[cur as int]));
            match find_binding(&self.frames[cur].bindings, name) {
                Some(v) => {
                    return Some(v);
                },
                None => {},
            }
            match self.frames[cur].parent {
                Some(p) => {
                    if p < cur {
                        cur = p;
                    } else {
                        return None;
                    }
                },
                None => {
                    return None;
                },
            }
        }
    }

    /// How many bindings the global scope holds.
    pub fn binding_count(&self) -> (n: usize)
        ensures
            n == if self@.len() > 0 { self@[0].bindings.len() } else { 0 },
    {
        if self.frames.len() > 0 {
            self.frames[0].bindings.len()
        } else {
            0
        }
    }

    /// How many scopes the environment holds.
    pub fn scope_count(&self) -> (n: usize)
        ensures
            n == self@.len(),
    {
        self.frames.len()
    }

    /// Evaluates `expr` in the global scope, allowing [`MAX_EVAL_DEPTH`]
    /// nested evaluations.
    pub fn eval<F: Fn(NumQuery) -> NumReply>(&mut self, expr: ValuePtr, f: &F, out: &mut Output) -> (r: Result<ValuePtr, LispError>)
        requires
            is_backend(*f),
        ensures
            (outcome(r), final(self)@, final(out)@) == eval_spec(*f, MAX_EVAL_DEPTH as nat, old(self)@, 0, old(out)@, datum_of(*expr)),
    {
        self.eval_in(0, expr, f, out, MAX_EVAL_DEPTH)
    }

    /// Evaluates `expr` in the global scope, allowing `fuel` nested evaluations.
    pub fn eval_with_depth<F: Fn(NumQuery) -> NumReply>(&mut self, expr: ValuePtr, f: &F, out: &mut Output, fuel: usize) -> (r: Result<ValuePtr, LispError>)
        requires
            is_backend(*f),
        ensures
            (outcome(r), final(self)@, final(out)@) == eval_spec(*f, fuel as nat, old(self)@, 0, old(out)@, datum_of(*expr)),
    {
        self.eval_in(0, expr, f, out, fuel)
    }

    /// Evaluates `expr` in scope `k`, allowing `fuel` nested evaluations. A
    /// scope index past the last scope holds no bindings: no name is found
    /// there, and a definition made there binds nothing.
    pub fn eval_in<F: Fn(NumQuery) -> NumReply>(&mut self, k: usize, expr: ValuePtr, f: &F, out: &mut Output, fuel: usize) -> (r: Result<ValuePtr, LispError>)
        requires
            is_backend(*f),
        ensures
            (outcome(r), final(self)@, final(out)@) == eval_spec(*f, fuel as nat, old(self)@, k as nat, old(out)@, datum_of(*expr)),
        decreases fuel, 0nat, 0nat,
    {
        if fuel == 0 {
            return Err(depth_error());
        }
        if expr.is_self_evaluating() {
            return Ok(expr);
        }
        match &*expr {
            Value::Nil => {
                return Err(runtime_error("Evaluating nil is prohibited."));
            },
            Value::Symbol(name) => {
                match self.lookup_in(k, name) {
                    Some(v) => {
                        return Ok(v);
                    },
                    None => {
                        let mut msg = string_from("Variable ");
                        push_str(&mut msg, name.as_str());
                        push_str(&mut msg, " not defined.");
                        return Err(LispError::RuntimeError(msg));
                    },
                }
            },
            _ => {},
        }
        let items = expr.to_vec()?;
        if items.len() == 0 {
            return Err(runtime_error("Empty list"));
        }
        let form = match items[0].as_symbol() {
            Some(name) => lookup_special_form(name),
            None => None,
        };
        if let Some(form) = form {
            let args = tail_of(&items);
            return crate::form::eval_form(form, args.as_slice(), self, k, f, out, fuel - 1);
        }
        let proc = self.eval_in(k, share(&items[0]), f, out, fuel - 1)?;
        let args = self.eval_list(k, &items, 1, f, out, fuel - 1)?;
        self.apply(k, proc, args, f, out, fuel - 1)
    }

    /// Evaluates `es[from..]` left to right in scope `k`.
    pub(crate) fn eval_list<F: Fn(NumQuery) -> NumReply>(&mut self, k: usize, es: &Vec<ValuePtr>, from: usize, f: &F, out: &mut Output, fuel: usize) -> (r: Result<Vec<ValuePtr>, LispError>)
        requires
            is_backend(*f),
            from <= es@.len(),
        ensures
            (outcomes(r), final(self)@, final(out)@) == eval_list_spec(*f, fuel as nat, old(self)@, k as nat, old(out)@, datums(es@).skip(from as int)),
        decreases fuel, 1nat, 0nat,
    {
        let mut vals: Vec<ValuePtr> = Vec::new();
        let mut i: usize = from;
        while i < es.len()
            invariant
                is_backend(*f),
                from <= i <= es@.len(),
                eval_list_spec(*f, fuel as nat, old(self)@, k as nat, old(out)@, datums(es@).skip(from as int))
                    == prepend_values(datums(vals@), eval_list_spec(*f, fuel as nat, self@, k as nat, out@, datums(es@).skip(i as int))),
            decreases es.len() - i,
        {
            let ghost rest = datums(es@).skip(i as int);
            let ghost before = datums(vals@);
            assert(rest[0] == datum_of(*es@[i as int]));
            assert(rest.skip(1) =~= datums(es@).skip(i + 1));
            let v = self.eval_in(k, share(&es[i]), f, out, fuel)?;
            vals.push(v);
            proof {
                assert(datums(vals@) =~= before.push(datum_of(*v)));
                let tail = eval_list_spec(*f, fuel as nat, self@, k as nat, out@, datums(es@).skip(i + 1));
                match tail.0 {
                    Ok(ws) => {
                        assert(before + (seq![datum_of(*v)] + ws) =~= datums(vals@) + ws);
                    },
                    Err(_) => {},
                }
            }
            i += 1;
        }
        proof {
            assert(datums(es@).skip(i as int) =~= Seq::<Datum>::empty());
            assert(datums(vals@) + Seq::<Datum>::empty() =~= datums(vals@));
        }
        Ok(vals)
    }

    /// Adds a scope, made in scope `parent`, that binds `params` to `args`.
    fn push_call_scope(&mut self, params: &Vec<String>, args: &Vec<ValuePtr>, parent: usize)
        requires
            params@.len() == args@.len(),
        ensures
            final(self)@ == call_scopes(old(self)@, texts(params@), datums(args@), parent as nat),
    {
        let ghost ps = texts(params@);
        let ghost ds = datums(args@);
        let mut bindings: Vec<Binding> = Vec::new();
        let mut i: usize = 0;
        while i < params.len()
            invariant
                params@.len() == args@.len(),
                ps == texts(params@),
                ds == datums(args@),
                i <= params@.len(),
                bindings_of(bindings@) == bind_params(ps, ds).take(i as int),
            decreases params.len() - i,
        {
            let ghost before = bindings@;
            bindings.push(Binding { name: string_from(params[i].as_str()), value: share(&args[i]) });
            assert(bindings_of(bindings@) =~= bindings_of(before).push((ps[i as int], ds[i as int])));
            assert(bind_params(ps, ds).take(i + 1) =~= bind_params(ps, ds).take(i as int).push((ps[i as int], ds[i as int])));
            i += 1;
        }
        assert(bind_params(ps, ds).take(i as int) =~= bind_params(ps, ds));
        let ghost before = self.frames@;
        self.frames.push(Frame { bindings, parent: Some(parent) });
        assert(self@ =~= call_scopes(before.map_values(|fr: Frame| scope_of(fr)), ps, ds, parent as nat));
    }

    /// Applies a procedure to arguments; a built-in procedure that evaluates
    /// does so in scope `k`.
    pub fn apply<F: Fn(NumQuery) -> NumReply>(&mut self, k: usize, proc: ValuePtr, args: Vec<ValuePtr>, f: &F, out: &mut Output, fuel: usize) -> (r: Result<ValuePtr, LispError>)
        requires
            is_backend(*f),
        ensures
            (outcome(r), final(self)@, final(out)@) == apply_spec(*f, fuel as nat, old(self)@, k as nat, old(out)@, datum_of(*proc), datums(args@)),
        decreases fuel, 4nat, 0nat,
    {
        match &*proc {
            Value::BuiltinProc(b) => self.call_builtin(k, *b, args, f, out, fuel),
            Value::LambdaProc { params, body, scope } => {
                if params.len() != args.len() {
                    let mut msg = string_from("Expected ");
                    push_decimal(&mut msg, params.len());
                    push_str(&mut msg, " arguments, got ");
                    push_decimal(&mut msg, args.len());
                    return Err(LispError::RuntimeError(msg));
                }
                let n = self.frames.len();
                proof {
                    assert(self@.len() == n);
                }
                self.push_call_scope(params, &args, *scope);
                let es = match body.to_vec() {
                    Ok(v) => v,
                    Err(_) => Vec::new(),
                };
                let ghost body_items = datums(es@);
                assert(body_items == match list_items(datum_of(**body)) {
                    Some(items) => items,
                    None => Seq::<Datum>::empty(),
                });
                assert(body_items.skip(0) =~= body_items);
                let ghost bound = self@;
                assert(bound == call_scopes(old(self)@, texts(params@), datums(args@), *scope as nat));
                crate::form::eval_body(es.as_slice(), 0, Rc::new(Value::Nil), self, n, f, out, fuel)
            },
            _ => Err(runtime_error("Attempted to call a non-procedure value")),
        }
    }

    /// Calls a built-in procedure.
    fn call_builtin<F: Fn(NumQuery) -> NumReply>(&mut self, k: usize, b: Builtin, args: Vec<ValuePtr>, f: &F, out: &mut Output, fuel: usize) -> (r: Result<ValuePtr, LispError>)
        requires
            is_backend(*f),
        ensures
            (outcome(r), final(self)@, final(out)@) == builtin_spec(*f, fuel as nat, old(self)@, k as nat, old(out)@, b, datums(args@)),
        decreases fuel, 3nat, 0nat,
    {
        match b {
            Builtin::Apply => crate::builtins::apply_proc(args, self, k, f, out, fuel),
            Builtin::Eval => crate::builtins::eval_proc(args, self, k, f, out, fuel),
            Builtin::Display => crate::builtins::display_proc(args, f, out),
            Builtin::Displayln => crate::builtins::displayln_proc(args, f, out),
            Builtin::Newline => crate::builtins::newline_proc(args, out),
            Builtin::Print => crate::builtins::print_proc(args, f, out),
            Builtin::MapProc => crate::builtins::map_proc(args, self, k, f, out, fuel),
            Builtin::FilterProc => crate::builtins::filter_proc(args, self, k, f, out, fuel),
            Builtin::ReduceProc => crate::builtins::reduce_proc(args, self, k, f, out, fuel),
            Builtin::AtomPred => crate::builtins::atom_pred(args),
            Builtin::BooleanPred => crate::builtins::boolean_pred(args),
            Builtin::Add => crate::builtins::add(args, f),
            Builtin::Sub => crate::builtins::sub(args, f),
            Builtin::Mul => crate::builtins::mul(args, f),
            Builtin::Gt => crate::builtins::gt(args, f),
            Builtin::Length => crate::builtins::length(args, f),
            Builtin::Cdr => crate::builtins::cdr(args),
            Builtin::Error => crate::builtins::error_proc(args, f),
            Builtin::Exit => crate::builtins::exit_proc(args, f),
            Builtin::IntegerPred => crate::builtins::integer_pred(args, f),
            Builtin::ListPred => crate::builtins::list_pred(args),
            Builtin::NullPred => crate::builtins::null_pred(args),
            Builtin::NumberPred => crate::builtins::number_pred(args),
            Builtin::PairPred => crate::builtins::pair_pred(args),
            Builtin::ProcedurePred => crate::builtins::procedure_pred(args),
            Builtin::StringPred => crate::builtins::string_pred(args),
            Builtin::SymbolPred => crate::builtins::symbol_pred(args),
            Builtin::Car => crate::builtins::car(args),
            Builtin::Cons => crate::builtins::cons(args),
            Builtin::List => crate::builtins::list(args),
            Builtin::Not => crate::builtins::not_pred(args),
            Builtin::EqualPred => crate::builtins::equal_pred(args, f),
            Builtin::EqPred => crate::builtins::eq_pred(args),
            Builtin::Append => crate::builtins::append(args),
            Builtin::Abs => crate::builtins::abs(args, f),
            Builtin::Div => crate::builtins::div(args, f),
            Builtin::Expt | Builtin::Quotient | Builtin::Remainder | Builtin::Modulo => crate::builtins::binary(b, args, f),
            Builtin::NumEq | Builtin::Lt | Builtin::Le | Builtin::Ge => crate::builtins::compare(b, args, f),
            Builtin::ZeroPred | Builtin::EvenPred | Builtin::OddPred => crate::builtins::number_test(b, args, f),
        }
    }
}

/// The elements of `items` after the first.
fn tail_of(items: &Vec<ValuePtr>) -> (r: Vec<ValuePtr>)
    requires
        items@.len() >= 1,
    ensures
        datums(r@) == datums(items@).skip(1),
{
    let mut r: Vec<ValuePtr> = Vec::new();
    let mut i: usize = 1;
    while i < items.len()
        invariant
            1 <= i <= items@.len(),
            datums(r@) == datums(items@).subrange(1, i as int),
        decreases items.len() - i,
    {
        let ghost before = datums(r@);
        r.push(share(&items[i]));
        assert(datums(r@) =~= before.push(datum_of(*items@[i as int])));
        assert(datums(r@) =~= datums(items@).subrange(1, i + 1));
        i += 1;
    }
    assert(datums(items@).subrange(1, i as int) =~= datums(items@).skip(1));
    r
}

} // verus!
