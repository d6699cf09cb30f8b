//! The procedures that every environment starts with.
use vstd::prelude::*;
use std::rc::Rc;
use crate::error::{LispError, Fault, runtime_error};
use crate::numeric::{Number, NumQuery, NumReply, NumAsk, is_backend, answer_number, answer_truth,
    answer_code, ask_number, ask_truth, ask_code};
use crate::output::{Output, newline};
use crate::eval_env::{EvalEnv, Binding, bindings_of, initial_bindings, builtin_spec, map_spec, filter_spec,
    reduce_spec, prepend_values};
use crate::text::{push_str, string_from};
use crate::value::{Value, ValuePtr, Datum, Builtin, datums, list_items, is_atom, is_procedure,
    show, is_list_value, make_list, is_false_datum, same_value};

verus! {

/// The result of a procedure, as a result over contents.
pub open spec fn outcome(r: Result<ValuePtr, LispError>) -> Result<Datum, Fault> {
    match r {
        Ok(v) => Ok(datum_of_ptr(v)),
        Err(e) => Err(e@),
    }
}

/// The content of the value a pointer points to.
pub open spec fn datum_of_ptr(p: ValuePtr) -> Datum {
    crate::value::datum_of(*p)
}

/// The error of a procedure called with the wrong number of arguments.
pub open spec fn arity_fault(name: Seq<char>) -> Fault {
    Fault::RuntimeError(name + " requires 1 argument"@)
}

/// What the numeric backend's failure to give a number is reported as.
pub open spec fn backend_fault() -> Fault {
    Fault::Other("numeric backend gave no number"@)
}

/// A one-argument predicate: `#t` or `#f` by `holds`.
pub open spec fn predicate(name: Seq<char>, args: Seq<Datum>, holds: bool) -> Result<Datum, Fault> {
    if args.len() != 1 {
        Err(arity_fault(name))
    } else {
        Ok(Datum::Boolean(holds))
    }
}

/// The question for one step of a fold of `+`, `-`, `*` or `/`.
pub open spec fn fold_ask(b: Builtin, acc: Number, x: Number) -> NumAsk {
    if b == Builtin::Add {
        NumAsk::Add(acc, x)
    } else if b == Builtin::Sub {
        NumAsk::Sub(acc, x)
    } else if b == Builtin::Div {
        NumAsk::Div(acc, x)
    } else {
        NumAsk::Mul(acc, x)
    }
}

/// Combines `acc` with each argument in turn by the backend's `+`, `-`, `*`
/// or `/`; a non-number argument is the error `msg`.
pub open spec fn fold_numbers<F: Fn(NumQuery) -> NumReply>(f: F, b: Builtin, acc: Number, args: Seq<Datum>, msg: Seq<char>) -> Result<Number, Fault>
    decreases args.len(),
{
    if args.len() == 0 {
        Ok(acc)
    } else {
        match args[0] {
            Datum::Numeric(x) => match answer_number(f, fold_ask(b, acc, x)) {
                Some(n) => fold_numbers(f, b, n, args.skip(1), msg),
                None => Err(backend_fault()),
            },
            _ => Err(Fault::RuntimeError(msg)),
        }
    }
}

/// A fold result as a number value.
pub open spec fn as_numeric(r: Result<Number, Fault>) -> Result<Datum, Fault> {
    match r {
        Ok(n) => Ok(Datum::Numeric(n)),
        Err(e) => Err(e),
    }
}

/// `(+ x ...)`: the sum of the arguments, starting from 0.
pub open spec fn add_spec<F: Fn(NumQuery) -> NumReply>(f: F, args: Seq<Datum>) -> Result<Datum, Fault> {
    match answer_number(f, NumAsk::FromCount(0)) {
        Some(zero) => as_numeric(fold_numbers(f, Builtin::Add, zero, args, "Cannot add non-number"@)),
        None => Err(backend_fault()),
    }
}

/// `(* x ...)`: the product of the arguments, starting from 1.
pub open spec fn mul_spec<F: Fn(NumQuery) -> NumReply>(f: F, args: Seq<Datum>) -> Result<Datum, Fault> {
    match answer_number(f, NumAsk::FromCount(1)) {
        Some(one) => as_numeric(fold_numbers(f, Builtin::Mul, one, args, "Cannot mul non-number"@)),
        None => Err(backend_fault()),
    }
}

/// `(- x)` negates; `(- x y ...)` subtracts the rest from the first.
pub open spec fn sub_spec<F: Fn(NumQuery) -> NumReply>(f: F, args: Seq<Datum>) -> Result<Datum, Fault> {
    if args.len() == 0 {
        Err(Fault::RuntimeError("- requires at least 1 argument"@))
    } else {
        match args[0] {
            Datum::Numeric(first) => if args.len() == 1 {
                match answer_number(f, NumAsk::Neg(first)) {
                    Some(n) => Ok(Datum::Numeric(n)),
                    None => Err(backend_fault()),
                }
            } else {
                as_numeric(fold_numbers(f, Builtin::Sub, first, args.skip(1), "Cannot sub non-number"@))
            },
            _ => Err(Fault::RuntimeError("Cannot sub non-number"@)),
        }
    }
}

/// The name a built-in procedure is bound to, as its error messages use it.
pub open spec fn builtin_name(b: Builtin) -> Seq<char> {
    match b {
        Builtin::Gt => ">"@,
        Builtin::Lt => "<"@,
        Builtin::Le => "<="@,
        Builtin::Ge => ">="@,
        Builtin::NumEq => "="@,
        Builtin::Expt => "expt"@,
        Builtin::Quotient => "quotient"@,
        Builtin::Remainder => "remainder"@,
        Builtin::Modulo => "modulo"@,
        Builtin::ZeroPred => "zero?"@,
        Builtin::EvenPred => "even?"@,
        Builtin::OddPred => "odd?"@,
        _ => "abs"@,
    }
}

/// The question a numeric comparison asks.
pub open spec fn compare_ask(b: Builtin, l: Number, r: Number) -> NumAsk {
    match b {
        Builtin::Lt => NumAsk::Less(l, r),
        Builtin::Le => NumAsk::LessEq(l, r),
        Builtin::Ge => NumAsk::GreaterEq(l, r),
        Builtin::NumEq => NumAsk::Equal(l, r),
        _ => NumAsk::Greater(l, r),
    }
}

/// `(> x y)`, `(< x y)`, `(<= x y)`, `(>= x y)`, `(= x y)`: how the backend
/// compares the two numbers.
pub open spec fn compare_spec<F: Fn(NumQuery) -> NumReply>(f: F, b: Builtin, args: Seq<Datum>) -> Result<Datum, Fault> {
    if args.len() != 2 {
        Err(Fault::RuntimeError(builtin_name(b) + " requires 2 arguments"@))
    } else {
        match (args[0], args[1]) {
            (Datum::Numeric(l), Datum::Numeric(r)) => Ok(Datum::Boolean(answer_truth(f, compare_ask(b, l, r)))),
            _ => Err(Fault::RuntimeError(builtin_name(b) + " expects numbers"@)),
        }
    }
}

/// The question a two-number operation asks.
pub open spec fn binary_ask(b: Builtin, l: Number, r: Number) -> NumAsk {
    match b {
        Builtin::Quotient => NumAsk::Quotient(l, r),
        Builtin::Remainder => NumAsk::Remainder(l, r),
        Builtin::Modulo => NumAsk::Modulo(l, r),
        _ => NumAsk::Expt(l, r),
    }
}

/// `(expt x y)`, `(quotient x y)`, `(remainder x y)`, `(modulo x y)`: the
/// number the backend computes from the two.
pub open spec fn binary_spec<F: Fn(NumQuery) -> NumReply>(f: F, b: Builtin, args: Seq<Datum>) -> Result<Datum, Fault> {
    if args.len() != 2 {
        Err(Fault::RuntimeError(builtin_name(b) + " requires 2 arguments"@))
    } else {
        match (args[0], args[1]) {
            (Datum::Numeric(l), Datum::Numeric(r)) => match answer_number(f, binary_ask(b, l, r)) {
                Some(n) => Ok(Datum::Numeric(n)),
                None => Err(backend_fault()),
            },
            _ => Err(Fault::RuntimeError(builtin_name(b) + " expects numbers"@)),
        }
    }
}

/// The question a one-number test asks.
pub open spec fn test_ask(b: Builtin, n: Number) -> NumAsk {
    match b {
        Builtin::EvenPred => NumAsk::IsEven(n),
        Builtin::OddPred => NumAsk::IsOdd(n),
        _ => NumAsk::IsZero(n),
    }
}

/// `(zero? x)`, `(even? x)`, `(odd? x)`: the backend's answer about the number.
pub open spec fn test_spec<F: Fn(NumQuery) -> NumReply>(f: F, b: Builtin, args: Seq<Datum>) -> Result<Datum, Fault> {
    if args.len() != 1 {
        Err(arity_fault(builtin_name(b)))
    } else {
        match args[0] {
            Datum::Numeric(n) => Ok(Datum::Boolean(answer_truth(f, test_ask(b, n)))),
            _ => Err(Fault::RuntimeError(builtin_name(b) + " expects a number"@)),
        }
    }
}

/// `(abs x)`: the absolute value of the number.
pub open spec fn abs_spec<F: Fn(NumQuery) -> NumReply>(f: F, args: Seq<Datum>) -> Result<Datum, Fault> {
    if args.len() != 1 {
        Err(arity_fault("abs"@))
    } else {
        match args[0] {
            Datum::Numeric(n) => match answer_number(f, NumAsk::Abs(n)) {
                Some(m) => Ok(Datum::Numeric(m)),
                None => Err(backend_fault()),
            },
            _ => Err(Fault::RuntimeError("abs expects a number"@)),
        }
    }
}

/// `(/ x)` is the reciprocal; `(/ x y ...)` divides the first by the rest in turn.
pub open spec fn div_spec<F: Fn(NumQuery) -> NumReply>(f: F, args: Seq<Datum>) -> Result<Datum, Fault> {
    if args.len() == 0 {
        Err(Fault::RuntimeError("/ requires at least 1 argument"@))
    } else {
        match args[0] {
            Datum::Numeric(first) => if args.len() == 1 {
                match answer_number(f, NumAsk::FromCount(1)) {
                    Some(one) => match answer_number(f, NumAsk::Div(one, first)) {
                        Some(n) => Ok(Datum::Numeric(n)),
                        None => Err(backend_fault()),
                    },
                    None => Err(backend_fault()),
                }
            } else {
                as_numeric(fold_numbers(f, Builtin::Div, first, args.skip(1), "Cannot div non-number"@))
            },
            _ => Err(Fault::RuntimeError("Cannot div non-number"@)),
        }
    }
}

/// `(car p)`: the first half of a pair.
pub open spec fn car_spec(args: Seq<Datum>) -> Result<Datum, Fault> {
    if args.len() != 1 {
        Err(Fault::RuntimeError("car requires 1 argument"@))
    } else {
        match args[0] {
            Datum::Pair(a, _) => Ok(*a),
            _ => Err(Fault::RuntimeError("car expects a pair"@)),
        }
    }
}

/// `(cons a b)`: the pair of the two.
pub open spec fn cons_spec(args: Seq<Datum>) -> Result<Datum, Fault> {
    if args.len() != 2 {
        Err(Fault::RuntimeError("cons requires 2 arguments"@))
    } else {
        Ok(Datum::Pair(Box::new(args[0]), Box::new(args[1])))
    }
}

/// `(eq? a b)`: whether the two are the same value. Values carry no identity
/// apart from their content, so this compares them whole: numbers by their
/// bit pattern, procedures made by `lambda` by parameters, body and scope.
pub open spec fn eq_spec(args: Seq<Datum>) -> Result<Datum, Fault> {
    if args.len() != 2 {
        Err(Fault::RuntimeError("eq? requires 2 arguments"@))
    } else {
        Ok(Datum::Boolean(args[0] == args[1]))
    }
}

/// `(equal? a b)`: whether the two are equal values.
pub open spec fn equal_spec<F: Fn(NumQuery) -> NumReply>(f: F, args: Seq<Datum>) -> Result<Datum, Fault> {
    if args.len() != 2 {
        Err(Fault::RuntimeError("equal? requires 2 arguments"@))
    } else {
        Ok(Datum::Boolean(same_value(f, args[0], args[1])))
    }
}

/// `items` placed in front of `tail`, as pairs.
pub open spec fn prepend_items(items: Seq<Datum>, tail: Datum) -> Datum
    decreases items.len(),
{
    if items.len() == 0 {
        tail
    } else {
        Datum::Pair(Box::new(items[0]), Box::new(prepend_items(items.skip(1), tail)))
    }
}

/// The elements of the proper lists `ds`, one after the other, or `None`
/// when one of them is not a proper list.
pub open spec fn items_of_lists(ds: Seq<Datum>) -> Option<Seq<Datum>>
    decreases ds.len(),
{
    if ds.len() == 0 {
        Some(Seq::empty())
    } else {
        match (list_items(ds[0]), items_of_lists(ds.skip(1))) {
            (Some(a), Some(b)) => Some(a + b),
            _ => None,
        }
    }
}

/// `(append l ... x)`: the elements of the lists, in order, in front of the
/// last argument; `(append)` is `()`.
pub open spec fn append_spec(args: Seq<Datum>) -> Result<Datum, Fault> {
    if args.len() == 0 {
        Ok(Datum::Nil)
    } else {
        match items_of_lists(args.drop_last()) {
            Some(items) => Ok(prepend_items(items, args.last())),
            None => Err(Fault::RuntimeError("append expects lists"@)),
        }
    }
}

/// `(integer? x)`: whether `x` is a number without a fractional part.
pub open spec fn integer_spec<F: Fn(NumQuery) -> NumReply>(f: F, args: Seq<Datum>) -> Result<Datum, Fault> {
    predicate("integer?"@, args, match args[0] {
        Datum::Numeric(n) => answer_truth(f, NumAsk::IsInteger(n)),
        _ => false,
    })
}

/// `(length l)`: the number of elements of a proper list.
pub open spec fn length_spec<F: Fn(NumQuery) -> NumReply>(f: F, args: Seq<Datum>) -> Result<Datum, Fault> {
    if args.len() != 1 {
        Err(Fault::RuntimeError("length requires 1 argument"@))
    } else {
        match list_items(args[0]) {
            None => Err(Fault::RuntimeError("Malformed list."@)),
            Some(items) => match answer_number(f, NumAsk::FromCount(items.len() as usize)) {
                Some(n) => Ok(Datum::Numeric(n)),
                None => Err(backend_fault()),
            },
        }
    }
}

/// `(cdr p)`: the second half of a pair.
pub open spec fn cdr_spec(args: Seq<Datum>) -> Result<Datum, Fault> {
    if args.len() != 1 {
        Err(Fault::RuntimeError("cdr requires 1 argument"@))
    } else {
        match args[0] {
            Datum::Pair(_, d) => Ok(*d),
            _ => Err(Fault::RuntimeError("cdr expects a pair"@)),
        }
    }
}

/// The text that `display` writes: a string without quotes, anything else as displayed.
pub open spec fn display_text<F: Fn(NumQuery) -> NumReply>(f: F, d: Datum) -> Seq<char> {
    match d {
        Datum::Str(s) => s,
        _ => show(f, d),
    }
}

/// `(error)` and `(error msg)` fail with the message; more arguments are an error of their own.
pub open spec fn error_spec<F: Fn(NumQuery) -> NumReply>(f: F, args: Seq<Datum>) -> Result<Datum, Fault> {
    if args.len() == 0 {
        Err(Fault::RuntimeError("error"@))
    } else if args.len() == 1 {
        Err(Fault::RuntimeError(display_text(f, args[0])))
    } else {
        Err(Fault::RuntimeError("error accepts at most 1 argument"@))
    }
}

/// `(exit)` and `(exit code)` stop with the code that the backend converts the number to.
pub open spec fn exit_spec<F: Fn(NumQuery) -> NumReply>(f: F, args: Seq<Datum>) -> Result<Datum, Fault> {
    if args.len() == 0 {
        Err(Fault::Exit(0))
    } else if args.len() == 1 {
        match args[0] {
            Datum::Numeric(n) => Err(Fault::Exit(answer_code(f, NumAsk::ExitCode(n)))),
            _ => Err(Fault::RuntimeError("exit expects a number"@)),
        }
    } else {
        Err(Fault::RuntimeError("exit accepts at most 1 argument"@))
    }
}

/// The text that `print` writes: each argument as displayed, on a line of its own.
pub open spec fn print_text<F: Fn(NumQuery) -> NumReply>(f: F, args: Seq<Datum>) -> Seq<char>
    decreases args.len(),
{
    if args.len() == 0 {
        Seq::empty()
    } else {
        show(f, args[0]) + seq!['\n'] + print_text(f, args.skip(1))
    }
}

/// What a built-in procedure that neither evaluates nor prints computes from
/// its arguments.
pub open spec fn pure_spec<F: Fn(NumQuery) -> NumReply>(f: F, b: Builtin, args: Seq<Datum>) -> Result<Datum, Fault> {
    match b {
        Builtin::AtomPred => predicate("atom?"@, args, is_atom(args[0])),
        Builtin::BooleanPred => predicate("boolean?"@, args, args[0] is Boolean),
        Builtin::Add => add_spec(f, args),
        Builtin::Sub => sub_spec(f, args),
        Builtin::Mul => mul_spec(f, args),
        Builtin::Gt => compare_spec(f, b, args),
        Builtin::Length => length_spec(f, args),
        Builtin::Cdr => cdr_spec(args),
        Builtin::Error => error_spec(f, args),
        Builtin::Exit => exit_spec(f, args),
        Builtin::IntegerPred => integer_spec(f, args),
        Builtin::ListPred => predicate("list?"@, args, list_items(args[0]) is Some),
        Builtin::NullPred => predicate("null?"@, args, args[0] is Nil),
        Builtin::NumberPred => predicate("number?"@, args, args[0] is Numeric),
        Builtin::PairPred => predicate("pair?"@, args, args[0] is Pair),
        Builtin::ProcedurePred => predicate("procedure?"@, args, is_procedure(args[0])),
        Builtin::StringPred => predicate("string?"@, args, args[0] is Str),
        Builtin::SymbolPred => predicate("symbol?"@, args, args[0] is Symbol),
        Builtin::Car => car_spec(args),
        Builtin::Cons => cons_spec(args),
        Builtin::List => Ok(make_list(args)),
        Builtin::Not => predicate("not"@, args, is_false_datum(args[0])),
        Builtin::EqualPred => equal_spec(f, args),
        Builtin::EqPred => eq_spec(args),
        Builtin::Append => append_spec(args),
        Builtin::Abs => abs_spec(f, args),
        Builtin::Expt => binary_spec(f, b, args),
        Builtin::Quotient => binary_spec(f, b, args),
        Builtin::Remainder => binary_spec(f, b, args),
        Builtin::Modulo => binary_spec(f, b, args),
        Builtin::Div => div_spec(f, args),
        Builtin::NumEq => compare_spec(f, b, args),
        Builtin::Lt => compare_spec(f, b, args),
        Builtin::Le => compare_spec(f, b, args),
        Builtin::Ge => compare_spec(f, b, args),
        Builtin::ZeroPred => test_spec(f, b, args),
        Builtin::EvenPred => test_spec(f, b, args),
        Builtin::OddPred => test_spec(f, b, args),
        _ => Err(Fault::RuntimeError("Attempted to call a non-procedure value"@)),
    }
}

fn bool_value(b: bool) -> (r: ValuePtr)
    ensures
        datum_of_ptr(r) == Datum::Boolean(b),
{
    Rc::new(Value::Boolean(b))
}

fn nil_value() -> (r: ValuePtr)
    ensures
        datum_of_ptr(r) == Datum::Nil,
{
    Rc::new(Value::Nil)
}

fn number_value(n: Number) -> (r: ValuePtr)
    ensures
        datum_of_ptr(r) == Datum::Numeric(n),
{
    Rc::new(Value::Numeric(n))
}

/// The one argument of a one-argument procedure.
fn expect_one_arg<'a>(name: &str, args: &'a [ValuePtr]) -> (r: Result<&'a ValuePtr, LispError>)
    ensures
        args@.len() == 1 ==> r is Ok && *r->Ok_0 == args@[0],
        args@.len() != 1 ==> r is Err && r->Err_0@ == arity_fault(name@),
{
    if args.len() == 1 {
        Ok(&args[0])
    } else {
        let mut msg = string_from(name);
        push_str(&mut msg, " requires 1 argument");
        Err(LispError::RuntimeError(msg))
    }
}

/// `(atom? x)`
pub fn atom_pred(args: Vec<ValuePtr>) -> (r: Result<ValuePtr, LispError>)
    ensures
        outcome(r) == predicate("atom?"@, datums(args@), is_atom(datums(args@)[0])),
{
    let value = expect_one_arg("atom?", args.as_slice())?;
    let b = match &**value {
        Value::Pair(_, _) => false,
        _ => true,
    };
    Ok(bool_value(b))
}

/// `(boolean? x)`
pub fn boolean_pred(args: Vec<ValuePtr>) -> (r: Result<ValuePtr, LispError>)
    ensures
        outcome(r) == predicate("boolean?"@, datums(args@), datums(args@)[0] is Boolean),
{
    let value = expect_one_arg("boolean?", args.as_slice())?;
    Ok(bool_value(matches!(&**value, Value::Boolean(_))))
}

/// `(null? x)`
pub fn null_pred(args: Vec<ValuePtr>) -> (r: Result<ValuePtr, LispError>)
    ensures
        outcome(r) == predicate("null?"@, datums(args@), datums(args@)[0] is Nil),
{
    let value = expect_one_arg("null?", args.as_slice())?;
    Ok(bool_value(matches!(&**value, Value::Nil)))
}

/// `(number? x)`
pub fn number_pred(args: Vec<ValuePtr>) -> (r: Result<ValuePtr, LispError>)
    ensures
        outcome(r) == predicate("number?"@, datums(args@), datums(args@)[0] is Numeric),
{
    let value = expect_one_arg("number?", args.as_slice())?;
    Ok(bool_value(matches!(&**value, Value::Numeric(_))))
}

/// `(pair? x)`
pub fn pair_pred(args: Vec<ValuePtr>) -> (r: Result<ValuePtr, LispError>)
    ensures
        outcome(r) == predicate("pair?"@, datums(args@), datums(args@)[0] is Pair),
{
    let value = expect_one_arg("pair?", args.as_slice())?;
    Ok(bool_value(matches!(&**value, Value::Pair(_, _))))
}

/// `(procedure? x)`
pub fn procedure_pred(args: Vec<ValuePtr>) -> (r: Result<ValuePtr, LispError>)
    ensures
        outcome(r) == predicate("procedure?"@, datums(args@), is_procedure(datums(args@)[0])),
{
    let value = expect_one_arg("procedure?", args.as_slice())?;
    Ok(bool_value(matches!(&**value, Value::BuiltinProc(_) | Value::LambdaProc { .. })))
}

/// `(string? x)`
pub fn string_pred(args: Vec<ValuePtr>) -> (r: Result<ValuePtr, LispError>)
    ensures
        outcome(r) == predicate("string?"@, datums(args@), datums(args@)[0] is Str),
{
    let value = expect_one_arg("string?", args.as_slice())?;
    Ok(bool_value(matches!(&**value, Value::String(_))))
}

/// `(symbol? x)`
pub fn symbol_pred(args: Vec<ValuePtr>) -> (r: Result<ValuePtr, LispError>)
    ensures
        outcome(r) == predicate("symbol?"@, datums(args@), datums(args@)[0] is Symbol),
{
    let value = expect_one_arg("symbol?", args.as_slice())?;
    Ok(bool_value(matches!(&**value, Value::Symbol(_))))
}

/// `(list? x)`
pub fn list_pred(args: Vec<ValuePtr>) -> (r: Result<ValuePtr, LispError>)
    ensures
        outcome(r) == predicate("list?"@, datums(args@), list_items(datums(args@)[0]) is Some),
{
    let value = expect_one_arg("list?", args.as_slice())?;
    Ok(bool_value(is_list_value(&**value)))
}

/// `(integer? x)`
pub fn integer_pred<F: Fn(NumQuery) -> NumReply>(args: Vec<ValuePtr>, f: &F) -> (r: Result<ValuePtr, LispError>)
    requires
        is_backend(*f),
    ensures
        outcome(r) == integer_spec(*f, datums(args@)),
{
    let value = expect_one_arg("integer?", args.as_slice())?;
    let b = match &**value {
        Value::Numeric(n) => ask_truth(f, NumQuery::IsInteger(*n)),
        _ => false,
    };
    Ok(bool_value(b))
}

fn backend_error() -> (e: LispError)
    ensures
        e@ == backend_fault(),
{
    LispError::Other(string_from("numeric backend gave no number"))
}

/// Folds `+`, `-` or `*` over `args[from..]`, starting from `acc`.
fn fold_args<F: Fn(NumQuery) -> NumReply>(f: &F, b: Builtin, init: Number, args: &[ValuePtr], from: usize, msg: &str) -> (r: Result<Number, LispError>)
    requires
        is_backend(*f),
        from <= args@.len(),
    ensures
        match r {
            Ok(n) => fold_numbers(*f, b, init, datums(args@).skip(from as int), msg@) == Ok::<Number, Fault>(n),
            Err(e) => fold_numbers(*f, b, init, datums(args@).skip(from as int), msg@) == Err::<Number, Fault>(e@),
        },
{
    let mut acc = init;
    let mut i = from;
    while i < args.len()
        invariant
            is_backend(*f),
            from <= i <= args@.len(),
            fold_numbers(*f, b, init, datums(args@).skip(from as int), msg@) == fold_numbers(*f, b, acc, datums(args@).skip(i as int), msg@),
        decreases args.len() - i,
    {
        let ghost rest = datums(args@).skip(i as int);
        assert(rest[0] == datum_of_ptr(args@[i as int]));
        assert(rest.skip(1) =~= datums(args@).skip(i + 1));
        match &*args[i] {
            Value::Numeric(x) => {
                let q = if b == Builtin::Add {
                    NumQuery::Add(acc, *x)
                } else if b == Builtin::Sub {
                    NumQuery::Sub(acc, *x)
                } else if b == Builtin::Div {
                    NumQuery::Div(acc, *x)
                } else {
                    NumQuery::Mul(acc, *x)
                };
                assert(q@ == fold_ask(b, acc, *x));
                assert(rest[0] == Datum::Numeric(*x));
                match ask_number(f, q) {
                    Some(n) => {
                        acc = n;
                    },
                    None => {
                        assert(fold_numbers(*f, b, acc, rest, msg@) == Err::<Number, Fault>(backend_fault()));
                        return Err(backend_error());
                    },
                }
            },
            _ => {
                assert(!(rest[0] is Numeric));
                assert(fold_numbers(*f, b, acc, rest, msg@) == Err::<Number, Fault>(Fault::RuntimeError(msg@)));
                return Err(LispError::RuntimeError(string_from(msg)));
            },
        }
        i += 1;
    }
    assert(datums(args@).skip(i as int) =~= Seq::<Datum>::empty());
    Ok(acc)
}

/// `(+ x ...)`
pub fn add<F: Fn(NumQuery) -> NumReply>(args: Vec<ValuePtr>, f: &F) -> (r: Result<ValuePtr, LispError>)
    requires
        is_backend(*f),
    ensures
        outcome(r) == add_spec(*f, datums(args@)),
{
    let zero = match ask_number(f, NumQuery::FromCount(0)) {
        Some(z) => z,
        None => return Err(backend_error()),
    };
    assert(datums(args@).skip(0) =~= datums(args@));
    let sum = fold_args(f, Builtin::Add, zero, args.as_slice(), 0, "Cannot add non-number")?;
    Ok(number_value(sum))
}

/// `(* x ...)`
pub fn mul<F: Fn(NumQuery) -> NumReply>(args: Vec<ValuePtr>, f: &F) -> (r: Result<ValuePtr, LispError>)
    requires
        is_backend(*f),
    ensures
        outcome(r) == mul_spec(*f, datums(args@)),
{
    let one = match ask_number(f, NumQuery::FromCount(1)) {
        Some(o) => o,
        None => return Err(backend_error()),
    };
    assert(datums(args@).skip(0) =~= datums(args@));
    let product = fold_args(f, Builtin::Mul, one, args.as_slice(), 0, "Cannot mul non-number")?;
    Ok(number_value(product))
}

/// `(- x ...)`
pub fn sub<F: Fn(NumQuery) -> NumReply>(args: Vec<ValuePtr>, f: &F) -> (r: Result<ValuePtr, LispError>)
    requires
        is_backend(*f),
    ensures
        outcome(r) == sub_spec(*f, datums(args@)),
{
    if args.len() == 0 {
        return Err(runtime_error("- requires at least 1 argument"));
    }
    let first = match &*args[0] {
        Value::Numeric(n) => *n,
        _ => return Err(runtime_error("Cannot sub non-number")),
    };
    if args.len() == 1 {
        return match ask_number(f, NumQuery::Neg(first)) {
            Some(n) => Ok(number_value(n)),
            None => Err(backend_error()),
        };
    }
    let result = fold_args(f, Builtin::Sub, first, args.as_slice(), 1, "Cannot sub non-number")?;
    Ok(number_value(result))
}

/// The name a built-in procedure is bound to, for its error messages.
fn name_of(b: Builtin) -> (s: &'static str)
    ensures
        s@ == builtin_name(b),
{
    match b {
        Builtin::Gt => ">",
        Builtin::Lt => "<",
        Builtin::Le => "<=",
        Builtin::Ge => ">=",
        Builtin::NumEq => "=",
        Builtin::Expt => "expt",
        Builtin::Quotient => "quotient",
        Builtin::Remainder => "remainder",
        Builtin::Modulo => "modulo",
        Builtin::ZeroPred => "zero?",
        Builtin::EvenPred => "even?",
        Builtin::OddPred => "odd?",
        _ => "abs",
    }
}

/// A runtime error whose message is `a` followed by `b`.
fn joined_error(a: &str, b: &str) -> (e: LispError)
    ensures
        e@ == Fault::RuntimeError(a@ + b@),
{
    let mut msg = string_from(a);
    push_str(&mut msg, b);
    LispError::RuntimeError(msg)
}

/// The two numbers a two-number procedure is called with.
fn two_numbers(b: Builtin, args: &Vec<ValuePtr>) -> (r: Result<(Number, Number), LispError>)
    ensures
        match r {
            Ok((l, x)) => datums(args@).len() == 2 && datums(args@)[0] == Datum::Numeric(l)
                && datums(args@)[1] == Datum::Numeric(x),
            Err(e) => if datums(args@).len() != 2 {
                e@ == Fault::RuntimeError(builtin_name(b) + " requires 2 arguments"@)
            } else {
                !(datums(args@)[0] is Numeric && datums(args@)[1] is Numeric)
                    && e@ == Fault::RuntimeError(builtin_name(b) + " expects numbers"@)
            },
        },
{
    if args.len() != 2 {
        return Err(joined_error(name_of(b), " requires 2 arguments"));
    }
    match (&*args[0], &*args[1]) {
        (Value::Numeric(l), Value::Numeric(x)) => Ok((*l, *x)),
        _ => Err(joined_error(name_of(b), " expects numbers")),
    }
}

/// `(> x y)`, `(< x y)`, `(<= x y)`, `(>= x y)` or `(= x y)`, as `b` says.
pub fn compare<F: Fn(NumQuery) -> NumReply>(b: Builtin, args: Vec<ValuePtr>, f: &F) -> (r: Result<ValuePtr, LispError>)
    requires
        is_backend(*f),
    ensures
        outcome(r) == compare_spec(*f, b, datums(args@)),
{
    let (l, x) = two_numbers(b, &args)?;
    let q = match b {
        Builtin::Lt => NumQuery::Less(l, x),
        Builtin::Le => NumQuery::LessEq(l, x),
        Builtin::Ge => NumQuery::GreaterEq(l, x),
        Builtin::NumEq => NumQuery::Equal(l, x),
        _ => NumQuery::Greater(l, x),
    };
    assert(q@ == compare_ask(b, l, x));
    Ok(bool_value(ask_truth(f, q)))
}

/// `(> x y)`
pub fn gt<F: Fn(NumQuery) -> NumReply>(args: Vec<ValuePtr>, f: &F) -> (r: Result<ValuePtr, LispError>)
    requires
        is_backend(*f),
    ensures
        outcome(r) == compare_spec(*f, Builtin::Gt, datums(args@)),
{
    compare(Builtin::Gt, args, f)
}

/// `(expt x y)`, `(quotient x y)`, `(remainder x y)` or `(modulo x y)`, as `b` says.
pub fn binary<F: Fn(NumQuery) -> NumReply>(b: Builtin, args: Vec<ValuePtr>, f: &F) -> (r: Result<ValuePtr, LispError>)
    requires
        is_backend(*f),
    ensures
        outcome(r) == binary_spec(*f, b, datums(args@)),
{
    let (l, x) = two_numbers(b, &args)?;
    let q = match b {
        Builtin::Quotient => NumQuery::Quotient(l, x),
        Builtin::Remainder => NumQuery::Remainder(l, x),
        Builtin::Modulo => NumQuery::Modulo(l, x),
        _ => NumQuery::Expt(l, x),
    };
    assert(q@ == binary_ask(b, l, x));
    match ask_number(f, q) {
        Some(n) => Ok(number_value(n)),
        None => Err(backend_error()),
    }
}

/// `(zero? x)`, `(even? x)` or `(odd? x)`, as `b` says.
pub fn number_test<F: Fn(NumQuery) -> NumReply>(b: Builtin, args: Vec<ValuePtr>, f: &F) -> (r: Result<ValuePtr, LispError>)
    requires
        is_backend(*f),
    ensures
        outcome(r) == test_spec(*f, b, datums(args@)),
{
    let value = expect_one_arg(name_of(b), args.as_slice())?;
    match &**value {
        Value::Numeric(n) => {
            let q = match b {
                Builtin::EvenPred => NumQuery::IsEven(*n),
                Builtin::OddPred => NumQuery::IsOdd(*n),
                _ => NumQuery::IsZero(*n),
            };
            assert(q@ == test_ask(b, *n));
            Ok(bool_value(ask_truth(f, q)))
        },
        _ => Err(joined_error(name_of(b), " expects a number")),
    }
}

/// `(abs x)`
pub fn abs<F: Fn(NumQuery) -> NumReply>(args: Vec<ValuePtr>, f: &F) -> (r: Result<ValuePtr, LispError>)
    requires
        is_backend(*f),
    ensures
        outcome(r) == abs_spec(*f, datums(args@)),
{
    let value = expect_one_arg("abs", args.as_slice())?;
    match &**value {
        Value::Numeric(n) => match ask_number(f, NumQuery::Abs(*n)) {
            Some(m) => Ok(number_value(m)),
            None => Err(backend_error()),
        },
        _ => Err(runtime_error("abs expects a number")),
    }
}

/// `(/ x ...)`
pub fn div<F: Fn(NumQuery) -> NumReply>(args: Vec<ValuePtr>, f: &F) -> (r: Result<ValuePtr, LispError>)
    requires
        is_backend(*f),
    ensures
        outcome(r) == div_spec(*f, datums(args@)),
{
    if args.len() == 0 {
        return Err(runtime_error("/ requires at least 1 argument"));
    }
    let first = match &*args[0] {
        Value::Numeric(n) => *n,
        _ => return Err(runtime_error("Cannot div non-number")),
    };
    if args.len() == 1 {
        let one = match ask_number(f, NumQuery::FromCount(1)) {
            Some(o) => o,
            None => return Err(backend_error()),
        };
        return match ask_number(f, NumQuery::Div(one, first)) {
            Some(n) => Ok(number_value(n)),
            None => Err(backend_error()),
        };
    }
    let result = fold_args(f, Builtin::Div, first, args.as_slice(), 1, "Cannot div non-number")?;
    Ok(number_value(result))
}

/// `(car p)`
pub fn car(args: Vec<ValuePtr>) -> (r: Result<ValuePtr, LispError>)
    ensures
        outcome(r) == car_spec(datums(args@)),
{
    if args.len() != 1 {
        return Err(runtime_error("car requires 1 argument"));
    }
    match &*args[0] {
        Value::Pair(a, _) => Ok(crate::value::share(a)),
        _ => Err(runtime_error("car expects a pair")),
    }
}

/// `(cons a b)`
pub fn cons(args: Vec<ValuePtr>) -> (r: Result<ValuePtr, LispError>)
    ensures
        outcome(r) == cons_spec(datums(args@)),
{
    if args.len() != 2 {
        return Err(runtime_error("cons requires 2 arguments"));
    }
    Ok(Rc::new(Value::Pair(crate::value::share(&args[0]), crate::value::share(&args[1]))))
}

/// `items[..n]` placed in front of `tail`.
pub(crate) fn prepend_ptrs(items: &Vec<ValuePtr>, n: usize, tail: ValuePtr) -> (r: ValuePtr)
    requires
        n <= items@.len(),
    ensures
        datum_of_ptr(r) == prepend_items(datums(items@).take(n as int), datum_of_ptr(tail)),
{
    let ghost whole = datums(items@).take(n as int);
    let mut result = tail;
    let mut k = n;
    assert(whole.skip(n as int) =~= Seq::<Datum>::empty());
    while k > 0
        invariant
            k <= n <= items@.len(),
            whole == datums(items@).take(n as int),
            datum_of_ptr(result) == prepend_items(whole.skip(k as int), datum_of_ptr(tail)),
        decreases k,
    {
        k -= 1;
        let ghost rest = whole.skip(k as int);
        assert(rest[0] == datum_of_ptr(items@[k as int]));
        assert(rest.skip(1) =~= whole.skip(k + 1));
        result = Rc::new(Value::Pair(crate::value::share(&items[k]), result));
    }
    assert(whole.skip(0) =~= whole);
    result
}

/// `(list x ...)`
pub fn list(args: Vec<ValuePtr>) -> (r: Result<ValuePtr, LispError>)
    ensures
        outcome(r) == Ok::<Datum, Fault>(make_list(datums(args@))),
{
    let r = prepend_ptrs(&args, args.len(), nil_value());
    proof {
        lemma_prepend_nil(datums(args@));
        assert(datums(args@).take(args@.len() as int) =~= datums(args@));
    }
    Ok(r)
}

proof fn lemma_prepend_nil(items: Seq<Datum>)
    ensures
        prepend_items(items, Datum::Nil) == make_list(items),
    decreases items.len(),
{
    if items.len() > 0 {
        lemma_prepend_nil(items.skip(1));
    }
}

/// `(not x)`
pub fn not_pred(args: Vec<ValuePtr>) -> (r: Result<ValuePtr, LispError>)
    ensures
        outcome(r) == predicate("not"@, datums(args@), is_false_datum(datums(args@)[0])),
{
    let value = expect_one_arg("not", args.as_slice())?;
    Ok(bool_value(value.is_false()))
}

/// `(eq? a b)`
pub fn eq_pred(args: Vec<ValuePtr>) -> (r: Result<ValuePtr, LispError>)
    ensures
        outcome(r) == eq_spec(datums(args@)),
{
    if args.len() != 2 {
        return Err(runtime_error("eq? requires 2 arguments"));
    }
    Ok(bool_value(args[0].identical(&*args[1])))
}

/// `(equal? a b)`
pub fn equal_pred<F: Fn(NumQuery) -> NumReply>(args: Vec<ValuePtr>, f: &F) -> (r: Result<ValuePtr, LispError>)
    requires
        is_backend(*f),
    ensures
        outcome(r) == equal_spec(*f, datums(args@)),
{
    if args.len() != 2 {
        return Err(runtime_error("equal? requires 2 arguments"));
    }
    Ok(bool_value(args[0].equals(&*args[1], f)))
}

/// `(append l ... x)`
pub fn append(args: Vec<ValuePtr>) -> (r: Result<ValuePtr, LispError>)
    ensures
        outcome(r) == append_spec(datums(args@)),
{
    let n = args.len();
    if n == 0 {
        return Ok(nil_value());
    }
    let ghost lists = datums(args@).drop_last();
    let mut items: Vec<ValuePtr> = Vec::new();
    let mut i: usize = 0;
    assert(lists.skip(0) =~= lists);
    while i < n - 1
        invariant
            n == args@.len(),
            n >= 1,
            i <= n - 1,
            lists == datums(args@).drop_last(),
            items_of_lists(lists) == match items_of_lists(lists.skip(i as int)) {
                Some(rest) => Some(datums(items@) + rest),
                None => None,
            },
        decreases n - 1 - i,
    {
        let ghost rest = lists.skip(i as int);
        let ghost before = datums(items@);
        assert(rest[0] == datum_of_ptr(args@[i as int]));
        assert(rest.skip(1) =~= lists.skip(i + 1));
        let part = match args[i].to_vec() {
            Ok(v) => v,
            Err(_) => return Err(runtime_error("append expects lists")),
        };
        let mut k: usize = 0;
        while k < part.len()
            invariant
                k <= part@.len(),
                datums(items@) == before + datums(part@).take(k as int),
            decreases part.len() - k,
        {
            let ghost prev = datums(items@);
            items.push(crate::value::share(&part[k]));
            assert(datums(items@) =~= prev.push(datum_of_ptr(part@[k as int])));
            assert(datums(part@).take(k + 1) =~= datums(part@).take(k as int).push(datum_of_ptr(part@[k as int])));
            assert(datums(items@) =~= before + datums(part@).take(k + 1));
            k += 1;
        }
        proof {
            assert(datums(part@).take(k as int) =~= datums(part@));
            match items_of_lists(lists.skip(i + 1)) {
                Some(more) => {
                    assert(before + (datums(part@) + more) =~= datums(items@) + more);
                },
                None => {},
            }
        }
        i += 1;
    }
    assert(lists.skip(i as int) =~= Seq::<Datum>::empty());
    assert(datums(items@) + Seq::<Datum>::empty() =~= datums(items@));
    let r = prepend_ptrs(&items, items.len(), crate::value::share(&args[n - 1]));
    assert(datums(items@).take(items@.len() as int) =~= datums(items@));
    Ok(r)
}

/// `(length l)`
pub fn length<F: Fn(NumQuery) -> NumReply>(args: Vec<ValuePtr>, f: &F) -> (r: Result<ValuePtr, LispError>)
    requires
        is_backend(*f),
    ensures
        outcome(r) == length_spec(*f, datums(args@)),
{
    if args.len() != 1 {
        return Err(runtime_error("length requires 1 argument"));
    }
    let items = args[0].to_vec()?;
    match ask_number(f, NumQuery::FromCount(items.len())) {
        Some(n) => Ok(number_value(n)),
        None => Err(backend_error()),
    }
}

/// `(cdr p)`
pub fn cdr(args: Vec<ValuePtr>) -> (r: Result<ValuePtr, LispError>)
    ensures
        outcome(r) == cdr_spec(datums(args@)),
{
    if args.len() != 1 {
        return Err(runtime_error("cdr requires 1 argument"));
    }
    match &*args[0] {
        Value::Pair(_, d) => Ok(crate::value::share(d)),
        _ => Err(runtime_error("cdr expects a pair")),
    }
}

/// The text that `display` writes for a value.
fn display_string<F: Fn(NumQuery) -> NumReply>(v: &Value, f: &F) -> (s: String)
    requires
        is_backend(*f),
    ensures
        s@ == display_text(*f, v@),
{
    match v {
        Value::String(s) => string_from(s.as_str()),
        _ => v.to_display_string(f),
    }
}

/// `(error)` or `(error msg)`
pub fn error_proc<F: Fn(NumQuery) -> NumReply>(args: Vec<ValuePtr>, f: &F) -> (r: Result<ValuePtr, LispError>)
    requires
        is_backend(*f),
    ensures
        outcome(r) == error_spec(*f, datums(args@)),
{
    if args.len() == 0 {
        return Err(runtime_error("error"));
    }
    if args.len() == 1 {
        return Err(LispError::RuntimeError(display_string(&*args[0], f)));
    }
    Err(runtime_error("error accepts at most 1 argument"))
}

/// `(exit)` or `(exit code)`
pub fn exit_proc<F: Fn(NumQuery) -> NumReply>(args: Vec<ValuePtr>, f: &F) -> (r: Result<ValuePtr, LispError>)
    requires
        is_backend(*f),
    ensures
        outcome(r) == exit_spec(*f, datums(args@)),
{
    if args.len() == 0 {
        return Err(LispError::Exit(0));
    }
    if args.len() == 1 {
        return match &*args[0] {
            Value::Numeric(n) => Err(LispError::Exit(ask_code(f, NumQuery::ExitCode(*n)))),
            _ => Err(runtime_error("exit expects a number")),
        };
    }
    Err(runtime_error("exit accepts at most 1 argument"))
}

/// `(display x)`
pub fn display_proc<F: Fn(NumQuery) -> NumReply>(args: Vec<ValuePtr>, f: &F, out: &mut Output) -> (r: Result<ValuePtr, LispError>)
    requires
        is_backend(*f),
    ensures
        args@.len() != 1 ==> outcome(r) == Err::<Datum, Fault>(Fault::RuntimeError("display requires 1 argument"@))
            && final(out)@ == old(out)@,
        args@.len() == 1 ==> outcome(r) == Ok::<Datum, Fault>(Datum::Nil)
            && final(out)@ == old(out)@ + display_text(*f, datums(args@)[0]),
{
    if args.len() != 1 {
        return Err(runtime_error("display requires 1 argument"));
    }
    let text = display_string(&*args[0], f);
    crate::output::write(out, text.as_str());
    Ok(nil_value())
}

/// `(displayln x)`
pub fn displayln_proc<F: Fn(NumQuery) -> NumReply>(args: Vec<ValuePtr>, f: &F, out: &mut Output) -> (r: Result<ValuePtr, LispError>)
    requires
        is_backend(*f),
    ensures
        args@.len() != 1 ==> outcome(r) == Err::<Datum, Fault>(Fault::RuntimeError("displayln requires 1 argument"@))
            && final(out)@ == old(out)@,
        args@.len() == 1 ==> outcome(r) == Ok::<Datum, Fault>(Datum::Nil)
            && final(out)@ == old(out)@ + display_text(*f, datums(args@)[0]) + seq!['\n'],
{
    if args.len() != 1 {
        return Err(runtime_error("displayln requires 1 argument"));
    }
    let text = display_string(&*args[0], f);
    crate::output::write(out, text.as_str());
    newline(out);
    Ok(nil_value())
}

/// `(newline)`
pub fn newline_proc(args: Vec<ValuePtr>, out: &mut Output) -> (r: Result<ValuePtr, LispError>)
    ensures
        args@.len() != 0 ==> outcome(r) == Err::<Datum, Fault>(Fault::RuntimeError("newline requires 0 arguments"@))
            && final(out)@ == old(out)@,
        args@.len() == 0 ==> outcome(r) == Ok::<Datum, Fault>(Datum::Nil) && final(out)@ == old(out)@ + seq!['\n'],
{
    if args.len() != 0 {
        return Err(runtime_error("newline requires 0 arguments"));
    }
    newline(out);
    Ok(nil_value())
}

/// `(print x ...)`
pub fn print_proc<F: Fn(NumQuery) -> NumReply>(args: Vec<ValuePtr>, f: &F, out: &mut Output) -> (r: Result<ValuePtr, LispError>)
    requires
        is_backend(*f),
    ensures
        outcome(r) == Ok::<Datum, Fault>(Datum::Nil),
        final(out)@ == old(out)@ + print_text(*f, datums(args@)),
{
    let ghost start = out@;
    let mut i: usize = 0;
    assert(datums(args@).skip(0) =~= datums(args@));
    while i < args.len()
        invariant
            is_backend(*f),
            i <= args@.len(),
            start + print_text(*f, datums(args@)) == out@ + print_text(*f, datums(args@).skip(i as int)),
        decreases args.len() - i,
    {
        let ghost before = out@;
        let ghost rest = datums(args@).skip(i as int);
        assert(rest[0] == datum_of_ptr(args@[i as int]));
        assert(rest.skip(1) =~= datums(args@).skip(i + 1));
        let text = args[i].to_display_string(f);
        crate::output::write(out, text.as_str());
        newline(out);
        assert(before + print_text(*f, rest) =~= out@ + print_text(*f, datums(args@).skip(i + 1)));
        i += 1;
    }
    assert(datums(args@).skip(i as int) =~= Seq::<Datum>::empty());
    assert(out@ + print_text(*f, Seq::<Datum>::empty()) =~= out@);
    Ok(nil_value())
}

/// `(apply proc list)`
pub fn apply_proc<F: Fn(NumQuery) -> NumReply>(args: Vec<ValuePtr>, env: &mut EvalEnv, k: usize, f: &F, out: &mut Output, fuel: usize) -> (r: Result<ValuePtr, LispError>)
    requires
        is_backend(*f),
    ensures
        (outcome(r), final(env)@, final(out)@) == builtin_spec(*f, fuel as nat, old(env)@, k as nat, old(out)@, Builtin::Apply, datums(args@)),
    decreases fuel, 2nat, 0nat,
{
    if args.len() != 2 {
        return Err(runtime_error("apply requires 2 arguments"));
    }
    let list_args = args[1].to_vec()?;
    if fuel == 0 {
        return Err(runtime_error("Maximum recursion depth exceeded"));
    }
    env.apply(k, crate::value::share(&args[0]), list_args, f, out, fuel - 1)
}

/// `(eval expr)`
pub fn eval_proc<F: Fn(NumQuery) -> NumReply>(args: Vec<ValuePtr>, env: &mut EvalEnv, k: usize, f: &F, out: &mut Output, fuel: usize) -> (r: Result<ValuePtr, LispError>)
    requires
        is_backend(*f),
    ensures
        (outcome(r), final(env)@, final(out)@) == builtin_spec(*f, fuel as nat, old(env)@, k as nat, old(out)@, Builtin::Eval, datums(args@)),
    decreases fuel, 2nat, 0nat,
{
    if args.len() != 1 {
        return Err(runtime_error("eval requires 1 argument"));
    }
    env.eval_in(k, crate::value::share(&args[0]), f, out, fuel)
}

/// The built-in procedures, bound to their names.
#[verifier::rlimit(50)]
pub fn builtin_map() -> (r: Vec<Binding>)
    ensures
        bindings_of(r@) == initial_bindings(),
{
    let mut map: Vec<Binding> = Vec::new();
    map.push(Binding { name: string_from("atom?"), value: Rc::new(Value::BuiltinProc(Builtin::AtomPred)) });
    map.push(Binding { name: string_from("boolean?"), value: Rc::new(Value::BuiltinProc(Builtin::BooleanPred)) });
    map.push(Binding { name: string_from("+"), value: Rc::new(Value::BuiltinProc(Builtin::Add)) });
    map.push(Binding { name: string_from("-"), value: Rc::new(Value::BuiltinProc(Builtin::Sub)) });
    map.push(Binding { name: string_from("*"), value: Rc::new(Value::BuiltinProc(Builtin::Mul)) });
    map.push(Binding { name: string_from(">"), value: Rc::new(Value::BuiltinProc(Builtin::Gt)) });
    map.push(Binding { name: string_from("length"), value: Rc::new(Value::BuiltinProc(Builtin::Length)) });
    map.push(Binding { name: string_from("cdr"), value: Rc::new(Value::BuiltinProc(Builtin::Cdr)) });
    map.push(Binding { name: string_from("apply"), value: Rc::new(Value::BuiltinProc(Builtin::Apply)) });
    map.push(Binding { name: string_from("display"), value: Rc::new(Value::BuiltinProc(Builtin::Display)) });
    map.push(Binding { name: string_from("displayln"), value: Rc::new(Value::BuiltinProc(Builtin::Displayln)) });
    map.push(Binding { name: string_from("error"), value: Rc::new(Value::BuiltinProc(Builtin::Error)) });
    map.push(Binding { name: string_from("eval"), value: Rc::new(Value::BuiltinProc(Builtin::Eval)) });
    map.push(Binding { name: string_from("exit"), value: Rc::new(Value::BuiltinProc(Builtin::Exit)) });
    map.push(Binding { name: string_from("integer?"), value: Rc::new(Value::BuiltinProc(Builtin::IntegerPred)) });
    map.push(Binding { name: string_from("list?"), value: Rc::new(Value::BuiltinProc(Builtin::ListPred)) });
    map.push(Binding { name: string_from("null?"), value: Rc::new(Value::BuiltinProc(Builtin::NullPred)) });
    map.push(Binding { name: string_from("newline"), value: Rc::new(Value::BuiltinProc(Builtin::Newline)) });
    map.push(Binding { name: string_from("number?"), value: Rc::new(Value::BuiltinProc(Builtin::NumberPred)) });
    map.push(Binding { name: string_from("pair?"), value: Rc::new(Value::BuiltinProc(Builtin::PairPred)) });
    map.push(Binding { name: string_from("print"), value: Rc::new(Value::BuiltinProc(Builtin::Print)) });
    map.push(Binding { name: string_from("procedure?"), value: Rc::new(Value::BuiltinProc(Builtin::ProcedurePred)) });
    map.push(Binding { name: string_from("string?"), value: Rc::new(Value::BuiltinProc(Builtin::StringPred)) });
    map.push(Binding { name: string_from("symbol?"), value: Rc::new(Value::BuiltinProc(Builtin::SymbolPred)) });
    map.push(Binding { name: string_from("car"), value: Rc::new(Value::BuiltinProc(Builtin::Car)) });
    map.push(Binding { name: string_from("cons"), value: Rc::new(Value::BuiltinProc(Builtin::Cons)) });
    map.push(Binding { name: string_from("list"), value: Rc::new(Value::BuiltinProc(Builtin::List)) });
    map.push(Binding { name: string_from("not"), value: Rc::new(Value::BuiltinProc(Builtin::Not)) });
    map.push(Binding { name: string_from("equal?"), value: Rc::new(Value::BuiltinProc(Builtin::EqualPred)) });
    map.push(Binding { name: string_from("append"), value: Rc::new(Value::BuiltinProc(Builtin::Append)) });
    map.push(Binding { name: string_from("abs"), value: Rc::new(Value::BuiltinProc(Builtin::Abs)) });
    map.push(Binding { name: string_from("expt"), value: Rc::new(Value::BuiltinProc(Builtin::Expt)) });
    map.push(Binding { name: string_from("quotient"), value: Rc::new(Value::BuiltinProc(Builtin::Quotient)) });
    map.push(Binding { name: string_from("remainder"), value: Rc::new(Value::BuiltinProc(Builtin::Remainder)) });
    map.push(Binding { name: string_from("modulo"), value: Rc::new(Value::BuiltinProc(Builtin::Modulo)) });
    map.push(Binding { name: string_from("/"), value: Rc::new(Value::BuiltinProc(Builtin::Div)) });
    map.push(Binding { name: string_from("="), value: Rc::new(Value::BuiltinProc(Builtin::NumEq)) });
    map.push(Binding { name: string_from("<"), value: Rc::new(Value::BuiltinProc(Builtin::Lt)) });
    map.push(Binding { name: string_from("<="), value: Rc::new(Value::BuiltinProc(Builtin::Le)) });
    map.push(Binding { name: string_from(">="), value: Rc::new(Value::BuiltinProc(Builtin::Ge)) });
    map.push(Binding { name: string_from("zero?"), value: Rc::new(Value::BuiltinProc(Builtin::ZeroPred)) });
    map.push(Binding { name: string_from("even?"), value: Rc::new(Value::BuiltinProc(Builtin::EvenPred)) });
    map.push(Binding { name: string_from("odd?"), value: Rc::new(Value::BuiltinProc(Builtin::OddPred)) });
    map.push(Binding { name: string_from("map"), value: Rc::new(Value::BuiltinProc(Builtin::MapProc)) });
    map.push(Binding { name: string_from("filter"), value: Rc::new(Value::BuiltinProc(Builtin::FilterProc)) });
    map.push(Binding { name: string_from("reduce"), value: Rc::new(Value::BuiltinProc(Builtin::ReduceProc)) });
    map.push(Binding { name: string_from("eq?"), value: Rc::new(Value::BuiltinProc(Builtin::EqPred)) });
    assert(bindings_of(map@) =~= initial_bindings());
    map
}

/// A vector holding the given values.
fn values_of(a: &ValuePtr, b: Option<&ValuePtr>) -> (v: Vec<ValuePtr>)
    ensures
        datums(v@) == match b {
            Some(b) => seq![datum_of_ptr(*a), datum_of_ptr(*b)],
            None => seq![datum_of_ptr(*a)],
        },
{
    let mut v: Vec<ValuePtr> = Vec::new();
    v.push(crate::value::share(a));
    if let Some(b) = b {
        v.push(crate::value::share(b));
    }
    assert(datums(v@) =~= match b {
        Some(b) => seq![datum_of_ptr(*a), datum_of_ptr(*b)],
        None => seq![datum_of_ptr(*a)],
    });
    v
}

/// `(map proc list)`
pub fn map_proc<F: Fn(NumQuery) -> NumReply>(args: Vec<ValuePtr>, env: &mut EvalEnv, k: usize, f: &F, out: &mut Output, fuel: usize) -> (r: Result<ValuePtr, LispError>)
    requires
        is_backend(*f),
    ensures
        (outcome(r), final(env)@, final(out)@) == builtin_spec(*f, fuel as nat, old(env)@, k as nat, old(out)@, Builtin::MapProc, datums(args@)),
    decreases fuel, 2nat, 0nat,
{
    if args.len() != 2 {
        return Err(runtime_error("map requires 2 arguments"));
    }
    let items = match args[1].to_vec() {
        Ok(v) => v,
        Err(_) => return Err(runtime_error("map expects a list")),
    };
    assert(datums(args@)[1] == datum_of_ptr(args@[1]));
    if fuel == 0 {
        return Err(runtime_error("Maximum recursion depth exceeded"));
    }
    let ghost p = datums(args@)[0];
    let ghost ds = datums(items@);
    let ghost env0 = env@;
    let ghost out0 = out@;
    let mut results: Vec<ValuePtr> = Vec::new();
    let mut i: usize = 0;
    assert(ds.skip(0) =~= ds);
    while i < items.len()
        invariant
            is_backend(*f),
            fuel > 0,
            i <= items@.len(),
            ds == datums(items@),
            p == datums(args@)[0],
            args@.len() == 2,
            list_items(datums(args@)[1]) == Some(ds),
            env0 == old(env)@,
            out0 == old(out)@,
            map_spec(*f, (fuel - 1) as nat, env0, k as nat, out0, p, ds)
                == prepend_values(datums(results@), map_spec(*f, (fuel - 1) as nat, env@, k as nat, out@, p, ds.skip(i as int))),
        decreases items.len() - i,
    {
        let ghost rest = ds.skip(i as int);
        let ghost before = datums(results@);
        assert(rest[0] == datum_of_ptr(items@[i as int]));
        assert(rest.skip(1) =~= ds.skip(i + 1));
        let one = values_of(&items[i], None);
        let ghost env_before = env@;
        let ghost out_before = out@;
        let v = match env.apply(k, crate::value::share(&args[0]), one, f, out, fuel - 1) {
            Ok(v) => v,
            Err(e) => {
                assert(map_spec(*f, (fuel - 1) as nat, env_before, k as nat, out_before, p, rest) == (Err::<Seq<Datum>, Fault>(e@), env@, out@));
                return Err(e);
            },
        };
        results.push(v);
        proof {
            assert(datums(results@) =~= before.push(datum_of_ptr(v)));
            let tail = map_spec(*f, (fuel - 1) as nat, env@, k as nat, out@, p, ds.skip(i + 1));
            match tail.0 {
                Ok(ws) => {
                    assert(before + (seq![datum_of_ptr(v)] + ws) =~= datums(results@) + ws);
                },
                Err(_) => {},
            }
        }
        i += 1;
    }
    assert(ds.skip(i as int) =~= Seq::<Datum>::empty());
    assert(datums(results@) + Seq::<Datum>::empty() =~= datums(results@));
    list(results)
}

/// `(filter pred list)`
pub fn filter_proc<F: Fn(NumQuery) -> NumReply>(args: Vec<ValuePtr>, env: &mut EvalEnv, k: usize, f: &F, out: &mut Output, fuel: usize) -> (r: Result<ValuePtr, LispError>)
    requires
        is_backend(*f),
    ensures
        (outcome(r), final(env)@, final(out)@) == builtin_spec(*f, fuel as nat, old(env)@, k as nat, old(out)@, Builtin::FilterProc, datums(args@)),
    decreases fuel, 2nat, 0nat,
{
    if args.len() != 2 {
        return Err(runtime_error("filter requires 2 arguments"));
    }
    let items = match args[1].to_vec() {
        Ok(v) => v,
        Err(_) => return Err(runtime_error("filter expects a list")),
    };
    assert(datums(args@)[1] == datum_of_ptr(args@[1]));
    if fuel == 0 {
        return Err(runtime_error("Maximum recursion depth exceeded"));
    }
    let ghost p = datums(args@)[0];
    let ghost ds = datums(items@);
    let ghost env0 = env@;
    let ghost out0 = out@;
    let mut kept: Vec<ValuePtr> = Vec::new();
    let mut i: usize = 0;
    assert(ds.skip(0) =~= ds);
    while i < items.len()
        invariant
            is_backend(*f),
            fuel > 0,
            i <= items@.len(),
            ds == datums(items@),
            p == datums(args@)[0],
            args@.len() == 2,
            list_items(datums(args@)[1]) == Some(ds),
            env0 == old(env)@,
            out0 == old(out)@,
            filter_spec(*f, (fuel - 1) as nat, env0, k as nat, out0, p, ds)
                == prepend_values(datums(kept@), filter_spec(*f, (fuel - 1) as nat, env@, k as nat, out@, p, ds.skip(i as int))),
        decreases items.len() - i,
    {
        let ghost rest = ds.skip(i as int);
        let ghost before = datums(kept@);
        assert(rest[0] == datum_of_ptr(items@[i as int]));
        assert(rest.skip(1) =~= ds.skip(i + 1));
        let one = values_of(&items[i], None);
        let ghost env_before = env@;
        let ghost out_before = out@;
        let v = match env.apply(k, crate::value::share(&args[0]), one, f, out, fuel - 1) {
            Ok(v) => v,
            Err(e) => {
                assert(filter_spec(*f, (fuel - 1) as nat, env_before, k as nat, out_before, p, rest) == (Err::<Seq<Datum>, Fault>(e@), env@, out@));
                return Err(e);
            },
        };
        if !v.is_false() {
            kept.push(crate::value::share(&items[i]));
            proof {
                assert(datums(kept@) =~= before.push(rest[0]));
                let tail = filter_spec(*f, (fuel - 1) as nat, env@, k as nat, out@, p, ds.skip(i + 1));
                match tail.0 {
                    Ok(ws) => {
                        assert(before + (seq![rest[0]] + ws) =~= datums(kept@) + ws);
                    },
                    Err(_) => {},
                }
            }
        }
        i += 1;
    }
    assert(ds.skip(i as int) =~= Seq::<Datum>::empty());
    assert(datums(kept@) + Seq::<Datum>::empty() =~= datums(kept@));
    list(kept)
}

/// `(reduce proc list)`
pub fn reduce_proc<F: Fn(NumQuery) -> NumReply>(args: Vec<ValuePtr>, env: &mut EvalEnv, k: usize, f: &F, out: &mut Output, fuel: usize) -> (r: Result<ValuePtr, LispError>)
    requires
        is_backend(*f),
    ensures
        (outcome(r), final(env)@, final(out)@) == builtin_spec(*f, fuel as nat, old(env)@, k as nat, old(out)@, Builtin::ReduceProc, datums(args@)),
    decreases fuel, 2nat, 0nat,
{
    if args.len() != 2 {
        return Err(runtime_error("reduce requires 2 arguments"));
    }
    let items = match args[1].to_vec() {
        Ok(v) => v,
        Err(_) => return Err(runtime_error("reduce expects a list")),
    };
    assert(datums(args@)[1] == datum_of_ptr(args@[1]));
    if items.len() == 0 {
        return Err(runtime_error("reduce requires a non-empty list"));
    }
    if fuel == 0 {
        return Err(runtime_error("Maximum recursion depth exceeded"));
    }
    let ghost p = datums(args@)[0];
    let ghost ds = datums(items@);
    let ghost env0 = env@;
    let ghost out0 = out@;
    let mut acc: ValuePtr = crate::value::share(&items[0]);
    let mut i: usize = 1;
    assert(ds[0] == datum_of_ptr(items@[0]));
    while i < items.len()
        invariant
            is_backend(*f),
            fuel > 0,
            1 <= i <= items@.len(),
            ds == datums(items@),
            p == datums(args@)[0],
            args@.len() == 2,
            list_items(datums(args@)[1]) == Some(ds),
            env0 == old(env)@,
            out0 == old(out)@,
            reduce_spec(*f, (fuel - 1) as nat, env0, k as nat, out0, p, ds[0], ds.skip(1))
                == reduce_spec(*f, (fuel - 1) as nat, env@, k as nat, out@, p, datum_of_ptr(acc), ds.skip(i as int)),
        decreases items.len() - i,
    {
        let ghost rest = ds.skip(i as int);
        assert(rest[0] == datum_of_ptr(items@[i as int]));
        assert(rest.skip(1) =~= ds.skip(i + 1));
        let two = values_of(&acc, Some(&items[i]));
        let ghost env_before = env@;
        let ghost out_before = out@;
        let ghost acc_before = datum_of_ptr(acc);
        acc = match env.apply(k, crate::value::share(&args[0]), two, f, out, fuel - 1) {
            Ok(v) => v,
            Err(e) => {
                assert(reduce_spec(*f, (fuel - 1) as nat, env_before, k as nat, out_before, p, acc_before, rest) == (Err::<Datum, Fault>(e@), env@, out@));
                return Err(e);
            },
        };
        i += 1;
    }
    assert(ds.skip(i as int) =~= Seq::<Datum>::empty());
    Ok(acc)
}

} // verus!
