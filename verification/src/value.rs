//! The values that Lisp programs compute with.
use vstd::prelude::*;
use std::rc::Rc;
use crate::error::{LispError, Fault};
use crate::numeric::{Number, NumQuery, NumReply, NumAsk, is_backend, answer_text, ask_text, answer_truth,
    ask_truth};
use crate::text::push_str;
use crate::token::{debug_quoted, push_quoted, plain_ascii};

verus! {

/// A shared pointer to a value.
pub type ValuePtr = Rc<Value>;

/// The procedures that the interpreter provides.
#[derive(Clone, Copy, Debug, PartialEq, Eq, Structural)]
pub enum Builtin {
    AtomPred,
    BooleanPred,
    Add,
    Sub,
    Mul,
    Gt,
    Length,
    Cdr,
    Apply,
    Display,
    Displayln,
    Error,
    Eval,
    Exit,
    IntegerPred,
    ListPred,
    NullPred,
    Newline,
    NumberPred,
    PairPred,
    Print,
    ProcedurePred,
    StringPred,
    SymbolPred,
    Car,
    Cons,
    List,
    Not,
    EqualPred,
    Append,
    Abs,
    Expt,
    Quotient,
    Remainder,
    Modulo,
    Div,
    NumEq,
    Lt,
    Le,
    Ge,
    ZeroPred,
    EvenPred,
    OddPred,
    MapProc,
    FilterProc,
    ReduceProc,
    EqPred,
}

/// A Lisp value.
#[derive(Clone, Debug)]
pub enum Value {
    Boolean(bool),
    Numeric(Number),
    String(String),
    Nil,
    Symbol(String),
    Pair(ValuePtr, ValuePtr),
    BuiltinProc(Builtin),
    /// A procedure made by `lambda`: its parameter names, the list of
    /// expressions of its body, and the scope it was made in (an index into
    /// the environment's scopes), which its body reads names from.
    LambdaProc { params: Vec<String>, body: ValuePtr, scope: usize },
}

/// The content of a [`Value`], with texts as characters.
pub enum Datum {
    Boolean(bool),
    Numeric(Number),
    Str(Seq<char>),
    Nil,
    Symbol(Seq<char>),
    Pair(Box<Datum>, Box<Datum>),
    Builtin(Builtin),
    Lambda(Seq<Seq<char>>, Box<Datum>, nat),
}

/// The texts of a sequence of strings.
pub open spec fn texts(ss: Seq<String>) -> Seq<Seq<char>> {
    ss.map_values(|s: String| s@)
}

/// The content of a value.
pub open spec fn datum_of(v: Value) -> Datum
    decreases v,
{
    match v {
        Value::Boolean(b) => Datum::Boolean(b),
        Value::Numeric(n) => Datum::Numeric(n),
        Value::String(s) => Datum::Str(s@),
        Value::Nil => Datum::Nil,
        Value::Symbol(s) => Datum::Symbol(s@),
        Value::Pair(a, b) => Datum::Pair(Box::new(datum_of(*a)), Box::new(datum_of(*b))),
        Value::BuiltinProc(p) => Datum::Builtin(p),
        Value::LambdaProc { params, body, scope } => Datum::Lambda(texts(params@), Box::new(datum_of(*body)), scope as nat),
    }
}

impl View for Value {
    type V = Datum;

    open spec fn view(&self) -> Datum {
        datum_of(*self)
    }
}

/// The contents of a sequence of values.
pub open spec fn datums(ps: Seq<ValuePtr>) -> Seq<Datum> {
    ps.map_values(|p: ValuePtr| datum_of(*p))
}

/// Makes another pointer to the same value by calling `Rc::clone`. Trusted,
/// not proved: the contract claims that the new pointer points to a value
/// equal to the one `p` points to, as `Rc::clone` shares the allocation and
/// copies nothing.
#[verifier::external_body]
pub fn share(p: &ValuePtr) -> (r: ValuePtr)
    ensures
        r == *p,
{
    Rc::clone(p)
}

/// The elements of a proper list, or `None` for anything that is not one.
pub open spec fn list_items(d: Datum) -> Option<Seq<Datum>>
    decreases d,
{
    match d {
        Datum::Nil => Some(Seq::empty()),
        Datum::Pair(a, b) => match list_items(*b) {
            Some(rest) => Some(seq![*a] + rest),
            None => None,
        },
        _ => None,
    }
}

/// The proper list of the given elements.
pub open spec fn make_list(items: Seq<Datum>) -> Datum
    decreases items.len(),
{
    if items.len() == 0 {
        Datum::Nil
    } else {
        Datum::Pair(Box::new(items[0]), Box::new(make_list(items.skip(1))))
    }
}

/// A proper list reads back as its elements.
pub proof fn lemma_list_items_make_list(items: Seq<Datum>)
    ensures
        list_items(make_list(items)) == Some(items),
    decreases items.len(),
{
    if items.len() > 0 {
        lemma_list_items_make_list(items.skip(1));
        assert(seq![items[0]] + items.skip(1) =~= items);
    }
}

/// Values that evaluate to themselves.
pub open spec fn self_evaluating(d: Datum) -> bool {
    d is Boolean || d is Numeric || d is Str || d is Builtin
}

/// Only `#f` is false; every other value counts as true.
pub open spec fn is_false_datum(d: Datum) -> bool {
    d == Datum::Boolean(false)
}

/// Whether a value is a procedure.
pub open spec fn is_procedure(d: Datum) -> bool {
    d is Builtin || d is Lambda
}

/// Whether a value is an atom: anything that is not a pair.
pub open spec fn is_atom(d: Datum) -> bool {
    !(d is Pair)
}

impl Value {
    pub fn is_self_evaluating(&self) -> (r: bool)
        ensures
            r == self_evaluating(self@),
    {
        match self {
            Value::Boolean(_) | Value::Numeric(_) | Value::String(_) | Value::BuiltinProc(_) => true,
            _ => false,
        }
    }

    pub fn is_nil(&self) -> (r: bool)
        ensures
            r == (self@ is Nil),
    {
        match self {
            Value::Nil => true,
            _ => false,
        }
    }

    pub fn is_builtin_proc(&self) -> (r: bool)
        ensures
            r == (self@ is Builtin),
    {
        match self {
            Value::BuiltinProc(_) => true,
            _ => false,
        }
    }

    pub fn is_number(&self) -> (r: bool)
        ensures
            r == (self@ is Numeric),
    {
        match self {
            Value::Numeric(_) => true,
            _ => false,
        }
    }

    pub fn is_false(&self) -> (r: bool)
        ensures
            r == is_false_datum(self@),
    {
        match self {
            Value::Boolean(b) => !*b,
            _ => false,
        }
    }

    pub fn is_true(&self) -> (r: bool)
        ensures
            r == !is_false_datum(self@),
    {
        !self.is_false()
    }

    /// The name of a symbol.
    pub fn as_symbol(&self) -> (r: Option<&str>)
        ensures
            match self@ {
                Datum::Symbol(s) => r is Some && r->0@ == s,
                _ => r is None,
            },
    {
        match self {
            Value::Symbol(s) => Some(s.as_str()),
            _ => None,
        }
    }

    /// The built-in procedure this value is.
    pub fn as_builtin_proc(&self) -> (r: Option<Builtin>)
        ensures
            match self@ {
                Datum::Builtin(p) => r == Some(p),
                _ => r is None,
            },
    {
        match self {
            Value::BuiltinProc(p) => Some(*p),
            _ => None,
        }
    }

    /// The number this value is.
    pub fn as_number(&self) -> (r: Option<Number>)
        ensures
            match self@ {
                Datum::Numeric(n) => r == Some(n),
                _ => r is None,
            },
    {
        match self {
            Value::Numeric(n) => Some(*n),
            _ => None,
        }
    }

    /// The elements of a proper list; any other value is a malformed list.
    pub fn to_vec(&self) -> (r: Result<Vec<ValuePtr>, LispError>)
        ensures
            match list_items(self@) {
                Some(items) => r is Ok && datums(r->Ok_0@) == items,
                None => r is Err && r->Err_0@ == Fault::RuntimeError("Malformed list."@),
            },
    {
        let mut items: Vec<ValuePtr> = Vec::new();
        let mut current: &Value = self;
        loop
            invariant
                list_items(self@) == match list_items(current@) {
                    Some(rest) => Some(datums(items@) + rest),
                    None => None,
                },
            decreases *current,
        {
            match current {
                Value::Nil => {
                    assert(datums(items@) + Seq::<Datum>::empty() =~= datums(items@));
                    return Ok(items);
                },
                Value::Pair(car, cdr) => {
                    let ghost before = datums(items@);
                    items.push(share(car));
                    proof {
                        assert(datums(items@) =~= before.push(car@));
                        match list_items(cdr@) {
                            Some(rest) => {
                                assert(before + (seq![car@] + rest) =~= datums(items@) + rest);
                            },
                            None => {},
                        }
                    }
                    current = &**cdr;
                },
                _ => {
                    return Err(crate::error::runtime_error("Malformed list."));
                },
            }
        }
    }
}

/// Whether a value is a proper list.
pub fn is_list_value(value: &Value) -> (r: bool)
    ensures
        r == (list_items(value@) is Some),
{
    let mut current: &Value = value;
    loop
        invariant
            (list_items(value@) is Some) == (list_items(current@) is Some),
        decreases *current,
    {
        match current {
            Value::Nil => return true,
            Value::Pair(_, cdr) => {
                current = &**cdr;
            },
            _ => return false,
        }
    }
}

/// How a value is displayed: `#t`, `#f`, numbers as the backend writes them,
/// strings as `{:?}` writes them, `()`, symbols by name, lists in parentheses
/// with a dotted tail when improper, and procedures as `#<procedure>`.
pub open spec fn show<F: Fn(NumQuery) -> NumReply>(f: F, d: Datum) -> Seq<char>
    decreases d, 0nat,
{
    match d {
        Datum::Boolean(b) => if b { "#t"@ } else { "#f"@ },
        Datum::Numeric(n) => answer_text(f, NumAsk::Show(n)),
        Datum::Str(s) => debug_quoted(s),
        Datum::Nil => "()"@,
        Datum::Symbol(s) => s,
        Datum::Pair(a, b) => "("@ + show(f, *a) + show_tail(f, *b),
        Datum::Builtin(_) => "#<procedure>"@,
        Datum::Lambda(_, _, _) => "#<procedure>"@,
    }
}

/// How the rest of a list is displayed after its first element.
pub open spec fn show_tail<F: Fn(NumQuery) -> NumReply>(f: F, d: Datum) -> Seq<char>
    decreases d, 1nat,
{
    match d {
        Datum::Nil => ")"@,
        Datum::Pair(a, b) => " "@ + show(f, *a) + show_tail(f, *b),
        _ => " . "@ + show(f, d) + ")"@,
    }
}

/// Appends the displayed form of `v` to `s`.
pub fn push_display<F: Fn(NumQuery) -> NumReply>(s: &mut String, v: &Value, f: &F)
    requires
        is_backend(*f),
    ensures
        final(s)@ == old(s)@ + show(*f, v@),
    decreases *v,
{
    let ghost start = s@;
    match v {
        Value::Boolean(b) => {
            if *b {
                push_str(s, "#t");
            } else {
                push_str(s, "#f");
            }
        },
        Value::Numeric(n) => {
            let t = ask_text(f, NumQuery::Show(*n));
            push_str(s, t.as_str());
        },
        Value::String(text) => {
            push_quoted(s, text.as_str());
        },
        Value::Nil => {
            push_str(s, "()");
        },
        Value::Symbol(name) => {
            push_str(s, name.as_str());
        },
        Value::BuiltinProc(_) => {
            push_str(s, "#<procedure>");
        },
        Value::LambdaProc { .. } => {
            push_str(s, "#<procedure>");
        },
        Value::Pair(car, cdr) => {
            push_str(s, "(");
            push_display(s, &**car, f);
            let mut tail: &Value = &**cdr;
            loop
                invariant
                    is_backend(*f),
                    start + show(*f, v@) == s@ + show_tail(*f, tail@),
                    decreases_to!(*v => *tail),
                    start == old(s)@,
                decreases *tail,
            {
                match tail {
                    Value::Nil => {
                        let ghost before = s@;
                        push_str(s, ")");
                        assert(show_tail(*f, tail@) == ")"@);
                        assert(before + show_tail(*f, tail@) == s@);
                        return;
                    },
                    Value::Pair(a, b) => {
                        let ghost before = s@;
                        push_str(s, " ");
                        push_display(s, &**a, f);
                        assert(before + show_tail(*f, tail@) =~= s@ + show_tail(*f, b@));
                        tail = &**b;
                    },
                    _ => {
                        let ghost before = s@;
                        push_str(s, " . ");
                        push_display(s, tail, f);
                        push_str(s, ")");
                        assert(before + show_tail(*f, tail@) =~= s@);
                        return;
                    },
                }
            }
        },
    }
}

impl Value {
    /// The displayed form of this value.
    pub fn to_display_string<F: Fn(NumQuery) -> NumReply>(&self, f: &F) -> (s: String)
        requires
            is_backend(*f),
        ensures
            s@ == show(*f, self@),
            self@ is Str && plain_ascii(self@->Str_0) ==> s@ == seq!['"'] + self@->Str_0 + seq!['"'],
    {
        let mut s = String::new();
        if let Value::String(text) = self {
            push_quoted(&mut s, text.as_str());
            assert(s@ =~= show(*f, self@));
            return s;
        }
        push_display(&mut s, self, f);
        s
    }
}


/// When two values are equal: booleans, strings, symbols and built-in
/// procedures when they are the same, numbers when the backend finds them
/// equal, `()` with `()`, and pairs part by part. Procedures made by `lambda`
/// equal nothing, and values of different kinds are never equal.
pub open spec fn same_value<F: Fn(NumQuery) -> NumReply>(f: F, a: Datum, b: Datum) -> bool
    decreases a,
{
    match (a, b) {
        (Datum::Boolean(x), Datum::Boolean(y)) => x == y,
        (Datum::Numeric(x), Datum::Numeric(y)) => answer_truth(f, NumAsk::Equal(x, y)),
        (Datum::Str(x), Datum::Str(y)) => x == y,
        (Datum::Nil, Datum::Nil) => true,
        (Datum::Symbol(x), Datum::Symbol(y)) => x == y,
        (Datum::Pair(a1, d1), Datum::Pair(a2, d2)) => same_value(f, *a1, *a2) && same_value(f, *d1, *d2),
        (Datum::Builtin(x), Datum::Builtin(y)) => x == y,
        _ => false,
    }
}

impl Value {
    /// Whether `self` and `other` are equal values.
    pub fn equals<F: Fn(NumQuery) -> NumReply>(&self, other: &Value, f: &F) -> (r: bool)
        requires
            is_backend(*f),
        ensures
            r == same_value(*f, self@, other@),
        decreases self,
    {
        match (self, other) {
            (Value::Boolean(x), Value::Boolean(y)) => *x == *y,
            (Value::Numeric(x), Value::Numeric(y)) => ask_truth(f, NumQuery::Equal(*x, *y)),
            (Value::String(x), Value::String(y)) => crate::text::str_equals(x.as_str(), y.as_str()),
            (Value::Nil, Value::Nil) => true,
            (Value::Symbol(x), Value::Symbol(y)) => crate::text::str_equals(x.as_str(), y.as_str()),
            (Value::Pair(a1, d1), Value::Pair(a2, d2)) => {
                (**a1).equals(&**a2, f) && (**d1).equals(&**d2, f)
            },
            (Value::BuiltinProc(x), Value::BuiltinProc(y)) => *x == *y,
            _ => false,
        }
    }
}


/// Whether two lists of names are the same.
fn names_equal(a: &Vec<String>, b: &Vec<String>) -> (r: bool)
    ensures
        r == (texts(a@) == texts(b@)),
{
    if a.len() != b.len() {
        assert(texts(a@).len() != texts(b@).len());
        return false;
    }
    let mut i: usize = 0;
    while i < a.len()
        invariant
            a@.len() == b@.len(),
            i <= a@.len(),
            forall|j: int| 0 <= j < i ==> texts(a@)[j] == texts(b@)[j],
        decreases a.len() - i,
    {
        if !crate::text::str_equals(a[i].as_str(), b[i].as_str()) {
            assert(texts(a@)[i as int] != texts(b@)[i as int]);
            return false;
        }
        i += 1;
    }
    assert(texts(a@) =~= texts(b@));
    true
}

impl Value {
    /// Whether `self` and `other` are the same value: the same content
    /// throughout, numbers with the same bit pattern, and procedures made by
    /// `lambda` with the same parameters, body and scope.
    pub fn identical(&self, other: &Value) -> (r: bool)
        ensures
            r == (self@ == other@),
        decreases self,
    {
        match (self, other) {
            (Value::Boolean(x), Value::Boolean(y)) => *x == *y,
            (Value::Numeric(x), Value::Numeric(y)) => x.bits == y.bits,
            (Value::String(x), Value::String(y)) => crate::text::str_equals(x.as_str(), y.as_str()),
            (Value::Nil, Value::Nil) => true,
            (Value::Symbol(x), Value::Symbol(y)) => crate::text::str_equals(x.as_str(), y.as_str()),
            (Value::Pair(a1, d1), Value::Pair(a2, d2)) => {
                (**a1).identical(&**a2) && (**d1).identical(&**d2)
            },
            (Value::BuiltinProc(x), Value::BuiltinProc(y)) => *x == *y,
            (Value::LambdaProc { params: p1, body: b1, scope: s1 }, Value::LambdaProc { params: p2, body: b2, scope: s2 }) => {
                *s1 == *s2 && names_equal(p1, p2) && (**b1).identical(&**b2)
            },
            _ => false,
        }
    }
}

} // verus!
