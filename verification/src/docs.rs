//! The reference of special forms and built-in procedures that the editor
//! shows beside the code.
use vstd::prelude::*;
use crate::text::string_from;
use crate::editor::{builtin_word, special_form_word};
use crate::eval_env::initial_bindings;

verus! {

/// Entries of the reference as texts: a name and what it does.
pub open spec fn entry_texts(v: Seq<(String, String)>) -> Seq<(Seq<char>, Seq<char>)> {
    v.map_values(|e: (String, String)| (e.0@, e.1@))
}

/// The special forms the reference describes, in the order it lists them.
pub open spec fn special_form_docs() -> Seq<(Seq<char>, Seq<char>)> {
    seq![
        ("begin"@, "Evaluate expressions in sequence, return last value."@),
        ("cond"@, "Conditional: each clause is (test expr...), else clause optional."@),
        ("define"@, "Define variable or function: (define name value) or (define (func params) body)."@),
        ("lambda"@, "Create anonymous function: (lambda (params) body)."@),
        ("let"@, "Local bindings: (let ((var expr) ...) body ...)."@),
        ("quasiquote"@, "Quasiquote with unquote splicing."@),
        ("quote"@, "Return expression unevaluated."@),
        ("if"@, "Conditional: (if test then else)."@),
        ("and"@, "Logical AND, short-circuit."@),
        ("or"@, "Logical OR, short-circuit."@),
    ]
}

/// The built-in procedures the reference describes, in the order it lists them.
pub open spec fn builtin_docs() -> Seq<(Seq<char>, Seq<char>)> {
    seq![
        ("append"@, "list ... - Concatenate lists."@),
        ("abs"@, "number - Absolute value."@),
        ("apply"@, "proc list - Apply procedure to list of arguments."@),
        ("atom?"@, "obj - Check if object is atom (not pair)."@),
        ("boolean?"@, "obj - Check if boolean."@),
        ("car"@, "pair - Return first element of pair."@),
        ("cdr"@, "pair - Return rest of pair."@),
        ("cons"@, "obj1 obj2 - Construct pair."@),
        ("display"@, "obj - Print object (string without quotes)."@),
        ("displayln"@, "obj - Print object with newline."@),
        ("eq?"@, "obj1 obj2 - Compare by identity (pointer)."@),
        ("equal?"@, "obj1 obj2 - Structural equality."@),
        ("error"@, "message - Signal error."@),
        ("even?"@, "number - Check if even integer."@),
        ("eval"@, "expr - Evaluate expression in current environment."@),
        ("expt"@, "base exp - Exponentiation."@),
        ("exit"@, "code - Exit interpreter with code."@),
        ("filter"@, "pred list - Return list of elements satisfying pred."@),
        ("integer?"@, "obj - Check if integer."@),
        ("length"@, "list - Return length of list."@),
        ("list"@, "obj ... - Create list."@),
        ("list?"@, "obj - Check if proper list."@),
        ("map"@, "proc list - Apply proc to each element and return list."@),
        ("newline"@, " - Print newline."@),
        ("not"@, "obj - Logical NOT."@),
        ("null?"@, "obj - Check if empty list."@),
        ("number?"@, "obj - Check if number."@),
        ("odd?"@, "number - Check if odd integer."@),
        ("pair?"@, "obj - Check if pair."@),
        ("print"@, "obj ... - Print objects with newline."@),
        ("procedure?"@, "obj - Check if procedure."@),
        ("quotient"@, "dividend divisor - Integer division (truncate toward zero)."@),
        ("reduce"@, "proc list - Reduce list using binary proc."@),
        ("remainder"@, "dividend divisor - Remainder of division."@),
        ("string?"@, "obj - Check if string."@),
        ("symbol?"@, "obj - Check if symbol."@),
        ("zero?"@, "number - Check if zero."@),
        ("+"@, "num ... - Sum numbers."@),
        ("-"@, "num ... - Subtract numbers (unary negate or binary)."@),
        ("*"@, "num ... - Multiply numbers."@),
        ("/"@, "num divisor or numerator denominator - Division."@),
        ("="@, "num1 num2 - Numeric equality."@),
        ("<"@, "num1 num2 - Less than."@),
        ("<="@, "num1 num2 - Less or equal."@),
        ("modulo"@, "dividend divisor - Modulo (result has same sign as divisor)."@),
        (">"@, "num1 num2 - Greater than."@),
        (">="@, "num1 num2 - Greater or equal."@),
    ]
}

fn entry(name: &str, desc: &str) -> (e: (String, String))
    ensures
        e.0@ == name@,
        e.1@ == desc@,
{
    (string_from(name), string_from(desc))
}

/// The reference entries: the special forms, then the built-in procedures,
/// each a name with a one-line description.
pub fn generate_documentation() -> (r: (Vec<(String, String)>, Vec<(String, String)>))
    ensures
        entry_texts(r.0@) == special_form_docs(),
        entry_texts(r.1@) == builtin_docs(),
{
    let mut special_forms: Vec<(String, String)> = Vec::new();
    special_forms.push(entry("begin", "Evaluate expressions in sequence, return last value."));
    special_forms.push(entry("cond", "Conditional: each clause is (test expr...), else clause optional."));
    special_forms.push(entry("define", "Define variable or function: (define name value) or (define (func params) body)."));
    special_forms.push(entry("lambda", "Create anonymous function: (lambda (params) body)."));
    special_forms.push(entry("let", "Local bindings: (let ((var expr) ...) body ...)."));
    special_forms.push(entry("quasiquote", "Quasiquote with unquote splicing."));
    special_forms.push(entry("quote", "Return expression unevaluated."));
    special_forms.push(entry("if", "Conditional: (if test then else)."));
    special_forms.push(entry("and", "Logical AND, short-circuit."));
    special_forms.push(entry("or", "Logical OR, short-circuit."));
    let mut builtins: Vec<(String, String)> = Vec::new();
    builtins.push(entry("append", "list ... - Concatenate lists."));
    builtins.push(entry("abs", "number - Absolute value."));
    builtins.push(entry("apply", "proc list - Apply procedure to list of arguments."));
    builtins.push(entry("atom?", "obj - Check if object is atom (not pair)."));
    builtins.push(entry("boolean?", "obj - Check if boolean."));
    builtins.push(entry("car", "pair - Return first element of pair."));
    builtins.push(entry("cdr", "pair - Return rest of pair."));
    builtins.push(entry("cons", "obj1 obj2 - Construct pair."));
    builtins.push(entry("display", "obj - Print object (string without quotes)."));
    builtins.push(entry("displayln", "obj - Print object with newline."));
    builtins.push(entry("eq?", "obj1 obj2 - Compare by identity (pointer)."));
    builtins.push(entry("equal?", "obj1 obj2 - Structural equality."));
    builtins.push(entry("error", "message - Signal error."));
    builtins.push(entry("even?", "number - Check if even integer."));
    builtins.push(entry("eval", "expr - Evaluate expression in current environment."));
    builtins.push(entry("expt", "base exp - Exponentiation."));
    builtins.push(entry("exit", "code - Exit interpreter with code."));
    builtins.push(entry("filter", "pred list - Return list of elements satisfying pred."));
    builtins.push(entry("integer?", "obj - Check if integer."));
    builtins.push(entry("length", "list - Return length of list."));
    builtins.push(entry("list", "obj ... - Create list."));
    builtins.push(entry("list?", "obj - Check if proper list."));
    builtins.push(entry("map", "proc list - Apply proc to each element and return list."));
    builtins.push(entry("newline", " - Print newline."));
    builtins.push(entry("not", "obj - Logical NOT."));
    builtins.push(entry("null?", "obj - Check if empty list."));
    builtins.push(entry("number?", "obj - Check if number."));
    builtins.push(entry("odd?", "number - Check if odd integer."));
    builtins.push(entry("pair?", "obj - Check if pair."));
    builtins.push(entry("print", "obj ... - Print objects with newline."));
    builtins.push(entry("procedure?", "obj - Check if procedure."));
    builtins.push(entry("quotient", "dividend divisor - Integer division (truncate toward zero)."));
    builtins.push(entry("reduce", "proc list - Reduce list using binary proc."));
    builtins.push(entry("remainder", "dividend divisor - Remainder of division."));
    builtins.push(entry("string?", "obj - Check if string."));
    builtins.push(entry("symbol?", "obj - Check if symbol."));
    builtins.push(entry("zero?", "number - Check if zero."));
    builtins.push(entry("+", "num ... - Sum numbers."));
    builtins.push(entry("-", "num ... - Subtract numbers (unary negate or binary)."));
    builtins.push(entry("*", "num ... - Multiply numbers."));
    builtins.push(entry("/", "num divisor or numerator denominator - Division."));
    builtins.push(entry("=", "num1 num2 - Numeric equality."));
    builtins.push(entry("<", "num1 num2 - Less than."));
    builtins.push(entry("<=", "num1 num2 - Less or equal."));
    builtins.push(entry("modulo", "dividend divisor - Modulo (result has same sign as divisor)."));
    builtins.push(entry(">", "num1 num2 - Greater than."));
    builtins.push(entry(">=", "num1 num2 - Greater or equal."));
    assert(entry_texts(special_forms@) =~= special_form_docs());
    assert(entry_texts(builtins@) =~= builtin_docs());
    (special_forms, builtins)
}

/// The names of the built-in procedures the reference lists.
pub open spec fn builtin_doc_names() -> Seq<Seq<char>> {
    builtin_docs().map_values(|e: (Seq<char>, Seq<char>)| e.0)
}

/// The reference agrees with the highlighter: every special form it lists is
/// highlighted as one, and the built-in procedures it lists are exactly the
/// words highlighted as built-ins, each listed once.
pub proof fn law_reference_matches_highlighter()
    ensures
        forall|i: int| 0 <= i < special_form_docs().len() ==> special_form_word(#[trigger] special_form_docs()[i].0),
        forall|t: Seq<char>| builtin_word(t) <==> #[trigger] builtin_doc_names().contains(t),
        builtin_doc_names().no_duplicates(),
{
    let names = builtin_doc_names();
    assert(names.len() == 47);
    assert(special_form_docs()[0].0 == "begin"@);
    assert(special_form_docs()[1].0 == "cond"@);
    assert(special_form_docs()[2].0 == "define"@);
    assert(special_form_docs()[3].0 == "lambda"@);
    assert(special_form_docs()[4].0 == "let"@);
    assert(special_form_docs()[5].0 == "quasiquote"@);
    assert(special_form_docs()[6].0 == "quote"@);
    assert(special_form_docs()[7].0 == "if"@);
    assert(special_form_docs()[8].0 == "and"@);
    assert(special_form_docs()[9].0 == "or"@);
    assert forall|t: Seq<char>| builtin_word(t) implies #[trigger] names.contains(t) by {
        if t == "append"@ { assert(names[0] == t); }
        if t == "abs"@ { assert(names[1] == t); }
        if t == "apply"@ { assert(names[2] == t); }
        if t == "atom?"@ { assert(names[3] == t); }
        if t == "boolean?"@ { assert(names[4] == t); }
        if t == "car"@ { assert(names[5] == t); }
        if t == "cdr"@ { assert(names[6] == t); }
        if t == "cons"@ { assert(names[7] == t); }
        if t == "display"@ { assert(names[8] == t); }
        if t == "displayln"@ { assert(names[9] == t); }
        if t == "eq?"@ { assert(names[10] == t); }
        if t == "equal?"@ { assert(names[11] == t); }
        if t == "error"@ { assert(names[12] == t); }
        if t == "even?"@ { assert(names[13] == t); }
        if t == "eval"@ { assert(names[14] == t); }
        if t == "expt"@ { assert(names[15] == t); }
        if t == "exit"@ { assert(names[16] == t); }
        if t == "filter"@ { assert(names[17] == t); }
        if t == "integer?"@ { assert(names[18] == t); }
        if t == "length"@ { assert(names[19] == t); }
        if t == "list"@ { assert(names[20] == t); }
        if t == "list?"@ { assert(names[21] == t); }
        if t == "map"@ { assert(names[22] == t); }
        if t == "newline"@ { assert(names[23] == t); }
        if t == "not"@ { assert(names[24] == t); }
        if t == "null?"@ { assert(names[25] == t); }
        if t == "number?"@ { assert(names[26] == t); }
        if t == "odd?"@ { assert(names[27] == t); }
        if t == "pair?"@ { assert(names[28] == t); }
        if t == "print"@ { assert(names[29] == t); }
        if t == "procedure?"@ { assert(names[30] == t); }
        if t == "quotient"@ { assert(names[31] == t); }
        if t == "reduce"@ { assert(names[32] == t); }
        if t == "remainder"@ { assert(names[33] == t); }
        if t == "string?"@ { assert(names[34] == t); }
        if t == "symbol?"@ { assert(names[35] == t); }
        if t == "zero?"@ { assert(names[36] == t); }
        if t == "+"@ { assert(names[37] == t); }
        if t == "-"@ { assert(names[38] == t); }
        if t == "*"@ { assert(names[39] == t); }
        if t == "/"@ { assert(names[40] == t); }
        if t == "="@ { assert(names[41] == t); }
        if t == "<"@ { assert(names[42] == t); }
        if t == "<="@ { assert(names[43] == t); }
        if t == "modulo"@ { assert(names[44] == t); }
        if t == ">"@ { assert(names[45] == t); }
        if t == ">="@ { assert(names[46] == t); }
    }
    assert forall|t: Seq<char>| #[trigger] names.contains(t) implies builtin_word(t) by {
        let i = choose|i: int| 0 <= i < names.len() && names[i] == t;
        if i == 0 { assert(names[0] == "append"@); }
        if i == 1 { assert(names[1] == "abs"@); }
        if i == 2 { assert(names[2] == "apply"@); }
        if i == 3 { assert(names[3] == "atom?"@); }
        if i == 4 { assert(names[4] == "boolean?"@); }
        if i == 5 { assert(names[5] == "car"@); }
        if i == 6 { assert(names[6] == "cdr"@); }
        if i == 7 { assert(names[7] == "cons"@); }
        if i == 8 { assert(names[8] == "display"@); }
        if i == 9 { assert(names[9] == "displayln"@); }
        if i == 10 { assert(names[10] == "eq?"@); }
        if i == 11 { assert(names[11] == "equal?"@); }
        if i == 12 { assert(names[12] == "error"@); }
        if i == 13 { assert(names[13] == "even?"@); }
        if i == 14 { assert(names[14] == "eval"@); }
        if i == 15 { assert(names[15] == "expt"@); }
        if i == 16 { assert(names[16] == "exit"@); }
        if i == 17 { assert(names[17] == "filter"@); }
        if i == 18 { assert(names[18] == "integer?"@); }
        if i == 19 { assert(names[19] == "length"@); }
        if i == 20 { assert(names[20] == "list"@); }
        if i == 21 { assert(names[21] == "list?"@); }
        if i == 22 { assert(names[22] == "map"@); }
        if i == 23 { assert(names[23] == "newline"@); }
        if i == 24 { assert(names[24] == "not"@); }
        if i == 25 { assert(names[25] == "null?"@); }
        if i == 26 { assert(names[26] == "number?"@); }
        if i == 27 { assert(names[27] == "odd?"@); }
        if i == 28 { assert(names[28] == "pair?"@); }
        if i == 29 { assert(names[29] == "print"@); }
        if i == 30 { assert(names[30] == "procedure?"@); }
        if i == 31 { assert(names[31] == "quotient"@); }
        if i == 32 { assert(names[32] == "reduce"@); }
        if i == 33 { assert(names[33] == "remainder"@); }
        if i == 34 { assert(names[34] == "string?"@); }
        if i == 35 { assert(names[35] == "symbol?"@); }
        if i == 36 { assert(names[36] == "zero?"@); }
        if i == 37 { assert(names[37] == "+"@); }
        if i == 38 { assert(names[38] == "-"@); }
        if i == 39 { assert(names[39] == "*"@); }
        if i == 40 { assert(names[40] == "/"@); }
        if i == 41 { assert(names[41] == "="@); }
        if i == 42 { assert(names[42] == "<"@); }
        if i == 43 { assert(names[43] == "<="@); }
        if i == 44 { assert(names[44] == "modulo"@); }
        if i == 45 { assert(names[45] == ">"@); }
        if i == 46 { assert(names[46] == ">="@); }
    }
    lemma_names_distinct();
}

/// The place of a name in the list of built-in procedures of the reference.
spec fn doc_position(t: Seq<char>) -> int {
    if t == "append"@ {
        0
    } else if t == "abs"@ {
        1
    } else if t == "apply"@ {
        2
    } else if t == "atom?"@ {
        3
    } else if t == "boolean?"@ {
        4
    } else if t == "car"@ {
        5
    } else if t == "cdr"@ {
        6
    } else if t == "cons"@ {
        7
    } else if t == "display"@ {
        8
    } else if t == "displayln"@ {
        9
    } else if t == "eq?"@ {
        10
    } else if t == "equal?"@ {
        11
    } else if t == "error"@ {
        12
    } else if t == "even?"@ {
        13
    } else if t == "eval"@ {
        14
    } else if t == "expt"@ {
        15
    } else if t == "exit"@ {
        16
    } else if t == "filter"@ {
        17
    } else if t == "integer?"@ {
        18
    } else if t == "length"@ {
        19
    } else if t == "list"@ {
        20
    } else if t == "list?"@ {
        21
    } else if t == "map"@ {
        22
    } else if t == "newline"@ {
        23
    } else if t == "not"@ {
        24
    } else if t == "null?"@ {
        25
    } else if t == "number?"@ {
        26
    } else if t == "odd?"@ {
        27
    } else if t == "pair?"@ {
        28
    } else if t == "print"@ {
        29
    } else if t == "procedure?"@ {
        30
    } else if t == "quotient"@ {
        31
    } else if t == "reduce"@ {
        32
    } else if t == "remainder"@ {
        33
    } else if t == "string?"@ {
        34
    } else if t == "symbol?"@ {
        35
    } else if t == "zero?"@ {
        36
    } else if t == "+"@ {
        37
    } else if t == "-"@ {
        38
    } else if t == "*"@ {
        39
    } else if t == "/"@ {
        40
    } else if t == "="@ {
        41
    } else if t == "<"@ {
        42
    } else if t == "<="@ {
        43
    } else if t == "modulo"@ {
        44
    } else if t == ">"@ {
        45
    } else if t == ">="@ {
        46
    } else {
        -1
    }
}

#[verifier::rlimit(100)]
proof fn lemma_names_distinct()
    ensures
        builtin_doc_names().no_duplicates(),
{
    reveal_strlit("append");
    reveal_strlit("abs");
    reveal_strlit("apply");
    reveal_strlit("atom?");
    reveal_strlit("boolean?");
    reveal_strlit("car");
    reveal_strlit("cdr");
    reveal_strlit("cons");
    reveal_strlit("display");
    reveal_strlit("displayln");
    reveal_strlit("eq?");
    reveal_strlit("equal?");
    reveal_strlit("error");
    reveal_strlit("even?");
    reveal_strlit("eval");
    reveal_strlit("expt");
    reveal_strlit("exit");
    reveal_strlit("filter");
    reveal_strlit("integer?");
    reveal_strlit("length");
    reveal_strlit("list");
    reveal_strlit("list?");
    reveal_strlit("map");
    reveal_strlit("newline");
    reveal_strlit("not");
    reveal_strlit("null?");
    reveal_strlit("number?");
    reveal_strlit("odd?");
    reveal_strlit("pair?");
    reveal_strlit("print");
    reveal_strlit("procedure?");
    reveal_strlit("quotient");
    reveal_strlit("reduce");
    reveal_strlit("remainder");
    reveal_strlit("string?");
    reveal_strlit("symbol?");
    reveal_strlit("zero?");
    reveal_strlit("+");
    reveal_strlit("-");
    reveal_strlit("*");
    reveal_strlit("/");
    reveal_strlit("=");
    reveal_strlit("<");
    reveal_strlit("<=");
    reveal_strlit("modulo");
    reveal_strlit(">");
    reveal_strlit(">=");
    let names = builtin_doc_names();
    assert(names.len() == 47);
    // Each name sits at its own place; two names of the same length are told
    // apart by the first character in which they differ.
    assert(names[0] == "append"@);
    assert(doc_position(names[0]) == 0);
    assert(names[1] == "abs"@);
    assert(doc_position(names[1]) == 1);
    assert(names[2] == "apply"@);
    assert(doc_position(names[2]) == 2);
    assert(names[3] == "atom?"@);
    assert("atom?"@[1] != "apply"@[1]);
    assert(doc_position(names[3]) == 3);
    assert(names[4] == "boolean?"@);
    assert(doc_position(names[4]) == 4);
    assert(names[5] == "car"@);
    assert("car"@[0] != "abs"@[0]);
    assert(doc_position(names[5]) == 5);
    assert(names[6] == "cdr"@);
    assert("cdr"@[0] != "abs"@[0]);
    assert("cdr"@[1] != "car"@[1]);
    assert(doc_position(names[6]) == 6);
    assert(names[7] == "cons"@);
    assert(doc_position(names[7]) == 7);
    assert(names[8] == "display"@);
    assert(doc_position(names[8]) == 8);
    assert(names[9] == "displayln"@);
    assert(doc_position(names[9]) == 9);
    assert(names[10] == "eq?"@);
    assert("eq?"@[0] != "abs"@[0]);
    assert("eq?"@[0] != "car"@[0]);
    assert("eq?"@[0] != "cdr"@[0]);
    assert(doc_position(names[10]) == 10);
    assert(names[11] == "equal?"@);
    assert("equal?"@[0] != "append"@[0]);
    assert(doc_position(names[11]) == 11);
    assert(names[12] == "error"@);
    assert("error"@[0] != "apply"@[0]);
    assert("error"@[0] != "atom?"@[0]);
    assert(doc_position(names[12]) == 12);
    assert(names[13] == "even?"@);
    assert("even?"@[0] != "apply"@[0]);
    assert("even?"@[0] != "atom?"@[0]);
    assert("even?"@[1] != "error"@[1]);
    assert(doc_position(names[13]) == 13);
    assert(names[14] == "eval"@);
    assert("eval"@[0] != "cons"@[0]);
    assert(doc_position(names[14]) == 14);
    assert(names[15] == "expt"@);
    assert("expt"@[0] != "cons"@[0]);
    assert("expt"@[1] != "eval"@[1]);
    assert(doc_position(names[15]) == 15);
    assert(names[16] == "exit"@);
    assert("exit"@[0] != "cons"@[0]);
    assert("exit"@[1] != "eval"@[1]);
    assert("exit"@[2] != "expt"@[2]);
    assert(doc_position(names[16]) == 16);
    assert(names[17] == "filter"@);
    assert("filter"@[0] != "append"@[0]);
    assert("filter"@[0] != "equal?"@[0]);
    assert(doc_position(names[17]) == 17);
    assert(names[18] == "integer?"@);
    assert("integer?"@[0] != "boolean?"@[0]);
    assert(doc_position(names[18]) == 18);
    assert(names[19] == "length"@);
    assert("length"@[0] != "append"@[0]);
    assert("length"@[0] != "equal?"@[0]);
    assert("length"@[0] != "filter"@[0]);
    assert(doc_position(names[19]) == 19);
    assert(names[20] == "list"@);
    assert("list"@[0] != "cons"@[0]);
    assert("list"@[0] != "eval"@[0]);
    assert("list"@[0] != "expt"@[0]);
    assert("list"@[0] != "exit"@[0]);
    assert(doc_position(names[20]) == 20);
    assert(names[21] == "list?"@);
    assert("list?"@[0] != "apply"@[0]);
    assert("list?"@[0] != "atom?"@[0]);
    assert("list?"@[0] != "error"@[0]);
    assert("list?"@[0] != "even?"@[0]);
    assert(doc_position(names[21]) == 21);
    assert(names[22] == "map"@);
    assert("map"@[0] != "abs"@[0]);
    assert("map"@[0] != "car"@[0]);
    assert("map"@[0] != "cdr"@[0]);
    assert("map"@[0] != "eq?"@[0]);
    assert(doc_position(names[22]) == 22);
    assert(names[23] == "newline"@);
    assert("newline"@[0] != "display"@[0]);
    assert(doc_position(names[23]) == 23);
    assert(names[24] == "not"@);
    assert("not"@[0] != "abs"@[0]);
    assert("not"@[0] != "car"@[0]);
    assert("not"@[0] != "cdr"@[0]);
    assert("not"@[0] != "eq?"@[0]);
    assert("not"@[0] != "map"@[0]);
    assert(doc_position(names[24]) == 24);
    assert(names[25] == "null?"@);
    assert("null?"@[0] != "apply"@[0]);
    assert("null?"@[0] != "atom?"@[0]);
    assert("null?"@[0] != "error"@[0]);
    assert("null?"@[0] != "even?"@[0]);
    assert("null?"@[0] != "list?"@[0]);
    assert(doc_position(names[25]) == 25);
    assert(names[26] == "number?"@);
    assert("number?"@[0] != "display"@[0]);
    assert("number?"@[1] != "newline"@[1]);
    assert(doc_position(names[26]) == 26);
    assert(names[27] == "odd?"@);
    assert("odd?"@[0] != "cons"@[0]);
    assert("odd?"@[0] != "eval"@[0]);
    assert("odd?"@[0] != "expt"@[0]);
    assert("odd?"@[0] != "exit"@[0]);
    assert("odd?"@[0] != "list"@[0]);
    assert(doc_position(names[27]) == 27);
    assert(names[28] == "pair?"@);
    assert("pair?"@[0] != "apply"@[0]);
    assert("pair?"@[0] != "atom?"@[0]);
    assert("pair?"@[0] != "error"@[0]);
    assert("pair?"@[0] != "even?"@[0]);
    assert("pair?"@[0] != "list?"@[0]);
    assert("pair?"@[0] != "null?"@[0]);
    assert(doc_position(names[28]) == 28);
    assert(names[29] == "print"@);
    assert("print"@[0] != "apply"@[0]);
    assert("print"@[0] != "atom?"@[0]);
    assert("print"@[0] != "error"@[0]);
    assert("print"@[0] != "even?"@[0]);
    assert("print"@[0] != "list?"@[0]);
    assert("print"@[0] != "null?"@[0]);
    assert("print"@[1] != "pair?"@[1]);
    assert(doc_position(names[29]) == 29);
    assert(names[30] == "procedure?"@);
    assert(doc_position(names[30]) == 30);
    assert(names[31] == "quotient"@);
    assert("quotient"@[0] != "boolean?"@[0]);
    assert("quotient"@[0] != "integer?"@[0]);
    assert(doc_position(names[31]) == 31);
    assert(names[32] == "reduce"@);
    assert("reduce"@[0] != "append"@[0]);
    assert("reduce"@[0] != "equal?"@[0]);
    assert("reduce"@[0] != "filter"@[0]);
    assert("reduce"@[0] != "length"@[0]);
    assert(doc_position(names[32]) == 32);
    assert(names[33] == "remainder"@);
    assert("remainder"@[0] != "displayln"@[0]);
    assert(doc_position(names[33]) == 33);
    assert(names[34] == "string?"@);
    assert("string?"@[0] != "display"@[0]);
    assert("string?"@[0] != "newline"@[0]);
    assert("string?"@[0] != "number?"@[0]);
    assert(doc_position(names[34]) == 34);
    assert(names[35] == "symbol?"@);
    assert("symbol?"@[0] != "display"@[0]);
    assert("symbol?"@[0] != "newline"@[0]);
    assert("symbol?"@[0] != "number?"@[0]);
    assert("symbol?"@[1] != "string?"@[1]);
    assert(doc_position(names[35]) == 35);
    assert(names[36] == "zero?"@);
    assert("zero?"@[0] != "apply"@[0]);
    assert("zero?"@[0] != "atom?"@[0]);
    assert("zero?"@[0] != "error"@[0]);
    assert("zero?"@[0] != "even?"@[0]);
    assert("zero?"@[0] != "list?"@[0]);
    assert("zero?"@[0] != "null?"@[0]);
    assert("zero?"@[0] != "pair?"@[0]);
    assert("zero?"@[0] != "print"@[0]);
    assert(doc_position(names[36]) == 36);
    assert(names[37] == "+"@);
    assert(doc_position(names[37]) == 37);
    assert(names[38] == "-"@);
    assert("-"@[0] != "+"@[0]);
    assert(doc_position(names[38]) == 38);
    assert(names[39] == "*"@);
    assert("*"@[0] != "+"@[0]);
    assert("*"@[0] != "-"@[0]);
    assert(doc_position(names[39]) == 39);
    assert(names[40] == "/"@);
    assert("/"@[0] != "+"@[0]);
    assert("/"@[0] != "-"@[0]);
    assert("/"@[0] != "*"@[0]);
    assert(doc_position(names[40]) == 40);
    assert(names[41] == "="@);
    assert("="@[0] != "+"@[0]);
    assert("="@[0] != "-"@[0]);
    assert("="@[0] != "*"@[0]);
    assert("="@[0] != "/"@[0]);
    assert(doc_position(names[41]) == 41);
    assert(names[42] == "<"@);
    assert("<"@[0] != "+"@[0]);
    assert("<"@[0] != "-"@[0]);
    assert("<"@[0] != "*"@[0]);
    assert("<"@[0] != "/"@[0]);
    assert("<"@[0] != "="@[0]);
    assert(doc_position(names[42]) == 42);
    assert(names[43] == "<="@);
    assert(doc_position(names[43]) == 43);
    assert(names[44] == "modulo"@);
    assert("modulo"@[0] != "append"@[0]);
    assert("modulo"@[0] != "equal?"@[0]);
    assert("modulo"@[0] != "filter"@[0]);
    assert("modulo"@[0] != "length"@[0]);
    assert("modulo"@[0] != "reduce"@[0]);
    assert(doc_position(names[44]) == 44);
    assert(names[45] == ">"@);
    assert(">"@[0] != "+"@[0]);
    assert(">"@[0] != "-"@[0]);
    assert(">"@[0] != "*"@[0]);
    assert(">"@[0] != "/"@[0]);
    assert(">"@[0] != "="@[0]);
    assert(">"@[0] != "<"@[0]);
    assert(doc_position(names[45]) == 45);
    assert(names[46] == ">="@);
    assert(">="@[0] != "<="@[0]);
    assert(doc_position(names[46]) == 46);
    assert forall|i: int, j: int| 0 <= i < names.len() && 0 <= j < names.len() && i != j implies names[i] != names[j] by {
        if names[i] == names[j] {
            assert(doc_position(names[i]) == i);
            assert(doc_position(names[j]) == j);
        }
    }
}


/// Every name an environment starts with is highlighted as a built-in
/// procedure, and no word is highlighted both as a built-in procedure and
/// as a special form.
pub proof fn law_bound_names_are_highlighted()
    ensures
        forall|i: int| 0 <= i < initial_bindings().len() ==> builtin_word(#[trigger] initial_bindings()[i].0),
        forall|t: Seq<char>| !(builtin_word(t) && special_form_word(t)),
{
    let b = initial_bindings();
    assert(b.len() == 47);
    assert forall|i: int| 0 <= i < b.len() implies builtin_word(#[trigger] b[i].0) by {
        if i == 0 { assert(b[0].0 == "atom?"@); }
        if i == 1 { assert(b[1].0 == "boolean?"@); }
        if i == 2 { assert(b[2].0 == "+"@); }
        if i == 3 { assert(b[3].0 == "-"@); }
        if i == 4 { assert(b[4].0 == "*"@); }
        if i == 5 { assert(b[5].0 == ">"@); }
        if i == 6 { assert(b[6].0 == "length"@); }
        if i == 7 { assert(b[7].0 == "cdr"@); }
        if i == 8 { assert(b[8].0 == "apply"@); }
        if i == 9 { assert(b[9].0 == "display"@); }
        if i == 10 { assert(b[10].0 == "displayln"@); }
        if i == 11 { assert(b[11].0 == "error"@); }
        if i == 12 { assert(b[12].0 == "eval"@); }
        if i == 13 { assert(b[13].0 == "exit"@); }
        if i == 14 { assert(b[14].0 == "integer?"@); }
        if i == 15 { assert(b[15].0 == "list?"@); }
        if i == 16 { assert(b[16].0 == "null?"@); }
        if i == 17 { assert(b[17].0 == "newline"@); }
        if i == 18 { assert(b[18].0 == "number?"@); }
        if i == 19 { assert(b[19].0 == "pair?"@); }
        if i == 20 { assert(b[20].0 == "print"@); }
        if i == 21 { assert(b[21].0 == "procedure?"@); }
        if i == 22 { assert(b[22].0 == "string?"@); }
        if i == 23 { assert(b[23].0 == "symbol?"@); }
        if i == 24 { assert(b[24].0 == "car"@); }
        if i == 25 { assert(b[25].0 == "cons"@); }
        if i == 26 { assert(b[26].0 == "list"@); }
        if i == 27 { assert(b[27].0 == "not"@); }
        if i == 28 { assert(b[28].0 == "equal?"@); }
        if i == 29 { assert(b[29].0 == "append"@); }
        if i == 30 { assert(b[30].0 == "abs"@); }
        if i == 31 { assert(b[31].0 == "expt"@); }
        if i == 32 { assert(b[32].0 == "quotient"@); }
        if i == 33 { assert(b[33].0 == "remainder"@); }
        if i == 34 { assert(b[34].0 == "modulo"@); }
        if i == 35 { assert(b[35].0 == "/"@); }
        if i == 36 { assert(b[36].0 == "="@); }
        if i == 37 { assert(b[37].0 == "<"@); }
        if i == 38 { assert(b[38].0 == "<="@); }
        if i == 39 { assert(b[39].0 == ">="@); }
        if i == 40 { assert(b[40].0 == "zero?"@); }
        if i == 41 { assert(b[41].0 == "even?"@); }
        if i == 42 { assert(b[42].0 == "odd?"@); }
        if i == 43 { assert(b[43].0 == "map"@); }
        if i == 44 { assert(b[44].0 == "filter"@); }
        if i == 45 { assert(b[45].0 == "reduce"@); }
        if i == 46 { assert(b[46].0 == "eq?"@); }
    }
    lemma_builtins_are_not_special_forms();
}

#[verifier::rlimit(100)]
proof fn lemma_builtins_are_not_special_forms()
    ensures
        forall|t: Seq<char>| builtin_word(t) ==> !special_form_word(t),
{
    reveal_strlit("append");
    reveal_strlit("abs");
    reveal_strlit("apply");
    reveal_strlit("atom?");
    reveal_strlit("boolean?");
    reveal_strlit("car");
    reveal_strlit("cdr");
    reveal_strlit("cons");
    reveal_strlit("display");
    reveal_strlit("displayln");
    reveal_strlit("eq?");
    reveal_strlit("equal?");
    reveal_strlit("error");
    reveal_strlit("even?");
    reveal_strlit("eval");
    reveal_strlit("expt");
    reveal_strlit("exit");
    reveal_strlit("filter");
    reveal_strlit("integer?");
    reveal_strlit("length");
    reveal_strlit("list");
    reveal_strlit("list?");
    reveal_strlit("map");
    reveal_strlit("newline");
    reveal_strlit("not");
    reveal_strlit("null?");
    reveal_strlit("number?");
    reveal_strlit("odd?");
    reveal_strlit("pair?");
    reveal_strlit("print");
    reveal_strlit("procedure?");
    reveal_strlit("quotient");
    reveal_strlit("reduce");
    reveal_strlit("remainder");
    reveal_strlit("string?");
    reveal_strlit("symbol?");
    reveal_strlit("zero?");
    reveal_strlit("+");
    reveal_strlit("-");
    reveal_strlit("*");
    reveal_strlit("/");
    reveal_strlit("=");
    reveal_strlit("<");
    reveal_strlit("<=");
    reveal_strlit("modulo");
    reveal_strlit(">");
    reveal_strlit(">=");
    reveal_strlit("begin");
    reveal_strlit("cond");
    reveal_strlit("define");
    reveal_strlit("lambda");
    reveal_strlit("let");
    reveal_strlit("quasiquote");
    reveal_strlit("quote");
    reveal_strlit("if");
    reveal_strlit("and");
    reveal_strlit("or");
    reveal_strlit("unquote");
    // Names of different lengths differ; a built-in name and a special form
    // of the same length are told apart by the first character in which
    // they differ.
    assert("begin"@.len() == 5);
    assert("cond"@.len() == 4);
    assert("define"@.len() == 6);
    assert("lambda"@.len() == 6);
    assert("let"@.len() == 3);
    assert("quasiquote"@.len() == 10);
    assert("quote"@.len() == 5);
    assert("if"@.len() == 2);
    assert("and"@.len() == 3);
    assert("or"@.len() == 2);
    assert("unquote"@.len() == 7);
    assert("append"@[0] != "define"@[0]);
    assert("append"@[0] != "lambda"@[0]);
    assert("append"@.len() == 6);
    assert(!special_form_word("append"@));
    assert("abs"@[0] != "let"@[0]);
    assert("abs"@[1] != "and"@[1]);
    assert("abs"@.len() == 3);
    assert(!special_form_word("abs"@));
    assert("apply"@[0] != "begin"@[0]);
    assert("apply"@[0] != "quote"@[0]);
    assert("apply"@.len() == 5);
    assert(!special_form_word("apply"@));
    assert("atom?"@[0] != "begin"@[0]);
    assert("atom?"@[0] != "quote"@[0]);
    assert("atom?"@.len() == 5);
    assert(!special_form_word("atom?"@));
    assert("boolean?"@.len() == 8);
    assert(!special_form_word("boolean?"@));
    assert("car"@[0] != "let"@[0]);
    assert("car"@[0] != "and"@[0]);
    assert("car"@.len() == 3);
    assert(!special_form_word("car"@));
    assert("cdr"@[0] != "let"@[0]);
    assert("cdr"@[0] != "and"@[0]);
    assert("cdr"@.len() == 3);
    assert(!special_form_word("cdr"@));
    assert("cons"@[3] != "cond"@[3]);
    assert("cons"@.len() == 4);
    assert(!special_form_word("cons"@));
    assert("display"@[0] != "unquote"@[0]);
    assert("display"@.len() == 7);
    assert(!special_form_word("display"@));
    assert("displayln"@.len() == 9);
    assert(!special_form_word("displayln"@));
    assert("eq?"@[0] != "let"@[0]);
    assert("eq?"@[0] != "and"@[0]);
    assert("eq?"@.len() == 3);
    assert(!special_form_word("eq?"@));
    assert("equal?"@[0] != "define"@[0]);
    assert("equal?"@[0] != "lambda"@[0]);
    assert("equal?"@.len() == 6);
    assert(!special_form_word("equal?"@));
    assert("error"@[0] != "begin"@[0]);
    assert("error"@[0] != "quote"@[0]);
    assert("error"@.len() == 5);
    assert(!special_form_word("error"@));
    assert("even?"@[0] != "begin"@[0]);
    assert("even?"@[0] != "quote"@[0]);
    assert("even?"@.len() == 5);
    assert(!special_form_word("even?"@));
    assert("eval"@[0] != "cond"@[0]);
    assert("eval"@.len() == 4);
    assert(!special_form_word("eval"@));
    assert("expt"@[0] != "cond"@[0]);
    assert("expt"@.len() == 4);
    assert(!special_form_word("expt"@));
    assert("exit"@[0] != "cond"@[0]);
    assert("exit"@.len() == 4);
    assert(!special_form_word("exit"@));
    assert("filter"@[0] != "define"@[0]);
    assert("filter"@[0] != "lambda"@[0]);
    assert("filter"@.len() == 6);
    assert(!special_form_word("filter"@));
    assert("integer?"@.len() == 8);
    assert(!special_form_word("integer?"@));
    assert("length"@[0] != "define"@[0]);
    assert("length"@[1] != "lambda"@[1]);
    assert("length"@.len() == 6);
    assert(!special_form_word("length"@));
    assert("list"@[0] != "cond"@[0]);
    assert("list"@.len() == 4);
    assert(!special_form_word("list"@));
    assert("list?"@[0] != "begin"@[0]);
    assert("list?"@[0] != "quote"@[0]);
    assert("list?"@.len() == 5);
    assert(!special_form_word("list?"@));
    assert("map"@[0] != "let"@[0]);
    assert("map"@[0] != "and"@[0]);
    assert("map"@.len() == 3);
    assert(!special_form_word("map"@));
    assert("newline"@[0] != "unquote"@[0]);
    assert("newline"@.len() == 7);
    assert(!special_form_word("newline"@));
    assert("not"@[0] != "let"@[0]);
    assert("not"@[0] != "and"@[0]);
    assert("not"@.len() == 3);
    assert(!special_form_word("not"@));
    assert("null?"@[0] != "begin"@[0]);
    assert("null?"@[0] != "quote"@[0]);
    assert("null?"@.len() == 5);
    assert(!special_form_word("null?"@));
    assert("number?"@[0] != "unquote"@[0]);
    assert("number?"@.len() == 7);
    assert(!special_form_word("number?"@));
    assert("odd?"@[0] != "cond"@[0]);
    assert("odd?"@.len() == 4);
    assert(!special_form_word("odd?"@));
    assert("pair?"@[0] != "begin"@[0]);
    assert("pair?"@[0] != "quote"@[0]);
    assert("pair?"@.len() == 5);
    assert(!special_form_word("pair?"@));
    assert("print"@[0] != "begin"@[0]);
    assert("print"@[0] != "quote"@[0]);
    assert("print"@.len() == 5);
    assert(!special_form_word("print"@));
    assert("procedure?"@[0] != "quasiquote"@[0]);
    assert("procedure?"@.len() == 10);
    assert(!special_form_word("procedure?"@));
    assert("quotient"@.len() == 8);
    assert(!special_form_word("quotient"@));
    assert("reduce"@[0] != "define"@[0]);
    assert("reduce"@[0] != "lambda"@[0]);
    assert("reduce"@.len() == 6);
    assert(!special_form_word("reduce"@));
    assert("remainder"@.len() == 9);
    assert(!special_form_word("remainder"@));
    assert("string?"@[0] != "unquote"@[0]);
    assert("string?"@.len() == 7);
    assert(!special_form_word("string?"@));
    assert("symbol?"@[0] != "unquote"@[0]);
    assert("symbol?"@.len() == 7);
    assert(!special_form_word("symbol?"@));
    assert("zero?"@[0] != "begin"@[0]);
    assert("zero?"@[0] != "quote"@[0]);
    assert("zero?"@.len() == 5);
    assert(!special_form_word("zero?"@));
    assert("+"@.len() == 1);
    assert(!special_form_word("+"@));
    assert("-"@.len() == 1);
    assert(!special_form_word("-"@));
    assert("*"@.len() == 1);
    assert(!special_form_word("*"@));
    assert("/"@.len() == 1);
    assert(!special_form_word("/"@));
    assert("="@.len() == 1);
    assert(!special_form_word("="@));
    assert("<"@.len() == 1);
    assert(!special_form_word("<"@));
    assert("<="@[0] != "if"@[0]);
    assert("<="@[0] != "or"@[0]);
    assert("<="@.len() == 2);
    assert(!special_form_word("<="@));
    assert("modulo"@[0] != "define"@[0]);
    assert("modulo"@[0] != "lambda"@[0]);
    assert("modulo"@.len() == 6);
    assert(!special_form_word("modulo"@));
    assert(">"@.len() == 1);
    assert(!special_form_word(">"@));
    assert(">="@[0] != "if"@[0]);
    assert(">="@[0] != "or"@[0]);
    assert(">="@.len() == 2);
    assert(!special_form_word(">="@));
}

} // verus!
