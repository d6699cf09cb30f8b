//! Properties of the interpreter that hold across its operations.
use vstd::prelude::*;
use crate::eval_env::{Scope, Scopes, eval_spec, eval_list_spec, eval_body_spec, apply_spec, builtin_spec,
    bind_params, lookup, lookup_in, define_in, call_scopes, map_spec, filter_spec, reduce_spec};
use crate::form::{SpecialForm, special_form, form_spec, and_spec, or_spec, symbols_of, quote_spec, cond_select,
    let_bindings, binding_pairs, quasi_spec, is_tagged, tagged_arg};
use crate::numeric::{NumQuery, NumReply, NumAsk, Number, answer_truth, answer_number};
use crate::value::{Datum, Builtin, list_items, make_list, self_evaluating, lemma_list_items_make_list};

verus! {

/// `a` is a prefix of `b`.
pub open spec fn grows<A>(a: Seq<A>, b: Seq<A>) -> bool {
    a.len() <= b.len() && b.take(a.len() as int) == a
}

proof fn lemma_grows_refl<A>(a: Seq<A>)
    ensures
        grows(a, a),
{
    assert(a.take(a.len() as int) =~= a);
}

proof fn lemma_grows_trans<A>(a: Seq<A>, b: Seq<A>, c: Seq<A>)
    requires
        grows(a, b),
        grows(b, c),
    ensures
        grows(a, c),
{
    assert(c.take(a.len() as int) =~= c.take(b.len() as int).take(a.len() as int));
}

proof fn lemma_grows_append<A>(a: Seq<A>, b: Seq<A>)
    ensures
        grows(a, a + b),
{
    assert((a + b).take(a.len() as int) =~= a);
}

proof fn lemma_grows_push<A>(a: Seq<A>, x: A)
    ensures
        grows(a, a.push(x)),
{
    assert(a.push(x).take(a.len() as int) =~= a);
}

/// `after` holds the scopes of `before` unchanged, and maybe more.
pub open spec fn keeps(before: Scopes, after: Scopes) -> bool {
    &&& before.len() <= after.len()
    &&& forall|i: int| 0 <= i < before.len() ==> #[trigger] after[i] == before[i]
}

/// `after` differs from `before` only in scope `k`, which has only gained
/// bindings, and in scopes added after the others.
pub open spec fn changes_only(before: Scopes, after: Scopes, k: nat) -> bool {
    &&& before.len() <= after.len()
    &&& forall|i: int| 0 <= i < before.len() && i != k ==> #[trigger] after[i] == before[i]
    &&& k < before.len() ==> after[k as int].parent == before[k as int].parent
        && grows(before[k as int].bindings, after[k as int].bindings)
}

/// The scopes and the output after an outcome: only scope `k` changed, and
/// only by new bindings; the output only grew.
pub open spec fn stays(env: Scopes, k: nat, out: Seq<char>, r: (Scopes, Seq<char>)) -> bool {
    changes_only(env, r.0, k) && grows(out, r.1)
}

proof fn lemma_changes_refl(s: Scopes, k: nat)
    ensures
        changes_only(s, s, k),
{
    if k < s.len() {
        lemma_grows_refl(s[k as int].bindings);
    }
}

proof fn lemma_changes_trans(a: Scopes, b: Scopes, c: Scopes, k: nat)
    requires
        changes_only(a, b, k),
        changes_only(b, c, k),
    ensures
        changes_only(a, c, k),
{
    if k < a.len() {
        lemma_grows_trans(a[k as int].bindings, b[k as int].bindings, c[k as int].bindings);
    }
    assert forall|i: int| 0 <= i < a.len() && i != k implies #[trigger] c[i] == a[i] by {
        assert(b[i] == a[i]);
    }
}

proof fn lemma_define_in_changes(s: Scopes, k: nat, name: Seq<char>, v: Datum)
    ensures
        changes_only(s, define_in(s, k, name, v), k),
{
    lemma_changes_refl(s, k);
    if k < s.len() {
        lemma_grows_push(s[k as int].bindings, (name, v));
    }
}

proof fn lemma_keeps_changes(a: Scopes, b: Scopes, k: nat)
    requires
        keeps(a, b),
    ensures
        changes_only(a, b, k),
{
    if k < a.len() {
        lemma_grows_refl(a[k as int].bindings);
    }
}

/// Evaluating in a scope added after `env`'s leaves `env`'s scopes as they were.
proof fn lemma_new_scope_keeps(env: Scopes, x: Scope, s2: Scopes)
    requires
        changes_only(env.push(x), s2, env.len()),
    ensures
        keeps(env, s2),
{
    assert forall|i: int| 0 <= i < env.len() implies #[trigger] s2[i] == env[i] by {
        assert(env.push(x)[i] == env[i]);
    }
}

proof fn lemma_eval<F: Fn(NumQuery) -> NumReply>(f: F, fuel: nat, env: Scopes, k: nat, out: Seq<char>, e: Datum)
    ensures
        stays(env, k, out, (eval_spec(f, fuel, env, k, out, e).1, eval_spec(f, fuel, env, k, out, e).2)),
    decreases fuel, 0nat, 0nat,
{
    lemma_changes_refl(env, k);
    lemma_grows_refl(out);
    if fuel == 0 || self_evaluating(e) {
    } else {
        match e {
            Datum::Nil => {},
            Datum::Symbol(_) => {},
            _ => match list_items(e) {
                None => {},
                Some(items) => if items.len() == 0 {
                } else if items[0] is Symbol && special_form(items[0]->Symbol_0) is Some {
                    lemma_form(f, (fuel - 1) as nat, special_form(items[0]->Symbol_0)->0, items.skip(1), env, k, out);
                } else {
                    let fl = (fuel - 1) as nat;
                    lemma_eval(f, fl, env, k, out, items[0]);
                    let (rp, env1, out1) = eval_spec(f, fl, env, k, out, items[0]);
                    match rp {
                        Err(_) => {},
                        Ok(p) => {
                            lemma_list(f, fl, env1, k, out1, items.skip(1));
                            let (ra, env2, out2) = eval_list_spec(f, fl, env1, k, out1, items.skip(1));
                            lemma_changes_trans(env, env1, env2, k);
                            lemma_grows_trans(out, out1, out2);
                            match ra {
                                Err(_) => {},
                                Ok(args) => {
                                    lemma_apply(f, fl, env2, k, out2, p, args);
                                    let (_, env3, out3) = apply_spec(f, fl, env2, k, out2, p, args);
                                    lemma_changes_trans(env, env2, env3, k);
                                    lemma_grows_trans(out, out2, out3);
                                },
                            }
                        },
                    }
                },
            },
        }
    }
}

proof fn lemma_list<F: Fn(NumQuery) -> NumReply>(f: F, fuel: nat, env: Scopes, k: nat, out: Seq<char>, es: Seq<Datum>)
    ensures
        stays(env, k, out, (eval_list_spec(f, fuel, env, k, out, es).1, eval_list_spec(f, fuel, env, k, out, es).2)),
    decreases fuel, 1nat, es.len(),
{
    lemma_changes_refl(env, k);
    lemma_grows_refl(out);
    if es.len() > 0 {
        lemma_eval(f, fuel, env, k, out, es[0]);
        let (r, env1, out1) = eval_spec(f, fuel, env, k, out, es[0]);
        if r is Ok {
            lemma_list(f, fuel, env1, k, out1, es.skip(1));
            let (_, env2, out2) = eval_list_spec(f, fuel, env1, k, out1, es.skip(1));
            lemma_changes_trans(env, env1, env2, k);
            lemma_grows_trans(out, out1, out2);
        }
    }
}

proof fn lemma_body<F: Fn(NumQuery) -> NumReply>(f: F, fuel: nat, env: Scopes, k: nat, out: Seq<char>, es: Seq<Datum>, last: Datum)
    ensures
        stays(env, k, out, (eval_body_spec(f, fuel, env, k, out, es, last).1, eval_body_spec(f, fuel, env, k, out, es, last).2)),
    decreases fuel, 1nat, es.len(),
{
    lemma_changes_refl(env, k);
    lemma_grows_refl(out);
    if es.len() > 0 {
        lemma_eval(f, fuel, env, k, out, es[0]);
        let (r, env1, out1) = eval_spec(f, fuel, env, k, out, es[0]);
        if let Ok(v) = r {
            lemma_body(f, fuel, env1, k, out1, es.skip(1), v);
            let (_, env2, out2) = eval_body_spec(f, fuel, env1, k, out1, es.skip(1), v);
            lemma_changes_trans(env, env1, env2, k);
            lemma_grows_trans(out, out1, out2);
        }
    }
}

proof fn lemma_and<F: Fn(NumQuery) -> NumReply>(f: F, fuel: nat, env: Scopes, k: nat, out: Seq<char>, es: Seq<Datum>, last: Datum)
    ensures
        stays(env, k, out, (and_spec(f, fuel, env, k, out, es, last).1, and_spec(f, fuel, env, k, out, es, last).2)),
    decreases fuel, 1nat, es.len(),
{
    lemma_changes_refl(env, k);
    lemma_grows_refl(out);
    if es.len() > 0 {
        lemma_eval(f, fuel, env, k, out, es[0]);
        let (r, env1, out1) = eval_spec(f, fuel, env, k, out, es[0]);
        if let Ok(v) = r {
            lemma_and(f, fuel, env1, k, out1, es.skip(1), v);
            let (_, env2, out2) = and_spec(f, fuel, env1, k, out1, es.skip(1), v);
            lemma_changes_trans(env, env1, env2, k);
            lemma_grows_trans(out, out1, out2);
        }
    }
}

proof fn lemma_or<F: Fn(NumQuery) -> NumReply>(f: F, fuel: nat, env: Scopes, k: nat, out: Seq<char>, es: Seq<Datum>)
    ensures
        stays(env, k, out, (or_spec(f, fuel, env, k, out, es).1, or_spec(f, fuel, env, k, out, es).2)),
    decreases fuel, 1nat, es.len(),
{
    lemma_changes_refl(env, k);
    lemma_grows_refl(out);
    if es.len() > 0 {
        lemma_eval(f, fuel, env, k, out, es[0]);
        let (r, env1, out1) = eval_spec(f, fuel, env, k, out, es[0]);
        if r is Ok {
            lemma_or(f, fuel, env1, k, out1, es.skip(1));
            let (_, env2, out2) = or_spec(f, fuel, env1, k, out1, es.skip(1));
            lemma_changes_trans(env, env1, env2, k);
            lemma_grows_trans(out, out1, out2);
        }
    }
}

proof fn lemma_form<F: Fn(NumQuery) -> NumReply>(f: F, fuel: nat, form: SpecialForm, args: Seq<Datum>, env: Scopes, k: nat, out: Seq<char>)
    ensures
        stays(env, k, out, (form_spec(f, fuel, form, args, env, k, out).1, form_spec(f, fuel, form, args, env, k, out).2)),
    decreases fuel, 5nat, 0nat,
{
    lemma_changes_refl(env, k);
    lemma_grows_refl(out);
    match form {
        SpecialForm::Define => if args.len() >= 2 {
            match args[0] {
                Datum::Symbol(name) => if args.len() == 2 {
                    lemma_eval(f, fuel, env, k, out, args[1]);
                    let (r, env1, out1) = eval_spec(f, fuel, env, k, out, args[1]);
                    if let Ok(v) = r {
                        lemma_define_in_changes(env1, k, name, v);
                        lemma_changes_trans(env, env1, define_in(env1, k, name, v), k);
                    }
                },
                _ => match list_items(args[0]) {
                    None => {},
                    Some(sig) => if sig.len() > 0 {
                        match sig[0] {
                            Datum::Symbol(name) => match symbols_of(sig.skip(1)) {
                                None => {},
                                Some(params) => {
                                    lemma_define_in_changes(env, k, name, Datum::Lambda(params, Box::new(make_list(args.skip(1))), k));
                                },
                            },
                            _ => {},
                        }
                    },
                },
            }
        },
        SpecialForm::Lambda => {},
        SpecialForm::Quote => {},
        SpecialForm::If => if args.len() == 3 {
            lemma_eval(f, fuel, env, k, out, args[0]);
            let (r, env1, out1) = eval_spec(f, fuel, env, k, out, args[0]);
            if r is Ok {
                lemma_eval(f, fuel, env1, k, out1, args[1]);
                lemma_eval(f, fuel, env1, k, out1, args[2]);
                let (_, env2, out2) = eval_spec(f, fuel, env1, k, out1, args[1]);
                let (_, env3, out3) = eval_spec(f, fuel, env1, k, out1, args[2]);
                lemma_changes_trans(env, env1, env2, k);
                lemma_grows_trans(out, out1, out2);
                lemma_changes_trans(env, env1, env3, k);
                lemma_grows_trans(out, out1, out3);
            }
        },
        SpecialForm::And => if args.len() > 0 {
            lemma_and(f, fuel, env, k, out, args, Datum::Boolean(true));
        },
        SpecialForm::Or => {
            lemma_or(f, fuel, env, k, out, args);
        },
        SpecialForm::Begin => {
            lemma_body(f, fuel, env, k, out, args, Datum::Nil);
        },
        SpecialForm::Cond => {
            lemma_cond(f, fuel, env, k, out, args);
            let (sel, env1, out1) = cond_select(f, fuel, env, k, out, args);
            if let Ok(Some((v, body))) = sel {
                lemma_body(f, fuel, env1, k, out1, body, v);
                let (_, env2, out2) = eval_body_spec(f, fuel, env1, k, out1, body, v);
                lemma_changes_trans(env, env1, env2, k);
                lemma_grows_trans(out, out1, out2);
            }
        },
        SpecialForm::Quasiquote => if args.len() == 1 {
            lemma_quasi(f, fuel, env, k, out, args[0]);
        },
        SpecialForm::Let => if args.len() >= 2 {
            if let Some((names, exprs)) = let_bindings(args[0]) {
                lemma_list(f, fuel, env, k, out, exprs);
                let (r, env1, out1) = eval_list_spec(f, fuel, env, k, out, exprs);
                if let Ok(vals) = r {
                    let p = Datum::Lambda(names, Box::new(make_list(args.skip(1))), k);
                    lemma_apply(f, fuel, env1, k, out1, p, vals);
                    let (_, env2, out2) = apply_spec(f, fuel, env1, k, out1, p, vals);
                    lemma_changes_trans(env, env1, env2, k);
                    lemma_grows_trans(out, out1, out2);
                }
            }
        },
    }
}

proof fn lemma_quasi<F: Fn(NumQuery) -> NumReply>(f: F, fuel: nat, env: Scopes, k: nat, out: Seq<char>, d: Datum)
    ensures
        stays(env, k, out, (quasi_spec(f, fuel, env, k, out, d).1, quasi_spec(f, fuel, env, k, out, d).2)),
    decreases fuel, 1nat, crate::form::datum_size(d),
{
    lemma_changes_refl(env, k);
    lemma_grows_refl(out);
    if is_tagged(d, "unquote"@) {
        lemma_eval(f, fuel, env, k, out, tagged_arg(d));
    } else {
        match d {
            Datum::Pair(a, rest) => if is_tagged(*a, "unquote-splicing"@) {
                lemma_eval(f, fuel, env, k, out, tagged_arg(*a));
                let (r, env1, out1) = eval_spec(f, fuel, env, k, out, tagged_arg(*a));
                if let Ok(v) = r {
                    if list_items(v) is Some {
                        lemma_quasi(f, fuel, env1, k, out1, *rest);
                        let (_, env2, out2) = quasi_spec(f, fuel, env1, k, out1, *rest);
                        lemma_changes_trans(env, env1, env2, k);
                        lemma_grows_trans(out, out1, out2);
                    }
                }
            } else {
                lemma_quasi(f, fuel, env, k, out, *a);
                let (ra, env1, out1) = quasi_spec(f, fuel, env, k, out, *a);
                if ra is Ok {
                    lemma_quasi(f, fuel, env1, k, out1, *rest);
                    let (_, env2, out2) = quasi_spec(f, fuel, env1, k, out1, *rest);
                    lemma_changes_trans(env, env1, env2, k);
                    lemma_grows_trans(out, out1, out2);
                }
            },
            _ => {},
        }
    }
}

proof fn lemma_cond<F: Fn(NumQuery) -> NumReply>(f: F, fuel: nat, env: Scopes, k: nat, out: Seq<char>, clauses: Seq<Datum>)
    ensures
        stays(env, k, out, (cond_select(f, fuel, env, k, out, clauses).1, cond_select(f, fuel, env, k, out, clauses).2)),
    decreases fuel, 1nat, clauses.len(),
{
    lemma_changes_refl(env, k);
    lemma_grows_refl(out);
    if clauses.len() > 0 {
        if let Some(items) = list_items(clauses[0]) {
            if items.len() > 0 && items[0] != Datum::Symbol("else"@) {
                lemma_eval(f, fuel, env, k, out, items[0]);
                let (r, env1, out1) = eval_spec(f, fuel, env, k, out, items[0]);
                if let Ok(v) = r {
                    if crate::value::is_false_datum(v) {
                        lemma_cond(f, fuel, env1, k, out1, clauses.skip(1));
                        let (_, env2, out2) = cond_select(f, fuel, env1, k, out1, clauses.skip(1));
                        lemma_changes_trans(env, env1, env2, k);
                        lemma_grows_trans(out, out1, out2);
                    }
                }
            }
        }
    }
}

proof fn lemma_builtin<F: Fn(NumQuery) -> NumReply>(f: F, fuel: nat, env: Scopes, k: nat, out: Seq<char>, b: Builtin, args: Seq<Datum>)
    ensures
        stays(env, k, out, (builtin_spec(f, fuel, env, k, out, b, args).1, builtin_spec(f, fuel, env, k, out, b, args).2)),
    decreases fuel, 3nat, 0nat,
{
    lemma_changes_refl(env, k);
    lemma_grows_refl(out);
    match b {
        Builtin::Apply => if args.len() == 2 {
            if let Some(l) = list_items(args[1]) {
                if fuel > 0 {
                    lemma_apply(f, (fuel - 1) as nat, env, k, out, args[0], l);
                }
            }
        },
        Builtin::Eval => if args.len() == 1 {
            lemma_eval(f, fuel, env, k, out, args[0]);
        },
        Builtin::Display => if args.len() == 1 {
            lemma_grows_append(out, crate::builtins::display_text(f, args[0]));
        },
        Builtin::Displayln => if args.len() == 1 {
            let t = crate::builtins::display_text(f, args[0]);
            assert(out + t + seq!['\n'] =~= out + (t + seq!['\n']));
            lemma_grows_append(out, t + seq!['\n']);
        },
        Builtin::Newline => if args.len() == 0 {
            lemma_grows_append(out, seq!['\n']);
        },
        Builtin::Print => {
            lemma_grows_append(out, crate::builtins::print_text(f, args));
        },
        Builtin::MapProc => if args.len() == 2 && fuel > 0 {
            if let Some(items) = list_items(args[1]) {
                lemma_map(f, (fuel - 1) as nat, env, k, out, args[0], items);
            }
        },
        Builtin::FilterProc => if args.len() == 2 && fuel > 0 {
            if let Some(items) = list_items(args[1]) {
                lemma_filter(f, (fuel - 1) as nat, env, k, out, args[0], items);
            }
        },
        Builtin::ReduceProc => if args.len() == 2 && fuel > 0 {
            if let Some(items) = list_items(args[1]) {
                if items.len() > 0 {
                    lemma_reduce(f, (fuel - 1) as nat, env, k, out, args[0], items[0], items.skip(1));
                }
            }
        },
        _ => {},
    }
}

proof fn lemma_map<F: Fn(NumQuery) -> NumReply>(f: F, fuel: nat, env: Scopes, k: nat, out: Seq<char>, p: Datum, items: Seq<Datum>)
    ensures
        stays(env, k, out, (map_spec(f, fuel, env, k, out, p, items).1, map_spec(f, fuel, env, k, out, p, items).2)),
    decreases fuel, 5nat, items.len(),
{
    lemma_changes_refl(env, k);
    lemma_grows_refl(out);
    if items.len() > 0 {
        lemma_apply(f, fuel, env, k, out, p, seq![items[0]]);
        let (r, env1, out1) = apply_spec(f, fuel, env, k, out, p, seq![items[0]]);
        if r is Ok {
            lemma_map(f, fuel, env1, k, out1, p, items.skip(1));
            let (_, env2, out2) = map_spec(f, fuel, env1, k, out1, p, items.skip(1));
            lemma_changes_trans(env, env1, env2, k);
            lemma_grows_trans(out, out1, out2);
        }
    }
}

proof fn lemma_filter<F: Fn(NumQuery) -> NumReply>(f: F, fuel: nat, env: Scopes, k: nat, out: Seq<char>, p: Datum, items: Seq<Datum>)
    ensures
        stays(env, k, out, (filter_spec(f, fuel, env, k, out, p, items).1, filter_spec(f, fuel, env, k, out, p, items).2)),
    decreases fuel, 5nat, items.len(),
{
    lemma_changes_refl(env, k);
    lemma_grows_refl(out);
    if items.len() > 0 {
        lemma_apply(f, fuel, env, k, out, p, seq![items[0]]);
        let (r, env1, out1) = apply_spec(f, fuel, env, k, out, p, seq![items[0]]);
        if r is Ok {
            lemma_filter(f, fuel, env1, k, out1, p, items.skip(1));
            let (_, env2, out2) = filter_spec(f, fuel, env1, k, out1, p, items.skip(1));
            lemma_changes_trans(env, env1, env2, k);
            lemma_grows_trans(out, out1, out2);
        }
    }
}

proof fn lemma_reduce<F: Fn(NumQuery) -> NumReply>(f: F, fuel: nat, env: Scopes, k: nat, out: Seq<char>, p: Datum, acc: Datum, rest: Seq<Datum>)
    ensures
        stays(env, k, out, (reduce_spec(f, fuel, env, k, out, p, acc, rest).1, reduce_spec(f, fuel, env, k, out, p, acc, rest).2)),
    decreases fuel, 5nat, rest.len(),
{
    lemma_changes_refl(env, k);
    lemma_grows_refl(out);
    if rest.len() > 0 {
        lemma_apply(f, fuel, env, k, out, p, seq![acc, rest[0]]);
        let (r, env1, out1) = apply_spec(f, fuel, env, k, out, p, seq![acc, rest[0]]);
        if let Ok(v) = r {
            lemma_reduce(f, fuel, env1, k, out1, p, v, rest.skip(1));
            let (_, env2, out2) = reduce_spec(f, fuel, env1, k, out1, p, v, rest.skip(1));
            lemma_changes_trans(env, env1, env2, k);
            lemma_grows_trans(out, out1, out2);
        }
    }
}

proof fn lemma_apply<F: Fn(NumQuery) -> NumReply>(f: F, fuel: nat, env: Scopes, k: nat, out: Seq<char>, p: Datum, args: Seq<Datum>)
    ensures
        stays(env, k, out, (apply_spec(f, fuel, env, k, out, p, args).1, apply_spec(f, fuel, env, k, out, p, args).2)),
        p is Lambda ==> keeps(env, apply_spec(f, fuel, env, k, out, p, args).1),
    decreases fuel, 4nat, 0nat,
{
    lemma_changes_refl(env, k);
    lemma_grows_refl(out);
    match p {
        Datum::Builtin(b) => {
            lemma_builtin(f, fuel, env, k, out, b, args);
        },
        Datum::Lambda(params, body, scope) => if params.len() == args.len() {
            let es = match list_items(*body) {
                Some(es) => es,
                None => Seq::empty(),
            };
            let x = Scope { bindings: bind_params(params, args), parent: Some(scope) };
            let bound = call_scopes(env, params, args, scope);
            assert(bound == env.push(x));
            lemma_body(f, fuel, bound, env.len(), out, es, Datum::Nil);
            let (_, env1, out1) = eval_body_spec(f, fuel, bound, env.len(), out, es, Datum::Nil);
            lemma_new_scope_keeps(env, x, env1);
            lemma_keeps_changes(env, env1, k);
        } else {
            assert(keeps(env, env));
        },
        _ => {},
    }
}

/// Evaluation in a scope only adds bindings to that scope and adds new
/// scopes; every other scope stays as it was, and the text printed before
/// stays at the front of the output, whatever the result.
pub proof fn law_evaluation_only_extends<F: Fn(NumQuery) -> NumReply>(f: F, fuel: nat, env: Scopes, k: nat, out: Seq<char>, e: Datum)
    ensures
        changes_only(env, eval_spec(f, fuel, env, k, out, e).1, k),
        grows(out, eval_spec(f, fuel, env, k, out, e).2),
{
    lemma_eval(f, fuel, env, k, out, e);
}

/// Calling a procedure made by `lambda` leaves every existing scope as it
/// was: its parameters, and whatever its body defines, live in the new scope
/// of the call, whether it returns a value or fails.
pub proof fn law_call_keeps_scopes<F: Fn(NumQuery) -> NumReply>(f: F, fuel: nat, env: Scopes, k: nat, out: Seq<char>, params: Seq<Seq<char>>, body: Datum, scope: nat, args: Seq<Datum>)
    ensures
        keeps(env, apply_spec(f, fuel, env, k, out, Datum::Lambda(params, Box::new(body), scope), args).1),
{
    lemma_apply(f, fuel, env, k, out, Datum::Lambda(params, Box::new(body), scope), args);
}

proof fn lemma_lookup_absent(bs: Seq<(Seq<char>, Datum)>, name: Seq<char>)
    requires
        forall|i: int| 0 <= i < bs.len() ==> #[trigger] bs[i].0 != name,
    ensures
        lookup(bs, name) is None,
    decreases bs.len(),
{
    if bs.len() > 0 {
        assert(bs.last() == bs[bs.len() - 1]);
        assert forall|i: int| 0 <= i < bs.drop_last().len() implies #[trigger] bs.drop_last()[i].0 != name by {
            assert(bs.drop_last()[i] == bs[i]);
        }
        lemma_lookup_absent(bs.drop_last(), name);
    }
}

proof fn lemma_lookup_unique(bs: Seq<(Seq<char>, Datum)>, name: Seq<char>, j: int)
    requires
        0 <= j < bs.len(),
        bs[j].0 == name,
        forall|i: int| 0 <= i < bs.len() && i != j ==> #[trigger] bs[i].0 != name,
    ensures
        lookup(bs, name) == Some(bs[j].1),
    decreases bs.len(),
{
    if j < bs.len() - 1 {
        assert(bs.last() == bs[bs.len() - 1]);
        assert(bs.drop_last()[j] == bs[j]);
        assert forall|i: int| 0 <= i < bs.drop_last().len() && i != j implies #[trigger] bs.drop_last()[i].0 != name by {
            assert(bs.drop_last()[i] == bs[i]);
        }
        lemma_lookup_unique(bs.drop_last(), name, j);
    }
}

/// Scopes below `k` that are the same in two environments give the same
/// values from any scope below `k`.
proof fn lemma_lookup_below(s: Scopes, t: Scopes, p: nat, k: nat, name: Seq<char>)
    requires
        p < k,
        k <= s.len(),
        k <= t.len(),
        forall|i: int| 0 <= i < k ==> #[trigger] t[i] == s[i],
    ensures
        lookup_in(t, p, name) == lookup_in(s, p, name),
    decreases p,
{
    assert(t[p as int] == s[p as int]);
    match s[p as int].parent {
        Some(q) => if q < p {
            lemma_lookup_below(s, t, q, k, name);
        },
        None => {},
    }
}

/// Names are read where a procedure was made: in the new scope of a call, a
/// parameter is bound to its argument, and any other name has the value it
/// has in the scope the procedure was made in, not in the caller's.
pub proof fn law_body_reads_defining_scope(env: Scopes, params: Seq<Seq<char>>, args: Seq<Datum>, scope: nat, name: Seq<char>)
    requires
        scope < env.len(),
        params.len() == args.len(),
        params.no_duplicates(),
    ensures
        !params.contains(name) ==> lookup_in(call_scopes(env, params, args, scope), env.len(), name) == lookup_in(env, scope, name),
        forall|i: int| 0 <= i < params.len() && params[i] == name
            ==> lookup_in(call_scopes(env, params, args, scope), env.len(), name) == Some(args[i]),
{
    let s2 = call_scopes(env, params, args, scope);
    let bs = bind_params(params, args);
    assert(s2[env.len() as int].bindings == bs);
    assert(s2[env.len() as int].parent == Some(scope));
    if !params.contains(name) {
        assert forall|i: int| 0 <= i < bs.len() implies #[trigger] bs[i].0 != name by {
            assert(bs[i].0 == params[i]);
        }
        lemma_lookup_absent(bs, name);
        assert forall|i: int| 0 <= i < env.len() implies #[trigger] s2[i] == env[i] by {}
        lemma_lookup_below(env, s2, scope, env.len(), name);
    }
    assert forall|i: int| 0 <= i < params.len() && params[i] == name
        implies lookup_in(s2, env.len(), name) == Some(args[i]) by {
        assert forall|j: int| 0 <= j < bs.len() && j != i implies #[trigger] bs[j].0 != name by {
            assert(bs[j].0 == params[j]);
        }
        lemma_lookup_unique(bs, name, i);
    }
}

/// The list `(head args...)`, as the parser reads it.
pub open spec fn call_form(head: Seq<char>, args: Seq<Datum>) -> Datum {
    make_list(seq![Datum::Symbol(head)] + args)
}

proof fn lemma_call_form_items(head: Seq<char>, args: Seq<Datum>)
    ensures
        list_items(call_form(head, args)) == Some(seq![Datum::Symbol(head)] + args),
        (seq![Datum::Symbol(head)] + args)[0] == Datum::Symbol(head),
        (seq![Datum::Symbol(head)] + args).skip(1) == args,
{
    lemma_list_items_make_list(seq![Datum::Symbol(head)] + args);
    assert((seq![Datum::Symbol(head)] + args).skip(1) =~= args);
}

/// Booleans, numbers, strings and built-in procedures evaluate to
/// themselves, and evaluating them changes nothing.
pub proof fn law_self_evaluating<F: Fn(NumQuery) -> NumReply>(f: F, fuel: nat, env: Scopes, k: nat, out: Seq<char>, e: Datum)
    requires
        fuel > 0,
        self_evaluating(e),
    ensures
        eval_spec(f, fuel, env, k, out, e) == (Ok::<Datum, crate::error::Fault>(e), env, out),
{
}

/// A read gives back the latest write: after binding `name` to `v` in a scope
/// (as `define` and [`crate::eval_env::EvalEnv::define`] do), `name` has the
/// value `v` there, and every other name the value it had before.
pub proof fn law_lookup_after_bind(env: Scopes, k: nat, name: Seq<char>, v: Datum, other: Seq<char>)
    requires
        k < env.len(),
    ensures
        lookup_in(define_in(env, k, name, v), k, name) == Some(v),
        other != name ==> lookup_in(define_in(env, k, name, v), k, other) == lookup_in(env, k, other),
{
    let t = define_in(env, k, name, v);
    assert(t[k as int].bindings.drop_last() =~= env[k as int].bindings);
    if other != name {
        match env[k as int].parent {
            Some(p) => if p < k {
                assert forall|i: int| 0 <= i < k implies #[trigger] t[i] == env[i] by {}
                lemma_lookup_below(env, t, p, k, other);
            },
            None => {},
        }
    }
}

/// After `(define name expr)` succeeds in a scope, `name` evaluates there to
/// the value that `expr` evaluated to, and every other name to what it was
/// bound to after `expr` was evaluated; `define` itself yields `()`.
pub proof fn law_define_then_read<F: Fn(NumQuery) -> NumReply>(f: F, fuel: nat, env: Scopes, k: nat, out: Seq<char>, name: Seq<char>, expr: Datum, later: nat, other: Seq<char>)
    requires
        fuel > 0,
        later > 0,
        k < env.len(),
    ensures
        ({
            let (r, env1, out1) = eval_spec(f, fuel, env, k, out, call_form("define"@, seq![Datum::Symbol(name), expr]));
            let (rv, env0, out0) = eval_spec(f, (fuel - 1) as nat, env, k, out, expr);
            &&& r is Ok <==> rv is Ok
            &&& out1 == out0
            &&& rv is Ok ==> {
                &&& r == Ok::<Datum, crate::error::Fault>(Datum::Nil)
                &&& eval_spec(f, later, env1, k, out1, Datum::Symbol(name)) == (Ok::<Datum, crate::error::Fault>(rv->Ok_0), env1, out1)
                &&& (other != name ==> lookup_in(env1, k, other) == lookup_in(env0, k, other))
            }
        }),
{
    lemma_call_form_items("define"@, seq![Datum::Symbol(name), expr]);
    let args = seq![Datum::Symbol(name), expr];
    let e = call_form("define"@, args);
    let items = seq![Datum::Symbol("define"@)] + args;
    assert(e is Pair);
    assert(items[0] is Symbol && items[0]->Symbol_0 == "define"@);
    assert(special_form("define"@) == Some(SpecialForm::Define));
    assert(eval_spec(f, fuel, env, k, out, e) == form_spec(f, (fuel - 1) as nat, SpecialForm::Define, args, env, k, out));
    let (rv, env0, out0) = eval_spec(f, (fuel - 1) as nat, env, k, out, expr);
    if let Ok(v) = rv {
        lemma_eval(f, (fuel - 1) as nat, env, k, out, expr);
        assert(k < env0.len());
        law_lookup_after_bind(env0, k, name, v, other);
        assert(!self_evaluating(Datum::Symbol(name)));
    }
}

/// `(quote x)` evaluates to `x` itself, unevaluated, and changes nothing.
pub proof fn law_quote<F: Fn(NumQuery) -> NumReply>(f: F, fuel: nat, env: Scopes, k: nat, out: Seq<char>, x: Datum)
    requires
        fuel > 0,
    ensures
        eval_spec(f, fuel, env, k, out, call_form("quote"@, seq![x])) == (Ok::<Datum, crate::error::Fault>(x), env, out),
{
    lemma_call_form_items("quote"@, seq![x]);
    reveal_strlit("quote");
    reveal_strlit("define");
    reveal_strlit("lambda");
    assert("quote"@[0] != "define"@[0]);
    assert("quote"@[0] != "lambda"@[0]);
    assert(special_form("quote"@) == Some(SpecialForm::Quote));
    let e = call_form("quote"@, seq![x]);
    let items = seq![Datum::Symbol("quote"@)] + seq![x];
    assert(e is Pair);
    assert(!self_evaluating(e));
    assert(items[0] is Symbol && items[0]->Symbol_0 == "quote"@);
    assert(items.len() == 2);
    assert(quote_spec(items.skip(1)) == Ok::<Datum, crate::error::Fault>(x));
    assert(form_spec(f, (fuel - 1) as nat, SpecialForm::Quote, items.skip(1), env, k, out) == (Ok::<Datum, crate::error::Fault>(x), env, out));
    assert(eval_spec(f, fuel, env, k, out, e) == form_spec(f, (fuel - 1) as nat, SpecialForm::Quote, items.skip(1), env, k, out));
}

/// `(if c a b)` evaluates `b` exactly when `c` evaluates to `#f`: every other
/// value, the empty list among them, counts as true.
pub proof fn law_if_only_false_is_false<F: Fn(NumQuery) -> NumReply>(f: F, fuel: nat, env: Scopes, k: nat, out: Seq<char>, c: Datum, a: Datum, b: Datum)
    requires
        fuel > 0,
    ensures
        ({
            let (rc, env1, out1) = eval_spec(f, (fuel - 1) as nat, env, k, out, c);
            eval_spec(f, fuel, env, k, out, call_form("if"@, seq![c, a, b])) == match rc {
                Err(x) => (Err(x), env1, out1),
                Ok(v) => if v == Datum::Boolean(false) {
                    eval_spec(f, (fuel - 1) as nat, env1, k, out1, b)
                } else {
                    eval_spec(f, (fuel - 1) as nat, env1, k, out1, a)
                },
            }
        }),
{
    lemma_call_form_items("if"@, seq![c, a, b]);
    reveal_strlit("if");
    reveal_strlit("define");
    reveal_strlit("lambda");
    reveal_strlit("quote");
    assert("if"@[0] != "define"@[0]);
    assert("if"@[0] != "lambda"@[0]);
    assert("if"@[0] != "quote"@[0]);
    assert(special_form("if"@) == Some(SpecialForm::If));
    let e = call_form("if"@, seq![c, a, b]);
    let items = seq![Datum::Symbol("if"@)] + seq![c, a, b];
    assert(e is Pair);
    assert(items[0] is Symbol && items[0]->Symbol_0 == "if"@);
    assert(items.skip(1) == seq![c, a, b]);
    assert(eval_spec(f, fuel, env, k, out, e) == form_spec(f, (fuel - 1) as nat, SpecialForm::If, seq![c, a, b], env, k, out));
}

/// `and` stops at the first expression whose value is `#f`: that is its
/// value, and the expressions after it are not evaluated. `(and)` is `#t`.
pub proof fn law_and_short_circuits<F: Fn(NumQuery) -> NumReply>(f: F, fuel: nat, env: Scopes, k: nat, out: Seq<char>, first: Datum, rest: Seq<Datum>)
    requires
        fuel > 0,
    ensures
        eval_spec(f, fuel, env, k, out, call_form("and"@, seq![])) == (Ok::<Datum, crate::error::Fault>(Datum::Boolean(true)), env, out),
        ({
            let (r1, env1, out1) = eval_spec(f, (fuel - 1) as nat, env, k, out, first);
            r1 == Ok::<Datum, crate::error::Fault>(Datum::Boolean(false)) ==>
                eval_spec(f, fuel, env, k, out, call_form("and"@, seq![first] + rest)) == (r1, env1, out1)
        }),
{
    reveal_strlit("and");
    reveal_strlit("define");
    reveal_strlit("lambda");
    reveal_strlit("quote");
    reveal_strlit("if");
    assert("and"@[0] != "define"@[0]);
    assert("and"@[0] != "lambda"@[0]);
    assert("and"@[0] != "quote"@[0]);
    assert("and"@[0] != "if"@[0]);
    assert(special_form("and"@) == Some(SpecialForm::And));
    lemma_call_form_items("and"@, seq![]);
    assert(seq![Datum::Symbol("and"@)] + Seq::<Datum>::empty() =~= seq![Datum::Symbol("and"@)]);
    let e0 = call_form("and"@, seq![]);
    assert(e0 is Pair);
    assert(eval_spec(f, fuel, env, k, out, e0) == form_spec(f, (fuel - 1) as nat, SpecialForm::And, seq![], env, k, out));
    let args = seq![first] + rest;
    lemma_call_form_items("and"@, args);
    let e = call_form("and"@, args);
    assert(e is Pair);
    assert(args[0] == first);
    assert(eval_spec(f, fuel, env, k, out, e) == form_spec(f, (fuel - 1) as nat, SpecialForm::And, args, env, k, out));
}

/// `or` stops at the first expression whose value is not `#f`: that is its
/// value, and the expressions after it are not evaluated. `(or)` is `#f`.
pub proof fn law_or_short_circuits<F: Fn(NumQuery) -> NumReply>(f: F, fuel: nat, env: Scopes, k: nat, out: Seq<char>, first: Datum, rest: Seq<Datum>)
    requires
        fuel > 0,
    ensures
        eval_spec(f, fuel, env, k, out, call_form("or"@, seq![])) == (Ok::<Datum, crate::error::Fault>(Datum::Boolean(false)), env, out),
        ({
            let (r1, env1, out1) = eval_spec(f, (fuel - 1) as nat, env, k, out, first);
            (r1 is Ok && r1->Ok_0 != Datum::Boolean(false)) ==>
                eval_spec(f, fuel, env, k, out, call_form("or"@, seq![first] + rest)) == (r1, env1, out1)
        }),
{
    reveal_strlit("or");
    reveal_strlit("and");
    reveal_strlit("define");
    reveal_strlit("lambda");
    reveal_strlit("quote");
    reveal_strlit("if");
    assert("or"@[0] != "define"@[0]);
    assert("or"@[0] != "lambda"@[0]);
    assert("or"@[0] != "quote"@[0]);
    assert("or"@[0] != "if"@[0]);
    assert("or"@[0] != "and"@[0]);
    assert(special_form("or"@) == Some(SpecialForm::Or));
    lemma_call_form_items("or"@, seq![]);
    let e0 = call_form("or"@, seq![]);
    assert(e0 is Pair);
    assert(eval_spec(f, fuel, env, k, out, e0) == form_spec(f, (fuel - 1) as nat, SpecialForm::Or, seq![], env, k, out));
    let args = seq![first] + rest;
    lemma_call_form_items("or"@, args);
    let e = call_form("or"@, args);
    assert(e is Pair);
    assert(args[0] == first);
    assert(eval_spec(f, fuel, env, k, out, e) == form_spec(f, (fuel - 1) as nat, SpecialForm::Or, args, env, k, out));
}

proof fn lemma_map_len<F: Fn(NumQuery) -> NumReply>(f: F, fuel: nat, env: Scopes, k: nat, out: Seq<char>, p: Datum, items: Seq<Datum>)
    ensures
        map_spec(f, fuel, env, k, out, p, items).0 matches Ok(vs) ==> vs.len() == items.len(),
    decreases items.len(),
{
    if items.len() > 0 {
        let (r, env1, out1) = apply_spec(f, fuel, env, k, out, p, seq![items[0]]);
        if r is Ok {
            lemma_map_len(f, fuel, env1, k, out1, p, items.skip(1));
        }
    }
}

/// `map` gives a list with one element for each element of the list it is
/// given: the result of the procedure on that element.
pub proof fn law_map_one_result_per_element<F: Fn(NumQuery) -> NumReply>(f: F, fuel: nat, env: Scopes, k: nat, out: Seq<char>, p: Datum, items: Seq<Datum>)
    ensures
        map_spec(f, fuel, env, k, out, p, items).0 matches Ok(vs) ==> vs.len() == items.len()
            && list_items(make_list(vs)) == Some(vs),
{
    lemma_map_len(f, fuel, env, k, out, p, items);
    if let Ok(vs) = map_spec(f, fuel, env, k, out, p, items).0 {
        crate::value::lemma_list_items_make_list(vs);
    }
}

/// `let` binds its names only for its body: afterwards every scope is as it
/// was after the initial expressions were evaluated, whatever the body
/// defines and whether or not it fails.
pub proof fn law_let_keeps_scopes<F: Fn(NumQuery) -> NumReply>(f: F, fuel: nat, env: Scopes, k: nat, out: Seq<char>, bindings: Datum, body: Seq<Datum>)
    requires
        fuel > 0,
        body.len() > 0,
        let_bindings(bindings) is Some,
    ensures
        ({
            let exprs = (let_bindings(bindings)->0).1;
            let (ri, env1, out1) = eval_list_spec(f, (fuel - 1) as nat, env, k, out, exprs);
            ri is Ok ==> keeps(env1, eval_spec(f, fuel, env, k, out, call_form("let"@, seq![bindings] + body)).1)
        }),
{
    reveal_strlit("let");
    reveal_strlit("or");
    reveal_strlit("and");
    reveal_strlit("define");
    reveal_strlit("lambda");
    reveal_strlit("quote");
    reveal_strlit("if");
    reveal_strlit("begin");
    reveal_strlit("cond");
    assert("let"@[0] != "define"@[0]);
    assert("let"@[1] != "lambda"@[1]);
    assert("let"@[0] != "quote"@[0]);
    assert("let"@[0] != "if"@[0]);
    assert("let"@[0] != "and"@[0]);
    assert("let"@[0] != "or"@[0]);
    assert("let"@[0] != "begin"@[0]);
    assert("let"@[0] != "cond"@[0]);
    assert(special_form("let"@) == Some(SpecialForm::Let));
    let args = seq![bindings] + body;
    lemma_call_form_items("let"@, args);
    let e = call_form("let"@, args);
    assert(e is Pair);
    assert(args[0] == bindings);
    assert(args.skip(1) =~= body);
    assert(eval_spec(f, fuel, env, k, out, e) == form_spec(f, (fuel - 1) as nat, SpecialForm::Let, args, env, k, out));
    let exprs = (let_bindings(bindings)->0).1;
    let names = (let_bindings(bindings)->0).0;
    let (ri, env1, out1) = eval_list_spec(f, (fuel - 1) as nat, env, k, out, exprs);
    if let Ok(vals) = ri {
        lemma_apply(f, (fuel - 1) as nat, env1, k, out1, Datum::Lambda(names, Box::new(make_list(args.skip(1))), k), vals);
    }
}


proof fn lemma_list_len<F: Fn(NumQuery) -> NumReply>(f: F, fuel: nat, env: Scopes, k: nat, out: Seq<char>, es: Seq<Datum>)
    ensures
        eval_list_spec(f, fuel, env, k, out, es).0 matches Ok(vs) ==> vs.len() == es.len(),
    decreases es.len(),
{
    if es.len() > 0 {
        let (r, env1, out1) = eval_spec(f, fuel, env, k, out, es[0]);
        if r is Ok {
            lemma_list_len(f, fuel, env1, k, out1, es.skip(1));
        }
    }
}

/// A body evaluates as a list of arguments would, keeping the last value.
proof fn lemma_body_is_list<F: Fn(NumQuery) -> NumReply>(f: F, fuel: nat, env: Scopes, k: nat, out: Seq<char>, es: Seq<Datum>, last: Datum)
    ensures
        ({
            let (rl, env1, out1) = eval_list_spec(f, fuel, env, k, out, es);
            eval_body_spec(f, fuel, env, k, out, es, last) == (match rl {
                Ok(vs) => Ok(if vs.len() == 0 { last } else { vs.last() }),
                Err(x) => Err(x),
            }, env1, out1)
        }),
    decreases es.len(),
{
    if es.len() > 0 {
        let (r, env1, out1) = eval_spec(f, fuel, env, k, out, es[0]);
        if let Ok(v) = r {
            lemma_body_is_list(f, fuel, env1, k, out1, es.skip(1), v);
            let (rs, env2, out2) = eval_list_spec(f, fuel, env1, k, out1, es.skip(1));
            if let Ok(ws) = rs {
                assert((seq![v] + ws).len() == ws.len() + 1);
                if ws.len() > 0 {
                    assert((seq![v] + ws).last() == ws.last());
                } else {
                    assert((seq![v] + ws).last() == v);
                }
            }
        }
    }
}

/// `and` over values that are all other than `#f` yields the last of them.
proof fn lemma_and_all_true<F: Fn(NumQuery) -> NumReply>(f: F, fuel: nat, env: Scopes, k: nat, out: Seq<char>, es: Seq<Datum>, last: Datum)
    ensures
        ({
            let (rl, env1, out1) = eval_list_spec(f, fuel, env, k, out, es);
            (rl matches Ok(vs) && forall|i: int| 0 <= i < vs.len() ==> vs[i] != Datum::Boolean(false))
                ==> and_spec(f, fuel, env, k, out, es, last) == (Ok::<Datum, crate::error::Fault>(
                    if rl->Ok_0.len() == 0 { last } else { rl->Ok_0.last() }), env1, out1)
        }),
    decreases es.len(),
{
    if es.len() > 0 {
        let (r, env1, out1) = eval_spec(f, fuel, env, k, out, es[0]);
        if let Ok(v) = r {
            lemma_and_all_true(f, fuel, env1, k, out1, es.skip(1), v);
            let (rs, env2, out2) = eval_list_spec(f, fuel, env1, k, out1, es.skip(1));
            if let Ok(ws) = rs {
                let vs = seq![v] + ws;
                if forall|i: int| 0 <= i < vs.len() ==> vs[i] != Datum::Boolean(false) {
                    assert(vs[0] == v);
                    assert forall|i: int| 0 <= i < ws.len() implies ws[i] != Datum::Boolean(false) by {
                        assert(vs[i + 1] == ws[i]);
                    }
                    if ws.len() > 0 {
                        assert(vs.last() == ws.last());
                    } else {
                        assert(vs.last() == v);
                    }
                }
            }
        }
    }
}

/// When every expression of `(and e1 ... en)`, `n >= 1`, evaluates in turn
/// to a value other than `#f`, the form yields the value of `en`, with the
/// scopes and output that evaluating the expressions in turn leaves.
pub proof fn law_and_yields_last_value<F: Fn(NumQuery) -> NumReply>(f: F, fuel: nat, env: Scopes, k: nat, out: Seq<char>, es: Seq<Datum>)
    requires
        fuel > 0,
        es.len() > 0,
    ensures
        ({
            let (rl, env1, out1) = eval_list_spec(f, (fuel - 1) as nat, env, k, out, es);
            (rl matches Ok(vs) && forall|i: int| 0 <= i < vs.len() ==> vs[i] != Datum::Boolean(false))
                ==> eval_spec(f, fuel, env, k, out, call_form("and"@, es))
                    == (Ok::<Datum, crate::error::Fault>(rl->Ok_0.last()), env1, out1)
        }),
{
    reveal_strlit("and");
    reveal_strlit("define");
    reveal_strlit("lambda");
    reveal_strlit("quote");
    reveal_strlit("if");
    assert("and"@[0] != "define"@[0]);
    assert("and"@[0] != "lambda"@[0]);
    assert("and"@[0] != "quote"@[0]);
    assert("and"@[0] != "if"@[0]);
    assert(special_form("and"@) == Some(SpecialForm::And));
    lemma_call_form_items("and"@, es);
    let e = call_form("and"@, es);
    assert(e is Pair);
    assert(eval_spec(f, fuel, env, k, out, e) == form_spec(f, (fuel - 1) as nat, SpecialForm::And, es, env, k, out));
    lemma_list_len(f, (fuel - 1) as nat, env, k, out, es);
    lemma_and_all_true(f, (fuel - 1) as nat, env, k, out, es, Datum::Boolean(true));
}

/// `(apply p l)` is the call of `p` on the elements of the list `l`, in the
/// order they appear in `l`: it gives what that call gives.
pub proof fn law_apply_calls_with_list_items<F: Fn(NumQuery) -> NumReply>(f: F, fuel: nat, env: Scopes, k: nat, out: Seq<char>, p: Datum, xs: Seq<Datum>)
    requires
        fuel > 0,
    ensures
        apply_spec(f, fuel, env, k, out, Datum::Builtin(Builtin::Apply), seq![p, make_list(xs)])
            == apply_spec(f, (fuel - 1) as nat, env, k, out, p, xs),
{
    lemma_list_items_make_list(xs);
}

/// The result of calling a built-in procedure on two numbers.
pub open spec fn call_on_numbers<F: Fn(NumQuery) -> NumReply>(f: F, fuel: nat, env: Scopes, k: nat, out: Seq<char>, b: Builtin, x: Number, y: Number) -> crate::eval_env::Outcome {
    apply_spec(f, fuel, env, k, out, Datum::Builtin(b), seq![Datum::Numeric(x), Datum::Numeric(y)])
}

/// The comparisons agree with each other and with the backend's order: with
/// a backend for which "less than" is "greater than" turned round and "at
/// least" / "at most" are "greater" / "less" or "equal" (as with IEEE-754
/// numbers, NaN included), `(> x y)` is the backend's "x greater than y",
/// `(< x y)` is `(> y x)`, `(= x y)` is the backend's equality, `(>= x y)` is
/// `(> x y)` or `(= x y)`, and `(<= x y)` is `(< x y)` or `(= x y)`; none of
/// them changes the scopes or the output.
pub proof fn law_comparisons_agree<F: Fn(NumQuery) -> NumReply>(f: F, fuel: nat, env: Scopes, k: nat, out: Seq<char>, x: Number, y: Number)
    requires
        answer_truth(f, NumAsk::Less(x, y)) == answer_truth(f, NumAsk::Greater(y, x)),
        answer_truth(f, NumAsk::GreaterEq(x, y)) == (answer_truth(f, NumAsk::Greater(x, y)) || answer_truth(f, NumAsk::Equal(x, y))),
        answer_truth(f, NumAsk::LessEq(x, y)) == (answer_truth(f, NumAsk::Greater(y, x)) || answer_truth(f, NumAsk::Equal(x, y))),
    ensures
        ({
            let gt = call_on_numbers(f, fuel, env, k, out, Builtin::Gt, x, y);
            let gt_rev = call_on_numbers(f, fuel, env, k, out, Builtin::Gt, y, x);
            let lt = call_on_numbers(f, fuel, env, k, out, Builtin::Lt, x, y);
            let eq = call_on_numbers(f, fuel, env, k, out, Builtin::NumEq, x, y);
            let ge = call_on_numbers(f, fuel, env, k, out, Builtin::Ge, x, y);
            let le = call_on_numbers(f, fuel, env, k, out, Builtin::Le, x, y);
            &&& gt == (Ok::<Datum, crate::error::Fault>(Datum::Boolean(answer_truth(f, NumAsk::Greater(x, y)))), env, out)
            &&& eq == (Ok::<Datum, crate::error::Fault>(Datum::Boolean(answer_truth(f, NumAsk::Equal(x, y)))), env, out)
            &&& lt == gt_rev
            &&& ge == (Ok::<Datum, crate::error::Fault>(Datum::Boolean(
                    gt.0 == Ok::<Datum, crate::error::Fault>(Datum::Boolean(true))
                    || eq.0 == Ok::<Datum, crate::error::Fault>(Datum::Boolean(true)))), env, out)
            &&& le == (Ok::<Datum, crate::error::Fault>(Datum::Boolean(
                    lt.0 == Ok::<Datum, crate::error::Fault>(Datum::Boolean(true))
                    || eq.0 == Ok::<Datum, crate::error::Fault>(Datum::Boolean(true)))), env, out)
        }),
{
}

proof fn lemma_symbols_of_names(names: Seq<Seq<char>>)
    ensures
        symbols_of(names.map_values(|s: Seq<char>| Datum::Symbol(s))) == Some(names),
    decreases names.len(),
{
    let ds = names.map_values(|s: Seq<char>| Datum::Symbol(s));
    if names.len() > 0 {
        assert(ds.skip(1) =~= names.skip(1).map_values(|s: Seq<char>| Datum::Symbol(s)));
        lemma_symbols_of_names(names.skip(1));
        assert(seq![names[0]] + names.skip(1) =~= names);
    }
}

/// A procedure made by `(lambda (p1 ... pm) e1 ... en)` has all of
/// `e1 ... en` as its body: making it changes nothing, and calling it on
/// `m` arguments evaluates each `ei` in turn in a new scope that binds the
/// parameters to the arguments in order (so a definition made by one body
/// expression is seen by the later ones), yielding the value of `en`.
pub proof fn law_lambda_body_runs_in_turn<F: Fn(NumQuery) -> NumReply>(f: F, fuel: nat, env: Scopes, k: nat, out: Seq<char>, params: Seq<Seq<char>>, body: Seq<Datum>, call_fuel: nat, call_env: Scopes, call_k: nat, call_out: Seq<char>, args: Seq<Datum>)
    requires
        fuel > 0,
        body.len() > 0,
        params.len() == args.len(),
    ensures
        ({
            let e = call_form("lambda"@, seq![make_list(params.map_values(|s: Seq<char>| Datum::Symbol(s)))] + body);
            let (r, env1, out1) = eval_spec(f, fuel, env, k, out, e);
            &&& r is Ok
            &&& env1 == env
            &&& out1 == out
            &&& ({
                let (rl, env2, out2) = eval_list_spec(f, call_fuel, call_scopes(call_env, params, args, k), call_env.len(), call_out, body);
                apply_spec(f, call_fuel, call_env, call_k, call_out, r->Ok_0, args) == (match rl {
                    Ok(vs) => Ok(vs.last()),
                    Err(x) => Err(x),
                }, env2, out2)
            })
        }),
{
    reveal_strlit("lambda");
    reveal_strlit("define");
    assert("lambda"@[0] != "define"@[0]);
    assert(special_form("lambda"@) == Some(SpecialForm::Lambda));
    let ps = params.map_values(|s: Seq<char>| Datum::Symbol(s));
    let args0 = seq![make_list(ps)] + body;
    lemma_call_form_items("lambda"@, args0);
    let e = call_form("lambda"@, args0);
    assert(e is Pair);
    assert(eval_spec(f, fuel, env, k, out, e) == form_spec(f, (fuel - 1) as nat, SpecialForm::Lambda, args0, env, k, out));
    lemma_list_items_make_list(ps);
    lemma_symbols_of_names(params);
    assert(args0[0] == make_list(ps));
    assert(args0.skip(1) =~= body);
    lemma_list_items_make_list(body);
    let p = Datum::Lambda(params, Box::new(make_list(body)), k);
    assert(eval_spec(f, fuel, env, k, out, e) == (Ok::<Datum, crate::error::Fault>(p), env, out));
    lemma_body_is_list(f, call_fuel, call_scopes(call_env, params, args, k), call_env.len(), call_out, body, Datum::Nil);
    lemma_list_len(f, call_fuel, call_scopes(call_env, params, args, k), call_env.len(), call_out, body);
}

/// The list of pairs `((n1 e1) ... (nk ek))` that `let` takes.
pub open spec fn let_pairs(names: Seq<Seq<char>>, exprs: Seq<Datum>) -> Datum {
    make_list(Seq::new(names.len(), |i: int| make_list(seq![Datum::Symbol(names[i]), exprs[i]])))
}

proof fn lemma_binding_pairs(names: Seq<Seq<char>>, exprs: Seq<Datum>)
    requires
        names.len() == exprs.len(),
    ensures
        binding_pairs(Seq::new(names.len(), |i: int| make_list(seq![Datum::Symbol(names[i]), exprs[i]])))
            == Some((names, exprs)),
    decreases names.len(),
{
    let items = Seq::new(names.len(), |i: int| make_list(seq![Datum::Symbol(names[i]), exprs[i]]));
    if names.len() > 0 {
        lemma_list_items_make_list(seq![Datum::Symbol(names[0]), exprs[0]]);
        assert(items.skip(1) =~= Seq::new(names.skip(1).len(), |i: int| make_list(seq![Datum::Symbol(names.skip(1)[i]), exprs.skip(1)[i]])));
        lemma_binding_pairs(names.skip(1), exprs.skip(1));
        assert(seq![names[0]] + names.skip(1) =~= names);
        assert(seq![exprs[0]] + exprs.skip(1) =~= exprs);
    }
}

/// `(let ((n1 e1) ... (nk ek)) body...)` evaluates `e1 ... ek` in turn and
/// then the body, expression by expression, in a new scope made in the
/// current one where each `ni` is bound to the value of its own `ei`: the
/// names in the order written, paired position by position with the values.
/// The form yields the value of the last body expression.
pub proof fn law_let_binds_each_name_to_its_value<F: Fn(NumQuery) -> NumReply>(f: F, fuel: nat, env: Scopes, k: nat, out: Seq<char>, names: Seq<Seq<char>>, exprs: Seq<Datum>, body: Seq<Datum>)
    requires
        fuel > 0,
        names.len() == exprs.len(),
        body.len() > 0,
    ensures
        let_bindings(let_pairs(names, exprs)) == Some((names, exprs)),
        ({
            let e = call_form("let"@, seq![let_pairs(names, exprs)] + body);
            let (ri, env1, out1) = eval_list_spec(f, (fuel - 1) as nat, env, k, out, exprs);
            eval_spec(f, fuel, env, k, out, e) == match ri {
                Err(x) => (Err(x), env1, out1),
                Ok(vals) => {
                    let (rl, env2, out2) = eval_list_spec(f, (fuel - 1) as nat, call_scopes(env1, names, vals, k), env1.len(), out1, body);
                    (match rl {
                        Ok(vs) => Ok(vs.last()),
                        Err(x) => Err(x),
                    }, env2, out2)
                },
            }
        }),
{
    let items = Seq::new(names.len(), |i: int| make_list(seq![Datum::Symbol(names[i]), exprs[i]]));
    lemma_list_items_make_list(items);
    lemma_binding_pairs(names, exprs);
    reveal_strlit("let");
    reveal_strlit("or");
    reveal_strlit("and");
    reveal_strlit("define");
    reveal_strlit("lambda");
    reveal_strlit("quote");
    reveal_strlit("if");
    reveal_strlit("begin");
    reveal_strlit("cond");
    assert("let"@[0] != "define"@[0]);
    assert("let"@[1] != "lambda"@[1]);
    assert("let"@[0] != "quote"@[0]);
    assert("let"@[0] != "if"@[0]);
    assert("let"@[0] != "and"@[0]);
    assert("let"@[0] != "or"@[0]);
    assert("let"@[0] != "begin"@[0]);
    assert("let"@[0] != "cond"@[0]);
    assert(special_form("let"@) == Some(SpecialForm::Let));
    let args = seq![let_pairs(names, exprs)] + body;
    lemma_call_form_items("let"@, args);
    let e = call_form("let"@, args);
    assert(e is Pair);
    assert(args[0] == let_pairs(names, exprs));
    assert(args.skip(1) =~= body);
    assert(eval_spec(f, fuel, env, k, out, e) == form_spec(f, (fuel - 1) as nat, SpecialForm::Let, args, env, k, out));
    let (ri, env1, out1) = eval_list_spec(f, (fuel - 1) as nat, env, k, out, exprs);
    lemma_list_len(f, (fuel - 1) as nat, env, k, out, exprs);
    if let Ok(vals) = ri {
        lemma_list_items_make_list(body);
        lemma_body_is_list(f, (fuel - 1) as nat, call_scopes(env1, names, vals, k), env1.len(), out1, body, Datum::Nil);
        lemma_list_len(f, (fuel - 1) as nat, call_scopes(env1, names, vals, k), env1.len(), out1, body);
    }
}


/// Subtraction and division work left to right on the numbers in the order
/// given: `(- a b)` is the backend's `a - b`, `(/ a b)` its `a / b`,
/// `(- a)` its negation of `a`, and `(- a b c)` is `(- (- a b) c)`,
/// `(/ a b c)` is `(/ (/ a b) c)`; none of them changes the scopes or the
/// output.
pub proof fn law_subtraction_and_division_go_left_to_right<F: Fn(NumQuery) -> NumReply>(f: F, fuel: nat, env: Scopes, k: nat, out: Seq<char>, a: Number, b: Number, c: Number)
    requires
        answer_number(f, NumAsk::Sub(a, b)) is Some,
        answer_number(f, NumAsk::Div(a, b)) is Some,
        answer_number(f, NumAsk::Neg(a)) is Some,
    ensures
        apply_spec(f, fuel, env, k, out, Datum::Builtin(Builtin::Sub), seq![Datum::Numeric(a)])
            == (Ok::<Datum, crate::error::Fault>(Datum::Numeric(answer_number(f, NumAsk::Neg(a))->0)), env, out),
        call_on_numbers(f, fuel, env, k, out, Builtin::Sub, a, b)
            == (Ok::<Datum, crate::error::Fault>(Datum::Numeric(answer_number(f, NumAsk::Sub(a, b))->0)), env, out),
        call_on_numbers(f, fuel, env, k, out, Builtin::Div, a, b)
            == (Ok::<Datum, crate::error::Fault>(Datum::Numeric(answer_number(f, NumAsk::Div(a, b))->0)), env, out),
        apply_spec(f, fuel, env, k, out, Datum::Builtin(Builtin::Sub), seq![Datum::Numeric(a), Datum::Numeric(b), Datum::Numeric(c)])
            == call_on_numbers(f, fuel, env, k, out, Builtin::Sub, answer_number(f, NumAsk::Sub(a, b))->0, c),
        apply_spec(f, fuel, env, k, out, Datum::Builtin(Builtin::Div), seq![Datum::Numeric(a), Datum::Numeric(b), Datum::Numeric(c)])
            == call_on_numbers(f, fuel, env, k, out, Builtin::Div, answer_number(f, NumAsk::Div(a, b))->0, c),
{
    let s3 = seq![Datum::Numeric(a), Datum::Numeric(b), Datum::Numeric(c)];
    let s2 = seq![Datum::Numeric(a), Datum::Numeric(b)];
    assert(s3.skip(1) =~= seq![Datum::Numeric(b), Datum::Numeric(c)]);
    assert(s3.skip(1).skip(1) =~= seq![Datum::Numeric(c)]);
    assert(s3.skip(1).skip(1).skip(1) =~= Seq::<Datum>::empty());
    assert(s2.skip(1) =~= seq![Datum::Numeric(b)]);
    assert(s2.skip(1).skip(1) =~= Seq::<Datum>::empty());
    let ab = answer_number(f, NumAsk::Sub(a, b))->0;
    let qb = answer_number(f, NumAsk::Div(a, b))->0;
    let t = seq![Datum::Numeric(ab), Datum::Numeric(c)];
    let u = seq![Datum::Numeric(qb), Datum::Numeric(c)];
    assert(t.skip(1) =~= seq![Datum::Numeric(c)]);
    assert(u.skip(1) =~= seq![Datum::Numeric(c)]);
    let e = Seq::<Datum>::empty();
    assert(crate::builtins::fold_numbers(f, Builtin::Sub, ab, e, "Cannot sub non-number"@) == Ok::<Number, crate::error::Fault>(ab));
    assert(crate::builtins::fold_numbers(f, Builtin::Sub, a, seq![Datum::Numeric(b)], "Cannot sub non-number"@) == Ok::<Number, crate::error::Fault>(ab));
    assert(crate::builtins::fold_numbers(f, Builtin::Div, qb, e, "Cannot div non-number"@) == Ok::<Number, crate::error::Fault>(qb));
    assert(crate::builtins::fold_numbers(f, Builtin::Div, a, seq![Datum::Numeric(b)], "Cannot div non-number"@) == Ok::<Number, crate::error::Fault>(qb));
}

/// `(begin e1 ... en)`, `n >= 1`, evaluates `e1 ... en` in turn and yields
/// the value of `en`, or the first error.
pub proof fn law_begin_yields_last_value<F: Fn(NumQuery) -> NumReply>(f: F, fuel: nat, env: Scopes, k: nat, out: Seq<char>, es: Seq<Datum>)
    requires
        fuel > 0,
        es.len() > 0,
    ensures
        ({
            let (rl, env1, out1) = eval_list_spec(f, (fuel - 1) as nat, env, k, out, es);
            eval_spec(f, fuel, env, k, out, call_form("begin"@, es)) == (match rl {
                Ok(vs) => Ok(vs.last()),
                Err(x) => Err(x),
            }, env1, out1)
        }),
{
    reveal_strlit("begin");
    reveal_strlit("define");
    reveal_strlit("lambda");
    reveal_strlit("quote");
    reveal_strlit("if");
    reveal_strlit("and");
    reveal_strlit("or");
    assert("begin"@[0] != "define"@[0]);
    assert("begin"@[0] != "lambda"@[0]);
    assert("begin"@[0] != "quote"@[0]);
    assert("begin"@[0] != "if"@[0]);
    assert("begin"@[0] != "and"@[0]);
    assert("begin"@[0] != "or"@[0]);
    assert(special_form("begin"@) == Some(SpecialForm::Begin));
    lemma_call_form_items("begin"@, es);
    let e = call_form("begin"@, es);
    assert(e is Pair);
    assert(eval_spec(f, fuel, env, k, out, e) == form_spec(f, (fuel - 1) as nat, SpecialForm::Begin, es, env, k, out));
    lemma_body_is_list(f, (fuel - 1) as nat, env, k, out, es, Datum::Nil);
    lemma_list_len(f, (fuel - 1) as nat, env, k, out, es);
}

/// `(define (name p1 ... pm) e1 ... en)` binds `name`, in the scope where it
/// is evaluated, to the very procedure that `(lambda (p1 ... pm) e1 ... en)`
/// gives there; it yields `()` and writes nothing.
pub proof fn law_define_procedure_is_lambda<F: Fn(NumQuery) -> NumReply>(f: F, fuel: nat, env: Scopes, k: nat, out: Seq<char>, name: Seq<char>, params: Seq<Seq<char>>, body: Seq<Datum>)
    requires
        fuel > 0,
        body.len() > 0,
        k < env.len(),
    ensures
        ({
            let ps = params.map_values(|s: Seq<char>| Datum::Symbol(s));
            let d = call_form("define"@, seq![make_list(seq![Datum::Symbol(name)] + ps)] + body);
            let l = call_form("lambda"@, seq![make_list(ps)] + body);
            let (r, env1, out1) = eval_spec(f, fuel, env, k, out, d);
            let (rl, envl, outl) = eval_spec(f, fuel, env, k, out, l);
            &&& r == Ok::<Datum, crate::error::Fault>(Datum::Nil)
            &&& out1 == out
            &&& rl is Ok
            &&& lookup_in(env1, k, name) == Some(rl->Ok_0)
        }),
{
    reveal_strlit("lambda");
    reveal_strlit("define");
    assert("lambda"@[0] != "define"@[0]);
    assert(special_form("lambda"@) == Some(SpecialForm::Lambda));
    assert(special_form("define"@) == Some(SpecialForm::Define));
    let ps = params.map_values(|s: Seq<char>| Datum::Symbol(s));
    let sig = seq![Datum::Symbol(name)] + ps;
    let dargs = seq![make_list(sig)] + body;
    let largs = seq![make_list(ps)] + body;
    lemma_call_form_items("define"@, dargs);
    lemma_call_form_items("lambda"@, largs);
    let d = call_form("define"@, dargs);
    let l = call_form("lambda"@, largs);
    assert(d is Pair);
    assert(l is Pair);
    assert(eval_spec(f, fuel, env, k, out, d) == form_spec(f, (fuel - 1) as nat, SpecialForm::Define, dargs, env, k, out));
    assert(eval_spec(f, fuel, env, k, out, l) == form_spec(f, (fuel - 1) as nat, SpecialForm::Lambda, largs, env, k, out));
    lemma_list_items_make_list(ps);
    lemma_list_items_make_list(sig);
    lemma_symbols_of_names(params);
    assert(sig.skip(1) =~= ps);
    assert(sig[0] == Datum::Symbol(name));
    assert(dargs[0] == make_list(sig));
    assert(largs[0] == make_list(ps));
    assert(dargs.skip(1) =~= body);
    assert(largs.skip(1) =~= body);
    assert(make_list(sig) is Pair);
    let p = Datum::Lambda(params, Box::new(make_list(body)), k);
    assert(eval_spec(f, fuel, env, k, out, l) == (Ok::<Datum, crate::error::Fault>(p), env, out));
    assert(eval_spec(f, fuel, env, k, out, d) == (Ok::<Datum, crate::error::Fault>(Datum::Nil), define_in(env, k, name, p), out));
    law_lookup_after_bind(env, k, name, p, name);
}

} // verus!
