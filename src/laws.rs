//! Properties of the reader and the evaluator, proved over their models.
use vstd::prelude::*;

use crate::read::read_text;
use crate::token::{concat, grapheme_clusters, lex, lex_from, spec_is_whitespace, Kind};
use crate::semantics::{
    apply_primitive, apply_special, bind_builtins, define, import_public, load_core, new_context, bind_params, builtin_call, candidates, eval_body, eval_forms,
    eval_seq, eval_value, function_call, import_core, load, mark_loaded, min_len, resolve, split_slash, ContextModel,
    EvalError, SourceTextModel,
};
use crate::value::{BuiltinId, FunctionValue, Value, Visibility};

verus! {

/// Reading a text yields either its values or a non-empty list of errors.
pub proof fn law_read_values_or_errors(s: Seq<char>)
    ensures
        read_text(s) is Err ==> read_text(s)->Err_0.len() > 0,
{
}

/// Evaluation is a function of the context and the value: equal inputs give
/// equal results and equal resulting contexts.
pub proof fn law_eval_deterministic(c1: ContextModel, c2: ContextModel, v1: Value, v2: Value, f: nat)
    requires
        c1 == c2,
        v1 == v2,
    ensures
        eval_value(c1, v1, f) == eval_value(c2, v2, f),
{
}

/// A text without a slash is one piece.
pub proof fn lemma_split_without_slash(s: Seq<char>)
    requires
        !s.contains('/'),
    ensures
        split_slash(s) == seq![s],
    decreases s.len(),
{
    if s.len() == 0 {
        assert(s =~= Seq::<char>::empty());
    } else {
        let p = s.drop_last();
        assert(!p.contains('/')) by {
            if p.contains('/') {
                let i = choose|i: int| 0 <= i < p.len() && p[i] == '/';
                assert(s[i] == '/');
            }
        }
        lemma_split_without_slash(p);
        assert(s[s.len() - 1] == s.last());
        assert(p.push(s.last()) =~= s);
        assert(seq![p].update(0, p.push(s.last())) =~= seq![s]);
    }
}

/// A symbol without a module prefix resolves to a definition of the current
/// module or to a non-Private one, as long as the core module holds no
/// Private definition: it never reaches another module's Private definition.
pub proof fn law_unqualified_resolution_is_not_private(c: ContextModel, s: Seq<char>)
    requires
        !s.contains('/'),
        forall|n: Seq<char>| c.defs.contains_key((c.core, n)) ==> #[trigger] c.defs[(c.core, n)].1 != Visibility::Private,
    ensures
        resolve(c, s) is Ok ==> exists|m: Seq<char>|
            c.defs.contains_key((m, s)) && #[trigger] c.defs[(m, s)].0 == resolve(c, s)->Ok_0 && (m == c.current
                || c.defs[(m, s)].1 != Visibility::Private),
{
    lemma_split_without_slash(s);
    if resolve(c, s) is Ok {
        if c.defs.contains_key((c.current, s)) {
            assert(c.defs[(c.current, s)].0 == resolve(c, s)->Ok_0);
        } else {
            assert(c.defs.contains_key((c.core, s)));
            assert(c.defs[(c.core, s)].0 == resolve(c, s)->Ok_0);
        }
    }
}

/// The form `(def s e)`, with the `def` builtin at its head.
pub open spec fn def_form(s: Seq<char>, e: Value) -> Value {
    Value::List(seq![Value::Builtin(BuiltinId::Def), Value::Symbol(s), e])
}

/// `(def s e)` returns `s` once `e` evaluates; `s` then evaluates to `e`'s
/// value, and a second `(def s ...)` fails with `Redefine`.
pub proof fn law_def_then_lookup(c: ContextModel, s: Seq<char>, e: Value, e2: Value, f: nat)
    requires
        f >= 2,
        !s.contains('/'),
        !c.defs.contains_key((c.core, s)),
        !c.defs.contains_key((c.current, s)),
    ensures
        ({
            let (c1, r1) = eval_value(c, def_form(s, e), f);
            let re = eval_value(c, e, (f - 1) as nat).1;
            &&& r1 == (match re {
                Ok(_) => Ok(Value::Symbol(s)),
                Err(x) => Err(x),
            })
            &&& re is Ok ==> eval_value(c1, Value::Symbol(s), f) == (c1, re)
            &&& (re is Ok && !c1.defs.contains_key((c1.core, s))) ==> eval_value(c1, def_form(s, e2), f) == (
                c1,
                Err::<Value, EvalError>(EvalError::Redefine(s)),
            )
        }),
{
    let g = (f - 1) as nat;
    let xs = seq![Value::Builtin(BuiltinId::Def), Value::Symbol(s), e];
    assert(xs.drop_first() =~= seq![Value::Symbol(s), e]);
    assert(eval_value(c, Value::Builtin(BuiltinId::Def), g) == (c, Ok::<Value, EvalError>(Value::Builtin(BuiltinId::Def))));
    assert(eval_value(c, def_form(s, e), f) == builtin_call(c, BuiltinId::Def, seq![Value::Symbol(s), e], g));
    assert(builtin_call(c, BuiltinId::Def, seq![Value::Symbol(s), e], g) == apply_special(
        c,
        BuiltinId::Def,
        seq![Value::Symbol(s), e],
        g,
    ));
    let (c1, r1) = eval_value(c, def_form(s, e), f);
    let (ce, re) = eval_value(c, e, g);
    if re is Ok {
        lemma_split_without_slash(s);
        assert(c1.defs.contains_key((c1.current, s)));
        assert(resolve(c1, s) == re);
        let ys = seq![Value::Builtin(BuiltinId::Def), Value::Symbol(s), e2];
        assert(ys.drop_first() =~= seq![Value::Symbol(s), e2]);
        assert(eval_value(c1, Value::Builtin(BuiltinId::Def), g) == (c1, Ok::<Value, EvalError>(Value::Builtin(BuiltinId::Def))));
        assert(eval_value(c1, def_form(s, e2), f) == builtin_call(c1, BuiltinId::Def, seq![Value::Symbol(s), e2], g));
        assert(builtin_call(c1, BuiltinId::Def, seq![Value::Symbol(s), e2], g) == apply_special(
            c1,
            BuiltinId::Def,
            seq![Value::Symbol(s), e2],
            g,
        ));
    }
}

/// A user function called with fewer or more arguments than its arity fails
/// with `FnTooFewArgs` or `FnTooManyArgs` and changes nothing; called with
/// exactly its arity, it yields what its body yields on the evaluated arguments.
pub proof fn law_function_arity(c: ContextModel, g: FunctionValue, args: Seq<Value>, f: nat)
    ensures
        args.len() < g.arity ==> function_call(c, g, args, f) == (
            c,
            Err::<Value, EvalError>(EvalError::FnTooFewArgs(g, g.arity, args.len() as usize)),
        ),
        args.len() > g.arity ==> function_call(c, g, args, f) == (
            c,
            Err::<Value, EvalError>(EvalError::FnTooManyArgs(g, g.arity, args.len() as usize)),
        ),
        args.len() == g.arity ==> function_call(c, g, args, f).1 == (match eval_seq(c, args, f) {
            (c1, Ok(vs)) => eval_body(
                bind_params(
                    ContextModel { current: g.module, ..c1 },
                    g.module,
                    g.bindings,
                    vs,
                    min_len(g.bindings.len(), vs.len()),
                ),
                g.body,
                f,
            ).1,
            (_, Err(e)) => Err(e),
        }),
{
}

/// `apply` on a callable and a list is the call of that callable on the
/// list's elements, one level of depth down.
pub proof fn law_apply_is_call(c: ContextModel, b: BuiltinId, g: FunctionValue, items: Seq<Value>, f: nat)
    ensures
        apply_primitive(c, BuiltinId::Apply, seq![Value::Builtin(b), Value::List(items)], f + 1) == builtin_call(
            c,
            b,
            items,
            f,
        ),
        apply_primitive(c, BuiltinId::Apply, seq![Value::Function(g), Value::List(items)], f + 1) == function_call(
            c,
            g,
            items,
            f,
        ),
{
    assert(eval_value(c, Value::Builtin(b), f + 1) == (c, Ok::<Value, EvalError>(Value::Builtin(b))));
    assert(eval_value(c, Value::Function(g), f + 1) == (c, Ok::<Value, EvalError>(Value::Function(g))));
}

/// Every module loaded in `a` is loaded in `b`, and both see the same module sources.
pub open spec fn keeps_modules(a: ContextModel, b: ContextModel) -> bool {
    &&& forall|x: Seq<char>| a.loaded.contains(x) ==> #[trigger] b.loaded.contains(x)
    &&& a.sources == b.sources
}

pub proof fn lemma_bind_params_loaded(c: ContextModel, m: Seq<char>, ns: Seq<Seq<char>>, vs: Seq<Value>, k: int)
    ensures
        bind_params(c, m, ns, vs, k).loaded == c.loaded,
        bind_params(c, m, ns, vs, k).sources == c.sources,
    decreases k,
{
    if k > 0 {
        lemma_bind_params_loaded(c, m, ns, vs, k - 1);
    }
}

proof fn lemma_import_public_loaded(c: ContextModel, m: Seq<char>, k: int)
    ensures
        import_public(c, m, k).loaded == c.loaded,
        import_public(c, m, k).sources == c.sources,
    decreases k,
{
    if k > 0 && k <= c.keys.len() {
        lemma_import_public_loaded(c, m, k - 1);
    }
}

proof fn lemma_enter_module(c: ContextModel, m: Seq<char>)
    ensures
        keeps_modules(c, import_core(ContextModel { current: m, ..mark_loaded(c, m) })),
        import_core(ContextModel { current: m, ..mark_loaded(c, m) }).loaded.contains(m),
{
    let d = ContextModel { current: m, ..mark_loaded(c, m) };
    lemma_import_public_loaded(d, d.core, d.keys.len() as int);
    if !c.loaded.contains(m) {
        assert(d.loaded == c.loaded.push(m));
        assert(d.loaded[c.loaded.len() as int] == m);
        assert forall|x: Seq<char>| c.loaded.contains(x) implies #[trigger] d.loaded.contains(x) by {
            let i = choose|i: int| 0 <= i < c.loaded.len() && c.loaded[i] == x;
            assert(d.loaded[i] == x);
        }
    }
}

proof fn lemma_value_keeps_modules(c: ContextModel, v: Value, f: nat)
    ensures
        keeps_modules(c, eval_value(c, v, f).0),
    decreases f, 0nat, 0nat,
{
    if f > 0 {
        match v {
            Value::List(xs) => {
                if xs.len() > 0 {
                    lemma_value_keeps_modules(c, xs[0], (f - 1) as nat);
                    let (c1, h) = eval_value(c, xs[0], (f - 1) as nat);
                    match h {
                        Ok(Value::Builtin(b)) => lemma_builtin_keeps_modules(c1, b, xs.drop_first(), (f - 1) as nat),
                        Ok(Value::Function(g)) => lemma_function_keeps_modules(c1, g, xs.drop_first(), (f - 1) as nat),
                        _ => {},
                    }
                }
            },
            Value::Vector(xs) => lemma_seq_keeps_modules(c, xs, (f - 1) as nat),
            _ => {},
        }
    }
}

proof fn lemma_seq_keeps_modules(c: ContextModel, xs: Seq<Value>, f: nat)
    ensures
        keeps_modules(c, eval_seq(c, xs, f).0),
    decreases f, 1nat, xs.len(),
{
    if xs.len() > 0 {
        lemma_seq_keeps_modules(c, xs.drop_last(), f);
        let (c1, r) = eval_seq(c, xs.drop_last(), f);
        if r is Ok {
            lemma_value_keeps_modules(c1, xs.last(), f);
        }
    }
}

/// Evaluating a body keeps every loaded module and the module sources.
pub proof fn lemma_body_keeps_modules(c: ContextModel, xs: Seq<Value>, f: nat)
    ensures
        keeps_modules(c, eval_body(c, xs, f).0),
    decreases f, 1nat, xs.len(),
{
    if xs.len() > 0 {
        lemma_body_keeps_modules(c, xs.drop_last(), f);
        let (c1, r) = eval_body(c, xs.drop_last(), f);
        if r is Ok {
            lemma_value_keeps_modules(c1, xs.last(), f);
        }
    }
}

proof fn lemma_forms_keep_modules(c: ContextModel, xs: Seq<Value>, f: nat)
    ensures
        keeps_modules(c, eval_forms(c, xs, f).0),
    decreases f, 1nat, xs.len(),
{
    if xs.len() > 0 {
        lemma_forms_keep_modules(c, xs.drop_last(), f);
        let (c1, es) = eval_forms(c, xs.drop_last(), f);
        lemma_value_keeps_modules(c1, xs.last(), f);
    }
}

proof fn lemma_load_keeps_modules(c: ContextModel, m: Seq<char>, f: nat)
    ensures
        keeps_modules(c, load(c, m, f).0),
        load(c, m, f).1 is Ok ==> load(c, m, f).0.loaded.contains(m) && load(c, m, f).0.current != m,
    decreases f, 2nat, 0nat,
{
    if m != c.current && !c.loaded.contains(m) {
        let cands = candidates(c.sources, c.module_paths, m);
        if cands.len() == 1 {
            if let SourceTextModel::Text(t) = cands[0].text {
                if let Ok(forms) = read_text(t) {
                    let child = import_core(ContextModel { current: m, ..mark_loaded(c, m) });
                    lemma_enter_module(c, m);
                    lemma_forms_keep_modules(child, forms, f);
                }
            }
        }
    }
}

proof fn lemma_special_keeps_modules(c: ContextModel, b: BuiltinId, args: Seq<Value>, f: nat)
    ensures
        keeps_modules(c, apply_special(c, b, args, f).0),
    decreases f, 3nat, 0nat,
{
    match b {
        BuiltinId::Def => {
            lemma_value_keeps_modules(c, args[1], f);
        },
        BuiltinId::If => {
            lemma_value_keeps_modules(c, args[0], f);
            let (c1, r) = eval_value(c, args[0], f);
            lemma_value_keeps_modules(c1, args[1], f);
            lemma_value_keeps_modules(c1, args[2], f);
        },
        BuiltinId::Module => {
            if let Value::Symbol(m) = args[0] {
                lemma_enter_module(c, m);
            }
        },
        BuiltinId::Import => {
            if let Value::Symbol(m) = args[0] {
                lemma_load_keeps_modules(c, m, f);
                let (c1, r) = load(c, m, f);
                lemma_import_public_loaded(c1, m, c1.keys.len() as int);
            }
        },
        _ => {},
    }
}

proof fn lemma_primitive_keeps_modules(c: ContextModel, b: BuiltinId, vs: Seq<Value>, f: nat)
    ensures
        keeps_modules(c, apply_primitive(c, b, vs, f).0),
    decreases f, 3nat, 0nat,
{
    if b == BuiltinId::Apply {
        lemma_value_keeps_modules(c, vs[0], f);
        let (c1, h) = eval_value(c, vs[0], f);
        if f > 0 {
            if let Value::List(items) = vs[1] {
                match h {
                    Ok(Value::Builtin(g)) => lemma_builtin_keeps_modules(c1, g, items, (f - 1) as nat),
                    Ok(Value::Function(g)) => lemma_function_keeps_modules(c1, g, items, (f - 1) as nat),
                    _ => {},
                }
            }
        }
    }
}

proof fn lemma_builtin_keeps_modules(c: ContextModel, b: BuiltinId, args: Seq<Value>, f: nat)
    ensures
        keeps_modules(c, builtin_call(c, b, args, f).0),
    decreases f, 4nat, 0nat,
{
    lemma_special_keeps_modules(c, b, args, f);
    lemma_seq_keeps_modules(c, args, f);
    let (c1, r) = eval_seq(c, args, f);
    if let Ok(vs) = r {
        lemma_primitive_keeps_modules(c1, b, vs, f);
    }
}

proof fn lemma_function_keeps_modules(c: ContextModel, g: FunctionValue, args: Seq<Value>, f: nat)
    ensures
        keeps_modules(c, function_call(c, g, args, f).0),
    decreases f, 4nat, 0nat,
{
    lemma_seq_keeps_modules(c, args, f);
}

/// Loading a module that loaded successfully again changes nothing and succeeds.
pub proof fn law_load_idempotent(c: ContextModel, m: Seq<char>, f: nat)
    ensures
        load(c, m, f).1 is Ok ==> load(load(c, m, f).0, m, f) == (load(c, m, f).0, Ok::<Value, EvalError>(Value::Symbol(m))),
{
    lemma_load_keeps_modules(c, m, f);
}

/// A context is well formed when its key order lists every bound key exactly once.
pub open spec fn well_formed(c: ContextModel) -> bool {
    &&& c.keys.no_duplicates()
    &&& forall|k: (Seq<char>, Seq<char>)| #[trigger] c.defs.contains_key(k) <==> c.keys.contains(k)
}

proof fn lemma_define_wf(c: ContextModel, m: Seq<char>, n: Seq<char>, v: Value, vis: Visibility)
    requires
        well_formed(c),
    ensures
        well_formed(define(c, m, n, v, vis)),
        define(c, m, n, v, vis).loaded == c.loaded,
{
    let d = define(c, m, n, v, vis);
    if !c.defs.contains_key((m, n)) {
        assert(d.keys == c.keys.push((m, n)));
        assert(!c.keys.contains((m, n)));
        assert forall|k: (Seq<char>, Seq<char>)| #[trigger] d.defs.contains_key(k) <==> d.keys.contains(k) by {
            if d.keys.contains(k) && k != (m, n) {
                let i = choose|i: int| 0 <= i < d.keys.len() && d.keys[i] == k;
                assert(c.keys[i] == k);
            }
            if c.keys.contains(k) {
                let i = choose|i: int| 0 <= i < c.keys.len() && c.keys[i] == k;
                assert(d.keys[i] == k);
            }
            if k == (m, n) {
                assert(d.keys[c.keys.len() as int] == k);
            }
        }
    }
}

proof fn lemma_bind_builtins_wf(c: ContextModel, m: Seq<char>, vis: Visibility, k: int)
    requires
        well_formed(c),
    ensures
        well_formed(bind_builtins(c, m, vis, k)),
    decreases k,
{
    if k > 0 {
        lemma_bind_builtins_wf(c, m, vis, k - 1);
        let b = crate::value::core_table()[k - 1];
        lemma_define_wf(bind_builtins(c, m, vis, k - 1), m, crate::value::builtin_name(b), Value::Builtin(b), vis);
    }
}

proof fn lemma_import_public_wf(c: ContextModel, m: Seq<char>, k: int)
    requires
        well_formed(c),
    ensures
        well_formed(import_public(c, m, k)),
    decreases k,
{
    if k > 0 && k <= c.keys.len() {
        lemma_import_public_wf(c, m, k - 1);
        let c1 = import_public(c, m, k - 1);
        let key = c.keys[k - 1];
        lemma_define_wf(c1, c1.current, key.1, c.defs[key].0, Visibility::Imported);
    }
}

proof fn lemma_enter_module_wf(c: ContextModel, m: Seq<char>)
    requires
        well_formed(c),
    ensures
        well_formed(import_core(ContextModel { current: m, ..mark_loaded(c, m) })),
{
    let d = ContextModel { current: m, ..mark_loaded(c, m) };
    lemma_import_public_wf(d, d.core, d.keys.len() as int);
}

proof fn lemma_value_wf(c: ContextModel, v: Value, f: nat)
    requires
        well_formed(c),
    ensures
        well_formed(eval_value(c, v, f).0),
    decreases f, 0nat, 0nat,
{
    if f > 0 {
        match v {
            Value::List(xs) => {
                if xs.len() > 0 {
                    lemma_value_wf(c, xs[0], (f - 1) as nat);
                    let (c1, h) = eval_value(c, xs[0], (f - 1) as nat);
                    match h {
                        Ok(Value::Builtin(b)) => lemma_builtin_wf(c1, b, xs.drop_first(), (f - 1) as nat),
                        Ok(Value::Function(g)) => lemma_function_wf(c1, g, xs.drop_first(), (f - 1) as nat),
                        _ => {},
                    }
                }
            },
            Value::Vector(xs) => lemma_seq_wf(c, xs, (f - 1) as nat),
            _ => {},
        }
    }
}

proof fn lemma_seq_wf(c: ContextModel, xs: Seq<Value>, f: nat)
    requires
        well_formed(c),
    ensures
        well_formed(eval_seq(c, xs, f).0),
    decreases f, 1nat, xs.len(),
{
    if xs.len() > 0 {
        lemma_seq_wf(c, xs.drop_last(), f);
        let (c1, r) = eval_seq(c, xs.drop_last(), f);
        if r is Ok {
            lemma_value_wf(c1, xs.last(), f);
        }
    }
}

proof fn lemma_forms_wf(c: ContextModel, xs: Seq<Value>, f: nat)
    requires
        well_formed(c),
    ensures
        well_formed(eval_forms(c, xs, f).0),
    decreases f, 1nat, xs.len(),
{
    if xs.len() > 0 {
        lemma_forms_wf(c, xs.drop_last(), f);
        let (c1, es) = eval_forms(c, xs.drop_last(), f);
        lemma_value_wf(c1, xs.last(), f);
    }
}

proof fn lemma_load_wf(c: ContextModel, m: Seq<char>, f: nat)
    requires
        well_formed(c),
    ensures
        well_formed(load(c, m, f).0),
    decreases f, 2nat, 0nat,
{
    if m != c.current && !c.loaded.contains(m) {
        let cands = candidates(c.sources, c.module_paths, m);
        if cands.len() == 1 {
            if let SourceTextModel::Text(t) = cands[0].text {
                if let Ok(forms) = read_text(t) {
                    let child = import_core(ContextModel { current: m, ..mark_loaded(c, m) });
                    lemma_enter_module_wf(c, m);
                    lemma_forms_wf(child, forms, f);
                }
            }
        }
    }
}

proof fn lemma_special_wf(c: ContextModel, b: BuiltinId, args: Seq<Value>, f: nat)
    requires
        well_formed(c),
    ensures
        well_formed(apply_special(c, b, args, f).0),
    decreases f, 3nat, 0nat,
{
    match b {
        BuiltinId::Def => {
            lemma_value_wf(c, args[1], f);
            let (c1, r) = eval_value(c, args[1], f);
            if let (Value::Symbol(n), Ok(v)) = (args[0], r) {
                lemma_define_wf(c1, c1.current, n, v, Visibility::Private);
            }
        },
        BuiltinId::If => {
            lemma_value_wf(c, args[0], f);
            let (c1, r) = eval_value(c, args[0], f);
            lemma_value_wf(c1, args[1], f);
            lemma_value_wf(c1, args[2], f);
        },
        BuiltinId::Module => {
            if let Value::Symbol(m) = args[0] {
                lemma_enter_module_wf(c, m);
            }
        },
        BuiltinId::Import => {
            if let Value::Symbol(m) = args[0] {
                lemma_load_wf(c, m, f);
                let (c1, r) = load(c, m, f);
                lemma_import_public_wf(c1, m, c1.keys.len() as int);
            }
        },
        _ => {},
    }
}

proof fn lemma_primitive_wf(c: ContextModel, b: BuiltinId, vs: Seq<Value>, f: nat)
    requires
        well_formed(c),
    ensures
        well_formed(apply_primitive(c, b, vs, f).0),
    decreases f, 3nat, 0nat,
{
    if b == BuiltinId::Apply {
        lemma_value_wf(c, vs[0], f);
        let (c1, h) = eval_value(c, vs[0], f);
        if f > 0 {
            if let Value::List(items) = vs[1] {
                match h {
                    Ok(Value::Builtin(g)) => lemma_builtin_wf(c1, g, items, (f - 1) as nat),
                    Ok(Value::Function(g)) => lemma_function_wf(c1, g, items, (f - 1) as nat),
                    _ => {},
                }
            }
        }
    }
}

proof fn lemma_builtin_wf(c: ContextModel, b: BuiltinId, args: Seq<Value>, f: nat)
    requires
        well_formed(c),
    ensures
        well_formed(builtin_call(c, b, args, f).0),
    decreases f, 4nat, 0nat,
{
    lemma_special_wf(c, b, args, f);
    lemma_seq_wf(c, args, f);
    let (c1, r) = eval_seq(c, args, f);
    if let Ok(vs) = r {
        lemma_primitive_wf(c1, b, vs, f);
    }
}

proof fn lemma_function_wf(c: ContextModel, g: FunctionValue, args: Seq<Value>, f: nat)
    requires
        well_formed(c),
    ensures
        well_formed(function_call(c, g, args, f).0),
    decreases f, 4nat, 0nat,
{
    lemma_seq_wf(c, args, f);
}

/// A fresh context is well formed, and so are registering the core module,
/// importing it, and evaluating any value in a well-formed context.
pub proof fn law_well_formed_contexts(m: Seq<char>, c: ContextModel, v: Value, f: nat)
    requires
        well_formed(c),
    ensures
        well_formed(new_context(m)),
        well_formed(load_core(c)),
        well_formed(import_core(c)),
        well_formed(eval_value(c, v, f).0),
{
    let n = new_context(m);
    assert(n.keys =~= Seq::<(Seq<char>, Seq<char>)>::empty());
    assert(n.defs =~= Map::<(Seq<char>, Seq<char>), (Value, Visibility)>::empty());
    lemma_bind_builtins_wf(c, c.core, Visibility::Public, crate::value::core_table().len() as int);
    lemma_import_public_wf(c, c.core, c.keys.len() as int);
    lemma_value_wf(c, v, f);
}

proof fn lemma_concat_blank(gs: Seq<Seq<char>>)
    requires
        forall|i: int| 0 <= i < concat(gs).len() ==> spec_is_whitespace(#[trigger] concat(gs)[i]),
    ensures
        forall|k: int, j: int| 0 <= k < gs.len() && 0 <= j < gs[k].len() ==> spec_is_whitespace(#[trigger] gs[k][j]),
    decreases gs.len(),
{
    if gs.len() > 0 {
        let p = gs.drop_last();
        let c = concat(p);
        assert(concat(gs) == c + gs.last());
        assert forall|i: int| 0 <= i < c.len() implies spec_is_whitespace(#[trigger] c[i]) by {
            assert(concat(gs)[i] == c[i]);
        }
        lemma_concat_blank(p);
        assert forall|k: int, j: int| 0 <= k < gs.len() && 0 <= j < gs[k].len() implies spec_is_whitespace(
            #[trigger] gs[k][j],
        ) by {
            if k < gs.len() - 1 {
                assert(gs[k] == p[k]);
            } else {
                assert(concat(gs)[c.len() + j] == gs[k][j]);
            }
        }
    }
}

proof fn lemma_blank_lex(gs: Seq<Seq<char>>, i: int)
    requires
        0 <= i <= gs.len(),
        forall|k: int| 0 <= k < gs.len() ==> (#[trigger] gs[k]).len() > 0 && spec_is_whitespace(gs[k][0]),
    ensures
        lex_from(gs, i, Kind::Empty, seq![]) == Seq::<(Kind, Seq<char>)>::empty(),
    decreases gs.len() - i,
{
    if i < gs.len() {
        lemma_blank_lex(gs, i + 1);
    }
}

/// A text of whitespace only has no tokens (given the segmentation facts that
/// `tokenize` states: the clusters spell the text and none is empty).
pub proof fn law_blank_text_has_no_tokens(s: Seq<char>)
    requires
        forall|i: int| 0 <= i < s.len() ==> spec_is_whitespace(#[trigger] s[i]),
        concat(grapheme_clusters(s)) == s,
        forall|k: int| 0 <= k < grapheme_clusters(s).len() ==> (#[trigger] grapheme_clusters(s)[k]).len() > 0,
    ensures
        lex(s) == Seq::<(Kind, Seq<char>)>::empty(),
{
    let gs = grapheme_clusters(s);
    lemma_concat_blank(gs);
    assert forall|k: int| 0 <= k < gs.len() implies (#[trigger] gs[k]).len() > 0 && spec_is_whitespace(gs[k][0]) by {
        assert(gs[k][0] == gs[k][0]);
    }
    lemma_blank_lex(gs, 0);
}

/// The form `(apply g '(a ...))` evaluates as the form `(g a ...)` does with one
/// level less of depth, for a builtin or function value `g`: same result, same
/// errors, same resulting context.
pub proof fn law_apply_form_is_call_form(c: ContextModel, g: Value, items: Seq<Value>, f: nat)
    requires
        f >= 2,
        g is Builtin || g is Function,
    ensures
        eval_value(
            c,
            Value::List(seq![Value::Builtin(BuiltinId::Apply), g, Value::Quote(Box::new(Value::List(items)))]),
            f + 1,
        ) == eval_value(c, Value::List(seq![g] + items), f),
{
    let form = seq![Value::Builtin(BuiltinId::Apply), g, Value::Quote(Box::new(Value::List(items)))];
    let args = seq![g, Value::Quote(Box::new(Value::List(items)))];
    assert(form.drop_first() =~= args);
    assert((seq![g] + items).drop_first() =~= items);
    assert((seq![g] + items)[0] == g);
    assert(eval_value(c, Value::Builtin(BuiltinId::Apply), f) == (c, Ok::<Value, EvalError>(Value::Builtin(BuiltinId::Apply))));
    assert(eval_value(c, g, f) == (c, Ok::<Value, EvalError>(g)));
    assert(eval_value(c, g, (f - 1) as nat) == (c, Ok::<Value, EvalError>(g)));
    assert(args.drop_last() =~= seq![g]);
    assert(seq![g].drop_last() =~= Seq::<Value>::empty());
    assert(eval_seq(c, Seq::<Value>::empty(), f) == (c, Ok::<Seq<Value>, EvalError>(Seq::<Value>::empty())));
    assert(Seq::<Value>::empty().push(g) =~= seq![g]);
    assert(seq![g].last() == g);
    assert(eval_seq(c, seq![g], f) == (c, Ok::<Seq<Value>, EvalError>(seq![g])));
    assert(args.last() == Value::Quote(Box::new(Value::List(items))));
    assert(eval_value(c, args.last(), f) == (c, Ok::<Value, EvalError>(Value::List(items))));
    assert(seq![g].push(Value::List(items)) =~= seq![g, Value::List(items)]);
    assert(eval_seq(c, args, f) == (c, Ok::<Seq<Value>, EvalError>(seq![g, Value::List(items)])));
    assert(builtin_call(c, BuiltinId::Apply, args, f) == apply_primitive(c, BuiltinId::Apply, seq![g, Value::List(items)], f));
}

} // verus!
