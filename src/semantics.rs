//! The meaning of evaluation, stated over models: a definitional evaluator
//! whose recursion is bounded by a depth budget.
use vstd::prelude::*;

use crate::read::{read_text, ReadError};
use crate::value::{builtin_is_special, builtin_max_arity, builtin_min_arity, builtin_name, core_table, BuiltinId, FunctionValue, Value, Visibility};

verus! {

broadcast use vstd::seq::axiom_seq_index_decreases;

/// How deep evaluation may nest, by default, before it gives up with
/// `DepthExceeded`; each level costs native stack, so a caller that raises
/// the budget must run evaluation on a stack to match.
pub const MAX_DEPTH: u64 = 1000;

/// The model of a module source file that the loader can see.
pub struct SourceModel {
    pub dir: Seq<char>,
    pub module: Seq<char>,
    pub path: Seq<char>,
    pub text: SourceTextModel,
}

pub enum SourceTextModel {
    Text(Seq<char>),
    OpenError(Seq<char>),
    ReadError(Seq<char>),
}

/// The model of an evaluation context.
pub struct ContextModel {
    pub module_paths: Seq<Seq<char>>,
    pub current: Seq<char>,
    /// Modules whose load has begun, in order.
    pub loaded: Seq<Seq<char>>,
    pub defs: Map<(Seq<char>, Seq<char>), (Value, Visibility)>,
    /// Keys of `defs` in order of first definition.
    pub keys: Seq<(Seq<char>, Seq<char>)>,
    pub core: Seq<char>,
    pub sources: Seq<SourceModel>,
    /// Records emitted by `trace`, oldest first.
    pub traces: Seq<(Seq<char>, Value)>,
}

/// The model of an evaluation error.
pub enum EvalError {
    Undefined(Seq<char>),
    Redefine(Seq<char>),
    RedefineCore(Seq<char>),
    DefineBadSymbol(Value),
    SymbolBadModuleFormat(Seq<char>),
    NotAFunction(Value),
    InvalidBinding(Value),
    DuplicateBinding(Seq<char>),
    BuiltinBadArg(Seq<char>, Value),
    BuiltinTooFewArgs(Seq<char>, usize, usize),
    BuiltinTooManyArgs(Seq<char>, usize, usize),
    FnTooFewArgs(FunctionValue, usize, usize),
    FnTooManyArgs(FunctionValue, usize, usize),
    ModuleSelfRefer(Seq<char>),
    ModuleNotFound(Seq<char>, Seq<Seq<char>>),
    ModuleMultipleOptions(Seq<char>, Seq<Seq<char>>),
    ModuleIoOpenError(Seq<char>, Seq<char>),
    ModuleIoReadError(Seq<char>, Seq<char>),
    ModuleReadErrors(Seq<char>, Seq<ReadError>),
    ModuleEvalErrors(Seq<char>, Seq<EvalError>),
    ModuleNotLoaded(Seq<char>),
    DepthExceeded,
}

pub type Outcome = (ContextModel, Result<Value, EvalError>);

pub type SeqOutcome = (ContextModel, Result<Seq<Value>, EvalError>);

/// Binds `n` in module `m`; a new key goes to the end of the key order.
pub open spec fn define(c: ContextModel, m: Seq<char>, n: Seq<char>, v: Value, vis: Visibility) -> ContextModel {
    ContextModel {
        defs: c.defs.insert((m, n), (v, vis)),
        keys: if c.defs.contains_key((m, n)) {
            c.keys
        } else {
            c.keys.push((m, n))
        },
        ..c
    }
}

/// The first `k` builtins of the core table bound in module `m` with visibility `vis`.
pub open spec fn bind_builtins(c: ContextModel, m: Seq<char>, vis: Visibility, k: int) -> ContextModel
    decreases k,
{
    if k <= 0 {
        c
    } else {
        let b = core_table()[k - 1];
        define(bind_builtins(c, m, vis, k - 1), m, builtin_name(b), Value::Builtin(b), vis)
    }
}

/// Every builtin registered in the core module as Public.
pub open spec fn load_core(c: ContextModel) -> ContextModel {
    bind_builtins(c, c.core, Visibility::Public, core_table().len() as int)
}

/// Every Public definition of the core module bound in the current module as Imported.
pub open spec fn import_core(c: ContextModel) -> ContextModel {
    import_public(c, c.core, c.keys.len() as int)
}

pub open spec fn mark_loaded(c: ContextModel, m: Seq<char>) -> ContextModel {
    if c.loaded.contains(m) {
        c
    } else {
        ContextModel { loaded: c.loaded.push(m), ..c }
    }
}

/// The Public definitions of module `m` among the first `k` keys of `c`,
/// bound in the current module as Imported.
pub open spec fn import_public(c: ContextModel, m: Seq<char>, k: int) -> ContextModel
    decreases k,
{
    if k <= 0 || k > c.keys.len() {
        c
    } else {
        let c1 = import_public(c, m, k - 1);
        let key = c.keys[k - 1];
        if key.0 == m && c.defs.contains_key(key) && c.defs[key].1 == Visibility::Public {
            define(c1, c1.current, key.1, c.defs[key].0, Visibility::Imported)
        } else {
            c1
        }
    }
}

/// A fresh context whose current module is `m`: the core module and `m` are loaded, nothing is bound.
pub open spec fn new_context(m: Seq<char>) -> ContextModel {
    mark_loaded(
        ContextModel {
            module_paths: seq![],
            current: m,
            loaded: seq![seq!['c', 'o', 'r', 'e']],
            defs: Map::empty(),
            keys: seq![],
            core: seq!['c', 'o', 'r', 'e'],
            sources: seq![],
            traces: seq![],
        },
        m,
    )
}

/// The pieces of a text between slashes (one piece when there is no slash).
pub open spec fn split_slash(s: Seq<char>) -> Seq<Seq<char>>
    decreases s.len(),
{
    if s.len() == 0 {
        seq![seq![]]
    } else {
        let p = split_slash(s.drop_last());
        if s.last() == '/' {
            p.push(seq![])
        } else {
            p.update(p.len() - 1, p.last().push(s.last()))
        }
    }
}

/// What a symbol denotes in a context.
pub open spec fn resolve(c: ContextModel, s: Seq<char>) -> Result<Value, EvalError> {
    let parts = split_slash(s);
    if parts.len() > 2 {
        Err(EvalError::SymbolBadModuleFormat(s))
    } else {
        let qualified = parts.len() == 2;
        let m = if qualified { parts[0] } else { c.current };
        let n = if qualified { parts[1] } else { s };
        if m != c.current && !c.loaded.contains(m) {
            Err(EvalError::ModuleNotLoaded(m))
        } else if c.defs.contains_key((m, n)) {
            Ok(c.defs[(m, n)].0)
        } else if !qualified && c.defs.contains_key((c.current, n)) {
            Ok(c.defs[(c.current, n)].0)
        } else if c.defs.contains_key((c.core, n)) {
            Ok(c.defs[(c.core, n)].0)
        } else {
            Err(EvalError::Undefined(s))
        }
    }
}

/// The sources for module `m` in directory `d`, in the order they are listed.
pub open spec fn in_dir(srcs: Seq<SourceModel>, d: Seq<char>, m: Seq<char>) -> Seq<SourceModel>
    decreases srcs.len(),
{
    if srcs.len() == 0 {
        seq![]
    } else {
        let r = in_dir(srcs.drop_last(), d, m);
        if srcs.last().module == m && srcs.last().dir == d {
            r.push(srcs.last())
        } else {
            r
        }
    }
}

/// The sources for module `m`, directory by directory in module path order.
pub open spec fn candidates(srcs: Seq<SourceModel>, paths: Seq<Seq<char>>, m: Seq<char>) -> Seq<SourceModel>
    decreases paths.len(),
{
    if paths.len() == 0 {
        seq![]
    } else {
        candidates(srcs, paths.drop_last(), m) + in_dir(srcs, paths.last(), m)
    }
}

pub open spec fn paths_of(srcs: Seq<SourceModel>) -> Seq<Seq<char>> {
    Seq::new(srcs.len(), |i: int| srcs[i].path)
}

/// The parameter names of a `fn` form, checked in order.
pub open spec fn params(ps: Seq<Value>, k: int) -> Result<Seq<Seq<char>>, EvalError>
    decreases k,
{
    if k <= 0 {
        Ok(seq![])
    } else {
        match params(ps, k - 1) {
            Err(e) => Err(e),
            Ok(ns) => match ps[k - 1] {
                Value::Symbol(n) => if ns.contains(n) {
                    Err(EvalError::DuplicateBinding(n))
                } else {
                    Ok(ns.push(n))
                },
                other => Err(EvalError::InvalidBinding(other)),
            },
        }
    }
}

/// The first `k` parameters bound to their arguments as Local definitions in module `m`.
pub open spec fn bind_params(c: ContextModel, m: Seq<char>, names: Seq<Seq<char>>, vals: Seq<Value>, k: int) -> ContextModel
    decreases k,
{
    if k <= 0 {
        c
    } else {
        define(bind_params(c, m, names, vals, k - 1), m, names[k - 1], vals[k - 1], Visibility::Local)
    }
}

pub open spec fn min_len(a: nat, b: nat) -> int {
    if a < b { a as int } else { b as int }
}

/// Sum of the first `k` arguments; a non-integer or an overflow fails on that argument.
pub open spec fn sum_prefix(vs: Seq<Value>, k: int) -> Result<i64, EvalError>
    decreases k,
{
    if k <= 0 {
        Ok(0)
    } else {
        match sum_prefix(vs, k - 1) {
            Err(e) => Err(e),
            Ok(acc) => match vs[k - 1] {
                Value::Integer(n) => if i64::MIN <= acc + n <= i64::MAX {
                    Ok((acc + n) as i64)
                } else {
                    Err(EvalError::BuiltinBadArg(seq!['+'], vs[k - 1]))
                },
                other => Err(EvalError::BuiltinBadArg(seq!['+'], other)),
            },
        }
    }
}

/// Product of the first `k` arguments; a non-integer or an overflow fails on that argument.
pub open spec fn product_prefix(vs: Seq<Value>, k: int) -> Result<i64, EvalError>
    decreases k,
{
    if k <= 0 {
        Ok(1)
    } else {
        match product_prefix(vs, k - 1) {
            Err(e) => Err(e),
            Ok(acc) => match vs[k - 1] {
                Value::Integer(n) => if i64::MIN <= acc * n <= i64::MAX {
                    Ok((acc * n) as i64)
                } else {
                    Err(EvalError::BuiltinBadArg(seq!['*'], vs[k - 1]))
                },
                other => Err(EvalError::BuiltinBadArg(seq!['*'], other)),
            },
        }
    }
}

/// The first argument minus arguments 1 to `k - 1`; a non-integer or an overflow fails on that argument.
pub open spec fn difference_prefix(vs: Seq<Value>, x: i64, k: int) -> Result<i64, EvalError>
    decreases k,
{
    if k <= 1 {
        Ok(x)
    } else {
        match difference_prefix(vs, x, k - 1) {
            Err(e) => Err(e),
            Ok(acc) => match vs[k - 1] {
                Value::Integer(n) => if i64::MIN <= acc - n <= i64::MAX {
                    Ok((acc - n) as i64)
                } else {
                    Err(EvalError::BuiltinBadArg(seq!['-'], vs[k - 1]))
                },
                other => Err(EvalError::BuiltinBadArg(seq!['-'], other)),
            },
        }
    }
}

pub open spec fn minus(vs: Seq<Value>) -> Result<Value, EvalError> {
    match vs[0] {
        Value::Integer(x) => if vs.len() == 1 {
            if x == i64::MIN {
                Err(EvalError::BuiltinBadArg(seq!['-'], vs[0]))
            } else {
                Ok(Value::Integer((-x) as i64))
            }
        } else {
            match difference_prefix(vs, x, vs.len() as int) {
                Ok(d) => Ok(Value::Integer(d)),
                Err(e) => Err(e),
            }
        },
        other => Err(EvalError::BuiltinBadArg(seq!['-'], other)),
    }
}

/// The integers from `start` up to but not including `end`.
pub open spec fn int_range(start: i64, end: i64) -> Seq<Value> {
    if start < end {
        Seq::new((end - start) as nat, |k: int| Value::Integer((start + k) as i64))
    } else {
        seq![]
    }
}

pub open spec fn range(vs: Seq<Value>) -> Result<Value, EvalError> {
    if vs.len() == 0 {
        Ok(Value::Vector(seq![]))
    } else if vs.len() == 1 {
        match vs[0] {
            Value::Integer(e) => Ok(Value::Vector(int_range(0, e))),
            other => Err(EvalError::BuiltinBadArg(builtin_name(BuiltinId::Range), other)),
        }
    } else {
        match (vs[0], vs[1]) {
            (Value::Integer(s), Value::Integer(e)) => Ok(Value::Vector(int_range(s, e))),
            (Value::Integer(_), other) => Err(EvalError::BuiltinBadArg(builtin_name(BuiltinId::Range), other)),
            (other, _) => Err(EvalError::BuiltinBadArg(builtin_name(BuiltinId::Range), other)),
        }
    }
}

pub open spec fn visibility_text(v: Visibility) -> Seq<char> {
    match v {
        Visibility::Public => seq!['p', 'u', 'b', 'l', 'i', 'c'],
        Visibility::Private => seq!['p', 'r', 'i', 'v', 'a', 't', 'e'],
        Visibility::Imported => seq!['i', 'm', 'p', 'o', 'r', 't', 'e', 'd'],
        Visibility::Local => seq!['l', 'o', 'c', 'a', 'l'],
    }
}

/// One `[module name value visibility]` entry per key, in key order.
pub open spec fn definition_entries(c: ContextModel, k: int) -> Seq<Value>
    decreases k,
{
    if k <= 0 {
        seq![]
    } else {
        let r = definition_entries(c, k - 1);
        let key = c.keys[k - 1];
        if c.defs.contains_key(key) {
            r.push(
                Value::Vector(
                    seq![
                        Value::Symbol(key.0),
                        Value::Symbol(key.1),
                        c.defs[key].0,
                        Value::Str(visibility_text(c.defs[key].1)),
                    ],
                ),
            )
        } else {
            r
        }
    }
}

/// The snapshot that `context` returns.
pub open spec fn snapshot(c: ContextModel) -> Value {
    Value::Vector(
        seq![
            Value::Vector(seq![
                Value::Symbol(seq!['m', 'o', 'd', 'u', 'l', 'e', '-', 'p', 'a', 't', 'h', 's']),
                Value::Vector(Seq::new(c.module_paths.len(), |i: int| Value::Str(c.module_paths[i]))),
            ]),
            Value::Vector(seq![
                Value::Symbol(seq!['c', 'u', 'r', 'r', 'e', 'n', 't', '-', 'm', 'o', 'd', 'u', 'l', 'e']),
                Value::Symbol(c.current),
            ]),
            Value::Vector(seq![
                Value::Symbol(seq!['l', 'o', 'a', 'd', 'e', 'd', '-', 'm', 'o', 'd', 'u', 'l', 'e', 's']),
                Value::Vector(Seq::new(c.loaded.len(), |i: int| Value::Symbol(c.loaded[i]))),
            ]),
            Value::Vector(seq![
                Value::Symbol(seq!['d', 'e', 'f', 'i', 'n', 'i', 't', 'i', 'o', 'n', 's']),
                Value::Vector(definition_entries(c, c.keys.len() as int)),
            ]),
        ],
    )
}

pub open spec fn bad_arg(c: ContextModel, b: BuiltinId, v: Value) -> Outcome {
    (c, Err(EvalError::BuiltinBadArg(builtin_name(b), v)))
}

/// Evaluation of a value.
pub open spec fn eval_value(c: ContextModel, v: Value, f: nat) -> Outcome
    decreases f, 0nat, 0nat,
{
    if f == 0 {
        (c, Err(EvalError::DepthExceeded))
    } else {
        match v {
            Value::Quote(x) => (c, Ok(*x)),
            Value::Symbol(s) => (c, resolve(c, s)),
            Value::List(xs) => if xs.len() == 0 {
                (c, Ok(v))
            } else {
                let (c1, h) = eval_value(c, xs[0], (f - 1) as nat);
                match h {
                    Err(e) => (c1, Err(e)),
                    Ok(Value::Builtin(b)) => builtin_call(c1, b, xs.drop_first(), (f - 1) as nat),
                    Ok(Value::Function(g)) => function_call(c1, g, xs.drop_first(), (f - 1) as nat),
                    Ok(other) => (c1, Err(EvalError::NotAFunction(other))),
                }
            },
            Value::Vector(xs) => {
                let (c1, r) = eval_seq(c, xs, (f - 1) as nat);
                match r {
                    Ok(ys) => (c1, Ok(Value::Vector(ys))),
                    Err(e) => (c1, Err(e)),
                }
            },
            _ => (c, Ok(v)),
        }
    }
}

/// Evaluation of values left to right, stopping at the first error.
pub open spec fn eval_seq(c: ContextModel, xs: Seq<Value>, f: nat) -> SeqOutcome
    decreases f, 1nat, xs.len(),
{
    if xs.len() == 0 {
        (c, Ok(seq![]))
    } else {
        let (c1, r) = eval_seq(c, xs.drop_last(), f);
        match r {
            Err(e) => (c1, Err(e)),
            Ok(vs) => {
                let (c2, r2) = eval_value(c1, xs.last(), f);
                match r2 {
                    Ok(v) => (c2, Ok(vs.push(v))),
                    Err(e) => (c2, Err(e)),
                }
            },
        }
    }
}

/// Evaluation of a body: the last value, `nil` when empty, the first error if any.
pub open spec fn eval_body(c: ContextModel, xs: Seq<Value>, f: nat) -> Outcome
    decreases f, 1nat, xs.len(),
{
    if xs.len() == 0 {
        (c, Ok(Value::Nil))
    } else {
        let (c1, r) = eval_body(c, xs.drop_last(), f);
        match r {
            Err(e) => (c1, Err(e)),
            Ok(_) => eval_value(c1, xs.last(), f),
        }
    }
}

/// Evaluation of a module's forms: every form runs, and every error is kept.
pub open spec fn eval_forms(c: ContextModel, xs: Seq<Value>, f: nat) -> (ContextModel, Seq<EvalError>)
    decreases f, 1nat, xs.len(),
{
    if xs.len() == 0 {
        (c, seq![])
    } else {
        let (c1, es) = eval_forms(c, xs.drop_last(), f);
        let (c2, r) = eval_value(c1, xs.last(), f);
        match r {
            Ok(_) => (c2, es),
            Err(e) => (c2, es.push(e)),
        }
    }
}

/// Loading module `m` from its source.
pub open spec fn load(c: ContextModel, m: Seq<char>, f: nat) -> Outcome
    decreases f, 2nat, 0nat,
{
    if m == c.current {
        (c, Err(EvalError::ModuleSelfRefer(m)))
    } else if c.loaded.contains(m) {
        (c, Ok(Value::Symbol(m)))
    } else {
        let cands = candidates(c.sources, c.module_paths, m);
        if cands.len() == 0 {
            (c, Err(EvalError::ModuleNotFound(m, c.module_paths)))
        } else if cands.len() > 1 {
            (c, Err(EvalError::ModuleMultipleOptions(m, paths_of(cands))))
        } else {
            match cands[0].text {
                SourceTextModel::OpenError(e) => (c, Err(EvalError::ModuleIoOpenError(m, e))),
                SourceTextModel::ReadError(e) => (c, Err(EvalError::ModuleIoReadError(m, e))),
                SourceTextModel::Text(t) => match read_text(t) {
                    Err(es) => (c, Err(EvalError::ModuleReadErrors(m, es))),
                    Ok(forms) => {
                        let child = import_core(ContextModel { current: m, ..mark_loaded(c, m) });
                        let (c2, es) = eval_forms(child, forms, f);
                        if es.len() > 0 {
                            (ContextModel { traces: c2.traces, ..c }, Err(EvalError::ModuleEvalErrors(m, es)))
                        } else {
                            (ContextModel { current: c.current, ..c2 }, Ok(Value::Symbol(m)))
                        }
                    },
                },
            }
        }
    }
}

/// A special form on its unevaluated arguments (arity already checked).
pub open spec fn apply_special(c: ContextModel, b: BuiltinId, args: Seq<Value>, f: nat) -> Outcome
    decreases f, 3nat, 0nat,
{
    match b {
        BuiltinId::Def => match args[0] {
            Value::Symbol(n) => if c.defs.contains_key((c.core, n)) {
                (c, Err(EvalError::RedefineCore(n)))
            } else if c.defs.contains_key((c.current, n)) {
                (c, Err(EvalError::Redefine(n)))
            } else {
                let (c1, r) = eval_value(c, args[1], f);
                match r {
                    Ok(v) => (define(c1, c1.current, n, v, Visibility::Private), Ok(args[0])),
                    Err(e) => (c1, Err(e)),
                }
            },
            other => (c, Err(EvalError::DefineBadSymbol(other))),
        },
        BuiltinId::Fn => match args[0] {
            Value::List(ps) => match params(ps, ps.len() as int) {
                Err(e) => (c, Err(e)),
                Ok(names) => (
                    c,
                    Ok(
                        Value::Function(
                            FunctionValue {
                                module: c.current,
                                arity: ps.len() as usize,
                                bindings: names,
                                body: args.drop_first(),
                            },
                        ),
                    ),
                ),
            },
            other => bad_arg(c, b, other),
        },
        BuiltinId::If => {
            let (c1, r) = eval_value(c, args[0], f);
            match r {
                Err(e) => (c1, Err(e)),
                Ok(Value::Nil) => eval_value(c1, args[2], f),
                Ok(Value::Boolean(false)) => eval_value(c1, args[2], f),
                Ok(_) => eval_value(c1, args[1], f),
            }
        },
        BuiltinId::Quote => (c, Ok(args[0])),
        BuiltinId::Module => match args[0] {
            Value::Symbol(m) => (import_core(ContextModel { current: m, ..mark_loaded(c, m) }), Ok(args[0])),
            other => bad_arg(c, b, other),
        },
        BuiltinId::Import => match args[0] {
            Value::Symbol(m) => {
                let (c1, r) = load(c, m, f);
                match r {
                    Ok(v) => (import_public(c1, m, c1.keys.len() as int), Ok(v)),
                    Err(e) => (c1, Err(e)),
                }
            },
            other => bad_arg(c, b, other),
        },
        _ => (c, Ok(Value::Nil)),
    }
}

/// A primitive on its evaluated arguments (arity already checked).
pub open spec fn apply_primitive(c: ContextModel, b: BuiltinId, vs: Seq<Value>, f: nat) -> Outcome
    decreases f, 3nat, 0nat,
{
    match b {
        BuiltinId::Apply => {
            let (c1, h) = eval_value(c, vs[0], f);
            match h {
                Err(e) => (c1, Err(e)),
                Ok(Value::Builtin(g)) => match vs[1] {
                    Value::List(items) => if f == 0 {
                        (c1, Err(EvalError::DepthExceeded))
                    } else {
                        builtin_call(c1, g, items, (f - 1) as nat)
                    },
                    other => bad_arg(c1, b, other),
                },
                Ok(Value::Function(g)) => match vs[1] {
                    Value::List(items) => if f == 0 {
                        (c1, Err(EvalError::DepthExceeded))
                    } else {
                        function_call(c1, g, items, (f - 1) as nat)
                    },
                    other => bad_arg(c1, b, other),
                },
                Ok(other) => (c1, Err(EvalError::NotAFunction(other))),
            }
        },
        BuiltinId::Context => (c, Ok(snapshot(c))),
        BuiltinId::Trace => match vs[0] {
            Value::Str(l) => (ContextModel { traces: c.traces.push((l, vs[1])), ..c }, Ok(vs[1])),
            other => bad_arg(c, b, other),
        },
        BuiltinId::Cons => match vs[1] {
            Value::List(xs) => (c, Ok(Value::List(seq![vs[0]] + xs))),
            other => bad_arg(c, b, other),
        },
        BuiltinId::Head => match vs[0] {
            Value::List(xs) => if xs.len() > 0 {
                (c, Ok(xs[0]))
            } else {
                bad_arg(c, b, vs[0])
            },
            other => bad_arg(c, b, other),
        },
        BuiltinId::Tail => match vs[0] {
            Value::List(xs) => if xs.len() > 0 {
                (c, Ok(Value::List(xs.drop_first())))
            } else {
                bad_arg(c, b, vs[0])
            },
            other => bad_arg(c, b, other),
        },
        BuiltinId::Range => (c, range(vs)),
        BuiltinId::Eq => (c, Ok(Value::Boolean(forall|i: int| 1 <= i < vs.len() ==> #[trigger] vs[i] == vs[0]))),
        BuiltinId::Plus => match sum_prefix(vs, vs.len() as int) {
            Ok(n) => (c, Ok(Value::Integer(n))),
            Err(e) => (c, Err(e)),
        },
        BuiltinId::Product => match product_prefix(vs, vs.len() as int) {
            Ok(n) => (c, Ok(Value::Integer(n))),
            Err(e) => (c, Err(e)),
        },
        BuiltinId::Minus => (c, minus(vs)),
        _ => (c, Ok(Value::Nil)),
    }
}

/// Application of a builtin to unevaluated arguments.
pub open spec fn builtin_call(c: ContextModel, b: BuiltinId, args: Seq<Value>, f: nat) -> Outcome
    decreases f, 4nat, 0nat,
{
    if args.len() < builtin_min_arity(b) {
        (c, Err(EvalError::BuiltinTooFewArgs(builtin_name(b), builtin_min_arity(b), args.len() as usize)))
    } else if builtin_max_arity(b) is Some && builtin_max_arity(b)->0 < args.len() {
        (c, Err(EvalError::BuiltinTooManyArgs(builtin_name(b), builtin_max_arity(b)->0, args.len() as usize)))
    } else if builtin_is_special(b) {
        apply_special(c, b, args, f)
    } else {
        let (c1, r) = eval_seq(c, args, f);
        match r {
            Err(e) => (c1, Err(e)),
            Ok(vs) => apply_primitive(c1, b, vs, f),
        }
    }
}

/// Application of a user function to unevaluated arguments: the arguments are
/// evaluated in the caller's context, the body in a copy of it whose current
/// module is the function's and which binds the parameters; only trace records
/// flow back to the caller.
pub open spec fn function_call(c: ContextModel, g: FunctionValue, args: Seq<Value>, f: nat) -> Outcome
    decreases f, 4nat, 0nat,
{
    if args.len() < g.arity {
        (c, Err(EvalError::FnTooFewArgs(g, g.arity, args.len() as usize)))
    } else if g.arity < args.len() {
        (c, Err(EvalError::FnTooManyArgs(g, g.arity, args.len() as usize)))
    } else {
        let (c1, r) = eval_seq(c, args, f);
        match r {
            Err(e) => (c1, Err(e)),
            Ok(vs) => {
                let child = bind_params(
                    ContextModel { current: g.module, ..c1 },
                    g.module,
                    g.bindings,
                    vs,
                    min_len(g.bindings.len(), vs.len()),
                );
                let (c2, r2) = eval_body(child, g.body, f);
                (ContextModel { traces: c2.traces, ..c1 }, r2)
            },
        }
    }
}

} // verus!
