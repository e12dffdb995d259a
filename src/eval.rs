use vstd::prelude::*;

use crate::context::{contains_string, copy_strings, source_views, Context, ModuleSource, SourceText};
use crate::laws::{lemma_bind_params_loaded, lemma_body_keeps_modules};
use crate::read::{error_views, read, Error as ReadErr};
use crate::semantics::{
    builtin_call, function_call, apply_primitive, apply_special, bind_params, candidates, in_dir, definition_entries,
    difference_prefix, eval_body, eval_forms, eval_seq, eval_value, int_range, load, min_len, params, paths_of,
    product_prefix, resolve, snapshot, split_slash, sum_prefix, visibility_text, ContextModel, EvalError,
    SourceModel,
};
use crate::value::{
    builtin_is_special, builtin_max_arity, builtin_min_arity, builtin_name, lemma_body_view,
    lemma_seq_view, string_views, views, BuiltinId, Sx, SxBuiltinCallback, SxFunctionInfo, Value, Visibility,
};

verus! {

broadcast use {
    vstd::std_specs::vec::axiom_vec_index_decreases,
    vstd::std_specs::vec::axiom_vec_decreases_to_view,
    vstd::seq::axiom_seq_index_decreases,
};

/// What evaluation can fail with.
#[derive(Debug, PartialEq, Eq)]
pub enum Error {
    Undefined(String),
    Redefine(String),
    RedefineCore(String),
    DefineBadSymbol(Sx),
    SymbolBadModuleFormat(String),
    NotAFunction(Sx),
    InvalidBinding(Sx),
    DuplicateBinding(String),
    BuiltinBadArg(&'static str, Sx),
    BuiltinTooFewArgs(&'static str, usize, usize),
    BuiltinTooManyArgs(&'static str, usize, usize),
    FnTooFewArgs(Box<SxFunctionInfo>, usize, usize),
    FnTooManyArgs(Box<SxFunctionInfo>, usize, usize),
    ModuleSelfRefer(String),
    ModuleNotFound(String, Vec<String>),
    ModuleMultipleOptions(String, Vec<String>),
    ModuleIoOpenError(String, String),
    ModuleIoReadError(String, String),
    ModuleReadErrors(String, Vec<ReadErr>),
    ModuleEvalErrors(String, Vec<Error>),
    ModuleNotLoaded(String),
    DepthExceeded,
}

impl Error {
    pub open spec fn view(&self) -> EvalError
        decreases self,
    {
        match self {
            Error::Undefined(s) => EvalError::Undefined(s@),
            Error::Redefine(s) => EvalError::Redefine(s@),
            Error::RedefineCore(s) => EvalError::RedefineCore(s@),
            Error::DefineBadSymbol(v) => EvalError::DefineBadSymbol(v@),
            Error::SymbolBadModuleFormat(s) => EvalError::SymbolBadModuleFormat(s@),
            Error::NotAFunction(v) => EvalError::NotAFunction(v@),
            Error::InvalidBinding(v) => EvalError::InvalidBinding(v@),
            Error::DuplicateBinding(s) => EvalError::DuplicateBinding(s@),
            Error::BuiltinBadArg(n, v) => EvalError::BuiltinBadArg(n@, v@),
            Error::BuiltinTooFewArgs(n, a, b) => EvalError::BuiltinTooFewArgs(n@, *a, *b),
            Error::BuiltinTooManyArgs(n, a, b) => EvalError::BuiltinTooManyArgs(n@, *a, *b),
            Error::FnTooFewArgs(g, a, b) => EvalError::FnTooFewArgs((**g)@, *a, *b),
            Error::FnTooManyArgs(g, a, b) => EvalError::FnTooManyArgs((**g)@, *a, *b),
            Error::ModuleSelfRefer(s) => EvalError::ModuleSelfRefer(s@),
            Error::ModuleNotFound(s, ps) => EvalError::ModuleNotFound(s@, string_views(ps@)),
            Error::ModuleMultipleOptions(s, ps) => EvalError::ModuleMultipleOptions(s@, string_views(ps@)),
            Error::ModuleIoOpenError(s, e) => EvalError::ModuleIoOpenError(s@, e@),
            Error::ModuleIoReadError(s, e) => EvalError::ModuleIoReadError(s@, e@),
            Error::ModuleReadErrors(s, es) => EvalError::ModuleReadErrors(s@, error_views(es@)),
            Error::ModuleEvalErrors(s, es) => EvalError::ModuleEvalErrors(
                s@,
                Seq::new(
                    es@.len(),
                    |i: int|
                        if 0 <= i < es@.len() {
                            es@[i].view()
                        } else {
                            EvalError::DepthExceeded
                        },
                ),
            ),
            Error::ModuleNotLoaded(s) => EvalError::ModuleNotLoaded(s@),
            Error::DepthExceeded => EvalError::DepthExceeded,
        }
    }
}

pub open spec fn eval_error_views(es: Seq<Error>) -> Seq<EvalError> {
    Seq::new(es.len(), |i: int| es[i]@)
}

pub proof fn lemma_eval_errors_view(e: &Error)
    ensures
        e is ModuleEvalErrors ==> e@ == EvalError::ModuleEvalErrors(
            e->ModuleEvalErrors_0@,
            eval_error_views(e->ModuleEvalErrors_1@),
        ),
{
    if let Error::ModuleEvalErrors(s, es) = e {
        if let EvalError::ModuleEvalErrors(_, p) = e@ {
            assert(p =~= eval_error_views(es@));
        }
    }
}

pub type Result = core::result::Result<Sx, Error>;

pub open spec fn result_view(r: Result) -> core::result::Result<Value, EvalError> {
    match r {
        Ok(v) => Ok(v@),
        Err(e) => Err(e@),
    }
}

pub open spec fn seq_result_view(r: core::result::Result<Vec<Sx>, Error>) -> core::result::Result<Seq<Value>, EvalError> {
    match r {
        Ok(v) => Ok(views(v@)),
        Err(e) => Err(e@),
    }
}

proof fn lemma_seq_err(c: ContextModel, xs: Seq<Value>, f: nat, k: int, m: int)
    requires
        0 <= k <= m <= xs.len(),
        eval_seq(c, xs.take(k), f).1 is Err,
    ensures
        eval_seq(c, xs.take(m), f) == eval_seq(c, xs.take(k), f),
    decreases m - k,
{
    if m > k {
        lemma_seq_err(c, xs, f, k, m - 1);
        assert(xs.take(m).drop_last() =~= xs.take(m - 1));
    }
}

proof fn lemma_seq_len(c: ContextModel, xs: Seq<Value>, f: nat)
    ensures
        eval_seq(c, xs, f).1 is Ok ==> eval_seq(c, xs, f).1->Ok_0.len() == xs.len(),
    decreases xs.len(),
{
    if xs.len() > 0 {
        lemma_seq_len(c, xs.drop_last(), f);
    }
}

proof fn lemma_body_err(c: ContextModel, xs: Seq<Value>, f: nat, k: int, m: int)
    requires
        0 <= k <= m <= xs.len(),
        eval_body(c, xs.take(k), f).1 is Err,
    ensures
        eval_body(c, xs.take(m), f) == eval_body(c, xs.take(k), f),
    decreases m - k,
{
    if m > k {
        lemma_body_err(c, xs, f, k, m - 1);
        assert(xs.take(m).drop_last() =~= xs.take(m - 1));
    }
}

proof fn lemma_params_err(ps: Seq<Value>, k: int, m: int)
    requires
        0 <= k <= m <= ps.len(),
        params(ps, k) is Err,
    ensures
        params(ps, m) == params(ps, k),
    decreases m - k,
{
    if m > k {
        lemma_params_err(ps, k, m - 1);
    }
}

/// Copies of the elements of `xs` from index `start` on.
fn copy_from(xs: &Vec<Sx>, start: usize) -> (r: Vec<Sx>)
    requires
        start <= xs@.len(),
    ensures
        views(r@) == views(xs@).skip(start as int),
{
    let mut out: Vec<Sx> = Vec::new();
    let mut i: usize = start;
    while i < xs.len()
        invariant
            start <= i <= xs@.len(),
            out@.len() == i - start,
            forall|j: int| 0 <= j < out@.len() ==> #[trigger] out@[j]@ == xs@[j + start]@,
        decreases xs.len() - i,
    {
        out.push(xs[i].copy());
        i = i + 1;
    }
    assert(views(out@) =~= views(xs@).skip(start as int));
    out
}

fn bad_arg(b: BuiltinId, v: &Sx) -> (r: Error)
    ensures
        r@ == EvalError::BuiltinBadArg(builtin_name(b), v@),
{
    Error::BuiltinBadArg(b.info().name, v.copy())
}

/// The pieces of a symbol between slashes.
pub fn split_slash_exec(s: &String) -> (r: Vec<String>)
    ensures
        string_views(r@) == split_slash(s@),
{
    let n = s.as_str().unicode_len();
    let mut parts: Vec<String> = Vec::new();
    parts.push(String::new());
    let mut i: usize = 0;
    assert(string_views(parts@) =~= split_slash(s@.take(0)));
    while i < n
        invariant
            n == s@.len(),
            i <= n,
            parts@.len() > 0,
            string_views(parts@) == split_slash(s@.take(i as int)),
        decreases n - i,
    {
        let c = s.as_str().get_char(i);
        let ghost before = string_views(parts@);
        assert(s@.take(i + 1).drop_last() =~= s@.take(i as int));
        if c == '/' {
            parts.push(String::new());
            assert(string_views(parts@) =~= before.push(seq![]));
        } else {
            let last = parts.len() - 1;
            let mut piece = parts[last].clone();
            crate::text::push_char(&mut piece, c);
            parts.set(last, piece);
            assert(string_views(parts@) =~= before.update(before.len() - 1, before.last().push(c)));
        }
        i = i + 1;
    }
    assert(s@.take(n as int) =~= s@);
    parts
}


proof fn lemma_sum_err(vs: Seq<Value>, k: int, m: int)
    requires
        0 <= k <= m,
        sum_prefix(vs, k) is Err,
    ensures
        sum_prefix(vs, m) == sum_prefix(vs, k),
    decreases m - k,
{
    if m > k {
        lemma_sum_err(vs, k, m - 1);
    }
}

proof fn lemma_product_err(vs: Seq<Value>, k: int, m: int)
    requires
        0 <= k <= m,
        product_prefix(vs, k) is Err,
    ensures
        product_prefix(vs, m) == product_prefix(vs, k),
    decreases m - k,
{
    if m > k {
        lemma_product_err(vs, k, m - 1);
    }
}

proof fn lemma_difference_err(vs: Seq<Value>, x: i64, k: int, m: int)
    requires
        1 <= k <= m,
        difference_prefix(vs, x, k) is Err,
    ensures
        difference_prefix(vs, x, m) == difference_prefix(vs, x, k),
    decreases m - k,
{
    if m > k {
        lemma_difference_err(vs, x, k, m - 1);
    }
}

fn symbol_value(s: &str) -> (r: Sx)
    ensures
        r@ == Value::Symbol(s@),
{
    Sx::Symbol(String::from_str(s))
}

impl Visibility {
    /// The name of this visibility: `public`, `private`, `imported` or `local`.
    pub fn to_string(&self) -> (r: String)
        ensures
            r@ == visibility_text(*self),
    {
        proof {
            reveal_strlit("public");
            reveal_strlit("private");
            reveal_strlit("imported");
            reveal_strlit("local");
            assert("public"@ =~= visibility_text(Visibility::Public));
            assert("private"@ =~= visibility_text(Visibility::Private));
            assert("imported"@ =~= visibility_text(Visibility::Imported));
            assert("local"@ =~= visibility_text(Visibility::Local));
        }
        match self {
            Visibility::Public => String::from_str("public"),
            Visibility::Private => String::from_str("private"),
            Visibility::Imported => String::from_str("imported"),
            Visibility::Local => String::from_str("local"),
        }
    }
}

fn pair(a: Sx, b: Sx) -> (r: Sx)
    ensures
        r@ == Value::Vector(seq![a@, b@]),
{
    let r = Sx::Vector(vec![a, b]);
    proof {
        lemma_seq_view(&r);
        assert(views(r->Vector_0@) =~= seq![a@, b@]);
    }
    r
}

fn integers(start: i64, end: i64) -> (r: Sx)
    ensures
        r@ == Value::Vector(int_range(start, end)),
{
    let mut out: Vec<Sx> = Vec::new();
    if start < end {
        let mut i: i64 = start;
        while i < end
            invariant
                start <= i <= end,
                views(out@) == Seq::new((i - start) as nat, |k: int| Value::Integer((start + k) as i64)),
            decreases end - i,
        {
            let ghost before = views(out@);
            out.push(Sx::Integer(i));
            assert(views(out@) =~= before.push(Value::Integer(i)));
            i = i + 1;
            assert(views(out@) =~= Seq::new((i - start) as nat, |k: int| Value::Integer((start + k) as i64)));
        }
    }
    assert(views(out@) =~= int_range(start, end));
    let r = Sx::Vector(out);
    proof {
        lemma_seq_view(&r);
    }
    r
}

impl Context {
    /// The `context` snapshot: module paths, current module, loaded modules and
    /// every definition in order of first definition.
    pub fn snapshot(&self) -> (r: Sx)
        ensures
            r@ == snapshot(self@),
    {
        proof {
            reveal_strlit("module-paths");
            reveal_strlit("current-module");
            reveal_strlit("loaded-modules");
            reveal_strlit("definitions");
            assert("module-paths"@ =~= seq!['m', 'o', 'd', 'u', 'l', 'e', '-', 'p', 'a', 't', 'h', 's']);
            assert("current-module"@ =~= seq!['c', 'u', 'r', 'r', 'e', 'n', 't', '-', 'm', 'o', 'd', 'u', 'l', 'e']);
            assert("loaded-modules"@ =~= seq!['l', 'o', 'a', 'd', 'e', 'd', '-', 'm', 'o', 'd', 'u', 'l', 'e', 's']);
            assert("definitions"@ =~= seq!['d', 'e', 'f', 'i', 'n', 'i', 't', 'i', 'o', 'n', 's']);
        }
        let ghost c = self@;
        let mut paths: Vec<Sx> = Vec::new();
        let mut i: usize = 0;
        while i < self.module_paths.len()
            invariant
                c == self@,
                i <= self.module_paths@.len(),
                paths@.len() == i,
                forall|k: int| 0 <= k < i ==> #[trigger] paths@[k]@ == Value::Str(c.module_paths[k]),
            decreases self.module_paths@.len() - i,
        {
            paths.push(Sx::String(self.module_paths[i].clone()));
            i = i + 1;
        }
        assert(views(paths@) =~= Seq::new(c.module_paths.len(), |k: int| Value::Str(c.module_paths[k])));
        let mut loaded: Vec<Sx> = Vec::new();
        let mut i: usize = 0;
        while i < self.loaded_modules.len()
            invariant
                c == self@,
                i <= self.loaded_modules@.len(),
                loaded@.len() == i,
                forall|k: int| 0 <= k < i ==> #[trigger] loaded@[k]@ == Value::Symbol(c.loaded[k]),
            decreases self.loaded_modules@.len() - i,
        {
            loaded.push(Sx::Symbol(self.loaded_modules[i].clone()));
            i = i + 1;
        }
        assert(views(loaded@) =~= Seq::new(c.loaded.len(), |k: int| Value::Symbol(c.loaded[k])));
        let mut entries: Vec<Sx> = Vec::new();
        let mut i: usize = 0;
        while i < self.keys.len()
            invariant
                c == self@,
                i <= self.keys@.len(),
                views(entries@) == definition_entries(c, i as int),
            decreases self.keys@.len() - i,
        {
            let key = &self.keys[i];
            assert(c.keys[i as int] == (key.0@, key.1@));
            match self.lookup(&key.0, &key.1) {
                Some(x) => {
                    let e = Sx::Vector(
                        vec![Sx::Symbol(key.0.clone()), Sx::Symbol(key.1.clone()), x.0, Sx::String(x.1.to_string())],
                    );
                    proof {
                        lemma_seq_view(&e);
                        assert(views(e->Vector_0@) =~= seq![
                            Value::Symbol(key.0@),
                            Value::Symbol(key.1@),
                            c.defs[c.keys[i as int]].0,
                            Value::Str(visibility_text(c.defs[c.keys[i as int]].1)),
                        ]);
                    }
                    let ghost before = entries@;
                    entries.push(e);
                    assert(views(entries@) =~= views(before).push(e@));
                },
                None => {},
            }
            i = i + 1;
        }
        let pv = Sx::Vector(paths);
        let lv = Sx::Vector(loaded);
        let ev = Sx::Vector(entries);
        proof {
            lemma_seq_view(&pv);
            lemma_seq_view(&lv);
            lemma_seq_view(&ev);
        }
        let r = Sx::Vector(
            vec![
                pair(symbol_value("module-paths"), pv),
                pair(symbol_value("current-module"), Sx::Symbol(self.current_module.clone())),
                pair(symbol_value("loaded-modules"), lv),
                pair(symbol_value("definitions"), ev),
            ],
        );
        proof {
            lemma_seq_view(&r);
            assert(views(r->Vector_0@) =~= snapshot(c)->Vector_0);
        }
        r
    }

    #[verifier::loop_isolation(false)]
    fn apply_primitive_at(&mut self, b: BuiltinId, vs: &Vec<Sx>, f: u64) -> (r: Result)
        requires
            !builtin_is_special(b),
            vs@.len() >= builtin_min_arity(b),
            builtin_max_arity(b) is Some ==> vs@.len() <= builtin_max_arity(b)->0,
        ensures
            (final(self)@, result_view(r)) == apply_primitive(old(self)@, b, views(vs@), f as nat),
            final(self).max_depth == old(self).max_depth,
        decreases f, 3nat, 0nat,
    {
        let ghost vv = views(vs@);
        match b {
            BuiltinId::Apply => {
                proof {
                    lemma_seq_view(&vs[1]);
                }
                match self.eval_at(&vs[0], f) {
                    Err(e) => Err(e),
                    Ok(Sx::Builtin(g)) => {
                        match &vs[1] {
                            Sx::List(items) => {
                                if f == 0 {
                                    Err(Error::DepthExceeded)
                                } else {
                                    self.apply_builtin_at(g, items, f - 1)
                                }
                            },
                            other => Err(bad_arg(b, other)),
                        }
                    },
                    Ok(Sx::Function(g)) => {
                        proof {
                            lemma_seq_view(&Sx::Function(g));
                        }
                        match &vs[1] {
                            Sx::List(items) => {
                                if f == 0 {
                                    Err(Error::DepthExceeded)
                                } else {
                                    self.apply_function_at(&g, items, f - 1)
                                }
                            },
                            other => Err(bad_arg(b, other)),
                        }
                    },
                    Ok(other) => {
                        proof {
                            lemma_seq_view(&other);
                        }
                        Err(Error::NotAFunction(other))
                    },
                }
            },
            BuiltinId::Context => Ok(self.snapshot()),
            BuiltinId::Trace => {
                match &vs[0] {
                    Sx::String(l) => {
                        let ghost before = self.traces@;
                        self.traces.push((l.clone(), vs[1].copy()));
                        assert(crate::context::trace_views(self.traces@) =~= crate::context::trace_views(before).push((l@, vv[1])));
                        Ok(vs[1].copy())
                    },
                    other => Err(bad_arg(b, other)),
                }
            },
            BuiltinId::Cons => {
                proof {
                    lemma_seq_view(&vs[1]);
                }
                match &vs[1] {
                    Sx::List(xs) => {
                        let mut out: Vec<Sx> = vec![vs[0].copy()];
                        let mut i: usize = 0;
                        while i < xs.len()
                            invariant
                                i <= xs@.len(),
                                vv == views(vs@),
                                vs@.len() >= 2,
                                out@.len() == i + 1,
                                out@[0]@ == vv[0],
                                forall|k: int| 1 <= k <= i ==> #[trigger] out@[k]@ == xs@[k - 1]@,
                            decreases xs@.len() - i,
                        {
                            out.push(xs[i].copy());
                            i = i + 1;
                        }
                        let r = Sx::List(out);
                        proof {
                            lemma_seq_view(&r);
                            assert(views(r->List_0@) =~= seq![vv[0]] + views(xs@));
                        }
                        Ok(r)
                    },
                    other => Err(bad_arg(b, other)),
                }
            },
            BuiltinId::Head => {
                proof {
                    lemma_seq_view(&vs[0]);
                }
                match &vs[0] {
                    Sx::List(xs) => {
                        if xs.len() > 0 {
                            Ok(xs[0].copy())
                        } else {
                            Err(bad_arg(b, &vs[0]))
                        }
                    },
                    other => Err(bad_arg(b, other)),
                }
            },
            BuiltinId::Tail => {
                proof {
                    lemma_seq_view(&vs[0]);
                }
                match &vs[0] {
                    Sx::List(xs) => {
                        if xs.len() > 0 {
                            let rest = copy_from(xs, 1);
                            let r = Sx::List(rest);
                            proof {
                                lemma_seq_view(&r);
                                assert(views(xs@).skip(1) =~= views(xs@).drop_first());
                            }
                            Ok(r)
                        } else {
                            Err(bad_arg(b, &vs[0]))
                        }
                    },
                    other => Err(bad_arg(b, other)),
                }
            },
            BuiltinId::Range => {
                if vs.len() == 0 {
                    let r = Sx::Vector(Vec::new());
                    proof {
                        lemma_seq_view(&r);
                        assert(views(r->Vector_0@) =~= Seq::<Value>::empty());
                    }
                    Ok(r)
                } else if vs.len() == 1 {
                    match &vs[0] {
                        Sx::Integer(e) => Ok(integers(0, *e)),
                        other => Err(bad_arg(b, other)),
                    }
                } else {
                    match (&vs[0], &vs[1]) {
                        (Sx::Integer(s), Sx::Integer(e)) => Ok(integers(*s, *e)),
                        (Sx::Integer(_), other) => Err(bad_arg(b, other)),
                        (other, _) => Err(bad_arg(b, other)),
                    }
                }
            },
            BuiltinId::Eq => {
                let mut all = true;
                let mut i: usize = 1;
                while i < vs.len()
                    invariant
                        1 <= i <= vs@.len(),
                        vv == views(vs@),
                        all == (forall|k: int| 1 <= k < i ==> #[trigger] vv[k] == vv[0]),
                    decreases vs@.len() - i,
                {
                    assert(vv[i as int] == vs@[i as int]@);
                    assert(vv[0] == vs@[0]@);
                    if !vs[i].same(&vs[0]) {
                        all = false;
                    }
                    i = i + 1;
                }
                Ok(Sx::Boolean(all))
            },
            BuiltinId::Plus => {
                let mut acc: i64 = 0;
                let mut i: usize = 0;
                while i < vs.len()
                    invariant
                        i <= vs@.len(),
                        vv == views(vs@),
                        sum_prefix(vv, i as int) == Ok::<i64, EvalError>(acc),
                    decreases vs@.len() - i,
                {
                    assert(vv[i as int] == vs@[i as int]@);
                    match &vs[i] {
                        Sx::Integer(n) => {
                            let s = acc as i128 + *n as i128;
                            if s < i64::MIN as i128 || s > i64::MAX as i128 {
                                proof {
                                    assert(sum_prefix(vv, i + 1) is Err);
                                    lemma_sum_err(vv, i + 1, vv.len() as int);
                                }
                                return Err(bad_arg(b, &vs[i]));
                            }
                            acc = s as i64;
                        },
                        other => {
                            proof {
                                lemma_sum_err(vv, i + 1, vv.len() as int);
                            }
                            return Err(bad_arg(b, other));
                        },
                    }
                    i = i + 1;
                }
                Ok(Sx::Integer(acc))
            },
            BuiltinId::Product => {
                let mut acc: i64 = 1;
                let mut i: usize = 0;
                while i < vs.len()
                    invariant
                        i <= vs@.len(),
                        vv == views(vs@),
                        product_prefix(vv, i as int) == Ok::<i64, EvalError>(acc),
                    decreases vs@.len() - i,
                {
                    assert(vv[i as int] == vs@[i as int]@);
                    match &vs[i] {
                        Sx::Integer(n) => {
                            let a = acc as i128;
                            let m = *n as i128;
                            assert(-0x8000_0000_0000_0000 <= a <= 0x7fff_ffff_ffff_ffff);
                            assert(-0x8000_0000_0000_0000 <= m <= 0x7fff_ffff_ffff_ffff);
                            assert(-0x4000_0000_0000_0000_0000_0000_0000_0000 <= a * m <= 0x4000_0000_0000_0000_0000_0000_0000_0000)
                                by (nonlinear_arith)
                                requires
                                    -0x8000_0000_0000_0000 <= a <= 0x7fff_ffff_ffff_ffff,
                                    -0x8000_0000_0000_0000 <= m <= 0x7fff_ffff_ffff_ffff,
                            ;
                            let s = a * m;
                            if s < i64::MIN as i128 || s > i64::MAX as i128 {
                                proof {
                                    assert(product_prefix(vv, i + 1) is Err);
                                    lemma_product_err(vv, i + 1, vv.len() as int);
                                }
                                return Err(bad_arg(b, &vs[i]));
                            }
                            acc = s as i64;
                        },
                        other => {
                            proof {
                                lemma_product_err(vv, i + 1, vv.len() as int);
                            }
                            return Err(bad_arg(b, other));
                        },
                    }
                    i = i + 1;
                }
                Ok(Sx::Integer(acc))
            },
            BuiltinId::Minus => {
                match &vs[0] {
                    Sx::Integer(x) => {
                        if vs.len() == 1 {
                            if *x == i64::MIN {
                                return Err(bad_arg(b, &vs[0]));
                            }
                            return Ok(Sx::Integer(-*x));
                        }
                        let mut acc: i64 = *x;
                        let mut i: usize = 1;
                        while i < vs.len()
                            invariant
                                1 <= i <= vs@.len(),
                                vv == views(vs@),
                                vv[0] == Value::Integer(*x),
                                difference_prefix(vv, *x, i as int) == Ok::<i64, EvalError>(acc),
                            decreases vs@.len() - i,
                        {
                            assert(vv[i as int] == vs@[i as int]@);
                            match &vs[i] {
                                Sx::Integer(n) => {
                                    let s = acc as i128 - *n as i128;
                                    if s < i64::MIN as i128 || s > i64::MAX as i128 {
                                        proof {
                                            lemma_difference_err(vv, *x, i + 1, vv.len() as int);
                                        }
                                        return Err(bad_arg(b, &vs[i]));
                                    }
                                    acc = s as i64;
                                },
                                other => {
                                    proof {
                                        lemma_difference_err(vv, *x, i + 1, vv.len() as int);
                                    }
                                    return Err(bad_arg(b, other));
                                },
                            }
                            i = i + 1;
                        }
                        Ok(Sx::Integer(acc))
                    },
                    other => Err(bad_arg(b, other)),
                }
            },
            _ => Ok(Sx::Nil),
        }
    }

    /// The value a symbol denotes here.
    pub fn resolve(&self, s: &String) -> (r: Result)
        ensures
            result_view(r) == resolve(self@, s@),
    {
        let parts = split_slash_exec(s);
        if parts.len() > 2 {
            return Err(Error::SymbolBadModuleFormat(s.clone()));
        }
        let qualified = parts.len() == 2;
        let m = if qualified { parts[0].clone() } else { self.current_module.clone() };
        let n = if qualified { parts[1].clone() } else { s.clone() };
        if m != self.current_module && !contains_string(&self.loaded_modules, &m) {
            return Err(Error::ModuleNotLoaded(m));
        }
        match self.lookup(&m, &n) {
            Some(x) => {
                return Ok(x.0);
            },
            None => {},
        }
        if !qualified {
            match self.lookup_current(&n) {
                Some(x) => {
                    return Ok(x.0);
                },
                None => {},
            }
        }
        match self.lookup_core(&n) {
            Some(x) => Ok(x.0),
            None => Err(Error::Undefined(s.clone())),
        }
    }

    fn eval_at(&mut self, sx: &Sx, f: u64) -> (r: Result)
        ensures
            (final(self)@, result_view(r)) == eval_value(old(self)@, sx@, f as nat),
            final(self).max_depth == old(self).max_depth,
        decreases f, 0nat, 0nat,
    {
        if f == 0 {
            return Err(Error::DepthExceeded);
        }
        proof {
            lemma_seq_view(sx);
        }
        match sx {
            Sx::Quote(x) => Ok((**x).copy()),
            Sx::Symbol(s) => self.resolve(s),
            Sx::List(xs) => {
                if xs.len() == 0 {
                    return Ok(sx.copy());
                }
                let h = self.eval_at(&xs[0], f - 1);
                let args = copy_from(xs, 1);
                assert(views(xs@).skip(1) =~= views(xs@).drop_first());
                match h {
                    Err(e) => Err(e),
                    Ok(Sx::Builtin(b)) => self.apply_builtin_at(b, &args, f - 1),
                    Ok(Sx::Function(g)) => {
                        proof {
                            lemma_seq_view(&Sx::Function(g));
                        }
                        self.apply_function_at(&g, &args, f - 1)
                    },
                    Ok(other) => {
                        proof {
                            lemma_seq_view(&other);
                        }
                        Err(Error::NotAFunction(other))
                    },
                }
            },
            Sx::Vector(xs) => {
                match self.eval_seq_at(xs, f - 1) {
                    Ok(ys) => {
                        let r = Sx::Vector(ys);
                        proof {
                            lemma_seq_view(&r);
                        }
                        Ok(r)
                    },
                    Err(e) => Err(e),
                }
            },
            _ => Ok(sx.copy()),
        }
    }

    #[verifier::loop_isolation(false)]
    fn eval_seq_at(&mut self, xs: &Vec<Sx>, f: u64) -> (r: core::result::Result<Vec<Sx>, Error>)
        ensures
            (final(self)@, seq_result_view(r)) == eval_seq(old(self)@, views(xs@), f as nat),
            final(self).max_depth == old(self).max_depth,
        decreases f, 1nat, xs@.len(),
    {
        let ghost c0 = self@;
        let ghost vs = views(xs@);
        let mut out: Vec<Sx> = Vec::new();
        let mut i: usize = 0;
        assert(vs.take(0) =~= Seq::<Value>::empty());
        assert(views(out@) =~= Seq::<Value>::empty());
        while i < xs.len()
            invariant
                i <= xs@.len(),
                vs == views(xs@),
                (self@, Ok::<Seq<Value>, EvalError>(views(out@))) == eval_seq(c0, vs.take(i as int), f as nat),
                self.max_depth == old(self).max_depth,
            decreases xs@.len() - i,
        {
            assert(vs.take(i + 1).drop_last() =~= vs.take(i as int));
            assert(vs.take(i + 1).last() == xs@[i as int]@);
            let r = self.eval_at(&xs[i], f);
            match r {
                Ok(v) => {
                    let ghost before = out@;
                    out.push(v);
                    assert(views(out@) =~= views(before).push(out@.last()@));
                },
                Err(e) => {
                    proof {
                        assert(eval_seq(c0, vs.take(i + 1), f as nat) == (self@, Err::<Seq<Value>, EvalError>(e@)));
                        lemma_seq_err(c0, vs, f as nat, i + 1, xs@.len() as int);
                        assert(vs.take(xs@.len() as int) =~= vs);
                        assert(eval_seq(c0, vs, f as nat) == (self@, Err::<Seq<Value>, EvalError>(e@)));
                    }
                    return Err(e);
                },
            }
            i = i + 1;
        }
        assert(vs.take(xs@.len() as int) =~= vs);
        Ok(out)
    }

    #[verifier::loop_isolation(false)]
    fn eval_body_at(&mut self, xs: &Vec<Sx>, f: u64) -> (r: Result)
        ensures
            (final(self)@, result_view(r)) == eval_body(old(self)@, views(xs@), f as nat),
            final(self).max_depth == old(self).max_depth,
        decreases f, 1nat, xs@.len(),
    {
        let ghost c0 = self@;
        let ghost vs = views(xs@);
        let mut last = Sx::Nil;
        let mut i: usize = 0;
        assert(vs.take(0) =~= Seq::<Value>::empty());
        while i < xs.len()
            invariant
                i <= xs@.len(),
                vs == views(xs@),
                (self@, Ok::<Value, EvalError>(last@)) == eval_body(c0, vs.take(i as int), f as nat),
                self.max_depth == old(self).max_depth,
            decreases xs@.len() - i,
        {
            assert(vs.take(i + 1).drop_last() =~= vs.take(i as int));
            assert(vs.take(i + 1).last() == xs@[i as int]@);
            let r = self.eval_at(&xs[i], f);
            match r {
                Ok(v) => {
                    last = v;
                },
                Err(e) => {
                    proof {
                        assert(eval_body(c0, vs.take(i + 1), f as nat) == (self@, Err::<Value, EvalError>(e@)));
                        lemma_body_err(c0, vs, f as nat, i + 1, xs@.len() as int);
                        assert(vs.take(xs@.len() as int) =~= vs);
                    }
                    return Err(e);
                },
            }
            i = i + 1;
        }
        assert(vs.take(xs@.len() as int) =~= vs);
        Ok(last)
    }

    fn eval_forms_at(&mut self, xs: &Vec<Sx>, f: u64) -> (r: Vec<Error>)
        ensures
            (final(self)@, eval_error_views(r@)) == eval_forms(old(self)@, views(xs@), f as nat),
            final(self).max_depth == old(self).max_depth,
        decreases f, 1nat, xs@.len(),
    {
        let ghost c0 = self@;
        let ghost vs = views(xs@);
        let mut errors: Vec<Error> = Vec::new();
        let mut i: usize = 0;
        assert(vs.take(0) =~= Seq::<Value>::empty());
        assert(eval_error_views(errors@) =~= Seq::<EvalError>::empty());
        while i < xs.len()
            invariant
                i <= xs@.len(),
                vs == views(xs@),
                (self@, eval_error_views(errors@)) == eval_forms(c0, vs.take(i as int), f as nat),
                self.max_depth == old(self).max_depth,
            decreases xs@.len() - i,
        {
            assert(vs.take(i + 1).drop_last() =~= vs.take(i as int));
            assert(vs.take(i + 1).last() == xs@[i as int]@);
            let r = self.eval_at(&xs[i], f);
            match r {
                Ok(_) => {},
                Err(e) => {
                    let ghost before = errors@;
                    errors.push(e);
                    assert(eval_error_views(errors@) =~= eval_error_views(before).push(errors@.last()@));
                },
            }
            i = i + 1;
        }
        assert(vs.take(xs@.len() as int) =~= vs);
        errors
    }

    fn load_at(&mut self, m: &String, f: u64) -> (r: Result)
        ensures
            (final(self)@, result_view(r)) == load(old(self)@, m@, f as nat),
            final(self).max_depth == old(self).max_depth,
        decreases f, 2nat, 0nat,
    {
        if *m == self.current_module {
            return Err(Error::ModuleSelfRefer(m.clone()));
        }
        if contains_string(&self.loaded_modules, m) {
            return Ok(Sx::Symbol(m.clone()));
        }
        let ghost srcs = source_views(self.sources@);
        let ghost paths = self@.module_paths;
        let mut cands: Vec<ModuleSource> = Vec::new();
        let mut p: usize = 0;
        assert(paths.take(0) =~= Seq::<Seq<char>>::empty());
        assert(source_views(cands@) =~= Seq::<SourceModel>::empty());
        while p < self.module_paths.len()
            invariant
                p <= self.module_paths@.len(),
                srcs == source_views(self.sources@),
                paths == string_views(self.module_paths@),
                source_views(cands@) == candidates(srcs, paths.take(p as int), m@),
            decreases self.module_paths@.len() - p,
        {
            let dir = &self.module_paths[p];
            let ghost before = source_views(cands@);
            let mut i: usize = 0;
            assert(srcs.take(0) =~= Seq::<SourceModel>::empty());
            assert(before + in_dir(srcs.take(0), paths[p as int], m@) =~= before);
            while i < self.sources.len()
                invariant
                    i <= self.sources@.len(),
                    p < self.module_paths@.len(),
                    srcs == source_views(self.sources@),
                    paths == string_views(self.module_paths@),
                    dir@ == paths[p as int],
                    source_views(cands@) == before + in_dir(srcs.take(i as int), paths[p as int], m@),
                decreases self.sources@.len() - i,
            {
                assert(srcs.take(i + 1).drop_last() =~= srcs.take(i as int));
                assert(srcs.take(i + 1).last() == self.sources@[i as int]@);
                if self.sources[i].module == *m && self.sources[i].dir == *dir {
                    let ghost prev = cands@;
                    cands.push(self.sources[i].clone());
                    assert(source_views(cands@) =~= source_views(prev).push(self.sources@[i as int]@));
                    assert(source_views(cands@) =~= before + in_dir(srcs.take(i + 1), paths[p as int], m@));
                }
                i = i + 1;
            }
            assert(srcs.take(self.sources@.len() as int) =~= srcs);
            assert(paths.take(p + 1).drop_last() =~= paths.take(p as int));
            assert(paths.take(p + 1).last() == paths[p as int]);
            p = p + 1;
        }
        assert(paths.take(self.module_paths@.len() as int) =~= paths);
        if cands.len() == 0 {
            return Err(Error::ModuleNotFound(m.clone(), copy_strings(&self.module_paths)));
        }
        if cands.len() > 1 {
            let mut paths: Vec<String> = Vec::new();
            let mut j: usize = 0;
            while j < cands.len()
                invariant
                    j <= cands@.len(),
                    paths@.len() == j,
                    forall|k: int| 0 <= k < j ==> #[trigger] paths@[k]@ == cands@[k]@.path,
                decreases cands@.len() - j,
            {
                paths.push(cands[j].path.clone());
                j = j + 1;
            }
            assert(string_views(paths@) =~= paths_of(source_views(cands@)));
            return Err(Error::ModuleMultipleOptions(m.clone(), paths));
        }
        assert(source_views(cands@)[0] == cands@[0]@);
        match &cands[0].text {
            SourceText::OpenError(e) => Err(Error::ModuleIoOpenError(m.clone(), e.clone())),
            SourceText::ReadError(e) => Err(Error::ModuleIoReadError(m.clone(), e.clone())),
            SourceText::Text(t) => {
                match read(t.as_str()) {
                    Err(es) => Err(Error::ModuleReadErrors(m.clone(), es)),
                    Ok(forms) => {
                        let mut child = self.copy();
                        child.mark_loaded(m);
                        child.current_module = m.clone();
                        child.import_core();
                        let errors = child.eval_forms_at(&forms, f);
                        if errors.len() > 0 {
                            let e = Error::ModuleEvalErrors(m.clone(), errors);
                            proof {
                                lemma_eval_errors_view(&e);
                            }
                            self.traces = child.traces;
                            Err(e)
                        } else {
                            child.current_module = self.current_module.clone();
                            *self = child;
                            Ok(Sx::Symbol(m.clone()))
                        }
                    },
                }
            },
        }
    }

    #[verifier::loop_isolation(false)]
    fn apply_special_at(&mut self, b: BuiltinId, args: &Vec<Sx>, f: u64) -> (r: Result)
        requires
            builtin_is_special(b),
            args@.len() >= builtin_min_arity(b),
            builtin_max_arity(b) is Some ==> args@.len() <= builtin_max_arity(b)->0,
        ensures
            (final(self)@, result_view(r)) == apply_special(old(self)@, b, views(args@), f as nat),
            final(self).max_depth == old(self).max_depth,
        decreases f, 3nat, 0nat,
    {
        match b {
            BuiltinId::Def => {
                match &args[0] {
                    Sx::Symbol(n) => {
                        if self.lookup_core(n).is_some() {
                            return Err(Error::RedefineCore(n.clone()));
                        }
                        if self.lookup_current(n).is_some() {
                            return Err(Error::Redefine(n.clone()));
                        }
                        match self.eval_at(&args[1], f) {
                            Ok(v) => {
                                self.define_current(n, &v, Visibility::Private);
                                Ok(args[0].copy())
                            },
                            Err(e) => Err(e),
                        }
                    },
                    other => Err(Error::DefineBadSymbol(other.copy())),
                }
            },
            BuiltinId::Fn => {
                match &args[0] {
                    Sx::List(ps) => {
                        proof {
                            lemma_seq_view(&args[0]);
                        }
                        let ghost pv = views(ps@);
                        let mut names: Vec<String> = Vec::new();
                        let mut i: usize = 0;
                        assert(string_views(names@) =~= Seq::<Seq<char>>::empty());
                        while i < ps.len()
                            invariant
                                i <= ps@.len(),
                                pv == views(ps@),
                                params(pv, i as int) == Ok::<Seq<Seq<char>>, EvalError>(string_views(names@)),
                            decreases ps@.len() - i,
                        {
                            proof {
                                lemma_seq_view(&ps[i as int]);
                            }
                            match &ps[i] {
                                Sx::Symbol(n) => {
                                    assert(pv[i as int] == Value::Symbol(n@));
                                    if contains_string(&names, n) {
                                        proof {
                                            assert(params(pv, i + 1) == Err::<Seq<Seq<char>>, EvalError>(EvalError::DuplicateBinding(n@)));
                                            lemma_params_err(pv, i + 1, ps@.len() as int);
                                        }
                                        return Err(Error::DuplicateBinding(n.clone()));
                                    }
                                    let ghost before = names@;
                                    names.push(n.clone());
                                    assert(string_views(names@) =~= string_views(before).push(n@));
                                },
                                other => {
                                    proof {
                                        assert(pv[i as int] == other@);
                                        assert(params(pv, i + 1) == Err::<Seq<Seq<char>>, EvalError>(EvalError::InvalidBinding(other@)));
                                        lemma_params_err(pv, i + 1, ps@.len() as int);
                                    }
                                    return Err(Error::InvalidBinding(other.copy()));
                                },
                            }
                            i = i + 1;
                        }
                        let body = copy_from(args, 1);
                        let g = SxFunctionInfo {
                            module: self.current_module.clone(),
                            arity: ps.len(),
                            bindings: names,
                            body,
                        };
                        proof {
                            lemma_body_view(&g);
                            assert(views(args@).skip(1) =~= views(args@).drop_first());
                        }
                        let r = Sx::Function(Box::new(g));
                        proof {
                            lemma_seq_view(&r);
                        }
                        Ok(r)
                    },
                    other => Err(bad_arg(b, other)),
                }
            },
            BuiltinId::If => {
                match self.eval_at(&args[0], f) {
                    Err(e) => Err(e),
                    Ok(Sx::Nil) => self.eval_at(&args[2], f),
                    Ok(Sx::Boolean(false)) => self.eval_at(&args[2], f),
                    Ok(other) => {
                        proof {
                            lemma_seq_view(&other);
                        }
                        self.eval_at(&args[1], f)
                    },
                }
            },
            BuiltinId::Quote => Ok(args[0].copy()),
            BuiltinId::Module => {
                match &args[0] {
                    Sx::Symbol(m) => {
                        self.mark_loaded(m);
                        self.current_module = m.clone();
                        self.import_core();
                        Ok(args[0].copy())
                    },
                    other => Err(bad_arg(b, other)),
                }
            },
            BuiltinId::Import => {
                match &args[0] {
                    Sx::Symbol(m) => {
                        let r = self.load_at(m, f);
                        if r.is_ok() {
                            self.import_public(m);
                        }
                        r
                    },
                    other => Err(bad_arg(b, other)),
                }
            },
            _ => Ok(Sx::Nil),
        }
    }

    fn apply_builtin_at(&mut self, b: BuiltinId, args: &Vec<Sx>, f: u64) -> (r: Result)
        ensures
            (final(self)@, result_view(r)) == builtin_call(old(self)@, b, views(args@), f as nat),
            final(self).max_depth == old(self).max_depth,
        decreases f, 4nat, 0nat,
    {
        let info = b.info();
        let n = args.len();
        if n < info.min_arity {
            return Err(Error::BuiltinTooFewArgs(info.name, info.min_arity, n));
        }
        match info.max_arity {
            Some(max) => {
                if max < n {
                    return Err(Error::BuiltinTooManyArgs(info.name, max, n));
                }
            },
            None => {},
        }
        if info.callback == SxBuiltinCallback::Special {
            self.apply_special_at(b, args, f)
        } else {
            match self.eval_seq_at(args, f) {
                Err(e) => Err(e),
                Ok(vs) => {
                    proof {
                        lemma_seq_len(old(self)@, views(args@), f as nat);
                    }
                    self.apply_primitive_at(b, &vs, f)
                },
            }
        }
    }

    fn apply_function_at(&mut self, g: &SxFunctionInfo, args: &Vec<Sx>, f: u64) -> (r: Result)
        ensures
            (final(self)@, result_view(r)) == function_call(old(self)@, g@, views(args@), f as nat),
            final(self).max_depth == old(self).max_depth,
        decreases f, 4nat, 0nat,
    {
        proof {
            lemma_body_view(g);
        }
        let n = args.len();
        if n < g.arity {
            return Err(Error::FnTooFewArgs(Box::new(g.copy()), g.arity, n));
        }
        if g.arity < n {
            return Err(Error::FnTooManyArgs(Box::new(g.copy()), g.arity, n));
        }
        let vs = match self.eval_seq_at(args, f) {
            Err(e) => {
                return Err(e);
            },
            Ok(vs) => vs,
        };
        let ghost c1 = self@;
        let mut child = self.copy_without_sources();
        core::mem::swap(&mut child.sources, &mut self.sources);
        assert(child@ == c1);
        child.current_module = g.module.clone();
        let k = if g.bindings.len() < vs.len() { g.bindings.len() } else { vs.len() };
        let ghost base = child@;
        let mut i: usize = 0;
        while i < k
            invariant
                i <= k,
                k == min_len(g.bindings@.len(), vs@.len()),
                child@ == bind_params(base, g.module@, string_views(g.bindings@), views(vs@), i as int),
            decreases k - i,
        {
            child.define(&g.module, &g.bindings[i], &vs[i], Visibility::Local);
            i = i + 1;
        }
        proof {
            lemma_bind_params_loaded(base, g.module@, string_views(g.bindings@), views(vs@), k as int);
        }
        let ghost start = child@;
        let r = child.eval_body_at(&g.body, f);
        proof {
            lemma_body_keeps_modules(start, views(g.body@), f as nat);
        }
        core::mem::swap(&mut child.sources, &mut self.sources);
        self.traces = child.traces;
        assert(self@ == (ContextModel { traces: child@.traces, ..c1 }));
        r
    }
}

impl Context {
    /// Evaluates a value, within the context's depth budget.
    pub fn eval(&mut self, sx: &Sx) -> (r: Result)
        ensures
            (final(self)@, result_view(r)) == eval_value(old(self)@, sx@, old(self).max_depth as nat),
            final(self).max_depth == old(self).max_depth,
    {
        self.eval_at(sx, self.max_depth)
    }

    /// Applies a builtin to unevaluated arguments.
    pub fn apply_builtin(&mut self, builtin: BuiltinId, args: &Vec<Sx>) -> (r: Result)
        ensures
            (final(self)@, result_view(r)) == builtin_call(old(self)@, builtin, views(args@), old(self).max_depth as nat),
            final(self).max_depth == old(self).max_depth,
    {
        self.apply_builtin_at(builtin, args, self.max_depth)
    }

    /// Applies a user function to unevaluated arguments.
    pub fn apply_function(&mut self, f: &SxFunctionInfo, args: &Vec<Sx>) -> (r: Result)
        ensures
            (final(self)@, result_view(r)) == function_call(old(self)@, f@, views(args@), old(self).max_depth as nat),
            final(self).max_depth == old(self).max_depth,
    {
        self.apply_function_at(f, args, self.max_depth)
    }

    /// Loads a module by name, as `import` does.
    pub fn load_module(&mut self, name: &String) -> (r: Result)
        ensures
            (final(self)@, result_view(r)) == load(old(self)@, name@, old(self).max_depth as nat),
            final(self).max_depth == old(self).max_depth,
    {
        self.load_at(name, self.max_depth)
    }
}

/// Evaluates a value in a context.
pub fn eval(ctx: &mut Context, sx: &Sx) -> (r: Result)
    ensures
        (final(ctx)@, result_view(r)) == eval_value(old(ctx)@, sx@, old(ctx).max_depth as nat),
        final(ctx).max_depth == old(ctx).max_depth,
{
    ctx.eval(sx)
}

/// Applies a builtin to unevaluated arguments in a context.
pub fn apply_builtin(builtin: BuiltinId, ctx: &mut Context, args: &Vec<Sx>) -> (r: Result)
    ensures
        (final(ctx)@, result_view(r)) == builtin_call(old(ctx)@, builtin, views(args@), old(ctx).max_depth as nat),
        final(ctx).max_depth == old(ctx).max_depth,
{
    ctx.apply_builtin(builtin, args)
}

/// Applies a user function to unevaluated arguments in a context.
pub fn apply_function(f: &SxFunctionInfo, ctx: &mut Context, args: &Vec<Sx>) -> (r: Result)
    ensures
        (final(ctx)@, result_view(r)) == function_call(old(ctx)@, f@, views(args@), old(ctx).max_depth as nat),
        final(ctx).max_depth == old(ctx).max_depth,
{
    ctx.apply_function(f, args)
}

} // verus!
