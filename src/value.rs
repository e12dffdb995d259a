use vstd::prelude::*;

use crate::text::{int_text, nat_text, push_char, push_int, push_str, push_usize};

verus! {

broadcast use {
    vstd::std_specs::vec::axiom_vec_index_decreases,
    vstd::std_specs::vec::axiom_vec_decreases_to_view,
    vstd::seq::axiom_seq_index_decreases,
};

/// The core builtins, one variant each.
#[derive(Clone, Copy, PartialEq, Eq, Structural, Debug)]
pub enum BuiltinId {
    Def,
    Fn,
    If,
    Module,
    Quote,
    /// Loads a module; there is no separate `use` form.
    Import,
    Apply,
    Context,
    Trace,
    Cons,
    Head,
    Tail,
    Range,
    Eq,
    Plus,
    Minus,
    Product,
}

/// Whether a builtin sees its arguments unevaluated or evaluated.
#[derive(Clone, Copy, PartialEq, Eq, Structural, Debug)]
pub enum SxBuiltinCallback {
    Special,
    Primitive,
}

/// The descriptor of a builtin: its name, its arity bounds and its kind.
#[derive(Clone, Copy, PartialEq, Eq, Debug)]
pub struct SxBuiltinInfo {
    pub name: &'static str,
    pub min_arity: usize,
    pub max_arity: Option<usize>,
    pub callback: SxBuiltinCallback,
}

/// How a definition came to be in a module.
#[derive(Clone, Copy, PartialEq, Eq, Structural, Debug)]
pub enum Visibility {
    Private,
    Public,
    Imported,
    Local,
}

/// A user function: no closure, only the module it was defined in.
#[derive(Debug, PartialEq, Eq)]
pub struct SxFunctionInfo {
    pub module: String,
    pub arity: usize,
    pub bindings: Vec<String>,
    pub body: Vec<Sx>,
}

/// A value of the language.
#[derive(Debug, PartialEq, Eq)]
pub enum Sx {
    Nil,
    Boolean(bool),
    Integer(i64),
    Symbol(String),
    String(String),
    List(Vec<Sx>),
    Vector(Vec<Sx>),
    Quote(Box<Sx>),
    Builtin(BuiltinId),
    Function(Box<SxFunctionInfo>),
}

/// The mathematical model of a user function.
pub struct FunctionValue {
    pub module: Seq<char>,
    pub arity: usize,
    pub bindings: Seq<Seq<char>>,
    pub body: Seq<Value>,
}

/// The mathematical model of a value: text as character sequences.
pub enum Value {
    Nil,
    Boolean(bool),
    Integer(i64),
    Symbol(Seq<char>),
    Str(Seq<char>),
    List(Seq<Value>),
    Vector(Seq<Value>),
    Quote(Box<Value>),
    Builtin(BuiltinId),
    Function(FunctionValue),
}


/// The name under which a builtin is registered in the core module.
pub open spec fn builtin_name(b: BuiltinId) -> Seq<char> {
    match b {
        BuiltinId::Def => seq!['d', 'e', 'f'],
        BuiltinId::Fn => seq!['f', 'n'],
        BuiltinId::If => seq!['i', 'f'],
        BuiltinId::Module => seq!['m', 'o', 'd', 'u', 'l', 'e'],
        BuiltinId::Quote => seq!['q', 'u', 'o', 't', 'e'],
        BuiltinId::Import => seq!['i', 'm', 'p', 'o', 'r', 't'],
        BuiltinId::Apply => seq!['a', 'p', 'p', 'l', 'y'],
        BuiltinId::Context => seq!['c', 'o', 'n', 't', 'e', 'x', 't'],
        BuiltinId::Trace => seq!['t', 'r', 'a', 'c', 'e'],
        BuiltinId::Cons => seq!['c', 'o', 'n', 's'],
        BuiltinId::Head => seq!['h', 'e', 'a', 'd'],
        BuiltinId::Tail => seq!['t', 'a', 'i', 'l'],
        BuiltinId::Range => seq!['r', 'a', 'n', 'g', 'e'],
        BuiltinId::Eq => seq!['='],
        BuiltinId::Plus => seq!['+'],
        BuiltinId::Minus => seq!['-'],
        BuiltinId::Product => seq!['*'],
    }
}

/// The least number of arguments a builtin takes.
pub open spec fn builtin_min_arity(b: BuiltinId) -> usize {
    match b {
        BuiltinId::Def => 2,
        BuiltinId::Fn => 2,
        BuiltinId::If => 3,
        BuiltinId::Module => 1,
        BuiltinId::Quote => 1,
        BuiltinId::Import => 1,
        BuiltinId::Apply => 2,
        BuiltinId::Context => 0,
        BuiltinId::Trace => 2,
        BuiltinId::Cons => 2,
        BuiltinId::Head => 1,
        BuiltinId::Tail => 1,
        BuiltinId::Range => 0,
        BuiltinId::Eq => 1,
        BuiltinId::Plus => 0,
        BuiltinId::Minus => 1,
        BuiltinId::Product => 0,
    }
}

/// The most arguments a builtin takes, if bounded.
pub open spec fn builtin_max_arity(b: BuiltinId) -> Option<usize> {
    match b {
        BuiltinId::Def => Some(2),
        BuiltinId::Fn => None,
        BuiltinId::If => Some(3),
        BuiltinId::Module => Some(1),
        BuiltinId::Quote => Some(1),
        BuiltinId::Import => Some(1),
        BuiltinId::Apply => Some(2),
        BuiltinId::Context => Some(0),
        BuiltinId::Trace => Some(2),
        BuiltinId::Cons => Some(2),
        BuiltinId::Head => Some(1),
        BuiltinId::Tail => Some(1),
        BuiltinId::Range => Some(2),
        BuiltinId::Eq => None,
        BuiltinId::Plus => None,
        BuiltinId::Minus => None,
        BuiltinId::Product => None,
    }
}

/// Whether a builtin is a special form (its arguments are not evaluated).
pub open spec fn builtin_is_special(b: BuiltinId) -> bool {
    match b {
        BuiltinId::Def => true,
        BuiltinId::Fn => true,
        BuiltinId::If => true,
        BuiltinId::Module => true,
        BuiltinId::Quote => true,
        BuiltinId::Import => true,
        BuiltinId::Apply => false,
        BuiltinId::Context => false,
        BuiltinId::Trace => false,
        BuiltinId::Cons => false,
        BuiltinId::Head => false,
        BuiltinId::Tail => false,
        BuiltinId::Range => false,
        BuiltinId::Eq => false,
        BuiltinId::Plus => false,
        BuiltinId::Minus => false,
        BuiltinId::Product => false,
    }
}

/// The core registration table, in order.
pub open spec fn core_table() -> Seq<BuiltinId> {
    seq![BuiltinId::Def, BuiltinId::Fn, BuiltinId::If, BuiltinId::Module, BuiltinId::Quote, BuiltinId::Import, BuiltinId::Apply, BuiltinId::Context, BuiltinId::Trace, BuiltinId::Cons, BuiltinId::Head, BuiltinId::Tail, BuiltinId::Range, BuiltinId::Eq, BuiltinId::Plus, BuiltinId::Minus, BuiltinId::Product]
}

impl BuiltinId {
    /// The descriptor of this builtin.
    pub fn info(self) -> (r: SxBuiltinInfo)
        ensures
            r.name@ == builtin_name(self),
            r.min_arity == builtin_min_arity(self),
            r.max_arity == builtin_max_arity(self),
            (r.callback == SxBuiltinCallback::Special) == builtin_is_special(self),
    {
        match self {
            BuiltinId::Def => {
                proof {
                    reveal_strlit("def");
                }
                SxBuiltinInfo { name: "def", min_arity: 2, max_arity: Some(2), callback: SxBuiltinCallback::Special }
            },
            BuiltinId::Fn => {
                proof {
                    reveal_strlit("fn");
                }
                SxBuiltinInfo { name: "fn", min_arity: 2, max_arity: None, callback: SxBuiltinCallback::Special }
            },
            BuiltinId::If => {
                proof {
                    reveal_strlit("if");
                }
                SxBuiltinInfo { name: "if", min_arity: 3, max_arity: Some(3), callback: SxBuiltinCallback::Special }
            },
            BuiltinId::Module => {
                proof {
                    reveal_strlit("module");
                }
                SxBuiltinInfo { name: "module", min_arity: 1, max_arity: Some(1), callback: SxBuiltinCallback::Special }
            },
            BuiltinId::Quote => {
                proof {
                    reveal_strlit("quote");
                }
                SxBuiltinInfo { name: "quote", min_arity: 1, max_arity: Some(1), callback: SxBuiltinCallback::Special }
            },
            BuiltinId::Import => {
                proof {
                    reveal_strlit("import");
                }
                SxBuiltinInfo { name: "import", min_arity: 1, max_arity: Some(1), callback: SxBuiltinCallback::Special }
            },
            BuiltinId::Apply => {
                proof {
                    reveal_strlit("apply");
                }
                SxBuiltinInfo { name: "apply", min_arity: 2, max_arity: Some(2), callback: SxBuiltinCallback::Primitive }
            },
            BuiltinId::Context => {
                proof {
                    reveal_strlit("context");
                }
                SxBuiltinInfo { name: "context", min_arity: 0, max_arity: Some(0), callback: SxBuiltinCallback::Primitive }
            },
            BuiltinId::Trace => {
                proof {
                    reveal_strlit("trace");
                }
                SxBuiltinInfo { name: "trace", min_arity: 2, max_arity: Some(2), callback: SxBuiltinCallback::Primitive }
            },
            BuiltinId::Cons => {
                proof {
                    reveal_strlit("cons");
                }
                SxBuiltinInfo { name: "cons", min_arity: 2, max_arity: Some(2), callback: SxBuiltinCallback::Primitive }
            },
            BuiltinId::Head => {
                proof {
                    reveal_strlit("head");
                }
                SxBuiltinInfo { name: "head", min_arity: 1, max_arity: Some(1), callback: SxBuiltinCallback::Primitive }
            },
            BuiltinId::Tail => {
                proof {
                    reveal_strlit("tail");
                }
                SxBuiltinInfo { name: "tail", min_arity: 1, max_arity: Some(1), callback: SxBuiltinCallback::Primitive }
            },
            BuiltinId::Range => {
                proof {
                    reveal_strlit("range");
                }
                SxBuiltinInfo { name: "range", min_arity: 0, max_arity: Some(2), callback: SxBuiltinCallback::Primitive }
            },
            BuiltinId::Eq => {
                proof {
                    reveal_strlit("=");
                }
                SxBuiltinInfo { name: "=", min_arity: 1, max_arity: None, callback: SxBuiltinCallback::Primitive }
            },
            BuiltinId::Plus => {
                proof {
                    reveal_strlit("+");
                }
                SxBuiltinInfo { name: "+", min_arity: 0, max_arity: None, callback: SxBuiltinCallback::Primitive }
            },
            BuiltinId::Minus => {
                proof {
                    reveal_strlit("-");
                }
                SxBuiltinInfo { name: "-", min_arity: 1, max_arity: None, callback: SxBuiltinCallback::Primitive }
            },
            BuiltinId::Product => {
                proof {
                    reveal_strlit("*");
                }
                SxBuiltinInfo { name: "*", min_arity: 0, max_arity: None, callback: SxBuiltinCallback::Primitive }
            },
        }
    }
}

/// The core registration table, in order.
pub fn builtin_table() -> (r: Vec<BuiltinId>)
    ensures
        r@ == core_table(),
{
    let r = vec![BuiltinId::Def, BuiltinId::Fn, BuiltinId::If, BuiltinId::Module, BuiltinId::Quote, BuiltinId::Import, BuiltinId::Apply, BuiltinId::Context, BuiltinId::Trace, BuiltinId::Cons, BuiltinId::Head, BuiltinId::Tail, BuiltinId::Range, BuiltinId::Eq, BuiltinId::Plus, BuiltinId::Minus, BuiltinId::Product];
    assert(r@ =~= core_table());
    r
}

/// Models of a sequence of values.
pub open spec fn views(xs: Seq<Sx>) -> Seq<Value> {
    Seq::new(xs.len(), |i: int| xs[i]@)
}

/// The model of a list or vector is the sequence of its elements' models.
pub proof fn lemma_seq_view(x: &Sx)
    ensures
        x is List ==> x@ == Value::List(views(x->List_0@)),
        x is Vector ==> x@ == Value::Vector(views(x->Vector_0@)),
        x is Function ==> x@ == Value::Function(x->Function_0@),
{
    match x {
        Sx::List(xs) => {
            if let Value::List(p) = x@ {
                assert(p =~= views(xs@));
            }
        },
        Sx::Vector(xs) => {
            if let Value::Vector(p) = x@ {
                assert(p =~= views(xs@));
            }
        },
        _ => {},
    }
}

/// The model of a function's body is the sequence of its forms' models.
pub proof fn lemma_body_view(f: &SxFunctionInfo)
    ensures
        f@.body == views(f.body@),
        f@.bindings == string_views(f.bindings@),
{
    assert(f@.body =~= views(f.body@));
}

pub open spec fn string_views(v: Seq<String>) -> Seq<Seq<char>> {
    Seq::new(v.len(), |i: int| v[i]@)
}

impl SxFunctionInfo {
    pub open spec fn view(&self) -> FunctionValue
        decreases self,
    {
        FunctionValue {
            module: self.module@,
            arity: self.arity,
            bindings: string_views(self.bindings@),
            body: Seq::new(
                self.body@.len(),
                |i: int|
                    if 0 <= i < self.body@.len() {
                        self.body@[i].view()
                    } else {
                        Value::Nil
                    },
            ),
        }
    }
}

impl Sx {
    pub open spec fn view(&self) -> Value
        decreases self,
    {
        match self {
            Sx::Nil => Value::Nil,
            Sx::Boolean(b) => Value::Boolean(*b),
            Sx::Integer(i) => Value::Integer(*i),
            Sx::Symbol(s) => Value::Symbol(s@),
            Sx::String(s) => Value::Str(s@),
            Sx::List(xs) => Value::List(
                Seq::new(
                    xs@.len(),
                    |i: int|
                        if 0 <= i < xs@.len() {
                            xs@[i].view()
                        } else {
                            Value::Nil
                        },
                ),
            ),
            Sx::Vector(xs) => Value::Vector(
                Seq::new(
                    xs@.len(),
                    |i: int|
                        if 0 <= i < xs@.len() {
                            xs@[i].view()
                        } else {
                            Value::Nil
                        },
                ),
            ),
            Sx::Quote(x) => Value::Quote(Box::new((**x).view())),
            Sx::Builtin(b) => Value::Builtin(*b),
            Sx::Function(f) => Value::Function((**f).view()),
        }
    }
}

/// Text of a builtin's arity bounds: `n`, `n..m` or `n..`.
pub open spec fn arity_text(min: usize, max: Option<usize>) -> Seq<char> {
    match max {
        Some(m) => if m == min {
            nat_text(min as nat)
        } else {
            nat_text(min as nat) + seq!['.', '.'] + nat_text(m as nat)
        },
        None => nat_text(min as nat) + seq!['.', '.'],
    }
}

/// Printed form of a builtin.
pub open spec fn builtin_text(b: BuiltinId) -> Seq<char> {
    let info = seq!['n', 'a', 'm', 'e', ':', ' '] + builtin_name(b) + seq![',', ' ', 'a', 'r', 'i', 't', 'y', ':', ' ']
        + arity_text(builtin_min_arity(b), builtin_max_arity(b));
    if builtin_is_special(b) {
        seq!['#', 's', 'p', 'e', 'c', 'i', 'a', 'l', '<'] + info + seq!['>']
    } else {
        seq!['#', 'p', 'r', 'i', 'm', 'i', 't', 'i', 'v', 'e', '<'] + info + seq!['>']
    }
}

/// Names separated by single spaces.
pub open spec fn join_names(xs: Seq<Seq<char>>) -> Seq<char>
    decreases xs.len(),
{
    if xs.len() == 0 {
        seq![]
    } else if xs.len() == 1 {
        xs[0]
    } else {
        join_names(xs.drop_last()) + seq![' '] + xs.last()
    }
}

/// Printed form of a function.
pub open spec fn function_text(f: FunctionValue) -> Seq<char> {
    seq!['#', 'f', 'u', 'n', 'c', 't', 'i', 'o', 'n', '<', 'a', 'r', 'i', 't', 'y', ':', ' '] + nat_text(f.arity as nat)
        + seq![',', ' ', 'b', 'i', 'n', 'd', 'i', 'n', 'g', 's', ':', ' ', '('] + join_names(f.bindings) + seq![')', '>']
}

/// Printed form of a value.
pub open spec fn print_text(v: Value) -> Seq<char>
    decreases v,
{
    match v {
        Value::Nil => seq!['n', 'i', 'l'],
        Value::Boolean(b) => if b {
            seq!['t', 'r', 'u', 'e']
        } else {
            seq!['f', 'a', 'l', 's', 'e']
        },
        Value::Integer(i) => int_text(i as int),
        Value::Symbol(s) => s,
        Value::Str(s) => seq!['"'] + s + seq!['"'],
        Value::List(xs) => seq!['('] + join_text(xs) + seq![')'],
        Value::Vector(xs) => seq!['['] + join_text(xs) + seq![']'],
        Value::Quote(x) => seq!['\''] + print_text(*x),
        Value::Builtin(b) => builtin_text(b),
        Value::Function(f) => function_text(f),
    }
}

/// Printed forms of values, separated by single spaces.
pub open spec fn join_text(xs: Seq<Value>) -> Seq<char>
    decreases xs,
{
    if xs.len() == 0 {
        seq![]
    } else if xs.len() == 1 {
        print_text(xs[0])
    } else {
        join_text(xs.drop_last()) + seq![' '] + print_text(xs.last())
    }
}

fn push_arity(out: &mut String, min: usize, max: Option<usize>)
    ensures
        final(out)@ == old(out)@ + arity_text(min, max),
{
    push_usize(out, min);
    match max {
        Some(m) => {
            if m != min {
                push_str(out, "..");
                proof {
                    reveal_strlit("..");
                }
                push_usize(out, m);
            }
        },
        None => {
            push_str(out, "..");
            proof {
                reveal_strlit("..");
            }
        },
    }
    assert(final(out)@ =~= old(out)@ + arity_text(min, max));
}

fn push_names(out: &mut String, names: &Vec<String>)
    ensures
        final(out)@ == old(out)@ + join_names(string_views(names@)),
{
    let ghost start = out@;
    let mut i: usize = 0;
    while i < names.len()
        invariant
            i <= names.len(),
            out@ == start + join_names(string_views(names@).take(i as int)),
        decreases names.len() - i,
    {
        let ghost before = out@;
        if i > 0 {
            push_char(out, ' ');
        }
        push_str(out, names[i].as_str());
        proof {
            let vs = string_views(names@);
            assert(vs.take(i + 1).drop_last() =~= vs.take(i as int));
            if i == 0 {
                assert(join_names(vs.take(1)) == vs[0]);
            }
        }
        i = i + 1;
        assert(out@ =~= start + join_names(string_views(names@).take(i as int)));
    }
    assert(string_views(names@).take(names.len() as int) =~= string_views(names@));
}


/// Printed form of a builtin descriptor.
pub open spec fn info_text(info: SxBuiltinInfo) -> Seq<char> {
    let body = seq!['n', 'a', 'm', 'e', ':', ' '] + info.name@ + seq![',', ' ', 'a', 'r', 'i', 't', 'y', ':', ' ']
        + arity_text(info.min_arity, info.max_arity);
    if info.callback == SxBuiltinCallback::Special {
        seq!['#', 's', 'p', 'e', 'c', 'i', 'a', 'l', '<'] + body + seq!['>']
    } else {
        seq!['#', 'p', 'r', 'i', 'm', 'i', 't', 'i', 'v', 'e', '<'] + body + seq!['>']
    }
}

impl SxBuiltinInfo {
    /// Appends the printed form of this descriptor to `out`.
    pub fn print_into(&self, out: &mut String)
        ensures
            final(out)@ == old(out)@ + info_text(*self),
    {
        if self.callback == SxBuiltinCallback::Special {
            push_str(out, "#special<");
            proof {
                reveal_strlit("#special<");
            }
        } else {
            push_str(out, "#primitive<");
            proof {
                reveal_strlit("#primitive<");
            }
        }
        push_str(out, "name: ");
        push_str(out, self.name);
        push_str(out, ", arity: ");
        push_arity(out, self.min_arity, self.max_arity);
        push_char(out, '>');
        proof {
            reveal_strlit("name: ");
            reveal_strlit(", arity: ");
        }
        assert(final(out)@ =~= old(out)@ + info_text(*self));
    }

    /// The printed form of this descriptor.
    pub fn to_string(&self) -> (r: String)
        ensures
            r@ == info_text(*self),
    {
        let mut out = String::new();
        self.print_into(&mut out);
        assert(out@ =~= info_text(*self));
        out
    }
}

impl SxFunctionInfo {
    /// Appends the printed form of this function to `out`.
    pub fn print_into(&self, out: &mut String)
        ensures
            final(out)@ == old(out)@ + function_text(self@),
    {
        proof {
            lemma_body_view(self);
        }
        push_str(out, "#function<arity: ");
        push_usize(out, self.arity);
        push_str(out, ", bindings: (");
        push_names(out, &self.bindings);
        push_str(out, ")>");
        proof {
            reveal_strlit("#function<arity: ");
            reveal_strlit(", bindings: (");
            reveal_strlit(")>");
        }
        assert(final(out)@ =~= old(out)@ + function_text(self@));
    }

    /// The printed form of this function.
    pub fn to_string(&self) -> (r: String)
        ensures
            r@ == function_text(self@),
    {
        let mut out = String::new();
        self.print_into(&mut out);
        assert(out@ =~= function_text(self@));
        out
    }
}

impl Sx {
    /// A copy of this value, with the same model.
    pub fn copy(&self) -> (r: Sx)
        ensures
            r@ == self@,
        decreases self,
    {
        match self {
            Sx::Nil => Sx::Nil,
            Sx::Boolean(b) => Sx::Boolean(*b),
            Sx::Integer(i) => Sx::Integer(*i),
            Sx::Symbol(s) => Sx::Symbol(s.clone()),
            Sx::String(s) => Sx::String(s.clone()),
            Sx::List(xs) => {
                let ys = copy_all(xs);
                let r = Sx::List(ys);
                proof {
                    lemma_seq_view(&r);
                    lemma_seq_view(self);
                    assert(views(ys@) =~= views(xs@));
                }
                r
            },
            Sx::Vector(xs) => {
                let ys = copy_all(xs);
                let r = Sx::Vector(ys);
                proof {
                    lemma_seq_view(&r);
                    lemma_seq_view(self);
                    assert(views(ys@) =~= views(xs@));
                }
                r
            },
            Sx::Quote(x) => Sx::Quote(Box::new((**x).copy())),
            Sx::Builtin(b) => Sx::Builtin(*b),
            Sx::Function(f) => {
                let g = (**f).copy();
                Sx::Function(Box::new(g))
            },
        }
    }

    /// Structural equality of the models.
    pub fn same(&self, other: &Sx) -> (r: bool)
        ensures
            r == (self@ == other@),
        decreases self,
    {
        match (self, other) {
            (Sx::Nil, Sx::Nil) => true,
            (Sx::Boolean(a), Sx::Boolean(b)) => *a == *b,
            (Sx::Integer(a), Sx::Integer(b)) => *a == *b,
            (Sx::Symbol(a), Sx::Symbol(b)) => *a == *b,
            (Sx::String(a), Sx::String(b)) => *a == *b,
            (Sx::List(a), Sx::List(b)) => {
                let r = same_all(a, b);
                proof {
                    lemma_seq_view(self);
                    lemma_seq_view(other);
                    if r {
                        assert(views(a@) =~= views(b@));
                    } else if a@.len() == b@.len() {
                        let i = choose|i: int| 0 <= i < a@.len() && a@[i]@ != b@[i]@;
                        assert(views(a@)[i] != views(b@)[i]);
                    } else {
                        assert(views(a@).len() != views(b@).len());
                    }
                }
                r
            },
            (Sx::Vector(a), Sx::Vector(b)) => {
                let r = same_all(a, b);
                proof {
                    lemma_seq_view(self);
                    lemma_seq_view(other);
                    if r {
                        assert(views(a@) =~= views(b@));
                    } else if a@.len() == b@.len() {
                        let i = choose|i: int| 0 <= i < a@.len() && a@[i]@ != b@[i]@;
                        assert(views(a@)[i] != views(b@)[i]);
                    } else {
                        assert(views(a@).len() != views(b@).len());
                    }
                }
                r
            },
            (Sx::Quote(a), Sx::Quote(b)) => (**a).same(&**b),
            (Sx::Builtin(a), Sx::Builtin(b)) => *a == *b,
            (Sx::Function(a), Sx::Function(b)) => {
                proof {
                    lemma_seq_view(self);
                    lemma_seq_view(other);
                }
                (**a).same(&**b)
            },
            _ => {
                proof {
                    lemma_seq_view(self);
                    lemma_seq_view(other);
                }
                false
            },
        }
    }

    /// Appends the printed form of this value to `out`.
    pub fn print_into(&self, out: &mut String)
        ensures
            final(out)@ == old(out)@ + print_text(self@),
        decreases self,
    {
        match self {
            Sx::Nil => {
                push_str(out, "nil");
                proof {
                    reveal_strlit("nil");
                }
            },
            Sx::Boolean(b) => {
                if *b {
                    push_str(out, "true");
                    proof {
                        reveal_strlit("true");
                    }
                } else {
                    push_str(out, "false");
                    proof {
                        reveal_strlit("false");
                    }
                }
            },
            Sx::Integer(i) => push_int(out, *i),
            Sx::Symbol(s) => push_str(out, s.as_str()),
            Sx::String(s) => {
                push_char(out, '"');
                push_str(out, s.as_str());
                push_char(out, '"');
                assert(final(out)@ =~= old(out)@ + print_text(self@));
            },
            Sx::List(xs) => {
                proof {
                    lemma_seq_view(self);
                }
                push_char(out, '(');
                print_all(xs, out);
                push_char(out, ')');
                assert(final(out)@ =~= old(out)@ + print_text(self@));
            },
            Sx::Vector(xs) => {
                proof {
                    lemma_seq_view(self);
                }
                push_char(out, '[');
                print_all(xs, out);
                push_char(out, ']');
                assert(final(out)@ =~= old(out)@ + print_text(self@));
            },
            Sx::Quote(x) => {
                push_char(out, '\'');
                (**x).print_into(out);
                assert(final(out)@ =~= old(out)@ + print_text(self@));
            },
            Sx::Builtin(b) => {
                b.info().print_into(out);
            },
            Sx::Function(f) => {
                (**f).print_into(out);
                proof {
                    lemma_seq_view(self);
                }
            },
        }
    }

    /// The printed form of this value.
    pub fn to_string(&self) -> (r: String)
        ensures
            r@ == print_text(self@),
    {
        let mut out = String::new();
        self.print_into(&mut out);
        assert(out@ =~= print_text(self@));
        out
    }
}

/// Copies of each element, in order.
pub fn copy_all(xs: &Vec<Sx>) -> (r: Vec<Sx>)
    ensures
        r@.len() == xs@.len(),
        forall|i: int| 0 <= i < xs@.len() ==> #[trigger] r@[i]@ == xs@[i]@,
    decreases xs,
{
    let mut out: Vec<Sx> = Vec::new();
    let mut i: usize = 0;
    while i < xs.len()
        invariant
            i <= xs.len(),
            out@.len() == i,
            forall|j: int| 0 <= j < i ==> #[trigger] out@[j]@ == xs@[j]@,
        decreases xs.len() - i,
    {
        out.push(xs[i].copy());
        i = i + 1;
    }
    out
}

fn same_all(a: &Vec<Sx>, b: &Vec<Sx>) -> (r: bool)
    ensures
        r == (a@.len() == b@.len() && forall|i: int| 0 <= i < a@.len() ==> #[trigger] a@[i]@ == b@[i]@),
    decreases a,
{
    if a.len() != b.len() {
        return false;
    }
    let mut i: usize = 0;
    while i < a.len()
        invariant
            i <= a.len(),
            a@.len() == b@.len(),
            forall|j: int| 0 <= j < i ==> #[trigger] a@[j]@ == b@[j]@,
        decreases a.len() - i,
    {
        if !a[i].same(&b[i]) {
            return false;
        }
        i = i + 1;
    }
    true
}

fn print_all(xs: &Vec<Sx>, out: &mut String)
    ensures
        final(out)@ == old(out)@ + join_text(views(xs@)),
    decreases xs,
{
    let ghost start = out@;
    let ghost vs = views(xs@);
    let mut i: usize = 0;
    while i < xs.len()
        invariant
            i <= xs.len(),
            vs == views(xs@),
            out@ == start + join_text(vs.take(i as int)),
        decreases xs.len() - i,
    {
        if i > 0 {
            push_char(out, ' ');
        }
        xs[i].print_into(out);
        proof {
            assert(vs.take(i + 1).drop_last() =~= vs.take(i as int));
            if i == 0 {
                assert(join_text(vs.take(1)) == print_text(vs[0]));
            }
        }
        i = i + 1;
        assert(out@ =~= start + join_text(vs.take(i as int)));
    }
    assert(vs.take(xs.len() as int) =~= vs);
}

impl SxFunctionInfo {
    /// A copy of this function, with the same model.
    pub fn copy(&self) -> (r: SxFunctionInfo)
        ensures
            r@ == self@,
        decreases self,
    {
        let body = copy_all(&self.body);
        let r = SxFunctionInfo {
            module: self.module.clone(),
            arity: self.arity,
            bindings: self.bindings.clone(),
            body,
        };
        proof {
            lemma_body_view(&r);
            lemma_body_view(self);
            assert(string_views(r.bindings@) =~= string_views(self.bindings@));
            assert(views(r.body@) =~= views(self.body@));
        }
        r
    }

    /// Structural equality of the models.
    pub fn same(&self, other: &SxFunctionInfo) -> (r: bool)
        ensures
            r == (self@ == other@),
        decreases self,
    {
        if self.module != other.module || self.arity != other.arity {
            return false;
        }
        proof {
            lemma_body_view(self);
            lemma_body_view(other);
        }
        if !same_names(&self.bindings, &other.bindings) {
            proof {
                if self.bindings@.len() == other.bindings@.len() {
                    let i = choose|i: int| 0 <= i < self.bindings@.len() && self.bindings@[i]@ != other.bindings@[i]@;
                    assert(self@.bindings[i] != other@.bindings[i]);
                } else {
                    assert(self@.bindings.len() != other@.bindings.len());
                }
                assert(self@ != other@);
            }
            return false;
        }
        assert(string_views(self.bindings@) =~= string_views(other.bindings@));
        let r = same_all(&self.body, &other.body);
        proof {
            if r {
                assert(views(self.body@) =~= views(other.body@));
            } else if self.body@.len() == other.body@.len() {
                let i = choose|i: int| 0 <= i < self.body@.len() && self.body@[i]@ != other.body@[i]@;
                assert(self@.body[i] != other@.body[i]);
            } else {
                assert(self@.body.len() != other@.body.len());
            }
        }
        r
    }
}

fn same_names(a: &Vec<String>, b: &Vec<String>) -> (r: bool)
    ensures
        r == (a@.len() == b@.len() && forall|i: int| 0 <= i < a@.len() ==> #[trigger] a@[i]@ == b@[i]@),
{
    if a.len() != b.len() {
        return false;
    }
    let mut i: usize = 0;
    while i < a.len()
        invariant
            i <= a.len(),
            a@.len() == b@.len(),
            forall|j: int| 0 <= j < i ==> #[trigger] a@[j]@ == b@[j]@,
        decreases a.len() - i,
    {
        if a[i] != b[i] {
            return false;
        }
        i = i + 1;
    }
    true
}

impl Clone for Sx {
    fn clone(&self) -> (r: Self)
        ensures
            r@ == self@,
    {
        self.copy()
    }
}

impl Clone for SxFunctionInfo {
    fn clone(&self) -> (r: Self)
        ensures
            r@ == self@,
    {
        self.copy()
    }
}

} // verus!
