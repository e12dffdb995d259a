//! Human-readable messages for reader and evaluator errors.
use vstd::prelude::*;

use crate::eval::{lemma_eval_errors_view, Error};
use crate::read::{error_views, Error as ReadErr, ReadError};
use crate::semantics::EvalError;
use crate::text::{nat_text, push_str, push_usize};
use crate::token::Kind;
use crate::value::{function_text, print_text, string_views, Sx};

verus! {

broadcast use {
    vstd::std_specs::vec::axiom_vec_index_decreases,
    vstd::std_specs::vec::axiom_vec_decreases_to_view,
    vstd::seq::axiom_seq_index_decreases,
};

/// Texts joined by a separator.
pub open spec fn join_with(xs: Seq<Seq<char>>, sep: Seq<char>) -> Seq<char>
    decreases xs.len(),
{
    if xs.len() == 0 {
        seq![]
    } else if xs.len() == 1 {
        xs[0]
    } else {
        join_with(xs.drop_last(), sep) + sep + xs.last()
    }
}

/// The message of a reader error.
pub open spec fn read_error_text(e: ReadError) -> Seq<char> {
    match e {
        ReadError::InvalidToken(s) => "invalid token: "@ + s,
        ReadError::IntegerLimit(s) => "integer limit: "@ + s,
        ReadError::PartialString(s) => "non-terminated string: \""@ + s,
        ReadError::InvalidCloseDelimiter(k, s) => if k == Kind::ListStart {
            "invalid list close delimiter: '"@ + s + "'"@
        } else if k == Kind::VectorStart {
            "invalid vector close delimiter: '"@ + s + "'"@
        } else {
            "invalid close delimiter: '"@ + s + "'"@
        },
        ReadError::TrailingDelimiter(s) => "trailing delimiter: '"@ + s + "'"@,
        ReadError::UnmatchedDelimiter(k) => if k == Kind::ListStart {
            "non-terminated list"@
        } else if k == Kind::VectorStart {
            "non-terminated vector"@
        } else {
            "non-terminated form"@
        },
    }
}

pub open spec fn arity_message(name: Seq<char>, bound: Seq<char>, expected: usize, actual: usize) -> Seq<char> {
    name + " expects "@ + bound + nat_text(expected as nat) + " argument(s), got "@ + nat_text(actual as nat)
}

/// The message of an evaluation error.
pub open spec fn eval_error_text(e: EvalError) -> Seq<char>
    decreases e,
{
    match e {
        EvalError::Undefined(s) => "undefined symbol: "@ + s,
        EvalError::Redefine(s) => "cannot redefine symbol "@ + s,
        EvalError::RedefineCore(s) => "cannot redefine core symbol "@ + s,
        EvalError::DefineBadSymbol(v) => "first argument to def must be a symbol, got "@ + print_text(v),
        EvalError::SymbolBadModuleFormat(s) => "badly formatted symbol "@ + s
            + ", expected something like my-module/my-val"@,
        EvalError::NotAFunction(v) => print_text(v) + " does not evaluate to a function"@,
        EvalError::InvalidBinding(v) => "invalid binding form in function, got "@ + print_text(v),
        EvalError::DuplicateBinding(s) => "cannot bind symbol "@ + s + " more than once in function definition"@,
        EvalError::BuiltinBadArg(n, v) => "invalid argument to "@ + n + ", got "@ + print_text(v),
        EvalError::BuiltinTooFewArgs(n, a, b) => arity_message(n, "at least "@, a, b),
        EvalError::BuiltinTooManyArgs(n, a, b) => arity_message(n, "at most "@, a, b),
        EvalError::FnTooFewArgs(g, a, b) => arity_message(function_text(g), "at least "@, a, b),
        EvalError::FnTooManyArgs(g, a, b) => arity_message(function_text(g), "at most "@, a, b),
        EvalError::ModuleSelfRefer(m) => "cannot use self in module "@ + m,
        EvalError::ModuleNotFound(m, ps) => "could not find module named "@ + m + " under following module paths: "@
            + join_with(ps, ", "@),
        EvalError::ModuleMultipleOptions(m, ps) => "could not load module "@ + m + " due to multiple options: "@
            + join_with(ps, ", "@),
        EvalError::ModuleIoOpenError(m, x) => "error while opening file for module "@ + m + ": "@ + x,
        EvalError::ModuleIoReadError(m, x) => "error while reading file for module "@ + m + ": "@ + x,
        EvalError::ModuleReadErrors(_, es) => join_with(
            Seq::new(es.len(), |i: int| read_error_text(es[i])),
            "\n"@,
        ),
        EvalError::ModuleEvalErrors(_, es) => join_with(eval_error_texts(es), "\n"@),
        EvalError::ModuleNotLoaded(m) => "module "@ + m + " is not loaded"@,
        EvalError::DepthExceeded => "evaluation nested too deeply"@,
    }
}

/// The messages of several evaluation errors.
pub open spec fn eval_error_texts(es: Seq<EvalError>) -> Seq<Seq<char>>
    decreases es,
{
    Seq::new(
        es.len(),
        |i: int|
            if 0 <= i < es.len() {
                eval_error_text(es[i])
            } else {
                seq![]
            },
    )
}

fn push_joined(out: &mut String, items: &Vec<String>, sep: &str)
    ensures
        final(out)@ == old(out)@ + join_with(string_views(items@), sep@),
{
    let ghost vs = string_views(items@);
    let mut i: usize = 0;
    while i < items.len()
        invariant
            i <= items@.len(),
            vs == string_views(items@),
            out@ == old(out)@ + join_with(vs.take(i as int), sep@),
        decreases items@.len() - i,
    {
        if i > 0 {
            push_str(out, sep);
        }
        push_str(out, items[i].as_str());
        proof {
            assert(vs.take(i + 1).drop_last() =~= vs.take(i as int));
            if i == 0 {
                assert(join_with(vs.take(1), sep@) == vs[0]);
            }
        }
        i = i + 1;
        assert(out@ =~= old(out)@ + join_with(vs.take(i as int), sep@));
    }
    assert(vs.take(items@.len() as int) =~= vs);
}

impl ReadErr {
    /// The message of this error.
    pub fn to_string(&self) -> (r: String)
        ensures
            r@ == read_error_text(self@),
    {
        let mut out = String::new();
        match self {
            ReadErr::InvalidToken(s) => {
                push_str(&mut out, "invalid token: ");
                push_str(&mut out, s.as_str());
            },
            ReadErr::IntegerLimit(s) => {
                push_str(&mut out, "integer limit: ");
                push_str(&mut out, s.as_str());
            },
            ReadErr::PartialString(s) => {
                push_str(&mut out, "non-terminated string: \"");
                push_str(&mut out, s.as_str());
            },
            ReadErr::InvalidCloseDelimiter(k, s) => {
                if *k == Kind::ListStart {
                    push_str(&mut out, "invalid list close delimiter: '");
                } else if *k == Kind::VectorStart {
                    push_str(&mut out, "invalid vector close delimiter: '");
                } else {
                    push_str(&mut out, "invalid close delimiter: '");
                }
                push_str(&mut out, s.as_str());
                push_str(&mut out, "'");
            },
            ReadErr::TrailingDelimiter(s) => {
                push_str(&mut out, "trailing delimiter: '");
                push_str(&mut out, s.as_str());
                push_str(&mut out, "'");
            },
            ReadErr::UnmatchedDelimiter(k) => {
                if *k == Kind::ListStart {
                    push_str(&mut out, "non-terminated list");
                } else if *k == Kind::VectorStart {
                    push_str(&mut out, "non-terminated vector");
                } else {
                    push_str(&mut out, "non-terminated form");
                }
            },
        }
        assert(out@ =~= read_error_text(self@));
        out
    }
}

fn push_arity_message(out: &mut String, name: &String, bound: &str, expected: usize, actual: usize)
    ensures
        final(out)@ == old(out)@ + arity_message(name@, bound@, expected, actual),
{
    push_str(out, name.as_str());
    push_str(out, " expects ");
    push_str(out, bound);
    push_usize(out, expected);
    push_str(out, " argument(s), got ");
    push_usize(out, actual);
    assert(final(out)@ =~= old(out)@ + arity_message(name@, bound@, expected, actual));
}

impl Error {
    /// The message of this error.
    #[verifier::loop_isolation(false)]
    pub fn to_string(&self) -> (r: String)
        ensures
            r@ == eval_error_text(self@),
        decreases self,
    {
        let mut out = String::new();
        match self {
            Error::Undefined(s) => {
                push_str(&mut out, "undefined symbol: ");
                push_str(&mut out, s.as_str());
            },
            Error::Redefine(s) => {
                push_str(&mut out, "cannot redefine symbol ");
                push_str(&mut out, s.as_str());
            },
            Error::RedefineCore(s) => {
                push_str(&mut out, "cannot redefine core symbol ");
                push_str(&mut out, s.as_str());
            },
            Error::DefineBadSymbol(v) => {
                push_str(&mut out, "first argument to def must be a symbol, got ");
                v.print_into(&mut out);
            },
            Error::SymbolBadModuleFormat(s) => {
                push_str(&mut out, "badly formatted symbol ");
                push_str(&mut out, s.as_str());
                push_str(&mut out, ", expected something like my-module/my-val");
            },
            Error::NotAFunction(v) => {
                v.print_into(&mut out);
                push_str(&mut out, " does not evaluate to a function");
            },
            Error::InvalidBinding(v) => {
                push_str(&mut out, "invalid binding form in function, got ");
                v.print_into(&mut out);
            },
            Error::DuplicateBinding(s) => {
                push_str(&mut out, "cannot bind symbol ");
                push_str(&mut out, s.as_str());
                push_str(&mut out, " more than once in function definition");
            },
            Error::BuiltinBadArg(n, v) => {
                push_str(&mut out, "invalid argument to ");
                push_str(&mut out, n);
                push_str(&mut out, ", got ");
                v.print_into(&mut out);
            },
            Error::BuiltinTooFewArgs(n, a, b) => {
                let name = String::from_str(n);
                push_arity_message(&mut out, &name, "at least ", *a, *b);
            },
            Error::BuiltinTooManyArgs(n, a, b) => {
                let name = String::from_str(n);
                push_arity_message(&mut out, &name, "at most ", *a, *b);
            },
            Error::FnTooFewArgs(g, a, b) => {
                let fv = Sx::Function(Box::new((**g).copy()));
                proof {
                    crate::value::lemma_seq_view(&fv);
                }
                let name = fv.to_string();
                push_arity_message(&mut out, &name, "at least ", *a, *b);
            },
            Error::FnTooManyArgs(g, a, b) => {
                let fv = Sx::Function(Box::new((**g).copy()));
                proof {
                    crate::value::lemma_seq_view(&fv);
                }
                let name = fv.to_string();
                push_arity_message(&mut out, &name, "at most ", *a, *b);
            },
            Error::ModuleSelfRefer(m) => {
                push_str(&mut out, "cannot use self in module ");
                push_str(&mut out, m.as_str());
            },
            Error::ModuleNotFound(m, ps) => {
                push_str(&mut out, "could not find module named ");
                push_str(&mut out, m.as_str());
                push_str(&mut out, " under following module paths: ");
                push_joined(&mut out, ps, ", ");
            },
            Error::ModuleMultipleOptions(m, ps) => {
                push_str(&mut out, "could not load module ");
                push_str(&mut out, m.as_str());
                push_str(&mut out, " due to multiple options: ");
                push_joined(&mut out, ps, ", ");
            },
            Error::ModuleIoOpenError(m, x) => {
                push_str(&mut out, "error while opening file for module ");
                push_str(&mut out, m.as_str());
                push_str(&mut out, ": ");
                push_str(&mut out, x.as_str());
            },
            Error::ModuleIoReadError(m, x) => {
                push_str(&mut out, "error while reading file for module ");
                push_str(&mut out, m.as_str());
                push_str(&mut out, ": ");
                push_str(&mut out, x.as_str());
            },
            Error::ModuleReadErrors(_, es) => {
                let mut texts: Vec<String> = Vec::new();
                let mut i: usize = 0;
                while i < es.len()
                    invariant
                        i <= es@.len(),
                        texts@.len() == i,
                        forall|k: int| 0 <= k < i ==> #[trigger] texts@[k]@ == read_error_text(es@[k]@),
                    decreases es@.len() - i,
                {
                    texts.push(es[i].to_string());
                    i = i + 1;
                }
                push_joined(&mut out, &texts, "\n");
                assert(string_views(texts@) =~= Seq::new(
                    error_views(es@).len(),
                    |k: int| read_error_text(error_views(es@)[k]),
                ));
            },
            Error::ModuleEvalErrors(_, es) => {
                proof {
                    lemma_eval_errors_view(self);
                }
                let mut texts: Vec<String> = Vec::new();
                let mut i: usize = 0;
                while i < es.len()
                    invariant
                        i <= es@.len(),
                        texts@.len() == i,
                        forall|k: int| 0 <= k < i ==> #[trigger] texts@[k]@ == eval_error_text(es@[k]@),
                    decreases es@.len() - i,
                {
                    texts.push(es[i].to_string());
                    i = i + 1;
                }
                push_joined(&mut out, &texts, "\n");
                proof {
                    if let EvalError::ModuleEvalErrors(_, p) = self@ {
                        assert(string_views(texts@) =~= eval_error_texts(p));
                    }
                }
            },
            Error::ModuleNotLoaded(m) => {
                push_str(&mut out, "module ");
                push_str(&mut out, m.as_str());
                push_str(&mut out, " is not loaded");
            },
            Error::DepthExceeded => {
                push_str(&mut out, "evaluation nested too deeply");
            },
        }
        assert(out@ =~= eval_error_text(self@));
        out
    }
}

} // verus!
