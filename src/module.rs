use vstd::prelude::*;

use crate::context::Context;
use crate::eval::{result_view, split_slash_exec, Result};
use crate::semantics::{load, split_slash};
use crate::text::push_char;
use crate::value::string_views;

verus! {

/// Index of the last occurrence of `c` in `s`, or -1.
pub open spec fn last_index(s: Seq<char>, c: char) -> int
    decreases s.len(),
{
    if s.len() == 0 {
        -1
    } else if s.last() == c {
        s.len() - 1
    } else {
        last_index(s.drop_last(), c)
    }
}

/// The file name of a path: what follows its last `/`.
pub open spec fn file_name(p: Seq<char>) -> Seq<char> {
    p.skip(last_index(p, '/') + 1)
}

/// The stem of a path: its file name without the extension that follows the
/// last dot, unless that dot starts the name.
pub open spec fn file_stem(p: Seq<char>) -> Seq<char> {
    let n = file_name(p);
    let d = last_index(n, '.');
    if d > 0 {
        n.take(d)
    } else {
        n
    }
}

proof fn lemma_last_index(s: Seq<char>, c: char)
    ensures
        -1 <= last_index(s, c) < s.len(),
        last_index(s, c) >= 0 ==> s[last_index(s, c)] == c,
        forall|j: int| last_index(s, c) < j < s.len() ==> s[j] != c,
    decreases s.len(),
{
    if s.len() > 0 && s.last() != c {
        let p = s.drop_last();
        lemma_last_index(p, c);
        assert forall|j: int| last_index(s, c) < j < s.len() implies s[j] != c by {
            if j < s.len() - 1 {
                assert(s[j] == p[j]);
            }
        }
    }
}

fn find_last(s: &str, c: char) -> (r: i64)
    requires
        s@.len() < 0x1000_0000_0000_0000,
    ensures
        r == last_index(s@, c),
        -1 <= r < s@.len(),
{
    let n = s.unicode_len();
    let mut i: usize = n;
    proof {
        lemma_last_index(s@, c);
    }
    while i > 0
        invariant
            n == s@.len(),
            i <= n,
            n < 0x1000_0000_0000_0000,
            forall|j: int| i <= j < n ==> s@[j] != c,
            last_index(s@, c) < i,
            -1 <= last_index(s@, c),
            last_index(s@, c) >= 0 ==> s@[last_index(s@, c)] == c,
            forall|j: int| last_index(s@, c) < j < s@.len() ==> s@[j] != c,
        decreases i,
    {
        if s.get_char(i - 1) == c {
            return (i - 1) as i64;
        }
        i = i - 1;
    }
    -1
}

fn substring(s: &str, from: usize, to: usize) -> (r: String)
    requires
        from <= to <= s@.len(),
    ensures
        r@ == s@.subrange(from as int, to as int),
{
    let mut out = String::new();
    let mut i: usize = from;
    while i < to
        invariant
            from <= i <= to,
            to <= s@.len(),
            out@ == s@.subrange(from as int, i as int),
        decreases to - i,
    {
        push_char(&mut out, s.get_char(i));
        i = i + 1;
        assert(out@ =~= s@.subrange(from as int, i as int));
    }
    out
}

/// The module name of a source file: the stem of its path.
pub fn from_filename(filename: &str) -> (r: String)
    requires
        filename@.len() < 0x1000_0000_0000_0000,
    ensures
        r@ == file_stem(filename@),
{
    let n = filename.unicode_len();
    proof {
        lemma_last_index(filename@, '/');
    }
    let slash = find_last(filename, '/');
    let start = (slash + 1) as usize;
    let name = substring(filename, start, n);
    assert(name@ =~= file_name(filename@));
    proof {
        lemma_last_index(name@, '.');
    }
    let dot = find_last(name.as_str(), '.');
    if dot > 0 {
        let stem = substring(name.as_str(), 0, dot as usize);
        assert(stem@ =~= file_stem(filename@));
        stem
    } else {
        name
    }
}

/// The pieces of a symbol between slashes: `foo/bar` gives `foo` and `bar`.
pub fn entry_from_symbol(symbol: &String) -> (r: Vec<String>)
    ensures
        string_views(r@) == split_slash(symbol@),
{
    split_slash_exec(symbol)
}

/// Loads module `module_name` into the context, as `import` does.
pub fn load_use(ctx: &mut Context, module_name: &String) -> (r: Result)
    ensures
        (final(ctx)@, result_view(r)) == load(old(ctx)@, module_name@, old(ctx).max_depth as nat),
        final(ctx).max_depth == old(ctx).max_depth,
{
    ctx.load_module(module_name)
}

} // verus!
