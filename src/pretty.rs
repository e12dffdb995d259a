//! Layout of a value over several lines, for display.
use vstd::prelude::*;

use crate::text::{push_char, push_str};
use crate::value::{lemma_seq_view, print_text, views, Sx, Value};

verus! {

broadcast use {
    vstd::std_specs::vec::axiom_vec_index_decreases,
    vstd::std_specs::vec::axiom_vec_decreases_to_view,
    vstd::seq::axiom_seq_index_decreases,
};

/// The widest printed form that stays on one line.
pub const LINE_WIDTH: usize = 80;

pub open spec fn spaces(n: nat) -> Seq<char> {
    Seq::new(n, |i: int| ' ')
}

/// The indentation of the elements after the first one.
pub open spec fn deeper(offset: usize) -> usize {
    if offset < usize::MAX {
        (offset + 1) as usize
    } else {
        offset
    }
}

/// A value indented by `offset`: on one line when its printed form is shorter
/// than the line width, else a list or vector with one element per line.
pub open spec fn pretty_text(v: Value, offset: usize) -> Seq<char>
    decreases v,
{
    let s = print_text(v);
    if s.len() < LINE_WIDTH {
        spaces(offset as nat) + s
    } else {
        match v {
            Value::List(xs) => spaces(offset as nat) + seq!['('] + pretty_items(xs, offset) + seq![')'],
            Value::Vector(xs) => spaces(offset as nat) + seq!['['] + pretty_items(xs, offset) + seq![']'],
            _ => spaces(offset as nat) + s,
        }
    }
}

/// Elements on successive lines: the first right after the opening
/// delimiter, the others indented one further.
pub open spec fn pretty_items(xs: Seq<Value>, offset: usize) -> Seq<char>
    decreases xs,
{
    if xs.len() == 0 {
        seq![]
    } else if xs.len() == 1 {
        pretty_text(xs[0], 0)
    } else {
        pretty_items(xs.drop_last(), offset) + seq!['\n'] + pretty_text(xs.last(), deeper(offset))
    }
}

/// Appends `offset` spaces and then `s` to `buf`.
pub fn indent(s: &str, buf: &mut String, offset: usize)
    ensures
        final(buf)@ == old(buf)@ + spaces(offset as nat) + s@,
{
    let mut i: usize = 0;
    while i < offset
        invariant
            i <= offset,
            buf@ == old(buf)@ + spaces(i as nat),
        decreases offset - i,
    {
        push_char(buf, ' ');
        i = i + 1;
        assert(buf@ =~= old(buf)@ + spaces(i as nat));
    }
    push_str(buf, s);
}

fn pretty_into(sx: &Sx, buf: &mut String, offset: usize)
    ensures
        final(buf)@ == old(buf)@ + pretty_text(sx@, offset),
    decreases sx,
{
    let s = sx.to_string();
    if s.as_str().unicode_len() < LINE_WIDTH {
        indent(s.as_str(), buf, offset);
        return;
    }
    proof {
        lemma_seq_view(sx);
    }
    match sx {
        Sx::List(xs) => {
            indent("(", buf, offset);
            proof {
                reveal_strlit("(");
            }
            pretty_items_into(xs, buf, offset);
            push_char(buf, ')');
            assert(final(buf)@ =~= old(buf)@ + pretty_text(sx@, offset));
        },
        Sx::Vector(xs) => {
            indent("[", buf, offset);
            proof {
                reveal_strlit("[");
            }
            pretty_items_into(xs, buf, offset);
            push_char(buf, ']');
            assert(final(buf)@ =~= old(buf)@ + pretty_text(sx@, offset));
        },
        _ => {
            indent(s.as_str(), buf, offset);
        },
    }
}

fn pretty_items_into(xs: &Vec<Sx>, buf: &mut String, offset: usize)
    ensures
        final(buf)@ == old(buf)@ + pretty_items(views(xs@), offset),
    decreases xs,
{
    let ghost vs = views(xs@);
    let mut i: usize = 0;
    while i < xs.len()
        invariant
            i <= xs@.len(),
            vs == views(xs@),
            buf@ == old(buf)@ + pretty_items(vs.take(i as int), offset),
        decreases xs@.len() - i,
    {
        let ghost before = buf@;
        if i > 0 {
            push_char(buf, '\n');
        }
        let next = if i == 0 {
            0
        } else if offset < usize::MAX {
            offset + 1
        } else {
            offset
        };
        pretty_into(&xs[i], buf, next);
        proof {
            assert(vs.take(i + 1).drop_last() =~= vs.take(i as int));
            if i == 0 {
                assert(pretty_items(vs.take(1), offset) == pretty_text(vs[0], 0));
            }
        }
        i = i + 1;
        assert(buf@ =~= old(buf)@ + pretty_items(vs.take(i as int), offset));
    }
    assert(vs.take(xs@.len() as int) =~= vs);
}

/// The value laid out for display, starting at column zero.
pub fn pretty(sx: &Sx) -> (r: String)
    ensures
        r@ == pretty_text(sx@, 0),
{
    let mut buf = String::new();
    pretty_into(sx, &mut buf, 0);
    assert(buf@ =~= pretty_text(sx@, 0));
    buf
}

} // verus!
