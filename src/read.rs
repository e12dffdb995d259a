use vstd::prelude::*;

pub use crate::token::Kind as TokenKind;
use crate::token::{tokenize, lex, token_views, Kind, Token};
use crate::value::{views, lemma_seq_view, Sx, Value};

verus! {

/// What the reader can find wrong with a source text.
#[derive(Clone, PartialEq, Eq, Debug)]
pub enum Error {
    InvalidToken(String),
    IntegerLimit(String),
    PartialString(String),
    InvalidCloseDelimiter(Kind, String),
    TrailingDelimiter(String),
    UnmatchedDelimiter(Kind),
}

/// The model of a reader error.
pub enum ReadError {
    InvalidToken(Seq<char>),
    IntegerLimit(Seq<char>),
    PartialString(Seq<char>),
    InvalidCloseDelimiter(Kind, Seq<char>),
    TrailingDelimiter(Seq<char>),
    UnmatchedDelimiter(Kind),
}

impl Error {
    pub open spec fn view(&self) -> ReadError {
        match self {
            Error::InvalidToken(s) => ReadError::InvalidToken(s@),
            Error::IntegerLimit(s) => ReadError::IntegerLimit(s@),
            Error::PartialString(s) => ReadError::PartialString(s@),
            Error::InvalidCloseDelimiter(k, s) => ReadError::InvalidCloseDelimiter(*k, s@),
            Error::TrailingDelimiter(s) => ReadError::TrailingDelimiter(s@),
            Error::UnmatchedDelimiter(k) => ReadError::UnmatchedDelimiter(*k),
        }
    }
}

pub open spec fn error_views(es: Seq<Error>) -> Seq<ReadError> {
    Seq::new(es.len(), |i: int| es[i]@)
}

pub type Result = core::result::Result<Vec<Sx>, Vec<Error>>;

/// Value of a decimal digit character.
pub open spec fn digit_value(c: char) -> int {
    if c == '1' {
        1
    } else if c == '2' {
        2
    } else if c == '3' {
        3
    } else if c == '4' {
        4
    } else if c == '5' {
        5
    } else if c == '6' {
        6
    } else if c == '7' {
        7
    } else if c == '8' {
        8
    } else if c == '9' {
        9
    } else {
        0
    }
}

fn digit_of(c: char) -> (r: i128)
    ensures
        r == digit_value(c),
        0 <= r <= 9,
{
    if c == '1' {
        1
    } else if c == '2' {
        2
    } else if c == '3' {
        3
    } else if c == '4' {
        4
    } else if c == '5' {
        5
    } else if c == '6' {
        6
    } else if c == '7' {
        7
    } else if c == '8' {
        8
    } else if c == '9' {
        9
    } else {
        0
    }
}

pub open spec fn all_digits(s: Seq<char>) -> bool {
    forall|i: int| 0 <= i < s.len() ==> '0' <= #[trigger] s[i] && s[i] <= '9'
}

/// Value of a sequence of decimal digits.
pub open spec fn digits_value(s: Seq<char>) -> int
    decreases s.len(),
{
    if s.len() == 0 {
        0
    } else {
        digits_value(s.drop_last()) * 10 + digit_value(s.last())
    }
}

/// The integer that an optional `-` and one or more decimal digits denote, if it fits in 64 bits.
pub open spec fn integer_value(s: Seq<char>) -> Option<i64> {
    if s.len() > 0 && s[0] == '-' {
        let t = s.drop_first();
        if t.len() > 0 && all_digits(t) && -digits_value(t) >= i64::MIN {
            Some((-digits_value(t)) as i64)
        } else {
            None
        }
    } else if s.len() > 0 && all_digits(s) && digits_value(s) <= i64::MAX {
        Some(digits_value(s) as i64)
    } else {
        None
    }
}

fn parse_integer(s: &String) -> (r: Option<i64>)
    ensures
        r == integer_value(s@),
{
    let n = s.as_str().unicode_len();
    if n == 0 {
        return None;
    }
    let neg = s.as_str().get_char(0) == '-';
    let start: usize = if neg { 1 } else { 0 };
    let ghost t = if neg { s@.drop_first() } else { s@ };
    if start == n {
        return None;
    }
    let limit: i128 = 0x8000_0000_0000_0000;
    let mut acc: i128 = 0;
    let mut i: usize = start;
    while i < n
        invariant
            n == s@.len(),
            start <= i <= n,
            start == (if neg { 1usize } else { 0usize }),
            t == s@.subrange(start as int, n as int),
            all_digits(s@.subrange(start as int, i as int)),
            acc == digits_value(s@.subrange(start as int, i as int)),
            0 <= acc <= limit,
            limit == 0x8000_0000_0000_0000,
            n > 0,
            neg == (s@[0] == '-'),
            t == (if neg { s@.drop_first() } else { s@ }),
        decreases n - i,
    {
        let c = s.as_str().get_char(i);
        if !('0' <= c && c <= '9') {
            assert(t[i - start] == c);
            assert(!all_digits(t));
            return None;
        }
        let d = digit_of(c);
        let ghost p = s@.subrange(start as int, i + 1);
        assert(p.drop_last() =~= s@.subrange(start as int, i as int));
        assert(p.last() == c);
        let next = acc * 10 + d;
        assert(all_digits(p)) by {
            assert forall|j: int| 0 <= j < p.len() implies '0' <= #[trigger] p[j] && p[j] <= '9' by {
                if j < p.len() - 1 {
                    assert(p[j] == s@.subrange(start as int, i as int)[j]);
                }
            }
        }
        if next > limit {
            proof {
                if all_digits(t) {
                    lemma_digits_prefix(t, i + 1 - start);
                    assert(t.take(i + 1 - start) =~= p);
                }
            }
            return None;
        }
        acc = next;
        i = i + 1;
        assert(all_digits(s@.subrange(start as int, i as int)));
    }
    assert(s@.subrange(start as int, n as int) =~= t);
    if neg {
        assert(s@.drop_first() =~= t);
        Some((-acc) as i64)
    } else {
        assert(s@ =~= t);
        if acc == limit {
            None
        } else {
            Some(acc as i64)
        }
    }
}

proof fn lemma_digits_prefix(s: Seq<char>, k: int)
    requires
        all_digits(s),
        0 <= k <= s.len(),
    ensures
        digits_value(s) >= digits_value(s.take(k)) >= 0,
    decreases s.len(),
{
    if s.len() == 0 {
        assert(s.take(k) =~= s);
    } else {
        let p = s.drop_last();
        assert(all_digits(p)) by {
            assert forall|i: int| 0 <= i < p.len() implies '0' <= #[trigger] p[i] && p[i] <= '9' by {
                assert(p[i] == s[i]);
            }
        }
        if k < s.len() {
            lemma_digits_prefix(p, k);
            assert(p.take(k) =~= s.take(k));
        } else {
            lemma_digits_prefix(p, p.len() as int);
            assert(p.take(p.len() as int) =~= p);
            assert(s.take(k) =~= s);
        }
    }
}

/// An open list or vector: what it holds so far, its opening kind, and the
/// quotes that were pending before it opened.
pub struct Frame {
    pub items: Seq<Value>,
    pub open: Kind,
    pub quotes: nat,
}

/// The reader's state between tokens.
pub struct ReadState {
    pub frames: Seq<Frame>,
    pub items: Seq<Value>,
    pub quotes: nat,
    pub errors: Seq<ReadError>,
}

/// `v` wrapped in `n` quotes.
pub open spec fn quoted(v: Value, n: nat) -> Value
    decreases n,
{
    if n == 0 {
        v
    } else {
        Value::Quote(Box::new(quoted(v, (n - 1) as nat)))
    }
}

pub open spec fn push_atom(st: ReadState, v: Value) -> ReadState {
    ReadState { items: st.items.push(quoted(v, st.quotes)), quotes: 0, ..st }
}

pub open spec fn push_error(st: ReadState, e: ReadError) -> ReadState {
    ReadState { errors: st.errors.push(e), ..st }
}

pub open spec fn closes(open: Kind, close: Kind) -> bool {
    (open == Kind::ListStart && close == Kind::ListEnd) || (open == Kind::VectorStart && close == Kind::VectorEnd)
}

/// What one token does to the reader's state.
pub open spec fn read_step(st: ReadState, t: (Kind, Seq<char>)) -> ReadState {
    match t.0 {
        Kind::Nil => push_atom(st, Value::Nil),
        Kind::Boolean => push_atom(st, Value::Boolean(t.1 == seq!['t', 'r', 'u', 'e'])),
        Kind::Integer => match integer_value(t.1) {
            Some(i) => push_atom(st, Value::Integer(i)),
            None => push_error(st, ReadError::IntegerLimit(t.1)),
        },
        Kind::Symbol => push_atom(st, Value::Symbol(t.1)),
        Kind::String => push_atom(st, Value::Str(t.1)),
        Kind::ListStart | Kind::VectorStart => ReadState {
            frames: st.frames.push(Frame { items: st.items, open: t.0, quotes: st.quotes }),
            items: seq![],
            quotes: 0,
            errors: st.errors,
        },
        Kind::ListEnd | Kind::VectorEnd => if st.frames.len() == 0 {
            push_error(st, ReadError::TrailingDelimiter(t.1))
        } else {
            let top = st.frames.last();
            if !closes(top.open, t.0) {
                ReadState {
                    frames: st.frames.drop_last(),
                    errors: st.errors.push(ReadError::InvalidCloseDelimiter(top.open, t.1)),
                    ..st
                }
            } else {
                let v = if t.0 == Kind::ListEnd {
                    Value::List(st.items)
                } else {
                    Value::Vector(st.items)
                };
                ReadState {
                    frames: st.frames.drop_last(),
                    items: top.items.push(quoted(v, top.quotes)),
                    quotes: 0,
                    errors: st.errors,
                }
            }
        },
        Kind::Quote => ReadState { quotes: st.quotes + 1, ..st },
        Kind::StringPartial => push_error(st, ReadError::PartialString(t.1)),
        Kind::Invalid => push_error(st, ReadError::InvalidToken(t.1)),
        Kind::Empty => st,
    }
}

/// The reader's state after the first `n` tokens.
pub open spec fn read_prefix(ts: Seq<(Kind, Seq<char>)>, n: int) -> ReadState
    decreases n,
{
    if n <= 0 {
        ReadState { frames: seq![], items: seq![], quotes: 0, errors: seq![] }
    } else {
        read_step(read_prefix(ts, n - 1), ts[n - 1])
    }
}

/// All errors: those met on the way, then one for each list or vector left open.
pub open spec fn final_errors(st: ReadState) -> Seq<ReadError> {
    st.errors + Seq::new(st.frames.len(), |i: int| ReadError::UnmatchedDelimiter(st.frames[i].open))
}

/// What reading a source text yields: its values, or every error found.
pub open spec fn read_text(s: Seq<char>) -> core::result::Result<Seq<Value>, Seq<ReadError>> {
    let ts = lex(s);
    let st = read_prefix(ts, ts.len() as int);
    if final_errors(st).len() > 0 {
        Err(final_errors(st))
    } else {
        Ok(st.items)
    }
}

pub open spec fn frame_view(f: (Vec<Sx>, Kind, usize)) -> Frame {
    Frame { items: views(f.0@), open: f.1, quotes: f.2 as nat }
}

fn quote_times(v: Sx, n: usize) -> (r: Sx)
    ensures
        r@ == quoted(v@, n as nat),
{
    let mut r = v;
    let mut i: usize = 0;
    while i < n
        invariant
            i <= n,
            r@ == quoted(v@, i as nat),
        decreases n - i,
    {
        r = Sx::Quote(Box::new(r));
        i = i + 1;
    }
    r
}

fn text_of(t: &Token) -> (r: String)
    ensures
        r@ == t.data@,
{
    t.data.clone()
}

/// Reads a source text into values; on any error, all errors and no values.
pub fn read(source: &str) -> (r: Result)
    ensures
        match r {
            Ok(vs) => read_text(source@) == core::result::Result::<Seq<Value>, Seq<ReadError>>::Ok(views(vs@)),
            Err(es) => read_text(source@) == core::result::Result::<Seq<Value>, Seq<ReadError>>::Err(error_views(es@)),
        },
{
    let tokens = tokenize(source);
    let ghost ts = lex(source@);
    let mut frames: Vec<(Vec<Sx>, Kind, usize)> = Vec::new();
    let mut items: Vec<Sx> = Vec::new();
    let mut quotes: usize = 0;
    let mut errors: Vec<Error> = Vec::new();
    let mut i: usize = 0;
    proof {
        assert(views(items@) =~= Seq::<Value>::empty());
        assert(error_views(errors@) =~= Seq::<ReadError>::empty());
        assert(Seq::new(frames@.len(), |j: int| frame_view(frames@[j])) =~= Seq::<Frame>::empty());
    }
    while i < tokens.len()
        invariant
            token_views(tokens@) == ts,
            i <= tokens@.len(),
            quotes <= i,
            forall|j: int| 0 <= j < frames@.len() ==> #[trigger] frames@[j].2 <= i,
            read_prefix(ts, i as int) == (ReadState {
                frames: Seq::new(frames@.len(), |j: int| frame_view(frames@[j])),
                items: views(items@),
                quotes: quotes as nat,
                errors: error_views(errors@),
            }),
        decreases tokens@.len() - i,
    {
        proof {
            reveal_strlit("true");
            assert("true"@ =~= seq!['t', 'r', 'u', 'e']);
        }
        let t = &tokens[i];
        assert(t@ == ts[i as int]);
        let ghost st = read_prefix(ts, i as int);
        let ghost old_frames = frames@;
        let ghost old_items = items@;
        let ghost old_errors = errors@;
        let mut atom: Option<Sx> = None;
        match t.kind {
            Kind::Nil => {
                atom = Some(Sx::Nil);
            },
            Kind::Boolean => {
                atom = Some(Sx::Boolean(t.data == "true".to_string()));
            },
            Kind::Integer => {
                match parse_integer(&t.data) {
                    Some(n) => {
                        atom = Some(Sx::Integer(n));
                    },
                    None => {
                        errors.push(Error::IntegerLimit(text_of(t)));
                    },
                }
            },
            Kind::Symbol => {
                atom = Some(Sx::Symbol(text_of(t)));
            },
            Kind::String => {
                atom = Some(Sx::String(text_of(t)));
            },
            Kind::ListStart | Kind::VectorStart => {
                let inner = items;
                items = Vec::new();
                frames.push((inner, t.kind, quotes));
                quotes = 0;
            },
            Kind::ListEnd | Kind::VectorEnd => {
                match frames.pop() {
                    None => {
                        errors.push(Error::TrailingDelimiter(text_of(t)));
                    },
                    Some(top) => {
                        let (mut outer, open, top_quotes) = top;
                        if !((open == Kind::ListStart && t.kind == Kind::ListEnd) || (open == Kind::VectorStart
                            && t.kind == Kind::VectorEnd)) {
                            errors.push(Error::InvalidCloseDelimiter(open, text_of(t)));
                        } else {
                            let inner = items;
                            items = Vec::new();
                            let v = if t.kind == Kind::ListEnd {
                                Sx::List(inner)
                            } else {
                                Sx::Vector(inner)
                            };
                            proof {
                                lemma_seq_view(&v);
                            }
                            outer.push(quote_times(v, top_quotes));
                            items = outer;
                            quotes = 0;
                        }
                    },
                }
            },
            Kind::Quote => {
                quotes = quotes + 1;
            },
            Kind::StringPartial => {
                errors.push(Error::PartialString(text_of(t)));
            },
            Kind::Invalid => {
                errors.push(Error::InvalidToken(text_of(t)));
            },
            Kind::Empty => {},
        }
        match atom {
            Some(v) => {
                items.push(quote_times(v, quotes));
                quotes = 0;
            },
            None => {},
        }
        i = i + 1;
        proof {
            assert(read_prefix(ts, i as int) == read_step(st, ts[i - 1]));
            assert(views(items@) =~= read_prefix(ts, i as int).items);
            assert(error_views(errors@) =~= read_prefix(ts, i as int).errors);
            assert(Seq::new(frames@.len(), |j: int| frame_view(frames@[j])) =~= read_prefix(ts, i as int).frames);
        }
    }
    let ghost st = read_prefix(ts, tokens@.len() as int);
    let mut j: usize = 0;
    while j < frames.len()
        invariant
            j <= frames@.len(),
            st == read_prefix(ts, tokens@.len() as int),
            st.frames == Seq::new(frames@.len(), |k: int| frame_view(frames@[k])),
            error_views(errors@) == st.errors + Seq::new(j as nat, |k: int| ReadError::UnmatchedDelimiter(st.frames[k].open)),
        decreases frames@.len() - j,
    {
        let ghost before = errors@;
        errors.push(Error::UnmatchedDelimiter(frames[j].1));
        assert(error_views(errors@) =~= error_views(before).push(ReadError::UnmatchedDelimiter(st.frames[j as int].open)));
        j = j + 1;
        assert(error_views(errors@) =~= st.errors + Seq::new(j as nat, |k: int| ReadError::UnmatchedDelimiter(st.frames[k].open)));
    }
    assert(error_views(errors@) =~= final_errors(st));
    assert(ts.len() == tokens@.len());
    if errors.len() > 0 {
        Err(errors)
    } else {
        Ok(items)
    }
}

/// Same as `read`.
pub fn from_str(source: &str) -> (r: Result)
    ensures
        match r {
            Ok(vs) => read_text(source@) == core::result::Result::<Seq<Value>, Seq<ReadError>>::Ok(views(vs@)),
            Err(es) => read_text(source@) == core::result::Result::<Seq<Value>, Seq<ReadError>>::Err(error_views(es@)),
        },
{
    read(source)
}

} // verus!
