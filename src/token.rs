use vstd::prelude::*;
use vstd::utf8::encode_utf8;
use unicode_segmentation::UnicodeSegmentation;

use crate::value::string_views;

verus! {

/// The kind of a token; `Empty` is the lexer's idle state and is never emitted.
#[derive(Clone, Copy, PartialEq, Eq, Structural, Debug)]
pub enum Kind {
    Empty,
    Nil,
    Boolean,
    Integer,
    Symbol,
    StringPartial,
    String,
    ListStart,
    ListEnd,
    VectorStart,
    VectorEnd,
    Quote,
    Invalid,
}

/// A token: its kind, its text, and the text's length in UTF-8 bytes.
#[derive(Clone, PartialEq, Eq, Debug)]
pub struct Token {
    pub kind: Kind,
    pub size: usize,
    pub data: String,
}

impl Token {
    pub open spec fn view(&self) -> (Kind, Seq<char>) {
        (self.kind, self.data@)
    }

    pub open spec fn sized(&self) -> bool {
        self.size == encode_utf8(self.data@).len() as usize
    }

    /// A token of the given kind and text, with the text's size in bytes.
    pub fn new(kind: Kind, data: String) -> (t: Token)
        ensures
            t@ == (kind, data@),
            t.sized(),
    {
        let size = data.as_str().len();
        Token { kind, size, data }
    }
}

/// The extended grapheme clusters of a text, as the segmentation crate splits it.
pub uninterp spec fn grapheme_clusters(s: Seq<char>) -> Seq<Seq<char>>;

/// The concatenation of a sequence of texts.
pub open spec fn concat(gs: Seq<Seq<char>>) -> Seq<char>
    decreases gs.len(),
{
    if gs.len() == 0 {
        seq![]
    } else {
        concat(gs.drop_last()) + gs.last()
    }
}

/// Relies on unicode_segmentation's `graphemes(true)`: the extended grapheme
/// clusters of `s` in order, each non-empty, together spelling `s` (each is
/// the slice of `s` between two consecutive boundaries).
#[verifier::external_body]
fn graphemes(s: &str) -> (r: Vec<String>)
    ensures
        string_views(r@) == grapheme_clusters(s@),
        concat(string_views(r@)) == s@,
        forall|i: int| 0 <= i < r@.len() ==> (#[trigger] r@[i]@).len() > 0,
{
    s.graphemes(true).map(String::from).collect()
}

/// Whether std classes `c` as numeric (Unicode Nd, Nl or No).
pub uninterp spec fn numeric_char(c: char) -> bool;

/// Relies on `char::is_numeric`.
#[verifier::external_body]
fn is_numeric(c: char) -> (r: bool)
    ensures
        r == numeric_char(c),
{
    c.is_numeric()
}

/// Unicode White_Space, as `char::is_whitespace` has it.
pub open spec fn spec_is_whitespace(c: char) -> bool {
    ('\u{9}' <= c && c <= '\u{d}') || c == ' ' || c == '\u{85}' || c == '\u{a0}' || c == '\u{1680}'
        || ('\u{2000}' <= c && c <= '\u{200a}') || c == '\u{2028}' || c == '\u{2029}' || c == '\u{202f}'
        || c == '\u{205f}' || c == '\u{3000}'
}

pub fn is_whitespace(c: char) -> (r: bool)
    ensures
        r == spec_is_whitespace(c),
{
    ('\u{9}' <= c && c <= '\u{d}') || c == ' ' || c == '\u{85}' || c == '\u{a0}' || c == '\u{1680}'
        || ('\u{2000}' <= c && c <= '\u{200a}') || c == '\u{2028}' || c == '\u{2029}' || c == '\u{202f}'
        || c == '\u{205f}' || c == '\u{3000}'
}

/// A character that ends an atom without being part of it.
pub open spec fn spec_is_delimiter(c: char) -> bool {
    c == '(' || c == ')' || c == '"' || c == '\'' || c == '[' || c == ']'
}

pub fn is_delimiter(c: char) -> (r: bool)
    ensures
        r == spec_is_delimiter(c),
{
    c == '(' || c == ')' || c == '"' || c == '\'' || c == '[' || c == ']'
}

pub open spec fn spec_is_digit(c: char) -> bool {
    '0' <= c && c <= '9'
}

pub fn is_digit(c: char) -> (r: bool)
    ensures
        r == spec_is_digit(c),
{
    '0' <= c && c <= '9'
}

/// A lowercase ASCII letter or one of `* - > < / + ! ? =`.
pub open spec fn spec_is_symbol_start(c: char) -> bool {
    ('a' <= c && c <= 'z') || c == '*' || c == '-' || c == '>' || c == '<' || c == '/' || c == '+'
        || c == '!' || c == '?' || c == '='
}

pub fn is_symbol_start(c: char) -> (r: bool)
    ensures
        r == spec_is_symbol_start(c),
{
    ('a' <= c && c <= 'z') || c == '*' || c == '-' || c == '>' || c == '<' || c == '/' || c == '+'
        || c == '!' || c == '?' || c == '='
}

/// A character that may continue a symbol.
pub open spec fn spec_is_symbol(c: char) -> bool {
    spec_is_symbol_start(c) || numeric_char(c)
}

pub fn is_symbol(c: char) -> (r: bool)
    ensures
        r == spec_is_symbol(c),
{
    is_symbol_start(c) || is_numeric(c)
}

/// One move of the lexer on a grapheme cluster.
pub enum LexStep {
    /// Consume the cluster and go on in this state.
    Go(Kind, Seq<char>),
    /// Emit a token and return to `Empty`; the flag tells whether the cluster was consumed.
    Emit(Kind, Seq<char>, bool),
}

/// What a state does with the cluster `g`, classified by its first character.
pub open spec fn lex_step(kind: Kind, data: Seq<char>, g: Seq<char>) -> LexStep {
    let c = g[0];
    match kind {
        Kind::Empty => if spec_is_whitespace(c) {
            LexStep::Go(Kind::Empty, seq![])
        } else if spec_is_digit(c) {
            LexStep::Go(Kind::Integer, g)
        } else if spec_is_symbol_start(c) {
            LexStep::Go(Kind::Symbol, g)
        } else if c == '"' {
            LexStep::Go(Kind::StringPartial, seq![])
        } else if c == '(' {
            LexStep::Emit(Kind::ListStart, g, true)
        } else if c == ')' {
            LexStep::Emit(Kind::ListEnd, g, true)
        } else if c == '[' {
            LexStep::Emit(Kind::VectorStart, g, true)
        } else if c == ']' {
            LexStep::Emit(Kind::VectorEnd, g, true)
        } else if c == '\'' {
            LexStep::Emit(Kind::Quote, g, true)
        } else {
            LexStep::Go(Kind::Invalid, g)
        },
        Kind::StringPartial => if c == '"' {
            LexStep::Emit(Kind::String, data, true)
        } else {
            LexStep::Go(Kind::StringPartial, data + g)
        },
        _ => if spec_is_whitespace(c) {
            LexStep::Emit(kind, data, true)
        } else if spec_is_delimiter(c) {
            LexStep::Emit(kind, data, false)
        } else {
            match kind {
                Kind::Integer => if spec_is_digit(c) {
                    LexStep::Go(Kind::Integer, data + g)
                } else {
                    LexStep::Go(Kind::Invalid, data + g)
                },
                Kind::Symbol => if c == 'l' && data == seq!['n', 'i'] {
                    LexStep::Go(Kind::Nil, data + g)
                } else if c == 'e' && data == seq!['t', 'r', 'u'] {
                    LexStep::Go(Kind::Boolean, data + g)
                } else if c == 'e' && data == seq!['f', 'a', 'l', 's'] {
                    LexStep::Go(Kind::Boolean, data + g)
                } else if data == seq!['-'] && spec_is_digit(c) {
                    LexStep::Go(Kind::Integer, data + g)
                } else if spec_is_symbol(c) {
                    LexStep::Go(Kind::Symbol, data + g)
                } else {
                    LexStep::Go(Kind::Invalid, data + g)
                },
                Kind::Nil | Kind::Boolean => if spec_is_symbol(c) {
                    LexStep::Go(Kind::Symbol, data + g)
                } else {
                    LexStep::Go(Kind::Invalid, data + g)
                },
                _ => LexStep::Go(kind, data + g),
            }
        },
    }
}

/// The tokens the lexer emits from cluster `i` on, in state `(kind, data)`.
pub open spec fn lex_from(gs: Seq<Seq<char>>, i: int, kind: Kind, data: Seq<char>) -> Seq<(Kind, Seq<char>)>
    decreases gs.len() - i, if kind == Kind::Empty { 0int } else { 1int },
{
    if i < 0 || i >= gs.len() {
        if kind == Kind::Empty {
            seq![]
        } else {
            seq![(kind, data)]
        }
    } else {
        match lex_step(kind, data, gs[i]) {
            LexStep::Go(k, d) => lex_from(gs, i + 1, k, d),
            LexStep::Emit(k, d, consumed) => if consumed {
                seq![(k, d)] + lex_from(gs, i + 1, Kind::Empty, seq![])
            } else if kind != Kind::Empty {
                seq![(k, d)] + lex_from(gs, i, Kind::Empty, seq![])
            } else {
                seq![(k, d)]
            },
        }
    }
}

/// The tokens of a source text.
pub open spec fn lex(s: Seq<char>) -> Seq<(Kind, Seq<char>)> {
    lex_from(grapheme_clusters(s), 0, Kind::Empty, seq![])
}

pub open spec fn token_views(ts: Seq<Token>) -> Seq<(Kind, Seq<char>)> {
    Seq::new(ts.len(), |i: int| ts[i]@)
}


fn append(data: &mut String, g: &String)
    ensures
        final(data)@ == old(data)@ + g@,
{
    crate::text::push_str(data, g.as_str());
}

fn is_text(data: &String, t: &str) -> (r: bool)
    ensures
        r == (data@ == t@),
{
    let n = t.unicode_len();
    if data.as_str().unicode_len() != n {
        return false;
    }
    let mut i: usize = 0;
    while i < n
        invariant
            n == t@.len(),
            data@.len() == n,
            i <= n,
            forall|j: int| 0 <= j < i ==> data@[j] == t@[j],
        decreases n - i,
    {
        if data.as_str().get_char(i) != t.get_char(i) {
            return false;
        }
        i = i + 1;
    }
    assert(data@ =~= t@);
    true
}

/// Splits a source text into tokens.
pub fn tokenize(source: &str) -> (r: Vec<Token>)
    ensures
        token_views(r@) == lex(source@),
        concat(grapheme_clusters(source@)) == source@,
        forall|k: int| 0 <= k < grapheme_clusters(source@).len() ==> (#[trigger] grapheme_clusters(source@)[k]).len() > 0,
        forall|i: int| 0 <= i < r@.len() ==> (#[trigger] r@[i]).sized() && r@[i].kind != Kind::Empty,
{
    let gs = graphemes(source);
    assert forall|k: int| 0 <= k < grapheme_clusters(source@).len() implies (#[trigger] grapheme_clusters(source@)[k]).len() > 0 by {
        assert(string_views(gs@)[k] == gs@[k]@);
    }
    tokenize_clusters(&gs)
}

/// Tokens of a text given as its grapheme clusters.
pub fn tokenize_clusters(gs: &Vec<String>) -> (r: Vec<Token>)
    requires
        forall|j: int| 0 <= j < gs@.len() ==> (#[trigger] gs@[j]@).len() > 0,
    ensures
        token_views(r@) == lex_from(string_views(gs@), 0, Kind::Empty, seq![]),
        forall|i: int| 0 <= i < r@.len() ==> (#[trigger] r@[i]).sized() && r@[i].kind != Kind::Empty,
{
    let ghost cs = string_views(gs@);
    let mut out: Vec<Token> = Vec::new();
    let mut kind = Kind::Empty;
    let mut data = String::new();
    let mut i: usize = 0;
    while i < gs.len()
        invariant
            string_views(gs@) == cs,
            forall|j: int| 0 <= j < gs@.len() ==> (#[trigger] gs@[j]@).len() > 0,
            i <= gs@.len(),
            kind == Kind::Empty ==> data@ == Seq::<char>::empty(),
            token_views(out@) + lex_from(cs, i as int, kind, data@) == lex_from(cs, 0, Kind::Empty, seq![]),
            forall|j: int| 0 <= j < out@.len() ==> (#[trigger] out@[j]).sized() && out@[j].kind != Kind::Empty,
        decreases 2 * (gs@.len() - i) + if kind == Kind::Empty { 0int } else { 1int },
    {
        proof {
            reveal_strlit("ni");
            reveal_strlit("tru");
            reveal_strlit("fals");
            reveal_strlit("-");
            assert("ni"@ =~= seq!['n', 'i']);
            assert("tru"@ =~= seq!['t', 'r', 'u']);
            assert("fals"@ =~= seq!['f', 'a', 'l', 's']);
            assert("-"@ =~= seq!['-']);
        }
        let g = &gs[i];
        assert(g@ == cs[i as int]);
        let c = g.as_str().get_char(0);
        let ghost old_out = out@;
        let ghost old_kind = kind;
        let ghost old_data = data@;
        let ghost step = lex_step(kind, data@, g@);
        // Decide the move.
        let mut emit = false;
        let mut consumed = true;
        let mut next_kind = kind;
        match kind {
            Kind::Empty => {
                if is_whitespace(c) {
                } else if is_digit(c) {
                    next_kind = Kind::Integer;
                    append(&mut data, g);
                } else if is_symbol_start(c) {
                    next_kind = Kind::Symbol;
                    append(&mut data, g);
                } else if c == '"' {
                    next_kind = Kind::StringPartial;
                } else if c == '(' || c == ')' || c == '[' || c == ']' || c == '\'' {
                    next_kind = if c == '(' {
                        Kind::ListStart
                    } else if c == ')' {
                        Kind::ListEnd
                    } else if c == '[' {
                        Kind::VectorStart
                    } else if c == ']' {
                        Kind::VectorEnd
                    } else {
                        Kind::Quote
                    };
                    append(&mut data, g);
                    emit = true;
                } else {
                    next_kind = Kind::Invalid;
                    append(&mut data, g);
                }
            },
            Kind::StringPartial => {
                if c == '"' {
                    next_kind = Kind::String;
                    emit = true;
                } else {
                    append(&mut data, g);
                }
            },
            _ => {
                if is_whitespace(c) {
                    emit = true;
                } else if is_delimiter(c) {
                    emit = true;
                    consumed = false;
                } else {
                    match kind {
                        Kind::Integer => {
                            if !is_digit(c) {
                                next_kind = Kind::Invalid;
                            }
                        },
                        Kind::Symbol => {
                            if c == 'l' && is_text(&data, "ni") {
                                next_kind = Kind::Nil;
                            } else if c == 'e' && (is_text(&data, "tru") || is_text(&data, "fals")) {
                                next_kind = Kind::Boolean;
                            } else if is_digit(c) && is_text(&data, "-") {
                                next_kind = Kind::Integer;
                            } else if !is_symbol(c) {
                                next_kind = Kind::Invalid;
                            }
                        },
                        Kind::Nil | Kind::Boolean => {
                            if is_symbol(c) {
                                next_kind = Kind::Symbol;
                            } else {
                                next_kind = Kind::Invalid;
                            }
                        },
                        _ => {},
                    }
                    append(&mut data, g);
                }
            },
        }
        if emit {
            let text = data.clone();
            data = String::new();
            let t = Token::new(next_kind, text);
            assert(step == LexStep::Emit(t.kind, t.data@, consumed));
            out.push(t);
            kind = Kind::Empty;
            proof {
                assert(token_views(out@) =~= token_views(old_out).push((t.kind, t.data@)));
                assert(seq![(t.kind, t.data@)] + lex_from(cs, i + (if consumed { 1int } else { 0int }), Kind::Empty, seq![])
                    == lex_from(cs, i as int, old_kind, old_data));
                assert(token_views(out@) + lex_from(cs, i + (if consumed { 1int } else { 0int }), Kind::Empty, seq![])
                    =~= token_views(old_out) + (seq![(t.kind, t.data@)] + lex_from(cs, i + (if consumed { 1int } else { 0int }), Kind::Empty, seq![])));
                assert(data@ =~= Seq::<char>::empty());
            }
        } else {
            kind = next_kind;
            assert(step == LexStep::Go(kind, data@));
        }
        if consumed {
            i = i + 1;
        }
    }
    if kind != Kind::Empty {
        let ghost old_out = out@;
        let t = Token::new(kind, data);
        out.push(t);
        assert(token_views(out@) =~= token_views(old_out).push(t@));
    } else {
        assert(token_views(out@) =~= token_views(out@) + Seq::<(Kind, Seq<char>)>::empty());
    }
    out
}

} // verus!
