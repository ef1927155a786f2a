//! The scanner: one pass over the source characters that produces positioned
//! tokens, merging multi-character operators and collecting quoted literals
//! and verbatim runs.
use vstd::prelude::*;
use crate::text::{decimal, push_char, push_decimal};

verus! {

/// The quote delimiter that produced a token, if any.
#[derive(Clone, Copy, Debug, PartialEq, Eq, Structural)]
pub enum StringType {
    Not,
    String,
    Char,
    Backtick,
}

/// One token: its text (quote delimiters stripped), the line (from 1) and the
/// column (from 0) recorded when it was emitted, and its literal kind.
#[derive(Debug, PartialEq, Eq)]
pub struct Token {
    pub content: String,
    pub line: u64,
    pub col: u64,
    pub strtype: StringType,
}

/// What a token means to a proof.
pub struct TokenView {
    pub content: Seq<char>,
    pub line: u64,
    pub col: u64,
    pub strtype: StringType,
}

impl View for Token {
    type V = TokenView;

    open spec fn view(&self) -> TokenView {
        TokenView { content: self.content@, line: self.line, col: self.col, strtype: self.strtype }
    }
}

impl Default for Token {
    fn default() -> (t: Token)
        ensures
            t@ == (TokenView { content: Seq::empty(), line: 0, col: 0, strtype: StringType::Not }),
    {
        Token { content: String::new(), line: 0, col: 0, strtype: StringType::Not }
    }
}

pub open spec fn token_views(ts: Seq<Token>) -> Seq<TokenView> {
    ts.map_values(|t: Token| t@)
}

// ---------------------------------------------------------------------------
// Character classes

/// The three quote delimiters.
pub open spec fn is_quote(c: char) -> bool {
    c == '"' || c == '\'' || c == '`'
}

/// The literal kind that a quote delimiter opens.
pub open spec fn quote_kind(c: char) -> StringType {
    if c == '"' {
        StringType::String
    } else if c == '\'' {
        StringType::Char
    } else if c == '`' {
        StringType::Backtick
    } else {
        StringType::Not
    }
}

/// Whether `c` closes a literal of kind `k`.
pub open spec fn closes(k: StringType, c: char) -> bool {
    match k {
        StringType::String => c == '"',
        StringType::Char => c == '\'',
        StringType::Backtick => c == '`',
        StringType::Not => false,
    }
}

/// Characters that separate tokens and are dropped.
pub open spec fn is_whitespace(c: char) -> bool {
    ||| c == ' '
    ||| c == '\t'
    ||| c == '\n'
    ||| c == '\r'
    ||| c == '\u{000c}'
    ||| c == '\u{000b}'
    ||| c == '\u{0085}'
    ||| c == '\u{200e}'
    ||| c == '\u{200f}'
    ||| c == '\u{2028}'
    ||| c == '\u{2029}'
}

/// Characters that form tokens of their own (or operators, merged).
pub open spec fn is_punct(c: char) -> bool {
    ||| c == ';' || c == ':' || c == '.' || c == ','
    ||| c == '{' || c == '}' || c == '[' || c == ']' || c == '(' || c == ')'
    ||| c == '!' || c == '@' || c == '#' || c == '$' || c == '%' || c == '/'
    ||| c == '?' || c == '^' || c == '&' || c == '*' || c == '-' || c == '+'
    ||| c == '=' || c == '|' || c == '<' || c == '>' || c == '~'
}

/// Two-character operators.
pub open spec fn is_operator2(a: char, b: char) -> bool {
    ||| a == '=' && b == '='
    ||| a == '-' && b == '-'
    ||| a == '+' && b == '+'
    ||| a == '|' && b == '|'
    ||| a == '&' && b == '&'
    ||| a == '/' && b == '/'
    ||| a == '>' && b == '>'
    ||| a == '<' && b == '<'
    ||| a == '>' && b == '='
    ||| a == '<' && b == '='
    ||| a == '!' && b == '='
    ||| a == '%' && b == '%'
    ||| a == '*' && b == '='
    ||| a == '/' && b == '='
    ||| a == '+' && b == '='
    ||| a == '-' && b == '='
    ||| a == '^' && b == '='
    ||| a == '~' && b == '='
    ||| a == '|' && b == '='
    ||| a == '&' && b == '='
    ||| a == '.' && b == '.'
}

/// Three-character operators.
pub open spec fn is_operator3(a: char, b: char, c: char) -> bool {
    ||| a == '=' && b == '=' && c == '='
    ||| a == '>' && b == '>' && c == '>'
    ||| a == '!' && b == '=' && c == '='
    ||| a == '/' && b == '/' && c == '='
    ||| a == '<' && b == '<' && c == '='
    ||| a == '>' && b == '>' && c == '='
    ||| a == '|' && b == '|' && c == '='
    ||| a == '&' && b == '&' && c == '='
    ||| a == '%' && b == '%' && c == '='
}

/// The multi-character operators. Every prefix of two or more characters of
/// one of them is one of them too, so they can be built one character at a
/// time.
pub open spec fn is_operator(s: Seq<char>) -> bool {
    if s.len() == 2 {
        is_operator2(s[0], s[1])
    } else if s.len() == 3 {
        is_operator3(s[0], s[1], s[2])
    } else if s.len() == 4 {
        s[0] == '>' && s[1] == '>' && s[2] == '>' && s[3] == '='
    } else {
        false
    }
}

fn quote_char(c: char) -> (r: bool)
    ensures
        r == is_quote(c),
{
    c == '"' || c == '\'' || c == '`'
}

fn kind_of_quote(c: char) -> (k: StringType)
    ensures
        k == quote_kind(c),
{
    if c == '"' {
        StringType::String
    } else if c == '\'' {
        StringType::Char
    } else if c == '`' {
        StringType::Backtick
    } else {
        StringType::Not
    }
}

fn closing(k: StringType, c: char) -> (r: bool)
    ensures
        r == closes(k, c),
{
    match k {
        StringType::String => c == '"',
        StringType::Char => c == '\'',
        StringType::Backtick => c == '`',
        StringType::Not => false,
    }
}

fn whitespace_char(c: char) -> (r: bool)
    ensures
        r == is_whitespace(c),
{
    c == ' ' || c == '\t' || c == '\n' || c == '\r' || c == '\u{000c}' || c == '\u{000b}'
        || c == '\u{0085}' || c == '\u{200e}' || c == '\u{200f}' || c == '\u{2028}'
        || c == '\u{2029}'
}

fn punct_char(c: char) -> (r: bool)
    ensures
        r == is_punct(c),
{
    c == ';' || c == ':' || c == '.' || c == ',' || c == '{' || c == '}' || c == '['
        || c == ']' || c == '(' || c == ')' || c == '!' || c == '@' || c == '#' || c == '$'
        || c == '%' || c == '/' || c == '?' || c == '^' || c == '&' || c == '*' || c == '-'
        || c == '+' || c == '=' || c == '|' || c == '<' || c == '>' || c == '~'
}

fn operator2(a: char, b: char) -> (r: bool)
    ensures
        r == is_operator2(a, b),
{
    (a == '=' && b == '=') || (a == '-' && b == '-') || (a == '+' && b == '+')
        || (a == '|' && b == '|') || (a == '&' && b == '&') || (a == '/' && b == '/')
        || (a == '>' && b == '>') || (a == '<' && b == '<') || (a == '>' && b == '=')
        || (a == '<' && b == '=') || (a == '!' && b == '=') || (a == '%' && b == '%')
        || (a == '*' && b == '=') || (a == '/' && b == '=') || (a == '+' && b == '=')
        || (a == '-' && b == '=') || (a == '^' && b == '=') || (a == '~' && b == '=')
        || (a == '|' && b == '=') || (a == '&' && b == '=') || (a == '.' && b == '.')
}

fn operator3(a: char, b: char, c: char) -> (r: bool)
    ensures
        r == is_operator3(a, b, c),
{
    (a == '=' && b == '=' && c == '=') || (a == '>' && b == '>' && c == '>')
        || (a == '!' && b == '=' && c == '=') || (a == '/' && b == '/' && c == '=')
        || (a == '<' && b == '<' && c == '=') || (a == '>' && b == '>' && c == '=')
        || (a == '|' && b == '|' && c == '=') || (a == '&' && b == '&' && c == '=')
        || (a == '%' && b == '%' && c == '=')
}

/// Whether appending `c` to `s` gives an operator.
fn extends_operator(s: &str, c: char) -> (r: bool)
    ensures
        r == is_operator(s@.push(c)),
{
    let n = s.unicode_len();
    if n == 1 {
        operator2(s.get_char(0), c)
    } else if n == 2 {
        operator3(s.get_char(0), s.get_char(1), c)
    } else if n == 3 {
        s.get_char(0) == '>' && s.get_char(1) == '>' && s.get_char(2) == '>' && c == '='
    } else {
        false
    }
}

// ---------------------------------------------------------------------------
// The scanner as a state machine

/// Everything the scanner knows between two characters.
pub struct ScanState {
    /// Tokens emitted so far.
    pub tokens: Seq<TokenView>,
    /// Characters collected since the last flush.
    pub pending: Seq<char>,
    /// The kind of the open literal, `Not` outside literals.
    pub quote: StringType,
    /// Inside a literal, the previous character was an escaping backslash.
    pub escaped: bool,
    /// A bare backslash opened a verbatim run that has not been closed.
    pub verbatim: bool,
    /// The previous character was punctuation, emitted as or merged into
    /// the last token.
    pub glued: bool,
    /// Position of the next character.
    pub line: u64,
    pub col: u64,
}

pub open spec fn initial_state() -> ScanState {
    ScanState {
        tokens: Seq::empty(),
        pending: Seq::empty(),
        quote: StringType::Not,
        escaped: false,
        verbatim: false,
        glued: false,
        line: 1,
        col: 0,
    }
}

/// Emits the pending characters, if any, as a token of kind `kind`.
pub open spec fn emit(st: ScanState, kind: StringType) -> ScanState {
    let tokens = if st.pending.len() > 0 {
        st.tokens.push(TokenView { content: st.pending, line: st.line, col: st.col, strtype: kind })
    } else {
        st.tokens
    };
    ScanState { tokens, pending: Seq::empty(), ..st }
}

/// What one character does to the tokens, the pending text and the modes.
pub open spec fn scan_char(st: ScanState, c: char) -> ScanState {
    if st.quote != StringType::Not {
        if st.escaped {
            ScanState { pending: st.pending.push(c), escaped: false, ..st }
        } else if closes(st.quote, c) {
            ScanState { quote: StringType::Not, ..emit(st, st.quote) }
        } else {
            ScanState { pending: st.pending.push(c), escaped: c == '\\', ..st }
        }
    } else if is_quote(c) {
        ScanState { quote: quote_kind(c), ..emit(st, StringType::Not) }
    } else if c == '\\' {
        ScanState { verbatim: !st.verbatim, ..emit(st, StringType::Not) }
    } else if st.verbatim {
        ScanState { pending: st.pending.push(c), ..st }
    } else if is_whitespace(c) {
        emit(st, StringType::Not)
    } else if is_punct(c) {
        if st.glued && st.tokens.len() > 0 && is_operator(st.tokens.last().content.push(c)) {
            let last = st.tokens.last();
            let merged = TokenView { content: last.content.push(c), ..last };
            ScanState { tokens: st.tokens.update(st.tokens.len() - 1, merged), ..st }
        } else {
            let f = emit(st, StringType::Not);
            let single = TokenView {
                content: seq![c],
                line: st.line,
                col: st.col.saturating_add(1),
                strtype: StringType::Not,
            };
            ScanState { tokens: f.tokens.push(single), ..f }
        }
    } else {
        ScanState { pending: st.pending.push(c), ..st }
    }
}

/// One scanner step: the effect of `c`, then the position moves past it.
pub open spec fn step(st: ScanState, c: char) -> ScanState {
    let next = scan_char(st, c);
    ScanState {
        glued: st.quote == StringType::Not && !st.verbatim && is_punct(c),
        line: if c == '\n' { st.line.saturating_add(1) } else { st.line },
        col: if c == '\n' { 0 } else { st.col.saturating_add(1) },
        ..next
    }
}

/// The scanner's state after reading all of `s`.
pub open spec fn scan(s: Seq<char>) -> ScanState
    decreases s.len(),
{
    if s.len() == 0 {
        initial_state()
    } else {
        step(scan(s.drop_last()), s.last())
    }
}

/// The tokens of a source text: it is scanned with one space appended, so
/// that a token at its very end is flushed too.
pub open spec fn tokens_of(s: Seq<char>) -> Seq<TokenView> {
    scan(s.push(' ')).tokens
}

// ---------------------------------------------------------------------------
// Laws of the scanner

/// Every token holds at least one character.
pub open spec fn all_nonempty(ts: Seq<TokenView>) -> bool {
    forall|i: int| 0 <= i < ts.len() ==> #[trigger] ts[i].content.len() > 0
}

proof fn lemma_step_nonempty(st: ScanState, c: char)
    requires
        all_nonempty(st.tokens),
    ensures
        all_nonempty(step(st, c).tokens),
{
    let n = step(st, c);
    let e = emit(st, StringType::Not);
    assert(all_nonempty(e.tokens));
    assert(all_nonempty(emit(st, st.quote).tokens));
    if st.quote == StringType::Not && !is_quote(c) && c != '\\' && !st.verbatim
        && !is_whitespace(c) && is_punct(c) {
        if st.glued && st.tokens.len() > 0 && is_operator(st.tokens.last().content.push(c)) {
            assert forall|i: int| 0 <= i < n.tokens.len() implies #[trigger] n.tokens[i].content.len()
                > 0 by {
                if i == st.tokens.len() - 1 {
                    assert(n.tokens[i].content == st.tokens.last().content.push(c));
                } else {
                    assert(n.tokens[i] == st.tokens[i]);
                }
            }
        } else {
            assert forall|i: int| 0 <= i < n.tokens.len() implies #[trigger] n.tokens[i].content.len()
                > 0 by {
                if i < e.tokens.len() {
                    assert(n.tokens[i] == e.tokens[i]);
                }
            }
        }
    }
}

/// The scanner never emits an empty token.
pub proof fn lemma_scan_nonempty(s: Seq<char>)
    ensures
        all_nonempty(scan(s).tokens),
    decreases s.len(),
{
    if s.len() > 0 {
        lemma_scan_nonempty(s.drop_last());
        lemma_step_nonempty(scan(s.drop_last()), s.last());
    }
}

/// The texts of the tokens, one after the other.
pub open spec fn contents(ts: Seq<TokenView>) -> Seq<char>
    decreases ts.len(),
{
    if ts.len() == 0 {
        Seq::empty()
    } else {
        contents(ts.drop_last()) + ts.last().content
    }
}

/// Whether the scanner keeps `c`, read in state `st`, as token text: it
/// drops quote delimiters, the backslashes that open and close verbatim
/// runs, and whitespace outside literals and verbatim runs.
pub open spec fn keeps(st: ScanState, c: char) -> bool {
    if st.quote != StringType::Not {
        st.escaped || !closes(st.quote, c)
    } else {
        !is_quote(c) && c != '\\' && (st.verbatim || !is_whitespace(c))
    }
}

/// The characters of `s` that the scanner keeps, in order.
pub open spec fn kept_chars(s: Seq<char>) -> Seq<char>
    decreases s.len(),
{
    if s.len() == 0 {
        Seq::empty()
    } else if keeps(scan(s.drop_last()), s.last()) {
        kept_chars(s.drop_last()).push(s.last())
    } else {
        kept_chars(s.drop_last())
    }
}

/// `s` ends inside a literal or a verbatim run that has collected text; that
/// text is never flushed.
pub open spec fn ends_in_open_text(s: Seq<char>) -> bool {
    let st = scan(s);
    (st.quote != StringType::Not || st.verbatim) && st.pending.len() > 0
}

proof fn lemma_step_kept(st: ScanState, c: char, kept: Seq<char>)
    requires
        contents(st.tokens) + st.pending == kept,
        st.glued ==> st.pending.len() == 0 && st.tokens.len() > 0,
    ensures
        contents(step(st, c).tokens) + step(st, c).pending == (if keeps(st, c) {
            kept.push(c)
        } else {
            kept
        }),
        step(st, c).glued ==> step(st, c).pending.len() == 0 && step(st, c).tokens.len() > 0,
{
    let n = step(st, c);
    let e = emit(st, StringType::Not);
    if st.pending.len() > 0 {
        assert(st.tokens.push(TokenView { content: st.pending, line: st.line, col: st.col, strtype: StringType::Not }).drop_last() =~= st.tokens);
        assert(st.tokens.push(TokenView { content: st.pending, line: st.line, col: st.col, strtype: st.quote }).drop_last() =~= st.tokens);
    }
    assert(contents(e.tokens) =~= contents(st.tokens) + st.pending);
    assert(contents(emit(st, st.quote).tokens) =~= contents(st.tokens) + st.pending);
    if st.quote != StringType::Not {
        if st.escaped || !closes(st.quote, c) {
            assert(contents(n.tokens) + n.pending =~= kept.push(c));
        }
    } else if is_quote(c) || c == '\\' {
    } else if st.verbatim {
        assert(contents(n.tokens) + n.pending =~= kept.push(c));
    } else if is_whitespace(c) {
    } else if is_punct(c) {
        if st.glued && st.tokens.len() > 0 && is_operator(st.tokens.last().content.push(c)) {
            let last = st.tokens.last();
            let merged = TokenView { content: last.content.push(c), ..last };
            assert(n.tokens.drop_last() =~= st.tokens.drop_last());
            assert(n.tokens.last() == merged);
            assert(contents(n.tokens) =~= contents(st.tokens).push(c));
            assert(contents(n.tokens) + n.pending =~= kept.push(c));
        } else {
            let single = TokenView {
                content: seq![c],
                line: st.line,
                col: st.col.saturating_add(1),
                strtype: StringType::Not,
            };
            assert(e.tokens.push(single).drop_last() =~= e.tokens);
            assert(contents(n.tokens) =~= contents(e.tokens) + seq![c]);
            assert(contents(n.tokens) + n.pending =~= kept.push(c));
        }
    } else {
        assert(contents(n.tokens) + n.pending =~= kept.push(c));
    }
}

proof fn lemma_scan_kept(s: Seq<char>)
    ensures
        contents(scan(s).tokens) + scan(s).pending == kept_chars(s),
        scan(s).glued ==> scan(s).pending.len() == 0 && scan(s).tokens.len() > 0,
    decreases s.len(),
{
    if s.len() == 0 {
        assert(contents(scan(s).tokens) + scan(s).pending =~= kept_chars(s));
    } else {
        lemma_scan_kept(s.drop_last());
        lemma_step_kept(scan(s.drop_last()), s.last(), kept_chars(s.drop_last()));
    }
}

/// Reading the tokens' texts one after the other gives back the source with
/// quote delimiters, verbatim markers and separating whitespace left out, for
/// every source that does not end inside a literal or verbatim run holding
/// text.
pub proof fn lemma_tokens_rebuild_source(s: Seq<char>)
    requires
        !ends_in_open_text(s),
    ensures
        contents(tokens_of(s)) == kept_chars(s),
{
    let t = s.push(' ');
    assert(t.drop_last() =~= s);
    lemma_scan_kept(s);
    lemma_scan_kept(t);
    let st = scan(s);
    if st.quote == StringType::Not && !st.verbatim {
        assert(!keeps(st, ' '));
        assert(scan(t).pending.len() == 0);
        assert(kept_chars(t) == kept_chars(s));
        assert(contents(scan(t).tokens) =~= contents(scan(t).tokens) + scan(t).pending);
    } else {
        assert(st.pending.len() == 0);
        assert(keeps(st, ' '));
        assert(scan(t).tokens == st.tokens);
        assert(contents(st.tokens) =~= contents(st.tokens) + st.pending);
        assert(scan(t).pending =~= seq![' ']);
        assert(kept_chars(t) == kept_chars(s).push(' '));
        assert(contents(scan(t).tokens) + seq![' '] == kept_chars(s).push(' '));
        assert(contents(scan(t).tokens) =~= kept_chars(s));
    }
}

/// Every multi-character operator, written alone, scans as one token:
/// operators are built greedily, one character at a time.
pub proof fn lemma_operator_is_one_token(o: Seq<char>)
    requires
        is_operator(o),
    ensures
        tokens_of(o).len() == 1,
        tokens_of(o)[0].content == o,
{
    let t = o.push(' ');
    assert(t.drop_last() =~= o);
    let p1 = o.subrange(0, 1);
    let p2 = o.subrange(0, 2);
    assert(p1.drop_last() =~= Seq::<char>::empty());
    assert(p2.drop_last() =~= p1);
    assert(p1 =~= seq![o[0]]);
    assert(p2 =~= seq![o[0], o[1]]);
    assert(scan(Seq::<char>::empty()) == initial_state());
    let s1 = scan(p1);
    assert(s1 == step(initial_state(), o[0]));
    assert(s1.tokens =~= seq![TokenView { content: seq![o[0]], line: 1, col: 1, strtype: StringType::Not }]);
    let s2 = scan(p2);
    assert(s2 == step(s1, o[1]));
    assert(seq![o[0]].push(o[1]) =~= p2);
    assert(s2.tokens.len() == 1 && s2.tokens[0].content == p2 && s2.glued && s2.pending.len() == 0);
    if o.len() == 2 {
        assert(o =~= p2);
    } else {
        let p3 = o.subrange(0, 3);
        assert(p3.drop_last() =~= p2);
        assert(p2.push(o[2]) =~= p3);
        let s3 = scan(p3);
        assert(s3 == step(s2, o[2]));
        assert(s3.tokens.len() == 1 && s3.tokens[0].content == p3 && s3.glued && s3.pending.len() == 0);
        if o.len() == 3 {
            assert(o =~= p3);
        } else {
            assert(o.drop_last() =~= p3);
            assert(p3.push(o[3]) =~= o);
            assert(scan(o) == step(s3, o[3]));
        }
    }
    let so = scan(o);
    assert(so.tokens.len() == 1 && so.tokens[0].content == o && so.pending.len() == 0);
    assert(so.quote == StringType::Not && !so.verbatim);
    assert(scan(t) == step(so, ' '));
}

/// Punctuation separated by whitespace scans as separate tokens, each one
/// character long.
pub proof fn lemma_whitespace_separates(a: char, w: char, b: char)
    requires
        is_punct(a),
        is_whitespace(w),
        is_punct(b),
    ensures
        tokens_of(seq![a, w, b]).len() == 2,
        tokens_of(seq![a, w, b])[0].content == seq![a],
        tokens_of(seq![a, w, b])[1].content == seq![b],
{
    let s = seq![a, w, b];
    assert(s.push(' ').drop_last() =~= s);
    assert(s.drop_last() =~= seq![a, w]);
    assert(seq![a, w].drop_last() =~= seq![a]);
    assert(seq![a].drop_last() =~= Seq::<char>::empty());
    assert(scan(Seq::<char>::empty()) == initial_state());
    let s1 = scan(seq![a]);
    assert(s1 == step(initial_state(), a));
    assert(s1.tokens.len() == 1 && s1.tokens[0].content == seq![a]);
    let s2 = scan(seq![a, w]);
    assert(s2 == step(s1, w));
    assert(!s2.glued && s2.tokens == s1.tokens && s2.pending.len() == 0);
    let s3 = scan(s);
    assert(s3 == step(s2, b));
    assert(s3.tokens.len() == 2);
    assert(scan(s.push(' ')) == step(s3, ' '));
}

struct Scanner {
    tokens: Vec<Token>,
    pending: String,
    quote: StringType,
    escaped: bool,
    verbatim: bool,
    glued: bool,
    line: u64,
    col: u64,
}

impl View for Scanner {
    type V = ScanState;

    closed spec fn view(&self) -> ScanState {
        ScanState {
            tokens: token_views(self.tokens@),
            pending: self.pending@,
            quote: self.quote,
            escaped: self.escaped,
            verbatim: self.verbatim,
            glued: self.glued,
            line: self.line,
            col: self.col,
        }
    }
}

impl Scanner {
    fn new() -> (sc: Scanner)
        ensures
            sc@ == initial_state(),
    {
        let sc = Scanner {
            tokens: Vec::new(),
            pending: String::new(),
            quote: StringType::Not,
            escaped: false,
            verbatim: false,
            glued: false,
            line: 1,
            col: 0,
        };
        assert(token_views(sc.tokens@) =~= Seq::empty());
        sc
    }

    fn emit(&mut self, kind: StringType)
        ensures
            final(self)@ == emit(old(self)@, kind),
    {
        if !self.pending.as_str().is_empty() {
            let mut content = String::new();
            std::mem::swap(&mut content, &mut self.pending);
            let t = Token { content, line: self.line, col: self.col, strtype: kind };
            self.tokens.push(t);
            assert(token_views(self.tokens@) =~= token_views(old(self).tokens@).push(t@));
        }
        assert(self.pending@ =~= Seq::<char>::empty());
    }

    fn step(&mut self, c: char)
        ensures
            final(self)@ == step(old(self)@, c),
    {
        let quote = self.quote;
        let verbatim = self.verbatim;
        if quote != StringType::Not {
            if self.escaped {
                push_char(&mut self.pending, c);
                self.escaped = false;
            } else if closing(quote, c) {
                self.emit(quote);
                self.quote = StringType::Not;
            } else {
                push_char(&mut self.pending, c);
                self.escaped = c == '\\';
            }
        } else if quote_char(c) {
            self.emit(StringType::Not);
            self.quote = kind_of_quote(c);
        } else if c == '\\' {
            self.emit(StringType::Not);
            self.verbatim = !verbatim;
        } else if verbatim {
            push_char(&mut self.pending, c);
        } else if whitespace_char(c) {
            self.emit(StringType::Not);
        } else if punct_char(c) {
            let n = self.tokens.len();
            if self.glued && n > 0 && extends_operator(self.tokens[n - 1].content.as_str(), c) {
                let ghost before = token_views(self.tokens@);
                let mut last = self.tokens.pop().unwrap();
                push_char(&mut last.content, c);
                self.tokens.push(last);
                assert(token_views(self.tokens@) =~= before.update(
                    before.len() - 1,
                    TokenView { content: before.last().content.push(c), ..before.last() },
                ));
            } else {
                self.emit(StringType::Not);
                let mut content = String::new();
                push_char(&mut content, c);
                assert(content@ =~= seq![c]);
                let t = Token {
                    content,
                    line: self.line,
                    col: self.col.saturating_add(1),
                    strtype: StringType::Not,
                };
                let ghost before = token_views(self.tokens@);
                self.tokens.push(t);
                assert(token_views(self.tokens@) =~= before.push(t@));
            }
        } else {
            push_char(&mut self.pending, c);
        }
        self.glued = quote == StringType::Not && !verbatim && punct_char(c);
        if c == '\n' {
            self.line = self.line.saturating_add(1);
            self.col = 0;
        } else {
            self.col = self.col.saturating_add(1);
        }
    }
}

/// Splits source text into tokens.
pub fn tokenize(file: String) -> (tokens: Vec<Token>)
    ensures
        token_views(tokens@) == tokens_of(file@),
        forall|i: int| 0 <= i < tokens.len() ==> (#[trigger] tokens[i]).content@.len() > 0,
{
    let mut sc = Scanner::new();
    let ghost text = file@;
    for c in it: file.as_str().chars()
        invariant
            it.seq() == text,
            sc@ == scan(text.take(it.index())),
        ensures
            sc@ == scan(text.take(text.len() as int)),
    {
        proof {
            assert(text.take(it.index() + 1).drop_last() =~= text.take(it.index()));
        }
        sc.step(c);
    }
    assert(text.take(text.len() as int) =~= text);
    sc.step(' ');
    assert(text.push(' ').drop_last() =~= text);
    proof {
        lemma_scan_nonempty(text.push(' '));
        assert(sc@ == scan(text.push(' ')));
        assert forall|i: int| 0 <= i < sc.tokens.len() implies (#[trigger] sc.tokens[i]).content@.len()
            > 0 by {
            assert(sc@.tokens[i] == sc.tokens[i]@);
            assert(sc@.tokens[i].content.len() > 0);
        }
    }
    sc.tokens
}

/// The letter that marks a token's literal kind in its text form.
pub open spec fn kind_prefix(k: StringType) -> Seq<char> {
    match k {
        StringType::Not => Seq::empty(),
        StringType::Backtick => seq!['b'],
        StringType::String => seq!['s'],
        StringType::Char => seq!['c'],
    }
}

/// The text form of a token, for diagnostics.
pub open spec fn token_text(t: TokenView) -> Seq<char> {
    "<Token "@ + kind_prefix(t.strtype) + "\""@ + t.content + "\" "@ + decimal(t.line as nat) + ":"@
        + decimal(t.col as nat) + ">"@
}

impl Token {
    /// The text form of this token, for diagnostics.
    pub fn to_string(&self) -> (r: String)
        ensures
            r@ == token_text(self@),
    {
        let mut r = String::from_str("<Token ");
        match self.strtype {
            StringType::Not => {
                assert(r@ =~= r@ + kind_prefix(self.strtype));
            },
            StringType::Backtick => push_char(&mut r, 'b'),
            StringType::String => push_char(&mut r, 's'),
            StringType::Char => push_char(&mut r, 'c'),
        }
        r.append("\"");
        r.append(self.content.as_str());
        r.append("\" ");
        push_decimal(&mut r, self.line);
        r.append(":");
        push_decimal(&mut r, self.col);
        r.append(">");
        assert(r@ =~= token_text(self@));
        r
    }
}

} // verus!
