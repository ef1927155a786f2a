//! The parser: a single-pass state machine over a slice of tokens that
//! builds a tree of identifiers, constants, calls and statement blocks,
//! parsing call arguments recursively.
use vstd::prelude::*;
use crate::exit::ExitReason;
use crate::text::{decimal, push_char, push_decimal};
use crate::tokenize::{StringType, Token, TokenView, token_views, tokenize, tokens_of};

verus! {

/// The kind of a constant.
#[derive(Clone, Copy, Debug, PartialEq, Eq, Structural)]
pub enum VarType {
    Str,
    Char,
    Num,
}

/// A node of the syntax tree. Children are owned by their parent.
#[derive(Debug, PartialEq, Eq)]
pub enum Val {
    /// A placeholder; never part of a tree that parsing returns.
    Nop,
    Ident(String),
    Const(String, VarType),
    FuncCall(String, Vec<Val>),
    /// A call of a distinguished form; no grammar rule produces it yet.
    MacroCall(String, Vec<Val>),
    CodeBlock(Vec<Val>),
}

/// What a tree node means to a proof.
pub enum ValView {
    Nop,
    Ident(Seq<char>),
    Const(Seq<char>, VarType),
    FuncCall(Seq<char>, Seq<ValView>),
    MacroCall(Seq<char>, Seq<ValView>),
    CodeBlock(Seq<ValView>),
}

pub open spec fn val_view(v: Val) -> ValView
    decreases v, 0nat,
{
    match v {
        Val::Nop => ValView::Nop,
        Val::Ident(s) => ValView::Ident(s@),
        Val::Const(s, k) => ValView::Const(s@, k),
        Val::FuncCall(n, args) => ValView::FuncCall(n@, vals_view(args@)),
        Val::MacroCall(n, args) => ValView::MacroCall(n@, vals_view(args@)),
        Val::CodeBlock(stmts) => ValView::CodeBlock(vals_view(stmts@)),
    }
}

pub open spec fn vals_view(s: Seq<Val>) -> Seq<ValView>
    decreases s, 0nat,
{
    if s.len() == 0 {
        Seq::empty()
    } else {
        vals_view(s.drop_last()).push(val_view(s.last()))
    }
}

impl Default for Val {
    fn default() -> (v: Val)
        ensures
            v@ == ValView::Nop,
    {
        Val::Nop
    }
}

impl View for Val {
    type V = ValView;

    open spec fn view(&self) -> ValView {
        val_view(*self)
    }
}

proof fn lemma_vals_view(s: Seq<Val>)
    ensures
        vals_view(s).len() == s.len(),
        forall|i: int| 0 <= i < s.len() ==> #[trigger] vals_view(s)[i] == val_view(s[i]),
    decreases s.len(),
{
    if s.len() > 0 {
        lemma_vals_view(s.drop_last());
    }
}

proof fn lemma_vals_view_push(s: Seq<Val>, v: Val)
    ensures
        vals_view(s.push(v)) == vals_view(s).push(val_view(v)),
{
    assert(s.push(v).drop_last() =~= s);
}

pub open spec fn opt_view(o: Option<Val>) -> Option<ValView> {
    match o {
        Some(v) => Some(val_view(v)),
        None => None,
    }
}

/// An error: a message and the reason that selects the exit code.
pub type Failure = (Seq<char>, ExitReason);

pub open spec fn outcome_view(r: Result<Val, (String, ExitReason)>) -> Result<ValView, Failure> {
    match r {
        Ok(v) => Ok(val_view(v)),
        Err(e) => Err((e.0@, e.1)),
    }
}

// ---------------------------------------------------------------------------
// Token tests

/// The token is the punctuation character `c`: its text is `c` and it is
/// not a quoted literal.
pub open spec fn is_punct_token(t: TokenView, c: char) -> bool {
    t.strtype == StringType::Not && t.content == seq![c]
}

pub open spec fn is_numeral_char(c: char) -> bool {
    ||| c == '0' || c == '1' || c == '2' || c == '3' || c == '4'
    ||| c == '5' || c == '6' || c == '7' || c == '8' || c == '9'
    ||| c == 'e'
}

/// A numeral: decimal digits and at most one letter `e`, not empty.
pub open spec fn is_numeral(s: Seq<char>) -> bool {
    &&& s.len() > 0
    &&& forall|i: int| 0 <= i < s.len() ==> is_numeral_char(#[trigger] s[i])
    &&& forall|i: int, j: int|
        0 <= i < s.len() && 0 <= j < s.len() && #[trigger] s[i] == 'e' && #[trigger] s[j] == 'e'
            ==> i == j
}

pub open spec fn has_exponent(s: Seq<char>) -> bool {
    exists|i: int| 0 <= i < s.len() && s[i] == 'e'
}

/// A char literal holds exactly one character, or starts with the reserved
/// escape `\u`.
pub open spec fn char_literal_ok(s: Seq<char>) -> bool {
    s.len() == 1 || (s.len() >= 2 && s[0] == '\\' && s[1] == 'u')
}

// ---------------------------------------------------------------------------
// Diagnostics

pub open spec fn pos_text(t: TokenView) -> Seq<char> {
    " (line "@ + decimal(t.line as nat) + ", col "@ + decimal(t.col as nat) + ")"@
}

pub open spec fn bad_token_failure(t: TokenView, name: Seq<char>) -> Failure {
    let kind = if t.strtype == StringType::Not {
        Seq::empty()
    } else {
        "string "@
    };
    (
        "Unexpected token "@ + kind + "'"@ + t.content + "' after '"@ + name + "', expected one of ['(', ';', '!', '::', '=', '--', '++', '+=' , '-=', '*=', '/=', '//=', '^=', '=', '%=', '%%=', '<<=', '>>=', '>>>=', '&=', '|=', '&&=', '||=']."@
            + pos_text(t),
        ExitReason::CompileBadTokenAfterIdentifier,
    )
}

pub open spec fn after_const_failure(t: TokenView) -> Failure {
    (
        "Unexpected token '"@ + t.content + "' after a constant: operators are not implemented."@
            + pos_text(t),
        ExitReason::CompileNotImplemented,
    )
}

pub open spec fn char_length_failure(t: TokenView) -> Failure {
    (
        "Char '"@ + t.content + "' should be 1 character long, but is "@ + decimal(
            t.content.len(),
        ) + "."@ + pos_text(t),
        ExitReason::CompileCharTooLong,
    )
}

pub open spec fn arg_not_value_failure(t: TokenView) -> Failure {
    (
        "Function argument should be a value, not executable code."@ + pos_text(t),
        ExitReason::CompileFuncArgNotValue,
    )
}

pub open spec fn missing_args_failure() -> Failure {
    ("The call under construction has no argument list."@, ExitReason::CompileWipArgsUnwrapFailed)
}


// ---------------------------------------------------------------------------
// The parser as a state machine

/// What the parser expects next.
#[derive(Clone, Copy, Debug, PartialEq, Eq, Structural)]
pub enum State {
    /// A new statement or value.
    Start,
    /// An identifier was read: only `(` or `;` may follow.
    PrevIsIdentifier,
    /// A constant was read: nothing may follow yet.
    PrevIsConst,
    /// Inside the argument list of a call.
    ParseArgs,
}

pub struct ParseState {
    pub state: State,
    /// Completed statements.
    pub stmts: Seq<ValView>,
    /// The value under construction, if one was started.
    pub wip: Option<ValView>,
    /// A `;` was read.
    pub terminated: bool,
    /// Open parentheses of the current call, its own included.
    pub paren_depth: int,
    /// Index of the first token of the current argument.
    pub arg_start: int,
}

pub open spec fn initial_parse_state() -> ParseState {
    ParseState {
        state: State::Start,
        stmts: Seq::empty(),
        wip: None,
        terminated: false,
        paren_depth: 0,
        arg_start: 0,
    }
}

pub open spec fn with_wip(stmts: Seq<ValView>, wip: Option<ValView>) -> Seq<ValView> {
    match wip {
        Some(v) => stmts.push(v),
        None => stmts,
    }
}

/// The result at the end of the tokens: the statements, with the value under
/// construction as the last; a single statement without `;` stands alone.
pub open spec fn finish(st: ParseState) -> ValView {
    let stmts = with_wip(st.stmts, st.wip);
    if !st.terminated && stmts.len() == 1 {
        stmts[0]
    } else {
        ValView::CodeBlock(stmts)
    }
}

pub open spec fn ident_name(wip: Option<ValView>) -> Seq<char> {
    match wip {
        Some(ValView::Ident(n)) => n,
        _ => Seq::empty(),
    }
}

/// A numeral at `i` is followed by `.` and a second numeral, and has no
/// exponent: the three make one decimal constant.
pub open spec fn decimal_follows(toks: Seq<TokenView>, i: int) -> bool {
    &&& i + 2 < toks.len()
    &&& is_punct_token(toks[i + 1], '.')
    &&& !has_exponent(toks[i].content)
    &&& is_numeral(toks[i + 2].content)
}

/// A token read when a new statement or value is expected. A finished
/// value that is still pending (a call whose arguments are closed) becomes a
/// statement first.
pub open spec fn start_token(toks: Seq<TokenView>, i: int, st: ParseState) -> ParseState {
    let t = toks[i];
    let stmts = with_wip(st.stmts, st.wip);
    if is_punct_token(t, ';') {
        ParseState { stmts, wip: None, terminated: true, ..st }
    } else if t.strtype != StringType::Not {
        let kind = if t.strtype == StringType::Char {
            VarType::Char
        } else {
            VarType::Str
        };
        ParseState { state: State::PrevIsConst, stmts, wip: Some(ValView::Const(t.content, kind)), ..st }
    } else if is_numeral(t.content) {
        let text = if decimal_follows(toks, i) {
            t.content.push('.') + toks[i + 2].content
        } else {
            t.content
        };
        ParseState {
            state: State::PrevIsConst,
            stmts,
            wip: Some(ValView::Const(text, VarType::Num)),
            ..st
        }
    } else {
        ParseState { state: State::PrevIsIdentifier, stmts, wip: Some(ValView::Ident(t.content)), ..st }
    }
}

/// The numeral at `i` starts a decimal constant that takes in the two
/// tokens after it.
pub open spec fn starts_decimal(toks: Seq<TokenView>, i: int, st: ParseState) -> bool {
    let t = toks[i];
    &&& st.state == State::Start
    &&& !is_punct_token(t, ';')
    &&& t.strtype == StringType::Not
    &&& is_numeral(t.content)
    &&& decimal_follows(toks, i)
}

/// The index of the token read after the one at `i`.
pub open spec fn next_index(toks: Seq<TokenView>, i: int, st: ParseState) -> int {
    if starts_decimal(toks, i, st) {
        i + 3
    } else {
        i + 1
    }
}

/// Appends the parsed argument `arg` to the call under construction; `t` is
/// the token that ended the argument.
pub open spec fn add_arg(st: ParseState, arg: Result<ValView, Failure>, t: TokenView) -> Result<
    ParseState,
    Failure,
> {
    match arg {
        Err(e) => Err(e),
        Ok(v) => {
            if v is CodeBlock {
                Err(arg_not_value_failure(t))
            } else {
                match st.wip {
                    Some(ValView::FuncCall(n, args)) => Ok(
                        ParseState { wip: Some(ValView::FuncCall(n, args.push(v))), ..st },
                    ),
                    _ => Err(missing_args_failure()),
                }
            }
        },
    }
}

/// What the token at `i` does to the state, or the error it causes.
/// Arguments are parsed here, recursively.
pub open spec fn parse_step(toks: Seq<TokenView>, i: int, st: ParseState) -> Result<
    ParseState,
    Failure,
>
    decreases toks.len(), toks.len() - i, 0nat,
    when 0 <= st.arg_start <= i < toks.len()
{
    let t = toks[i];
    match st.state {
        State::Start => Ok(start_token(toks, i, st)),
        State::PrevIsIdentifier => {
            if is_punct_token(t, '(') {
                let call = ValView::FuncCall(ident_name(st.wip), Seq::empty());
                Ok(
                    ParseState {
                        state: State::ParseArgs,
                        wip: Some(call),
                        paren_depth: 1,
                        arg_start: i + 1,
                        ..st
                    },
                )
            } else if is_punct_token(t, ';') {
                Ok(
                    ParseState {
                        state: State::Start,
                        stmts: with_wip(st.stmts, st.wip),
                        wip: None,
                        terminated: true,
                        ..st
                    },
                )
            } else {
                Err(bad_token_failure(t, ident_name(st.wip)))
            }
        },
        State::PrevIsConst => Err(after_const_failure(t)),
        State::ParseArgs => {
            if is_punct_token(t, '(') {
                Ok(ParseState { paren_depth: st.paren_depth + 1, ..st })
            } else if is_punct_token(t, ')') && st.paren_depth == 1 {
                let closed = ParseState { state: State::Start, paren_depth: 0, ..st };
                if st.arg_start < i {
                    add_arg(closed, parse_seq(toks.subrange(st.arg_start, i)), t)
                } else {
                    Ok(closed)
                }
            } else if is_punct_token(t, ')') {
                Ok(ParseState { paren_depth: st.paren_depth - 1, ..st })
            } else if is_punct_token(t, ',') && st.paren_depth == 1 {
                match add_arg(st, parse_seq(toks.subrange(st.arg_start, i)), t) {
                    Err(e) => Err(e),
                    Ok(st2) => Ok(ParseState { arg_start: i + 1, ..st2 }),
                }
            } else {
                Ok(st)
            }
        },
    }
}

/// Parses `toks` from index `i` on, in state `st`. Each token is checked,
/// after its step, for being a malformed char literal.
pub open spec fn parse_at(toks: Seq<TokenView>, i: int, st: ParseState) -> Result<ValView, Failure>
    decreases toks.len(), toks.len() - i, 1nat,
    when 0 <= st.arg_start <= i <= toks.len()
{
    if i >= toks.len() {
        Ok(finish(st))
    } else {
        let t = toks[i];
        match parse_step(toks, i, st) {
            Err(e) => Err(e),
            Ok(st2) => {
                if t.strtype == StringType::Char && !char_literal_ok(t.content) {
                    Err(char_length_failure(t))
                } else {
                    parse_at(toks, next_index(toks, i, st), st2)
                }
            },
        }
    }
}

/// The tree that a sequence of tokens parses to, or the first error.
pub open spec fn parse_seq(toks: Seq<TokenView>) -> Result<ValView, Failure>
    decreases toks.len(), toks.len() + 1, 0nat,
{
    parse_at(toks, 0, initial_parse_state())
}

// ---------------------------------------------------------------------------
// Well-formed trees

/// A tree as parsing returns it: no placeholder anywhere, and every char
/// constant holds one character or starts with `\u`.
pub open spec fn tree_ok(v: ValView) -> bool
    decreases v, 0nat,
{
    match v {
        ValView::Nop => false,
        ValView::Ident(_) => true,
        ValView::Const(t, k) => k == VarType::Char ==> char_literal_ok(t),
        ValView::FuncCall(_, args) => trees_ok(args),
        ValView::MacroCall(_, args) => trees_ok(args),
        ValView::CodeBlock(stmts) => trees_ok(stmts),
    }
}

pub open spec fn trees_ok(s: Seq<ValView>) -> bool
    decreases s, 0nat,
{
    if s.len() == 0 {
        true
    } else {
        trees_ok(s.drop_last()) && tree_ok(s.last())
    }
}

pub open spec fn state_ok(st: ParseState) -> bool {
    &&& trees_ok(st.stmts)
    &&& st.wip matches Some(w) ==> tree_ok(w)
}

proof fn lemma_trees_push(s: Seq<ValView>, v: ValView)
    ensures
        trees_ok(s.push(v)) == (trees_ok(s) && tree_ok(v)),
{
    assert(s.push(v).drop_last() =~= s);
}

proof fn lemma_trees_index(s: Seq<ValView>, i: int)
    requires
        trees_ok(s),
        0 <= i < s.len(),
    ensures
        tree_ok(s[i]),
    decreases s.len(),
{
    if i < s.len() - 1 {
        lemma_trees_index(s.drop_last(), i);
    }
}

proof fn lemma_step_ok(toks: Seq<TokenView>, i: int, st: ParseState)
    requires
        0 <= st.arg_start <= i < toks.len(),
        state_ok(st),
        toks[i].strtype == StringType::Char ==> char_literal_ok(toks[i].content),
    ensures
        parse_step(toks, i, st) matches Ok(st2) ==> state_ok(st2) && 0 <= st2.arg_start <= i + 1,
    decreases toks.len(), toks.len() - i, 0nat,
{
    let t = toks[i];
    if let Some(w) = st.wip {
        lemma_trees_push(st.stmts, w);
    }
    assert(trees_ok(with_wip(st.stmts, st.wip)));
    match st.state {
        State::Start => {
            let st2 = start_token(toks, i, st);
            assert(st2.stmts == with_wip(st.stmts, st.wip));
            if t.strtype == StringType::Char && !is_punct_token(t, ';') {
                assert(char_literal_ok(t.content));
            }
            assert(state_ok(st2));
        },
        State::ParseArgs => {
            if (is_punct_token(t, ')') && st.paren_depth == 1 && st.arg_start < i) || (is_punct_token(t, ',')
                && st.paren_depth == 1 && !is_punct_token(t, ')')) {
                let sub = toks.subrange(st.arg_start, i);
                lemma_parse_ok(sub);
                if let Ok(v) = parse_seq(sub) {
                    if let Some(ValView::FuncCall(n, args)) = st.wip {
                        lemma_trees_push(args, v);
                    }
                }
            }
        },
        _ => {},
    }
}

proof fn lemma_parse_at_ok(toks: Seq<TokenView>, i: int, st: ParseState)
    requires
        0 <= st.arg_start <= i <= toks.len(),
        state_ok(st),
    ensures
        parse_at(toks, i, st) matches Ok(v) ==> tree_ok(v),
    decreases toks.len(), toks.len() - i, 1nat,
{
    if i >= toks.len() {
        let stmts = with_wip(st.stmts, st.wip);
        if let Some(w) = st.wip {
            lemma_trees_push(st.stmts, w);
        }
        if !st.terminated && stmts.len() == 1 {
            lemma_trees_index(stmts, 0);
        }
    } else {
        let t = toks[i];
        if !(t.strtype == StringType::Char && !char_literal_ok(t.content)) {
            lemma_step_ok(toks, i, st);
            if let Ok(st2) = parse_step(toks, i, st) {
                lemma_parse_at_ok(toks, next_index(toks, i, st), st2);
            }
        }
    }
}

/// A tree that parsing returns holds no placeholder, and each of its char
/// constants is one character long or starts with the escape `\u`.
pub proof fn lemma_parse_ok(toks: Seq<TokenView>)
    ensures
        parse_seq(toks) matches Ok(v) ==> tree_ok(v),
    decreases toks.len(), toks.len() + 1, 0nat,
{
    lemma_parse_at_ok(toks, 0, initial_parse_state());
}

// ---------------------------------------------------------------------------
// Executable token tests and diagnostics

fn punct_is(tok: &Token, c: char) -> (r: bool)
    ensures
        r == is_punct_token(tok@, c),
{
    if tok.strtype != StringType::Not {
        return false;
    }
    let t = tok.content.as_str();
    if t.unicode_len() != 1 {
        return false;
    }
    let r = t.get_char(0) == c;
    assert(r ==> tok.content@ =~= seq![c]);
    r
}

/// Moves the pending value, if any, to the end of the statements.
fn finish_statement(stmts: &mut Vec<Val>, wip: &mut Option<Val>)
    ensures
        vals_view(final(stmts)@) == with_wip(vals_view(old(stmts)@), opt_view(*old(wip))),
        *final(wip) is None,
{
    let mut w: Option<Val> = None;
    std::mem::swap(&mut w, wip);
    match w {
        Some(v) => {
            proof {
                lemma_vals_view_push(stmts@, v);
            }
            stmts.push(v);
        },
        None => {},
    }
}

fn numeral_char(c: char) -> (r: bool)
    ensures
        r == is_numeral_char(c),
{
    c == '0' || c == '1' || c == '2' || c == '3' || c == '4' || c == '5' || c == '6' || c == '7'
        || c == '8' || c == '9' || c == 'e'
}

/// Whether `s` is a numeral: decimal digits and at most one `e`, not empty.
pub fn is_num(s: &String) -> (r: bool)
    ensures
        r == is_numeral(s@),
{
    let t = s.as_str();
    let n = t.unicode_len();
    if n == 0 {
        return false;
    }
    let mut seen_e = false;
    let mut first_e: usize = 0;
    let mut i: usize = 0;
    while i < n
        invariant
            n == s@.len(),
            t@ == s@,
            i <= n,
            forall|k: int| 0 <= k < i ==> is_numeral_char(#[trigger] s@[k]),
            seen_e ==> first_e < i && s@[first_e as int] == 'e',
            forall|k: int| 0 <= k < i && #[trigger] s@[k] == 'e' ==> seen_e && k == first_e,
        decreases n - i,
    {
        let c = t.get_char(i);
        if !numeral_char(c) {
            return false;
        }
        if c == 'e' {
            if seen_e {
                assert(s@[first_e as int] == 'e' && s@[i as int] == 'e');
                return false;
            }
            seen_e = true;
            first_e = i;
        }
        i = i + 1;
    }
    true
}

fn contains_e(s: &String) -> (r: bool)
    ensures
        r == has_exponent(s@),
{
    let t = s.as_str();
    let n = t.unicode_len();
    let mut i: usize = 0;
    while i < n
        invariant
            n == s@.len(),
            t@ == s@,
            i <= n,
            forall|k: int| 0 <= k < i ==> s@[k] != 'e',
        decreases n - i,
    {
        if t.get_char(i) == 'e' {
            return true;
        }
        i = i + 1;
    }
    false
}

fn char_literal_fits(s: &String) -> (r: bool)
    ensures
        r == char_literal_ok(s@),
{
    let t = s.as_str();
    let n = t.unicode_len();
    n == 1 || (n >= 2 && t.get_char(0) == '\\' && t.get_char(1) == 'u')
}

fn position_text(t: &Token) -> (r: String)
    ensures
        r@ == pos_text(t@),
{
    let mut r = String::from_str(" (line ");
    push_decimal(&mut r, t.line);
    r.append(", col ");
    push_decimal(&mut r, t.col);
    r.append(")");
    r
}

fn bad_token_error(t: &Token, wip: &Option<Val>) -> (e: (String, ExitReason))
    ensures
        (e.0@, e.1) == bad_token_failure(t@, ident_name(opt_view(*wip))),
{
    let mut m = String::from_str("Unexpected token ");
    if t.strtype != StringType::Not {
        m.append("string ");
    } else {
        assert(m@ =~= m@ + Seq::<char>::empty());
    }
    m.append("'");
    m.append(t.content.as_str());
    m.append("' after '");
    match wip {
        Some(Val::Ident(n)) => {
            m.append(n.as_str());
        },
        _ => {
            assert(m@ =~= m@ + Seq::<char>::empty());
        },
    }
    m.append(
        "', expected one of ['(', ';', '!', '::', '=', '--', '++', '+=' , '-=', '*=', '/=', '//=', '^=', '=', '%=', '%%=', '<<=', '>>=', '>>>=', '&=', '|=', '&&=', '||='].",
    );
    m.append(position_text(t).as_str());
    (m, ExitReason::CompileBadTokenAfterIdentifier)
}

fn after_const_error(t: &Token) -> (e: (String, ExitReason))
    ensures
        (e.0@, e.1) == after_const_failure(t@),
{
    let mut m = String::from_str("Unexpected token '");
    m.append(t.content.as_str());
    m.append("' after a constant: operators are not implemented.");
    m.append(position_text(t).as_str());
    (m, ExitReason::CompileNotImplemented)
}

fn char_length_error(t: &Token) -> (e: (String, ExitReason))
    ensures
        (e.0@, e.1) == char_length_failure(t@),
{
    let mut m = String::from_str("Char '");
    m.append(t.content.as_str());
    m.append("' should be 1 character long, but is ");
    let n = t.content.as_str().unicode_len();
    push_decimal(&mut m, n as u64);
    m.append(".");
    m.append(position_text(t).as_str());
    (m, ExitReason::CompileCharTooLong)
}

fn arg_not_value_error(t: &Token) -> (e: (String, ExitReason))
    ensures
        (e.0@, e.1) == arg_not_value_failure(t@),
{
    let mut m = String::from_str("Function argument should be a value, not executable code.");
    m.append(position_text(t).as_str());
    (m, ExitReason::CompileFuncArgNotValue)
}

fn missing_args_error() -> (e: (String, ExitReason))
    ensures
        (e.0@, e.1) == missing_args_failure(),
{
    (
        String::from_str("The call under construction has no argument list."),
        ExitReason::CompileWipArgsUnwrapFailed,
    )
}

// ---------------------------------------------------------------------------
// The executable parser

pub open spec fn state_view(
    state: State,
    stmts: Seq<Val>,
    wip: Option<Val>,
    terminated: bool,
    paren_depth: int,
    arg_start: int,
) -> ParseState {
    ParseState {
        state,
        stmts: vals_view(stmts),
        wip: opt_view(wip),
        terminated,
        paren_depth,
        arg_start,
    }
}

/// Parses one argument, `tokens[lo..hi]`, and appends it to the call in
/// `wip`; `t` is the token that ended the argument.
fn push_arg(
    tokens: &[Token],
    lo: usize,
    hi: usize,
    depth: u64,
    wip: &mut Option<Val>,
    t: &Token,
) -> (r: Result<(), (String, ExitReason)>)
    requires
        lo <= hi < tokens@.len(),
    ensures
        ({
            let st = ParseState { wip: opt_view(*old(wip)), ..initial_parse_state() };
            let arg = parse_seq(token_views(tokens@).subrange(lo as int, hi as int));
            match add_arg(st, arg, t@) {
                Ok(st2) => r is Ok && opt_view(*final(wip)) == st2.wip,
                Err(e) => r matches Err(f) && (f.0@, f.1) == e,
            }
        }),
    decreases hi - lo, 2nat,
{
    let v = match parse_range(tokens, lo, hi, depth) {
        Ok(v) => v,
        Err(e) => {
            return Err(e);
        },
    };
    if let Val::CodeBlock(_) = v {
        return Err(arg_not_value_error(t));
    }
    let mut w: Option<Val> = None;
    std::mem::swap(&mut w, wip);
    match w {
        Some(Val::FuncCall(n, mut args)) => {
            proof {
                lemma_vals_view_push(args@, v);
            }
            args.push(v);
            *wip = Some(Val::FuncCall(n, args));
            Ok(())
        },
        _ => Err(missing_args_error()),
    }
}

/// Parses `tokens[lo..hi]`.
fn parse_range(tokens: &[Token], lo: usize, hi: usize, depth: u64) -> (r: Result<
    Val,
    (String, ExitReason),
>)
    requires
        lo <= hi <= tokens@.len(),
    ensures
        outcome_view(r) == parse_seq(token_views(tokens@).subrange(lo as int, hi as int)),
    decreases hi - lo, 1nat,
{
    let ghost all = token_views(tokens@);
    let ghost toks = all.subrange(lo as int, hi as int);
    let mut state = State::Start;
    let mut stmts: Vec<Val> = Vec::new();
    let mut wip: Option<Val> = None;
    let mut terminated = false;
    let mut paren_depth: usize = 0;
    let mut arg_start: usize = lo;
    let mut i: usize = lo;
    assert(vals_view(stmts@) =~= Seq::empty());
    while i < hi
        invariant
            lo <= arg_start <= i <= hi <= tokens@.len(),
            paren_depth <= i - lo,
            state == State::ParseArgs ==> paren_depth >= 1,
            all == token_views(tokens@),
            toks == all.subrange(lo as int, hi as int),
            parse_at(
                toks,
                i - lo,
                state_view(state, stmts@, wip, terminated, paren_depth as int, arg_start - lo),
            ) == parse_seq(toks),
        decreases hi - i,
    {
        let ghost st = state_view(state, stmts@, wip, terminated, paren_depth as int, arg_start - lo);
        let ghost k = i - lo;
        let t = &tokens[i];
        assert(toks[k] == t@);
        assert(parse_at(toks, k, st) == match parse_step(toks, k, st) {
            Err(e) => Err(e),
            Ok(st2) => {
                if t@.strtype == StringType::Char && !char_literal_ok(t@.content) {
                    Err(char_length_failure(t@))
                } else {
                    parse_at(toks, next_index(toks, k, st), st2)
                }
            },
        });
        let mut next = i + 1;
        match state {
            State::Start => {
                finish_statement(&mut stmts, &mut wip);
                if punct_is(t, ';') {
                    terminated = true;
                } else if t.strtype != StringType::Not {
                    let kind = if t.strtype == StringType::Char {
                        VarType::Char
                    } else {
                        VarType::Str
                    };
                    wip = Some(Val::Const(t.content.clone(), kind));
                    state = State::PrevIsConst;
                } else if is_num(&t.content) {
                    let mut text = t.content.clone();
                    if hi - i > 2 && punct_is(&tokens[i + 1], '.') && !contains_e(&t.content)
                        && is_num(&tokens[i + 2].content) {
                        assert(toks[k + 1] == tokens@[i + 1]@);
                        assert(toks[k + 2] == tokens@[i + 2]@);
                        push_char(&mut text, '.');
                        text.append(tokens[i + 2].content.as_str());
                        next = i + 3;
                    }
                    wip = Some(Val::Const(text, VarType::Num));
                    state = State::PrevIsConst;
                } else {
                    wip = Some(Val::Ident(t.content.clone()));
                    state = State::PrevIsIdentifier;
                }
            },
            State::PrevIsIdentifier => {
                if punct_is(t, '(') {
                    let name = match &wip {
                        Some(Val::Ident(n)) => n.clone(),
                        _ => String::new(),
                    };
                    let args: Vec<Val> = Vec::new();
                    assert(vals_view(args@) =~= Seq::empty());
                    wip = Some(Val::FuncCall(name, args));
                    state = State::ParseArgs;
                    paren_depth = 1;
                    arg_start = i + 1;
                } else if punct_is(t, ';') {
                    finish_statement(&mut stmts, &mut wip);
                    terminated = true;
                    state = State::Start;
                } else {
                    return Err(bad_token_error(t, &wip));
                }
            },
            State::PrevIsConst => {
                return Err(after_const_error(t));
            },
            State::ParseArgs => {
                if punct_is(t, '(') {
                    paren_depth = paren_depth + 1;
                } else if punct_is(t, ')') && paren_depth == 1 {
                    state = State::Start;
                    paren_depth = 0;
                    if arg_start < i {
                        assert(all.subrange(arg_start as int, i as int) =~= toks.subrange(
                            arg_start - lo,
                            k,
                        ));
                        match push_arg(tokens, arg_start, i, depth.saturating_add(1), &mut wip, t) {
                            Ok(()) => {},
                            Err(e) => {
                                return Err(e);
                            },
                        }
                    }
                } else if punct_is(t, ')') {
                    paren_depth = paren_depth - 1;
                } else if punct_is(t, ',') && paren_depth == 1 {
                    assert(all.subrange(arg_start as int, i as int) =~= toks.subrange(
                        arg_start - lo,
                        k,
                    ));
                    match push_arg(tokens, arg_start, i, depth.saturating_add(1), &mut wip, t) {
                        Ok(()) => {},
                        Err(e) => {
                            return Err(e);
                        },
                    }
                    arg_start = i + 1;
                }
            },
        }
        if t.strtype == StringType::Char && !char_literal_fits(&t.content) {
            return Err(char_length_error(t));
        }
        i = next;
    }
    match wip {
        Some(v) => {
            proof {
                lemma_vals_view_push(stmts@, v);
            }
            stmts.push(v);
        },
        None => {},
    }
    proof {
        lemma_vals_view(stmts@);
    }
    if !terminated && stmts.len() == 1 {
        let v = stmts.pop().unwrap();
        Ok(v)
    } else {
        Ok(Val::CodeBlock(stmts))
    }
}

/// Parses a sequence of tokens into a tree. `depth` counts how deeply the
/// call is nested in argument lists; a top-level call passes 0.
pub fn parse_tokens(tokens: &[Token], depth: u64) -> (r: Result<Val, (String, ExitReason)>)
    ensures
        outcome_view(r) == parse_seq(token_views(tokens@)),
        r matches Ok(v) ==> tree_ok(v@),
{
    assert(token_views(tokens@).subrange(0, tokens@.len() as int) =~= token_views(tokens@));
    proof {
        lemma_parse_ok(token_views(tokens@));
    }
    parse_range(tokens, 0, tokens.len(), depth)
}

/// Scans and parses one source text.
pub fn compile_source(file: String) -> (r: Result<Val, (String, ExitReason)>)
    ensures
        outcome_view(r) == parse_seq(tokens_of(file@)),
        r matches Ok(v) ==> tree_ok(v@),
{
    let tokens = tokenize(file);
    parse_tokens(tokens.as_slice(), 0)
}

// ---------------------------------------------------------------------------
// Rendering trees as text

pub open spec fn kind_name(k: VarType) -> Seq<char> {
    match k {
        VarType::Str => "Str"@,
        VarType::Char => "Char"@,
        VarType::Num => "Num"@,
    }
}

/// The text form of a tree node.
pub open spec fn render(v: ValView) -> Seq<char>
    decreases v, 0nat,
{
    match v {
        ValView::Nop => "<Nop>"@,
        ValView::Ident(n) => "<Ident \""@ + n + "\">"@,
        ValView::Const(t, k) => "<Const \""@ + t + "\" ("@ + kind_name(k) + ")>"@,
        ValView::FuncCall(n, args) => "<FuncCall "@ + n + "(["@ + render_list(args) + "])>"@,
        ValView::MacroCall(n, args) => "<MacroCall "@ + n + "(["@ + render_list(args) + "])>"@,
        ValView::CodeBlock(stmts) => "<CodeBlock ["@ + render_list(stmts) + "]>"@,
    }
}

/// The text forms of the nodes, separated by `, `.
pub open spec fn render_list(s: Seq<ValView>) -> Seq<char>
    decreases s, 0nat,
{
    if s.len() == 0 {
        Seq::empty()
    } else if s.len() == 1 {
        render(s[0])
    } else {
        render_list(s.drop_last()) + ", "@ + render(s.last())
    }
}

fn push_kind_name(out: &mut String, k: VarType)
    ensures
        final(out)@ == old(out)@ + kind_name(k),
{
    match k {
        VarType::Str => out.append("Str"),
        VarType::Char => out.append("Char"),
        VarType::Num => out.append("Num"),
    }
}

fn render_list_into(vals: &Vec<Val>, out: &mut String)
    ensures
        final(out)@ == old(out)@ + render_list(vals_view(vals@)),
    decreases vals, 0nat,
{
    proof {
        lemma_vals_view(vals@);
    }
    let ghost vs = vals_view(vals@);
    let mut i: usize = 0;
    assert(old(out)@ + render_list(vs.subrange(0, 0)) =~= out@);
    while i < vals.len()
        invariant
            i <= vals.len(),
            vs == vals_view(vals@),
            vs.len() == vals@.len(),
            forall|k: int| 0 <= k < vals@.len() ==> #[trigger] vs[k] == val_view(vals@[k]),
            out@ == old(out)@ + render_list(vs.subrange(0, i as int)),
        decreases vals.len() - i,
    {
        let ghost before = out@;
        if i > 0 {
            out.append(", ");
        }
        render_into(&vals[i], out);
        proof {
            let p = vs.subrange(0, i + 1);
            assert(p.drop_last() =~= vs.subrange(0, i as int));
            assert(p.last() == val_view(vals@[i as int]));
            if i == 0 {
                assert(render_list(p) == render(p[0]));
                assert(out@ =~= old(out)@ + render_list(p));
            } else {
                assert(render_list(p) == render_list(p.drop_last()) + ", "@ + render(p.last()));
                assert(out@ =~= old(out)@ + render_list(p));
            }
        }
        i = i + 1;
    }
    assert(vs.subrange(0, vals.len() as int) =~= vs);
}

fn render_into(v: &Val, out: &mut String)
    ensures
        final(out)@ == old(out)@ + render(val_view(*v)),
    decreases v, 1nat,
{
    match v {
        Val::Nop => out.append("<Nop>"),
        Val::Ident(n) => {
            out.append("<Ident \"");
            out.append(n.as_str());
            out.append("\">");
        },
        Val::Const(t, k) => {
            out.append("<Const \"");
            out.append(t.as_str());
            out.append("\" (");
            push_kind_name(out, *k);
            out.append(")>");
        },
        Val::FuncCall(n, args) => {
            out.append("<FuncCall ");
            out.append(n.as_str());
            out.append("([");
            render_list_into(args, out);
            out.append("])>");
        },
        Val::MacroCall(n, args) => {
            out.append("<MacroCall ");
            out.append(n.as_str());
            out.append("([");
            render_list_into(args, out);
            out.append("])>");
        },
        Val::CodeBlock(stmts) => {
            out.append("<CodeBlock [");
            render_list_into(stmts, out);
            out.append("]>");
        },
    }
    assert(out@ =~= old(out)@ + render(val_view(*v)));
}

impl Val {
    /// The text form of this tree, for diagnostics.
    pub fn to_string(&self) -> (r: String)
        ensures
            r@ == render(self@),
    {
        let mut out = String::new();
        render_into(self, &mut out);
        assert(out@ =~= render(self@));
        out
    }
}

} // verus!
