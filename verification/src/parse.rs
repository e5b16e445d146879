use vstd::prelude::*;
use crate::states::{states_view, names, RegisterType, RegisterTypeView, StateDecl, StateView};
use crate::path::{parse_path, spec_path};

verus! {

/// The delimiter of a token group.
#[derive(Clone, Copy, Debug, PartialEq, Eq, Structural)]
pub enum Delimiter {
    Paren,
    Bracket,
    Brace,
}

/// A token of the generator's input, with groups written out as their
/// opening token, their contents and their closing token.
pub enum Token {
    Ident(String),
    /// A punctuation character; `true` when it is joined to the next one
    /// (as `=` in `=>`).
    Punct(char, bool),
    Open(Delimiter),
    Close(Delimiter),
    /// A string literal, by its text as written (quotes and escapes
    /// included).
    Str(String),
    /// An integer literal, by its text.
    Int(String),
    /// Any other literal, by its text.
    Other(String),
}

pub ghost enum TokenView {
    Ident(Seq<char>),
    Punct(char, bool),
    Open(Delimiter),
    Close(Delimiter),
    Str(Seq<char>),
    Int(Seq<char>),
    Other(Seq<char>),
}

impl Token {
    pub open spec fn view(&self) -> TokenView {
        match self {
            Token::Ident(s) => TokenView::Ident(s@),
            Token::Punct(c, j) => TokenView::Punct(*c, *j),
            Token::Open(d) => TokenView::Open(*d),
            Token::Close(d) => TokenView::Close(*d),
            Token::Str(s) => TokenView::Str(s@),
            Token::Int(s) => TokenView::Int(s@),
            Token::Other(s) => TokenView::Other(s@),
        }
    }
}

pub open spec fn tokens_view(t: Seq<Token>) -> Seq<TokenView> {
    t.map_values(|x: Token| x@)
}

/// Why the generator's input could not be parsed.
#[derive(Clone, Copy, Debug, PartialEq, Eq, Structural)]
pub enum ParseError {
    /// An identifier (not a keyword) was expected.
    ExpectedIdent,
    /// The given punctuation was expected.
    ExpectedPunct(char),
    /// A group with the given delimiter was expected.
    ExpectedGroup(Delimiter),
    /// A string literal was expected.
    ExpectedStr,
    /// An integer literal was expected.
    ExpectedInt,
    /// The given keyword was expected.
    ExpectedKeyword,
    /// A register type other than `ReadOnly`, `WriteOnly`, `ReadWrite`,
    /// `StateChange` and `StateChangeRW`.
    UnknownRegisterType,
    /// Tokens were left over where the input should have ended.
    UnexpectedToken,
    /// A path that `syn` does not accept.
    InvalidPath,
}

/// The value of a string literal written as `s`, as `syn` reads it
/// (`syn::LitStr`'s parser, then its value); `None` when `syn` does not read
/// `s` as a string literal.
pub uninterp spec fn str_literal_value(s: Seq<char>) -> Option<Seq<char>>;

/// Reads the string literal written as `s` with `syn::LitStr`; its value is
/// named `str_literal_value`.
#[verifier::external_body]
fn str_literal(s: &String) -> (r: Option<String>)
    ensures
        match r {
            Some(v) => str_literal_value(s@) == Some(v@),
            None => str_literal_value(s@) is None,
        },
{
    match syn::parse_str::<syn::LitStr>(s.as_str()) {
        Ok(lit) => Some(lit.value()),
        Err(_) => None,
    }
}

/// Whether `syn` accepts `s` as an identifier (`syn::Ident`'s parser).
pub uninterp spec fn syn_accepts_ident(s: Seq<char>) -> bool;

/// Calls `syn`'s identifier parser on `s`; whether it accepts is named
/// `syn_accepts_ident`.
#[verifier::external_body]
fn syn_ident(s: &String) -> (b: bool)
    ensures
        b == syn_accepts_ident(s@),
{
    syn::parse_str::<syn::Ident>(s.as_str()).is_ok()
}

/// The identifier at `p`, when the token there is one that `syn` accepts as
/// an identifier.
pub open spec fn ident_at(t: Seq<TokenView>, p: int) -> Option<Seq<char>> {
    if 0 <= p < t.len() {
        match t[p] {
            TokenView::Ident(s) => if syn_accepts_ident(s) { Some(s) } else { None },
            _ => None,
        }
    } else {
        None
    }
}

/// The identifier `w` (a keyword) at `p`.
pub open spec fn word_at(t: Seq<TokenView>, p: int, w: Seq<char>) -> bool {
    0 <= p < t.len() && t[p] == TokenView::Ident(w)
}

/// The punctuation character `c` at `p`, joint or alone.
pub open spec fn punct_at(t: Seq<TokenView>, p: int, c: char) -> bool {
    0 <= p < t.len() && (t[p] matches TokenView::Punct(d, _) && d == c)
}

/// The punctuation character `c` at `p`, joined to the next one.
pub open spec fn joint_punct_at(t: Seq<TokenView>, p: int, c: char) -> bool {
    0 <= p < t.len() && t[p] == TokenView::Punct(c, true)
}

/// An opening delimiter `d` at `p`.
pub open spec fn open_at(t: Seq<TokenView>, p: int, d: Delimiter) -> bool {
    0 <= p < t.len() && t[p] == TokenView::Open(d)
}

/// A closing delimiter `d` at `p`.
pub open spec fn close_at(t: Seq<TokenView>, p: int, d: Delimiter) -> bool {
    0 <= p < t.len() && t[p] == TokenView::Close(d)
}

/// `=>` at `p`.
pub open spec fn fat_arrow_at(t: Seq<TokenView>, p: int) -> bool {
    joint_punct_at(t, p, '=') && punct_at(t, p + 1, '>')
}

/// `::` at `p`.
pub open spec fn path_sep_at(t: Seq<TokenView>, p: int) -> bool {
    joint_punct_at(t, p, ':') && punct_at(t, p + 1, ':')
}

/// The contents of a parenthesised list of identifiers, from `p` (just after
/// `(`) to just after the closing `)`: identifiers separated by commas, with
/// an optional trailing comma.
pub open spec fn spec_ident_list(t: Seq<TokenView>, p: int) -> Result<(Seq<Seq<char>>, int), ParseError>
    decreases t.len() - p,
{
    if p < 0 || p >= t.len() {
        Err(ParseError::ExpectedGroup(Delimiter::Paren))
    } else if close_at(t, p, Delimiter::Paren) {
        Ok((Seq::empty(), p + 1))
    } else {
        match ident_at(t, p) {
            None => Err(ParseError::ExpectedIdent),
            Some(x) => if close_at(t, p + 1, Delimiter::Paren) {
                Ok((seq![x], p + 2))
            } else if punct_at(t, p + 1, ',') {
                match spec_ident_list(t, p + 2) {
                    Ok((xs, q)) => Ok((seq![x] + xs, q)),
                    Err(e) => Err(e),
                }
            } else {
                Err(ParseError::ExpectedPunct(','))
            },
        }
    }
}

/// A declared state starting at `p`:
/// `Ident ( '(' Ident,* ')' )? ( '=>' '[' State,* ']' ( '{' Ident? '}' )? )?`.
/// The shortname is the one in braces, else the state's name.
pub open spec fn spec_state(t: Seq<TokenView>, p: int) -> Result<(StateView, int), ParseError>
    decreases t.len() - p, 0int,
{
    match ident_at(t, p) {
        None => Err(ParseError::ExpectedIdent),
        Some(ident) => {
            let q = p + 1;
            let subs: Result<(Seq<Seq<char>>, int), ParseError> = if open_at(t, q, Delimiter::Paren) {
                spec_ident_list(t, q + 1)
            } else {
                Ok((Seq::empty(), q))
            };
            match subs {
                Err(e) => Err(e),
                Ok((substates, q2)) => if q2 <= p || !fat_arrow_at(t, q2) {
                    Ok((StateView { ident, shortname: ident, substates, transitions: Seq::empty() }, q2))
                } else if !open_at(t, q2 + 2, Delimiter::Bracket) {
                    Err(ParseError::ExpectedGroup(Delimiter::Bracket))
                } else {
                    match spec_state_list(t, q2 + 3) {
                        Err(e) => Err(e),
                        Ok((transitions, q3)) => if !open_at(t, q3, Delimiter::Brace) {
                            Ok((StateView { ident, shortname: ident, substates, transitions }, q3))
                        } else if close_at(t, q3 + 1, Delimiter::Brace) {
                            Ok((StateView { ident, shortname: ident, substates, transitions }, q3 + 2))
                        } else {
                            match ident_at(t, q3 + 1) {
                                Some(shortname) => if close_at(t, q3 + 2, Delimiter::Brace) {
                                    Ok((StateView { ident, shortname, substates, transitions }, q3 + 3))
                                } else {
                                    Err(ParseError::UnexpectedToken)
                                },
                                None => Err(ParseError::UnexpectedToken),
                            }
                        },
                    }
                },
            }
        },
    }
}

/// The contents of a bracketed list of states, from `p` (just after `[`) to
/// just after the closing `]`: states separated by commas, with an optional
/// trailing comma.
pub open spec fn spec_state_list(t: Seq<TokenView>, p: int) -> Result<(Seq<StateView>, int), ParseError>
    decreases t.len() - p, 1int,
{
    if p < 0 || p >= t.len() {
        Err(ParseError::ExpectedGroup(Delimiter::Bracket))
    } else if close_at(t, p, Delimiter::Bracket) {
        Ok((Seq::empty(), p + 1))
    } else {
        match spec_state(t, p) {
            Err(e) => Err(e),
            Ok((s, q)) => if q <= p {
                Err(ParseError::ExpectedIdent)
            } else if close_at(t, q, Delimiter::Bracket) {
                Ok((seq![s], q + 1))
            } else if punct_at(t, q, ',') {
                match spec_state_list(t, q + 1) {
                    Ok((ss, r)) => Ok((seq![s] + ss, r)),
                    Err(e) => Err(e),
                }
            } else {
                Err(ParseError::ExpectedPunct(','))
            },
        }
    }
}

/// Whether the identifier may stand as a path segment: an identifier, or one
/// of the keywords `super`, `self`, `Self`, `crate`, `try`.
pub open spec fn segment_word(s: Seq<char>) -> bool {
    syn_accepts_ident(s) || s == seq!['s', 'u', 'p', 'e', 'r'] || s == seq!['s', 'e', 'l', 'f']
        || s == seq!['S', 'e', 'l', 'f'] || s == seq!['c', 'r', 'a', 't', 'e'] || s == seq!['t', 'r', 'y']
}

/// The path segment at `p`, when the token there may stand as one.
pub open spec fn segment_at(t: Seq<TokenView>, p: int) -> Option<Seq<char>> {
    if 0 <= p < t.len() {
        match t[p] {
            TokenView::Ident(s) => if segment_word(s) { Some(s) } else { None },
            _ => None,
        }
    } else {
        None
    }
}

/// A register type at `p`: `ReadOnly`, `WriteOnly`, `ReadWrite`,
/// `StateChangeRW`, or `StateChange(State, Path)` when the state has no
/// substates and `StateChange(State, Path, Ident)` when it has.
pub open spec fn spec_register_type(t: Seq<TokenView>, p: int) -> Result<(RegisterTypeView, int), ParseError> {
    let names_ = register_type_names();
    match ident_at(t, p) {
        None => Err(ParseError::ExpectedIdent),
        Some(name) => if name == names_.read_only {
            Ok((RegisterTypeView::ReadOnly, p + 1))
        } else if name == names_.write_only {
            Ok((RegisterTypeView::WriteOnly, p + 1))
        } else if name == names_.read_write {
            Ok((RegisterTypeView::ReadWrite, p + 1))
        } else if name == names_.state_change_rw {
            Ok((RegisterTypeView::StateChangeRW, p + 1))
        } else if name != names_.state_change {
            Err(ParseError::UnknownRegisterType)
        } else if !open_at(t, p + 1, Delimiter::Paren) {
            Err(ParseError::ExpectedGroup(Delimiter::Paren))
        } else {
            match spec_state(t, p + 2) {
                Err(e) => Err(e),
                Ok((state, q)) => if !punct_at(t, q, ',') {
                    Err(ParseError::ExpectedPunct(','))
                } else {
                    match spec_path(t, q + 1) {
                        Err(e) => Err(e),
                        Ok((path, q2)) => if state.substates.len() == 0 {
                            if close_at(t, q2, Delimiter::Paren) {
                                Ok((RegisterTypeView::StateChange(state, path, state.ident), q2 + 1))
                            } else {
                                Err(ParseError::UnexpectedToken)
                            }
                        } else if !punct_at(t, q2, ',') {
                            Err(ParseError::ExpectedPunct(','))
                        } else {
                            match ident_at(t, q2 + 1) {
                                None => Err(ParseError::ExpectedIdent),
                                Some(short) => if close_at(t, q2 + 2, Delimiter::Paren) {
                                    Ok((RegisterTypeView::StateChange(state, path, short), q2 + 3))
                                } else {
                                    Err(ParseError::UnexpectedToken)
                                },
                            }
                        },
                    }
                },
            }
        },
    }
}

/// The names of the register types.
pub ghost struct RegisterTypeNames {
    pub read_only: Seq<char>,
    pub write_only: Seq<char>,
    pub read_write: Seq<char>,
    pub state_change: Seq<char>,
    pub state_change_rw: Seq<char>,
}

pub open spec fn register_type_names() -> RegisterTypeNames {
    RegisterTypeNames {
        read_only: seq!['R', 'e', 'a', 'd', 'O', 'n', 'l', 'y'],
        write_only: seq!['W', 'r', 'i', 't', 'e', 'O', 'n', 'l', 'y'],
        read_write: seq!['R', 'e', 'a', 'd', 'W', 'r', 'i', 't', 'e'],
        state_change: seq!['S', 't', 'a', 't', 'e', 'C', 'h', 'a', 'n', 'g', 'e'],
        state_change_rw: seq!['S', 't', 'a', 't', 'e', 'C', 'h', 'a', 'n', 'g', 'e', 'R', 'W'],
    }
}

fn ident_at_exec(t: &Vec<Token>, p: usize) -> (r: Option<String>)
    ensures
        r is Some ==> p < t.len(),
        match r {
            Some(s) => ident_at(tokens_view(t@), p as int) == Some(s@),
            None => ident_at(tokens_view(t@), p as int) == None::<Seq<char>>,
        },
{
    if p < t.len() {
        assert(tokens_view(t@)[p as int] == t@[p as int]@);
        match &t[p] {
            Token::Ident(s) => if syn_ident(s) {
                Some(s.clone())
            } else {
                None
            },
            _ => None,
        }
    } else {
        None
    }
}

fn word_at_exec(t: &Vec<Token>, p: usize, w: &str) -> (b: bool)
    ensures
        b ==> p < t.len(),
        b == word_at(tokens_view(t@), p as int, w@),
{
    if p < t.len() {
        assert(tokens_view(t@)[p as int] == t@[p as int]@);
        match &t[p] {
            Token::Ident(s) => {
                let ws = String::from_str(w);
                *s == ws
            },
            _ => false,
        }
    } else {
        false
    }
}

pub(crate) fn punct_at_exec(t: &Vec<Token>, p: usize, c: char) -> (b: bool)
    ensures
        b ==> p < t.len(),
        b == punct_at(tokens_view(t@), p as int, c),
{
    if p < t.len() {
        assert(tokens_view(t@)[p as int] == t@[p as int]@);
        match &t[p] {
            Token::Punct(d, _) => *d == c,
            _ => false,
        }
    } else {
        false
    }
}

pub(crate) fn joint_punct_at_exec(t: &Vec<Token>, p: usize, c: char) -> (b: bool)
    ensures
        b ==> p < t.len(),
        b == joint_punct_at(tokens_view(t@), p as int, c),
{
    if p < t.len() {
        assert(tokens_view(t@)[p as int] == t@[p as int]@);
        match &t[p] {
            Token::Punct(d, j) => *d == c && *j,
            _ => false,
        }
    } else {
        false
    }
}

pub(crate) fn open_at_exec(t: &Vec<Token>, p: usize, d: Delimiter) -> (b: bool)
    ensures
        b ==> p < t.len(),
        b == open_at(tokens_view(t@), p as int, d),
{
    if p < t.len() {
        assert(tokens_view(t@)[p as int] == t@[p as int]@);
        match &t[p] {
            Token::Open(e) => *e == d,
            _ => false,
        }
    } else {
        false
    }
}

fn close_at_exec(t: &Vec<Token>, p: usize, d: Delimiter) -> (b: bool)
    ensures
        b ==> p < t.len(),
        b == close_at(tokens_view(t@), p as int, d),
{
    if p < t.len() {
        assert(tokens_view(t@)[p as int] == t@[p as int]@);
        match &t[p] {
            Token::Close(e) => *e == d,
            _ => false,
        }
    } else {
        false
    }
}

/// Parses a parenthesised list of identifiers from just after its `(`.
pub fn parse_ident_list(t: &Vec<Token>, p: usize) -> (r: Result<(Vec<String>, usize), ParseError>)
    ensures
        match r {
            Ok((v, q)) => spec_ident_list(tokens_view(t@), p as int) == Ok::<(Seq<Seq<char>>, int), ParseError>((names(v@), q as int)),
            Err(e) => spec_ident_list(tokens_view(t@), p as int) == Err::<(Seq<Seq<char>>, int), ParseError>(e),
        },
    decreases t.len() - p,
{
    if p >= t.len() {
        Err(ParseError::ExpectedGroup(Delimiter::Paren))
    } else if close_at_exec(t, p, Delimiter::Paren) {
        assert(names(Seq::<String>::empty()) =~= Seq::<Seq<char>>::empty());
        Ok((Vec::new(), p + 1))
    } else {
        match ident_at_exec(t, p) {
            None => Err(ParseError::ExpectedIdent),
            Some(x) => if close_at_exec(t, p + 1, Delimiter::Paren) {
                let mut v: Vec<String> = Vec::new();
                v.push(x);
                assert(names(v@) =~= seq![x@]);
                Ok((v, p + 2))
            } else if punct_at_exec(t, p + 1, ',') {
                match parse_ident_list(t, p + 2) {
                    Ok((xs, q)) => {
                        let mut v: Vec<String> = Vec::new();
                        v.push(x);
                        let ghost xs_view = xs@;
                        let mut xs = xs;
                        v.append(&mut xs);
                        assert(names(v@) =~= seq![x@] + names(xs_view));
                        Ok((v, q))
                    },
                    Err(e) => Err(e),
                }
            } else {
                Err(ParseError::ExpectedPunct(','))
            },
        }
    }
}

/// A state with the given parts.
fn make_state(ident: String, shortname: String, substates: Vec<String>, transitions: Vec<StateDecl>) -> (s: StateDecl)
    ensures
        s@ == (StateView {
            ident: ident@,
            shortname: shortname@,
            substates: names(substates@),
            transitions: states_view(transitions@),
        }),
{
    let s = StateDecl { ident, shortname, substates, transitions };
    assert(s@.transitions =~= states_view(s.transitions@));
    s
}

/// Parses a declared state starting at `p`.
pub fn parse_state(t: &Vec<Token>, p: usize) -> (r: Result<(StateDecl, usize), ParseError>)
    ensures
        match r {
            Ok((s, q)) => spec_state(tokens_view(t@), p as int) == Ok::<(StateView, int), ParseError>((s@, q as int)),
            Err(e) => spec_state(tokens_view(t@), p as int) == Err::<(StateView, int), ParseError>(e),
        },
    decreases t.len() - p, 0int,
{
    let ghost tv = tokens_view(t@);
    let ident = match ident_at_exec(t, p) {
        None => return Err(ParseError::ExpectedIdent),
        Some(x) => x,
    };
    let q = p + 1;
    let (substates, q2) = if open_at_exec(t, q, Delimiter::Paren) {
        match parse_ident_list(t, q + 1) {
            Err(e) => return Err(e),
            Ok(r) => r,
        }
    } else {
        assert(names(Seq::<String>::empty()) =~= Seq::<Seq<char>>::empty());
        (Vec::new(), q)
    };
    let no_arrow = q2 <= p || !(joint_punct_at_exec(t, q2, '=') && q2 < usize::MAX && punct_at_exec(t, q2 + 1, '>'));
    if no_arrow {
        let shortname = ident.clone();
        let s = make_state(ident, shortname, substates, Vec::new());
        assert(states_view(Seq::<StateDecl>::empty()) =~= Seq::<StateView>::empty());
        return Ok((s, q2));
    }
    if !open_at_exec(t, q2 + 2, Delimiter::Bracket) {
        return Err(ParseError::ExpectedGroup(Delimiter::Bracket));
    }
    let (transitions, q3) = match parse_state_list(t, q2 + 3) {
        Err(e) => return Err(e),
        Ok(r) => r,
    };
    if !open_at_exec(t, q3, Delimiter::Brace) {
        let shortname = ident.clone();
        return Ok((make_state(ident, shortname, substates, transitions), q3));
    }
    if close_at_exec(t, q3 + 1, Delimiter::Brace) {
        let shortname = ident.clone();
        return Ok((make_state(ident, shortname, substates, transitions), q3 + 2));
    }
    match ident_at_exec(t, q3 + 1) {
        Some(shortname) => if close_at_exec(t, q3 + 2, Delimiter::Brace) {
            Ok((make_state(ident, shortname, substates, transitions), q3 + 3))
        } else {
            Err(ParseError::UnexpectedToken)
        },
        None => Err(ParseError::UnexpectedToken),
    }
}

/// Parses a bracketed list of states from just after its `[`.
pub fn parse_state_list(t: &Vec<Token>, p: usize) -> (r: Result<(Vec<StateDecl>, usize), ParseError>)
    ensures
        match r {
            Ok((v, q)) => spec_state_list(tokens_view(t@), p as int) == Ok::<(Seq<StateView>, int), ParseError>((states_view(v@), q as int)),
            Err(e) => spec_state_list(tokens_view(t@), p as int) == Err::<(Seq<StateView>, int), ParseError>(e),
        },
    decreases t.len() - p, 1int,
{
    if p >= t.len() {
        return Err(ParseError::ExpectedGroup(Delimiter::Bracket));
    }
    if close_at_exec(t, p, Delimiter::Bracket) {
        assert(states_view(Seq::<StateDecl>::empty()) =~= Seq::<StateView>::empty());
        return Ok((Vec::new(), p + 1));
    }
    let (s, q) = match parse_state(t, p) {
        Err(e) => return Err(e),
        Ok(r) => r,
    };
    if q <= p {
        return Err(ParseError::ExpectedIdent);
    }
    if close_at_exec(t, q, Delimiter::Bracket) {
        let mut v: Vec<StateDecl> = Vec::new();
        v.push(s);
        assert(states_view(v@) =~= seq![v@[0]@]);
        return Ok((v, q + 1));
    }
    if punct_at_exec(t, q, ',') {
        match parse_state_list(t, q + 1) {
            Ok((ss, r)) => {
                let ghost sv = s@;
                let ghost ss_view = ss@;
                let mut v: Vec<StateDecl> = Vec::new();
                v.push(s);
                let mut ss = ss;
                v.append(&mut ss);
                assert(states_view(v@) =~= seq![sv] + states_view(ss_view));
                Ok((v, r))
            },
            Err(e) => Err(e),
        }
    } else {
        Err(ParseError::ExpectedPunct(','))
    }
}

pub(crate) fn segment_at_exec(t: &Vec<Token>, p: usize) -> (r: Option<String>)
    ensures
        r is Some ==> p < t.len(),
        match r {
            Some(s) => segment_at(tokens_view(t@), p as int) == Some(s@),
            None => segment_at(tokens_view(t@), p as int) == None::<Seq<char>>,
        },
{
    if p < t.len() {
        assert(tokens_view(t@)[p as int] == t@[p as int]@);
        match &t[p] {
            Token::Ident(s) => {
                proof {
                    reveal_strlit("super");
                    reveal_strlit("self");
                    reveal_strlit("Self");
                    reveal_strlit("crate");
                    reveal_strlit("try");
                }
                let w_super = String::from_str("super");
                let w_self = String::from_str("self");
                let w_self_type = String::from_str("Self");
                let w_crate = String::from_str("crate");
                let w_try = String::from_str("try");
                assert(w_super@ =~= seq!['s', 'u', 'p', 'e', 'r']);
                assert(w_self@ =~= seq!['s', 'e', 'l', 'f']);
                assert(w_self_type@ =~= seq!['S', 'e', 'l', 'f']);
                assert(w_crate@ =~= seq!['c', 'r', 'a', 't', 'e']);
                assert(w_try@ =~= seq!['t', 'r', 'y']);
                let ok = syn_ident(s) || *s == w_super || *s == w_self || *s == w_self_type || *s == w_crate
                    || *s == w_try;
                assert(ok == segment_word(s@));
                if ok {
                    Some(s.clone())
                } else {
                    None
                }
            },
            _ => None,
        }
    } else {
        None
    }
}

/// Parses a register type at `p`.
pub fn parse_register_type(t: &Vec<Token>, p: usize) -> (r: Result<(RegisterType, usize), ParseError>)
    ensures
        match r {
            Ok((v, q)) => spec_register_type(tokens_view(t@), p as int) == Ok::<(RegisterTypeView, int), ParseError>((v@, q as int)),
            Err(e) => spec_register_type(tokens_view(t@), p as int) == Err::<(RegisterTypeView, int), ParseError>(e),
        },
{
    let name = match ident_at_exec(t, p) {
        None => return Err(ParseError::ExpectedIdent),
        Some(x) => x,
    };
    proof {
        reveal_strlit("ReadOnly");
        reveal_strlit("WriteOnly");
        reveal_strlit("ReadWrite");
        reveal_strlit("StateChange");
        reveal_strlit("StateChangeRW");
    }
    let read_only = String::from_str("ReadOnly");
    let write_only = String::from_str("WriteOnly");
    let read_write = String::from_str("ReadWrite");
    let state_change = String::from_str("StateChange");
    let state_change_rw = String::from_str("StateChangeRW");
    assert(read_only@ =~= register_type_names().read_only);
    assert(write_only@ =~= register_type_names().write_only);
    assert(read_write@ =~= register_type_names().read_write);
    assert(state_change@ =~= register_type_names().state_change);
    assert(state_change_rw@ =~= register_type_names().state_change_rw);
    if name == read_only {
        return Ok((RegisterType::ReadOnly, p + 1));
    } else if name == write_only {
        return Ok((RegisterType::WriteOnly, p + 1));
    } else if name == read_write {
        return Ok((RegisterType::ReadWrite, p + 1));
    } else if name == state_change_rw {
        return Ok((RegisterType::StateChangeRW, p + 1));
    } else if name != state_change {
        return Err(ParseError::UnknownRegisterType);
    }
    if !open_at_exec(t, p + 1, Delimiter::Paren) {
        return Err(ParseError::ExpectedGroup(Delimiter::Paren));
    }
    let (state, q) = match parse_state(t, p + 2) {
        Err(e) => return Err(e),
        Ok(r) => r,
    };
    if !punct_at_exec(t, q, ',') {
        return Err(ParseError::ExpectedPunct(','));
    }
    let (path, q2) = match parse_path(t, q + 1) {
        Err(e) => return Err(e),
        Ok(r) => r,
    };
    if state.substates.len() == 0 {
        if close_at_exec(t, q2, Delimiter::Paren) {
            let short = state.ident.clone();
            return Ok((RegisterType::StateChange(state, path, short), q2 + 1));
        } else {
            return Err(ParseError::UnexpectedToken);
        }
    }
    if !punct_at_exec(t, q2, ',') {
        return Err(ParseError::ExpectedPunct(','));
    }
    match ident_at_exec(t, q2 + 1) {
        None => Err(ParseError::ExpectedIdent),
        Some(short) => if close_at_exec(t, q2 + 2, Delimiter::Paren) {
            Ok((RegisterType::StateChange(state, path, short), q2 + 3))
        } else {
            Err(ParseError::UnexpectedToken)
        },
    }
}

/// The attributes of a register: the states it may be used in and its type.
pub struct RegisterAttributes {
    pub states: Vec<StateDecl>,
    pub register_type: RegisterType,
}

/// The generator's arguments: the peripheral's name, the base address of its
/// register block (as written), and its states.
pub struct MacroInput {
    pub peripheral_name: String,
    pub states: Vec<StateDecl>,
    pub base_addr: String,
}

pub ghost struct MacroInputView {
    pub peripheral_name: Seq<char>,
    pub states: Seq<StateView>,
    pub base_addr: Seq<char>,
}

impl MacroInput {
    pub open spec fn view(&self) -> MacroInputView {
        MacroInputView {
            peripheral_name: self.peripheral_name@,
            states: states_view(self.states@),
            base_addr: self.base_addr@,
        }
    }
}

/// A register's attributes: `[State,*] , RegisterType`, and nothing after.
pub open spec fn spec_register_attributes(t: Seq<TokenView>) -> Result<(Seq<StateView>, RegisterTypeView), ParseError> {
    if !open_at(t, 0, Delimiter::Bracket) {
        Err(ParseError::ExpectedGroup(Delimiter::Bracket))
    } else {
        match spec_state_list(t, 1) {
            Err(e) => Err(e),
            Ok((states, q)) => if !punct_at(t, q, ',') {
                Err(ParseError::ExpectedPunct(','))
            } else {
                match spec_register_type(t, q + 1) {
                    Err(e) => Err(e),
                    Ok((rt, q2)) => if q2 != t.len() {
                        Err(ParseError::UnexpectedToken)
                    } else {
                        Ok((states, rt))
                    },
                }
            },
        }
    }
}

/// Parses a register's attributes.
pub fn parse_register_attributes(t: &Vec<Token>) -> (r: Result<RegisterAttributes, ParseError>)
    ensures
        match r {
            Ok(a) => spec_register_attributes(tokens_view(t@)) == Ok::<(Seq<StateView>, RegisterTypeView), ParseError>((states_view(a.states@), a.register_type@)),
            Err(e) => spec_register_attributes(tokens_view(t@)) == Err::<(Seq<StateView>, RegisterTypeView), ParseError>(e),
        },
{
    if !open_at_exec(t, 0, Delimiter::Bracket) {
        return Err(ParseError::ExpectedGroup(Delimiter::Bracket));
    }
    let (states, q) = match parse_state_list(t, 1) {
        Err(e) => return Err(e),
        Ok(r) => r,
    };
    if !punct_at_exec(t, q, ',') {
        return Err(ParseError::ExpectedPunct(','));
    }
    let (register_type, q2) = match parse_register_type(t, q + 1) {
        Err(e) => return Err(e),
        Ok(r) => r,
    };
    if q2 != t.len() {
        return Err(ParseError::UnexpectedToken);
    }
    Ok(RegisterAttributes { states, register_type })
}

/// The value of the string literal at `p`, when `syn` reads it as one.
pub open spec fn str_at(t: Seq<TokenView>, p: int) -> Option<Seq<char>> {
    if 0 <= p < t.len() {
        match t[p] {
            TokenView::Str(s) => str_literal_value(s),
            _ => None,
        }
    } else {
        None
    }
}

/// The integer literal at `p`.
pub open spec fn int_at(t: Seq<TokenView>, p: int) -> Option<Seq<char>> {
    if 0 <= p < t.len() {
        match t[p] {
            TokenView::Int(s) => Some(s),
            _ => None,
        }
    } else {
        None
    }
}

/// `peripheral_name`.
pub open spec fn peripheral_name_word() -> Seq<char> {
    seq!['p', 'e', 'r', 'i', 'p', 'h', 'e', 'r', 'a', 'l', '_', 'n', 'a', 'm', 'e']
}

/// `register_base_addr`.
pub open spec fn register_base_addr_word() -> Seq<char> {
    seq!['r', 'e', 'g', 'i', 's', 't', 'e', 'r', '_', 'b', 'a', 's', 'e', '_', 'a', 'd', 'd', 'r']
}

/// `states`.
pub open spec fn states_word() -> Seq<char> {
    seq!['s', 't', 'a', 't', 'e', 's']
}

/// The generator's arguments:
/// `peripheral_name = "Name", register_base_addr = 0x.., states = [State,*]`,
/// and nothing after.
pub open spec fn spec_macro_input(t: Seq<TokenView>) -> Result<MacroInputView, ParseError> {
    if !word_at(t, 0, peripheral_name_word()) {
        Err(ParseError::ExpectedKeyword)
    } else if !punct_at(t, 1, '=') {
        Err(ParseError::ExpectedPunct('='))
    } else if str_at(t, 2) is None {
        Err(ParseError::ExpectedStr)
    } else if !punct_at(t, 3, ',') {
        Err(ParseError::ExpectedPunct(','))
    } else if !word_at(t, 4, register_base_addr_word()) {
        Err(ParseError::ExpectedKeyword)
    } else if !punct_at(t, 5, '=') {
        Err(ParseError::ExpectedPunct('='))
    } else {
        match int_lit_at(t, 6) {
            None => Err(ParseError::ExpectedInt),
            Some((base_addr, q)) => if !punct_at(t, q, ',') {
                Err(ParseError::ExpectedPunct(','))
            } else if !word_at(t, q + 1, states_word()) {
                Err(ParseError::ExpectedKeyword)
            } else if !punct_at(t, q + 2, '=') {
                Err(ParseError::ExpectedPunct('='))
            } else if !open_at(t, q + 3, Delimiter::Bracket) {
                Err(ParseError::ExpectedGroup(Delimiter::Bracket))
            } else {
                match spec_state_list(t, q + 4) {
                    Err(e) => Err(e),
                    Ok((states, r)) => if r != t.len() {
                        Err(ParseError::UnexpectedToken)
                    } else {
                        Ok(MacroInputView {
                            peripheral_name: str_at(t, 2)->Some_0,
                            states,
                            base_addr,
                        })
                    },
                }
            },
        }
    }
}

/// The integer literal at `p` as `syn` reads one, with a `-` before it
/// when there is one, and the position after it.
pub open spec fn int_lit_at(t: Seq<TokenView>, p: int) -> Option<(Seq<char>, int)> {
    match int_at(t, p) {
        Some(s) => Some((s, p + 1)),
        None => if punct_at(t, p, '-') && int_at(t, p + 1) is Some {
            Some((seq!['-'] + int_at(t, p + 1)->Some_0, p + 2))
        } else {
            None
        },
    }
}

fn str_at_exec(t: &Vec<Token>, p: usize) -> (r: Option<String>)
    ensures
        match r {
            Some(s) => str_at(tokens_view(t@), p as int) == Some(s@),
            None => str_at(tokens_view(t@), p as int) == None::<Seq<char>>,
        },
{
    if p < t.len() {
        assert(tokens_view(t@)[p as int] == t@[p as int]@);
        match &t[p] {
            Token::Str(s) => str_literal(s),
            _ => None,
        }
    } else {
        None
    }
}

fn int_at_exec(t: &Vec<Token>, p: usize) -> (r: Option<String>)
    ensures
        match r {
            Some(s) => int_at(tokens_view(t@), p as int) == Some(s@),
            None => int_at(tokens_view(t@), p as int) == None::<Seq<char>>,
        },
{
    if p < t.len() {
        assert(tokens_view(t@)[p as int] == t@[p as int]@);
        match &t[p] {
            Token::Int(s) => Some(s.clone()),
            _ => None,
        }
    } else {
        None
    }
}

fn int_lit_at_exec(t: &Vec<Token>, p: usize) -> (r: Option<(String, usize)>)
    requires
        p + 2 <= usize::MAX,
    ensures
        match r {
            Some((s, q)) => int_lit_at(tokens_view(t@), p as int) == Some((s@, q as int)),
            None => int_lit_at(tokens_view(t@), p as int) is None,
        },
{
    match int_at_exec(t, p) {
        Some(s) => Some((s, p + 1)),
        None => if punct_at_exec(t, p, '-') {
            match int_at_exec(t, p + 1) {
                Some(digits) => {
                    let s = crate::text::concat("-", &digits);
                    proof {
                        reveal_strlit("-");
                    }
                    assert(s@ =~= seq!['-'] + digits@);
                    Some((s, p + 2))
                },
                None => None,
            }
        } else {
            None
        },
    }
}

/// Parses the generator's arguments, or finds what is wrong with them.
pub(crate) fn macro_input(t: &Vec<Token>) -> (r: Result<MacroInput, ParseError>)
    ensures
        match r {
            Ok(m) => spec_macro_input(tokens_view(t@)) == Ok::<MacroInputView, ParseError>(m@),
            Err(e) => spec_macro_input(tokens_view(t@)) == Err::<MacroInputView, ParseError>(e),
        },
{
    proof {
        reveal_strlit("peripheral_name");
        reveal_strlit("register_base_addr");
        reveal_strlit("states");
    }
    assert("peripheral_name"@ =~= peripheral_name_word());
    assert("register_base_addr"@ =~= register_base_addr_word());
    assert("states"@ =~= states_word());
    if !word_at_exec(t, 0, "peripheral_name") {
        return Err(ParseError::ExpectedKeyword);
    }
    if !punct_at_exec(t, 1, '=') {
        return Err(ParseError::ExpectedPunct('='));
    }
    let peripheral_name = match str_at_exec(t, 2) {
        None => return Err(ParseError::ExpectedStr),
        Some(s) => s,
    };
    if !punct_at_exec(t, 3, ',') {
        return Err(ParseError::ExpectedPunct(','));
    }
    if !word_at_exec(t, 4, "register_base_addr") {
        return Err(ParseError::ExpectedKeyword);
    }
    if !punct_at_exec(t, 5, '=') {
        return Err(ParseError::ExpectedPunct('='));
    }
    let (base_addr, q) = match int_lit_at_exec(t, 6) {
        None => return Err(ParseError::ExpectedInt),
        Some(r) => r,
    };
    if !punct_at_exec(t, q, ',') {
        return Err(ParseError::ExpectedPunct(','));
    }
    if !word_at_exec(t, q + 1, "states") {
        return Err(ParseError::ExpectedKeyword);
    }
    if !punct_at_exec(t, q + 2, '=') {
        return Err(ParseError::ExpectedPunct('='));
    }
    if !open_at_exec(t, q + 3, Delimiter::Bracket) {
        return Err(ParseError::ExpectedGroup(Delimiter::Bracket));
    }
    let (states, r) = match parse_state_list(t, q + 4) {
        Err(e) => return Err(e),
        Ok(r) => r,
    };
    if r != t.len() {
        return Err(ParseError::UnexpectedToken);
    }
    Ok(MacroInput { peripheral_name, states, base_addr })
}

/// Parses the generator's arguments. Arguments that do not parse are not to
/// be given.
pub fn parse_macro_input(t: &Vec<Token>) -> (m: MacroInput)
    requires
        spec_macro_input(tokens_view(t@)) is Ok,
    ensures
        spec_macro_input(tokens_view(t@)) == Ok::<MacroInputView, ParseError>(m@),
{
    match macro_input(t) {
        Ok(m) => m,
        Err(_) => vstd::pervasive::unreached(),
    }
}

/// Parses the generator's arguments, or answers with what is wrong with them.
pub fn try_parse_macro_input(t: &Vec<Token>) -> (r: Result<MacroInput, ParseError>)
    ensures
        match r {
            Ok(m) => spec_macro_input(tokens_view(t@)) == Ok::<MacroInputView, ParseError>(m@),
            Err(e) => spec_macro_input(tokens_view(t@)) == Err::<MacroInputView, ParseError>(e),
        },
{
    match macro_input(t) {
        Err(e) => Err(e),
        Ok(_) => Ok(parse_macro_input(t)),
    }
}

} // verus!
