use vstd::prelude::*;
use crate::parse::{
    joint_punct_at, joint_punct_at_exec, open_at, open_at_exec, path_sep_at, punct_at, punct_at_exec, segment_at,
    segment_at_exec, tokens_view, Delimiter, ParseError, Token, TokenView,
};
use crate::states::names;

verus! {

/// The character that opens a group with delimiter `d`.
pub open spec fn open_char(d: Delimiter) -> char {
    match d {
        Delimiter::Paren => '(',
        Delimiter::Bracket => '[',
        Delimiter::Brace => '{',
    }
}

/// The character that closes a group with delimiter `d`.
pub open spec fn close_char(d: Delimiter) -> char {
    match d {
        Delimiter::Paren => ')',
        Delimiter::Bracket => ']',
        Delimiter::Brace => '}',
    }
}

/// The text a token is written as, followed by a space unless it is a
/// punctuation character joined to the next one or a delimiter.
pub open spec fn token_text(k: TokenView) -> Seq<char> {
    match k {
        TokenView::Ident(s) => s.push(' '),
        TokenView::Punct(c, joint) => if joint { seq![c] } else { seq![c, ' '] },
        TokenView::Open(d) => seq![open_char(d)],
        TokenView::Close(d) => seq![close_char(d), ' '],
        TokenView::Str(s) => s.push(' '),
        TokenView::Int(s) => s.push(' '),
        TokenView::Other(s) => s.push(' '),
    }
}

/// The text of a sequence of tokens, one after the other.
pub open spec fn tokens_text(t: Seq<TokenView>) -> Seq<char>
    decreases t.len(),
{
    if t.len() == 0 {
        Seq::empty()
    } else {
        tokens_text(t.drop_last()) + token_text(t.last())
    }
}

/// Inside angle brackets from `p` on, with `angles` of them open and
/// `groups` delimiter groups open within them: the position just after the
/// `>` that closes the first angle bracket. Angle brackets inside a group do
/// not count, nor does the `>` of `->`; a group that closes before the
/// angle bracket does leaves the arguments unfinished.
pub open spec fn angle_end(t: Seq<TokenView>, p: int, angles: nat, groups: nat) -> Option<int>
    decreases t.len() - p,
{
    if p < 0 || p >= t.len() {
        None
    } else {
        match t[p] {
            TokenView::Open(_) => angle_end(t, p + 1, angles, groups + 1),
            TokenView::Close(_) => if groups == 0 {
                None
            } else {
                angle_end(t, p + 1, angles, (groups - 1) as nat)
            },
            TokenView::Punct(c, joint) => if groups > 0 {
                angle_end(t, p + 1, angles, groups)
            } else if c == '-' && joint && punct_at(t, p + 1, '>') {
                angle_end(t, p + 2, angles, groups)
            } else if c == '<' {
                angle_end(t, p + 1, angles + 1, groups)
            } else if c == '>' {
                if angles <= 1 {
                    Some(p + 1)
                } else {
                    angle_end(t, p + 1, (angles - 1) as nat, groups)
                }
            } else {
                angle_end(t, p + 1, angles, groups)
            },
            _ => angle_end(t, p + 1, angles, groups),
        }
    }
}

/// Where angle-bracketed arguments of a path segment begin, after the
/// segment's name at `p`: at a `<` there (not the `<` of `<=` or `<<=`), or
/// at a `<` after `::`.
pub open spec fn args_start(t: Seq<TokenView>, p: int) -> Option<int> {
    if path_sep_at(t, p) && punct_at(t, p + 2, '<') {
        Some(p + 2)
    } else if punct_at(t, p, '<') && !(joint_punct_at(t, p, '<') && punct_at(t, p + 1, '='))
        && !(joint_punct_at(t, p, '<') && joint_punct_at(t, p + 1, '<') && punct_at(t, p + 2, '=')) {
        Some(p)
    } else {
        None
    }
}

/// The angle-bracketed arguments after a segment's name at `p`, as text
/// (with the `::` before them when there is one), and the position after
/// them; empty text and `p` when there are none.
pub open spec fn segment_args(t: Seq<TokenView>, p: int) -> Result<(Seq<char>, int), ParseError> {
    match args_start(t, p) {
        None => Ok((Seq::empty(), p)),
        Some(a) => match angle_end(t, a + 1, 1, 0) {
            None => Err(ParseError::ExpectedPunct('>')),
            Some(e) => Ok((
                (if a == p { Seq::empty() } else { seq![':', ':'] }) + tokens_text(t.subrange(a, e)),
                e,
            )),
        },
    }
}

/// The segments of a path from `p` on: a name with its arguments, then `::`
/// and a segment as long as they follow (a `::` before a parenthesised group
/// ends the path).
pub open spec fn spec_path_segments(t: Seq<TokenView>, p: int) -> Result<(Seq<Seq<char>>, int), ParseError>
    decreases t.len() - p,
{
    if p < 0 || p >= t.len() {
        Err(ParseError::ExpectedIdent)
    } else {
        match segment_at(t, p) {
            None => Err(ParseError::ExpectedIdent),
            Some(x) => match segment_args(t, p + 1) {
                Err(e) => Err(e),
                Ok((args, q)) => if q > p && path_sep_at(t, q) && !open_at(t, q + 2, Delimiter::Paren) {
                    match spec_path_segments(t, q + 2) {
                        Ok((xs, r)) => Ok((seq![x + args] + xs, r)),
                        Err(e) => Err(e),
                    }
                } else {
                    Ok((seq![x + args], q))
                },
            },
        }
    }
}

/// The text of a path: its segments joined by `::`.
pub open spec fn path_text(segments: Seq<Seq<char>>) -> Seq<char>
    decreases segments.len(),
{
    if segments.len() == 0 {
        Seq::empty()
    } else if segments.len() == 1 {
        segments[0]
    } else {
        path_text(segments.drop_last()) + seq![':', ':'] + segments.last()
    }
}

/// Whether `syn` accepts `s` as a path (`syn::Path`'s parser).
pub uninterp spec fn syn_accepts_path(s: Seq<char>) -> bool;

/// Calls `syn`'s path parser on `s`; whether it accepts is named
/// `syn_accepts_path`.
#[verifier::external_body]
fn syn_path(s: &String) -> (b: bool)
    ensures
        b == syn_accepts_path(s@),
{
    syn::parse_str::<syn::Path>(s.as_str()).is_ok()
}

/// Appends the character `c` to `s` (`String::push`).
#[verifier::external_body]
fn push_char(s: &mut String, c: char)
    ensures
        final(s)@ == old(s)@.push(c),
{
    s.push(c)
}

/// A path such as `Task::ENABLE::SET` or `Field::<u8>::SET` at `p`, as its
/// segments (each with its arguments); a leading `::` is kept as an empty
/// first segment. `syn` must accept the path's text.
pub closed spec fn spec_path(t: Seq<TokenView>, p: int) -> Result<(Seq<Seq<char>>, int), ParseError> {
    let r = if path_sep_at(t, p) {
        match spec_path_segments(t, p + 2) {
            Ok((xs, q)) => Ok((seq![Seq::<char>::empty()] + xs, q)),
            Err(e) => Err(e),
        }
    } else {
        spec_path_segments(t, p)
    };
    match r {
        Ok((xs, q)) => if syn_accepts_path(path_text(xs)) {
            Ok((xs, q))
        } else {
            Err(ParseError::InvalidPath)
        },
        Err(e) => Err(e),
    }
}

/// Appends the text of token `k` to `s`.
fn push_token_text(s: &mut String, k: &Token)
    ensures
        final(s)@ == old(s)@ + token_text(k@),
{
    match k {
        Token::Ident(x) => {
            s.append(x.as_str());
            push_char(s, ' ');
        },
        Token::Punct(c, joint) => {
            push_char(s, *c);
            if !*joint {
                push_char(s, ' ');
            }
        },
        Token::Open(d) => {
            let c = match d {
                Delimiter::Paren => '(',
                Delimiter::Bracket => '[',
                Delimiter::Brace => '{',
            };
            push_char(s, c);
        },
        Token::Close(d) => {
            let c = match d {
                Delimiter::Paren => ')',
                Delimiter::Bracket => ']',
                Delimiter::Brace => '}',
            };
            push_char(s, c);
            push_char(s, ' ');
        },
        Token::Str(x) => {
            s.append(x.as_str());
            push_char(s, ' ');
        },
        Token::Int(x) => {
            s.append(x.as_str());
            push_char(s, ' ');
        },
        Token::Other(x) => {
            s.append(x.as_str());
            push_char(s, ' ');
        },
    }
    assert(final(s)@ =~= old(s)@ + token_text(k@));
}

/// The text of the tokens from `a` to just before `e`.
fn tokens_text_exec(t: &Vec<Token>, a: usize, e: usize) -> (s: String)
    requires
        a <= e <= t.len(),
    ensures
        s@ == tokens_text(tokens_view(t@).subrange(a as int, e as int)),
{
    let mut s = String::new();
    let mut i: usize = a;
    while i < e
        invariant
            a <= i <= e <= t.len(),
            s@ == tokens_text(tokens_view(t@).subrange(a as int, i as int)),
        decreases e - i,
    {
        push_token_text(&mut s, &t[i]);
        assert(tokens_view(t@).subrange(a as int, i + 1).drop_last() =~= tokens_view(t@).subrange(a as int, i as int));
        assert(tokens_view(t@)[i as int] == t@[i as int]@);
        i = i + 1;
    }
    s
}

/// Finds where angle-bracketed arguments end (see `angle_end`).
fn angle_end_exec(t: &Vec<Token>, p: usize, angles: usize, groups: usize) -> (r: Option<usize>)
    requires
        angles >= 1,
        angles + groups <= p,
    ensures
        match r {
            Some(e) => angle_end(tokens_view(t@), p as int, angles as nat, groups as nat) == Some(e as int),
            None => angle_end(tokens_view(t@), p as int, angles as nat, groups as nat) is None,
        },
    decreases t.len() - p,
{
    if p >= t.len() {
        return None;
    }
    assert(tokens_view(t@)[p as int] == t@[p as int]@);
    match &t[p] {
        Token::Open(_) => angle_end_exec(t, p + 1, angles, groups + 1),
        Token::Close(_) => if groups == 0 {
            None
        } else {
            angle_end_exec(t, p + 1, angles, groups - 1)
        },
        Token::Punct(c, joint) => if groups > 0 {
            angle_end_exec(t, p + 1, angles, groups)
        } else if *c == '-' && *joint && punct_at_exec(t, p + 1, '>') {
            angle_end_exec(t, p + 2, angles, groups)
        } else if *c == '<' {
            angle_end_exec(t, p + 1, angles + 1, groups)
        } else if *c == '>' {
            if angles <= 1 {
                Some(p + 1)
            } else {
                angle_end_exec(t, p + 1, angles - 1, groups)
            }
        } else {
            angle_end_exec(t, p + 1, angles, groups)
        },
        _ => angle_end_exec(t, p + 1, angles, groups),
    }
}

fn segment_args_exec(t: &Vec<Token>, p: usize) -> (r: Result<(String, usize), ParseError>)
    requires
        1 <= p <= t.len(),
    ensures
        match r {
            Ok((s, q)) => segment_args(tokens_view(t@), p as int) == Ok::<(Seq<char>, int), ParseError>((s@, q as int))
                && p <= q <= t.len(),
            Err(e) => segment_args(tokens_view(t@), p as int) == Err::<(Seq<char>, int), ParseError>(e),
        },
{
    let turbofish = joint_punct_at_exec(t, p, ':') && punct_at_exec(t, p + 1, ':') && punct_at_exec(t, p + 2, '<');
    let plain = punct_at_exec(t, p, '<')
        && !(joint_punct_at_exec(t, p, '<') && punct_at_exec(t, p + 1, '='))
        && !(joint_punct_at_exec(t, p, '<') && joint_punct_at_exec(t, p + 1, '<') && punct_at_exec(t, p + 2, '='));
    let a = if turbofish {
        p + 2
    } else if plain {
        p
    } else {
        return Ok((String::new(), p));
    };
    match angle_end_exec(t, a + 1, 1, 0) {
        None => Err(ParseError::ExpectedPunct('>')),
        Some(e) => {
            proof {
                lemma_angle_end_after(tokens_view(t@), (a + 1) as int, 1, 0);
            }
            let mut s = String::new();
            if turbofish {
                proof {
                    reveal_strlit("::");
                }
                s.append("::");
            }
            let args = tokens_text_exec(t, a, e);
            s.append(args.as_str());
            assert(s@ =~= (if a == p { Seq::empty() } else { seq![':', ':'] }) + tokens_text(
                tokens_view(t@).subrange(a as int, e as int),
            ));
            Ok((s, e))
        },
    }
}

/// The end of angle-bracketed arguments lies after where the search starts,
/// within the tokens.
proof fn lemma_angle_end_after(t: Seq<TokenView>, p: int, angles: nat, groups: nat)
    ensures
        angle_end(t, p, angles, groups) matches Some(e) ==> p < e <= t.len(),
    decreases t.len() - p,
{
    if 0 <= p < t.len() {
        match t[p] {
            TokenView::Open(_) => lemma_angle_end_after(t, p + 1, angles, groups + 1),
            TokenView::Close(_) => if groups > 0 {
                lemma_angle_end_after(t, p + 1, angles, (groups - 1) as nat);
            },
            TokenView::Punct(c, joint) => if groups > 0 {
                lemma_angle_end_after(t, p + 1, angles, groups);
            } else if c == '-' && joint && punct_at(t, p + 1, '>') {
                lemma_angle_end_after(t, p + 2, angles, groups);
            } else if c == '<' {
                lemma_angle_end_after(t, p + 1, angles + 1, groups);
            } else if c == '>' {
                if angles > 1 {
                    lemma_angle_end_after(t, p + 1, (angles - 1) as nat, groups);
                }
            } else {
                lemma_angle_end_after(t, p + 1, angles, groups);
            },
            _ => lemma_angle_end_after(t, p + 1, angles, groups),
        }
    }
}

fn parse_path_segments(t: &Vec<Token>, p: usize) -> (r: Result<(Vec<String>, usize), ParseError>)
    ensures
        match r {
            Ok((v, q)) => spec_path_segments(tokens_view(t@), p as int) == Ok::<(Seq<Seq<char>>, int), ParseError>((names(v@), q as int))
                && q <= t.len(),
            Err(e) => spec_path_segments(tokens_view(t@), p as int) == Err::<(Seq<Seq<char>>, int), ParseError>(e),
        },
    decreases t.len() - p,
{
    if p >= t.len() {
        return Err(ParseError::ExpectedIdent);
    }
    let x = match segment_at_exec(t, p) {
        None => return Err(ParseError::ExpectedIdent),
        Some(x) => x,
    };
    let (args, q) = match segment_args_exec(t, p + 1) {
        Err(e) => return Err(e),
        Ok(r) => r,
    };
    let mut seg = x;
    seg.append(args.as_str());
    if q > p && joint_punct_at_exec(t, q, ':') && punct_at_exec(t, q + 1, ':') && !open_at_exec(t, q + 2, Delimiter::Paren) {
        match parse_path_segments(t, q + 2) {
            Ok((xs, r)) => {
                let ghost xs_view = xs@;
                let mut v: Vec<String> = Vec::new();
                v.push(seg);
                let mut xs = xs;
                v.append(&mut xs);
                assert(names(v@) =~= seq![v@[0]@] + names(xs_view));
                Ok((v, r))
            },
            Err(e) => Err(e),
        }
    } else {
        let mut v: Vec<String> = Vec::new();
        v.push(seg);
        assert(names(v@) =~= seq![v@[0]@]);
        Ok((v, q))
    }
}

/// The text of a path: its segments joined by `::`.
fn path_text_exec(segments: &Vec<String>) -> (s: String)
    ensures
        s@ == path_text(names(segments@)),
{
    let mut s = String::new();
    let mut i: usize = 0;
    proof {
        reveal_strlit("::");
    }
    while i < segments.len()
        invariant
            i <= segments.len(),
            s@ == path_text(names(segments@).take(i as int)),
        decreases segments.len() - i,
    {
        let ghost before = s@;
        if i > 0 {
            s.append("::");
        }
        s.append(segments[i].as_str());
        proof {
            reveal_strlit("::");
        }
        assert("::"@ =~= seq![':', ':']);
        let ghost n = names(segments@).take(i + 1);
        assert(n.drop_last() =~= names(segments@).take(i as int));
        assert(n.last() == segments@[i as int]@);
        if i == 0 {
            assert(n.len() == 1);
            assert(s@ =~= path_text(n));
        } else {
            assert(path_text(n) == path_text(n.drop_last()) + seq![':', ':'] + n.last());
            assert(s@ =~= path_text(n));
        }
        i = i + 1;
    }
    assert(names(segments@).take(i as int) =~= names(segments@));
    s
}

/// Parses a path at `p`, such as `Task::ENABLE::SET`.
pub fn parse_path(t: &Vec<Token>, p: usize) -> (r: Result<(Vec<String>, usize), ParseError>)
    ensures
        match r {
            Ok((v, q)) => spec_path(tokens_view(t@), p as int) == Ok::<(Seq<Seq<char>>, int), ParseError>((names(v@), q as int)),
            Err(e) => spec_path(tokens_view(t@), p as int) == Err::<(Seq<Seq<char>>, int), ParseError>(e),
        },
{
    let (v, q) = if joint_punct_at_exec(t, p, ':') && punct_at_exec(t, p + 1, ':') {
        match parse_path_segments(t, p + 2) {
            Ok((xs, q)) => {
                let ghost xs_view = xs@;
                let mut v: Vec<String> = Vec::new();
                v.push(String::new());
                let mut xs = xs;
                v.append(&mut xs);
                assert(names(v@) =~= seq![Seq::<char>::empty()] + names(xs_view));
                (v, q)
            },
            Err(e) => return Err(e),
        }
    } else {
        match parse_path_segments(t, p) {
            Ok(r) => r,
            Err(e) => return Err(e),
        }
    };
    let text = path_text_exec(&v);
    if syn_path(&text) {
        Ok((v, q))
    } else {
        Err(ParseError::InvalidPath)
    }
}

} // verus!
