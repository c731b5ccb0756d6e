//! The declaration grammar: the small textual language accepted wherever
//! the construction calls take strings — generic parameter declarations
//! (`"T"`, `"'a"`, `"T: Clone"`), where-clause predicates, bounds, path
//! segments with generic arguments, and the types these mention.
//!
//! The grammar is given by the spec-level lexer and parser in this module;
//! the executable functions are proved to return exactly what those define.

use vstd::prelude::*;

use crate::error::Error;
use crate::ident::push_char;
use crate::syntax::RawArgV;
use crate::syntax::RawBoundV;
use crate::syntax::RawParamV;
use crate::syntax::RawPathV;
use crate::syntax::RawPredicateV;
use crate::syntax::RawSegV;
use crate::syntax::RawTypeV;

verus! {

/// One token of the declaration grammar.
pub enum Token {
    /// An identifier.
    Ident(String),
    /// A lifetime, with its leading quote.
    Life(String),
    /// `::`
    Colon2,
    /// `:`
    Colon,
    /// `<`
    Lt,
    /// `>`
    Gt,
    /// `+`
    Plus,
    /// `,`
    Comma,
    /// `&`
    Amp,
    /// `(`
    LParen,
    /// `)`
    RParen,
    /// `=`
    Equals,
    /// the keyword `mut`
    KwMut,
    /// the keyword `dyn`
    KwDyn,
    /// the keyword `for`
    KwFor,
    /// the keyword `const`
    KwConst,
}

/// The mathematical value of a [`Token`].
#[verifier::ext_equal]
pub enum TokV {
    Ident(Seq<char>),
    Life(Seq<char>),
    Colon2,
    Colon,
    Lt,
    Gt,
    Plus,
    Comma,
    Amp,
    LParen,
    RParen,
    Equals,
    KwMut,
    KwDyn,
    KwFor,
    KwConst,
}

pub open spec fn view_token(t: Token) -> TokV {
    match t {
        Token::Ident(s) => TokV::Ident(s@),
        Token::Life(s) => TokV::Life(s@),
        Token::Colon2 => TokV::Colon2,
        Token::Colon => TokV::Colon,
        Token::Lt => TokV::Lt,
        Token::Gt => TokV::Gt,
        Token::Plus => TokV::Plus,
        Token::Comma => TokV::Comma,
        Token::Amp => TokV::Amp,
        Token::LParen => TokV::LParen,
        Token::RParen => TokV::RParen,
        Token::Equals => TokV::Equals,
        Token::KwMut => TokV::KwMut,
        Token::KwDyn => TokV::KwDyn,
        Token::KwFor => TokV::KwFor,
        Token::KwConst => TokV::KwConst,
    }
}

impl View for Token {
    type V = TokV;

    open spec fn view(&self) -> TokV {
        view_token(*self)
    }
}

pub open spec fn view_tokens(s: Seq<Token>) -> Seq<TokV> {
    s.map_values(|t: Token| view_token(t))
}

/// True of the characters an identifier is made of.
#[verifier::allow_in_spec]
pub fn is_ident_char(c: char) -> bool
    returns
        (97 <= c as u32 <= 122 || 65 <= c as u32 <= 90 || 48 <= c as u32 <= 57 || c as u32 == 95),
{
    let n = c as u32;
    (97 <= n && n <= 122) || (65 <= n && n <= 90) || (48 <= n && n <= 57) || n == 95
}

/// The end of the identifier starting at `i`: the first later position
/// holding a non-identifier character.
pub open spec fn ident_end(s: Seq<char>, i: int) -> int
    decreases s.len() - i,
{
    if 0 <= i < s.len() && is_ident_char(s[i]) {
        ident_end(s, i + 1)
    } else {
        i
    }
}

pub proof fn lemma_ident_end(s: Seq<char>, i: int)
    requires
        0 <= i <= s.len(),
    ensures
        i <= ident_end(s, i) <= s.len(),
    decreases s.len() - i,
{
    if i < s.len() && is_ident_char(s[i]) {
        lemma_ident_end(s, i + 1);
    }
}

/// Classifies an identifier's text: the grammar's keywords get their own
/// tokens.
pub open spec fn classify(word: Seq<char>) -> TokV {
    if word == "mut"@ {
        TokV::KwMut
    } else if word == "dyn"@ {
        TokV::KwDyn
    } else if word == "for"@ {
        TokV::KwFor
    } else if word == "const"@ {
        TokV::KwConst
    } else {
        TokV::Ident(word)
    }
}

/// The token stream of the text from position `i` on, or nothing where a
/// character fits no token.
pub open spec fn lex(s: Seq<char>, i: int) -> Option<Seq<TokV>>
    decreases s.len() - i,
{
    if i < 0 || i >= s.len() {
        Some(Seq::empty())
    } else {
        let c = s[i];
        if c == ' ' || c == '\t' {
            lex(s, i + 1)
        } else if is_ident_char(c) && !(48 <= c as u32 <= 57) {
            let j = ident_end(s, i);
            if j <= i || j > s.len() {
                None
            } else {
                match lex(s, j) {
                    Some(rest) => Some(seq![classify(s.subrange(i, j))] + rest),
                    None => None,
                }
            }
        } else if c == '\'' {
            let j = ident_end(s, i + 1);
            if j <= i + 1 || j > s.len() {
                None
            } else {
                match lex(s, j) {
                    Some(rest) => Some(seq![TokV::Life(s.subrange(i, j))] + rest),
                    None => None,
                }
            }
        } else if c == ':' {
            if i + 1 < s.len() && s[i + 1] == ':' {
                match lex(s, i + 2) {
                    Some(rest) => Some(seq![TokV::Colon2] + rest),
                    None => None,
                }
            } else {
                match lex(s, i + 1) {
                    Some(rest) => Some(seq![TokV::Colon] + rest),
                    None => None,
                }
            }
        } else if c == '<' {
            match lex(s, i + 1) {
                Some(rest) => Some(seq![TokV::Lt] + rest),
                None => None,
            }
        } else if c == '>' {
            match lex(s, i + 1) {
                Some(rest) => Some(seq![TokV::Gt] + rest),
                None => None,
            }
        } else if c == '+' {
            match lex(s, i + 1) {
                Some(rest) => Some(seq![TokV::Plus] + rest),
                None => None,
            }
        } else if c == ',' {
            match lex(s, i + 1) {
                Some(rest) => Some(seq![TokV::Comma] + rest),
                None => None,
            }
        } else if c == '&' {
            match lex(s, i + 1) {
                Some(rest) => Some(seq![TokV::Amp] + rest),
                None => None,
            }
        } else if c == '(' {
            match lex(s, i + 1) {
                Some(rest) => Some(seq![TokV::LParen] + rest),
                None => None,
            }
        } else if c == ')' {
            match lex(s, i + 1) {
                Some(rest) => Some(seq![TokV::RParen] + rest),
                None => None,
            }
        } else if c == '=' {
            match lex(s, i + 1) {
                Some(rest) => Some(seq![TokV::Equals] + rest),
                None => None,
            }
        } else {
            None
        }
    }
}

/// Collects the characters of `s`.
pub fn chars_of(s: &str) -> (r: Vec<char>)
    ensures
        r@ == s@,
{
    let n = s.unicode_len();
    let mut r: Vec<char> = Vec::new();
    let mut i: usize = 0;
    while i < n
        invariant
            n == s@.len(),
            i <= n,
            r@.len() == i,
            forall|j: int| 0 <= j < i ==> #[trigger] r@[j] == s@[j],
        decreases n - i,
    {
        let c = s.get_char(i);
        r.push(c);
        i = i + 1;
    }
    proof {
        assert(r@ =~= s@);
    }
    r
}

/// Builds the text of `s[from..to]`.
fn string_from_chars(s: &Vec<char>, from: usize, to: usize) -> (r: String)
    requires
        from <= to <= s@.len(),
    ensures
        r@ == s@.subrange(from as int, to as int),
{
    let mut r = String::new();
    let mut i: usize = from;
    while i < to
        invariant
            from <= i <= to <= s@.len(),
            r@ == s@.subrange(from as int, i as int),
        decreases to - i,
    {
        push_char(&mut r, s[i]);
        i = i + 1;
        proof {
            assert(s@.subrange(from as int, i as int) =~= s@.subrange(from as int, i - 1).push(
                s@[i - 1],
            ));
        }
    }
    r
}

fn ident_end_exec(s: &Vec<char>, i: usize) -> (r: usize)
    requires
        i <= s@.len(),
    ensures
        r == ident_end(s@, i as int),
        i <= r <= s@.len(),
    decreases s@.len() - i,
{
    if i < s.len() && is_ident_char(s[i]) {
        ident_end_exec(s, i + 1)
    } else {
        i
    }
}

fn classify_exec(word: String) -> (r: Token)
    ensures
        r@ == classify(word@),
{
    if word == String::from_str("mut") {
        Token::KwMut
    } else if word == String::from_str("dyn") {
        Token::KwDyn
    } else if word == String::from_str("for") {
        Token::KwFor
    } else if word == String::from_str("const") {
        Token::KwConst
    } else {
        Token::Ident(word)
    }
}

fn lex_into(s: &Vec<char>, i: usize, out: &mut Vec<Token>) -> (r: Result<(), Error>)
    requires
        i <= s@.len(),
    ensures
        match r {
            Ok(_) => {
                &&& lex(s@, i as int) is Some
                &&& view_tokens(final(out)@) == view_tokens(old(out)@) + lex(
                    s@,
                    i as int,
                )->Some_0
            },
            Err(e) => e == Error::Parse && lex(s@, i as int) is None,
        },
    decreases s@.len() - i,
{
    if i >= s.len() {
        proof {
            assert(view_tokens(out@) =~= view_tokens(out@) + Seq::<TokV>::empty());
        }
        return Ok(());
    }
    let c = s[i];
    if c == ' ' || c == '\t' {
        lex_into(s, i + 1, out)
    } else if is_ident_char(c) && !(48 <= c as u32 && c as u32 <= 57) {
        let j = ident_end_exec(s, i);
        proof {
            assert(ident_end(s@, i as int) == ident_end(s@, i + 1));
            lemma_ident_end(s@, i + 1);
            assert(j > i);
        }
        let word = string_from_chars(s, i, j);
        let tok = classify_exec(word);
        let ghost prev = out@;
        out.push(tok);
        proof {
            assert(view_tokens(out@) =~= view_tokens(prev) + seq![classify(
                s@.subrange(i as int, j as int),
            )]);
        }
        let r = lex_into(s, j, out);
        proof {
            if r is Ok {
                assert(view_tokens(final(out)@) =~= view_tokens(prev) + lex(
                    s@,
                    i as int,
                )->Some_0);
            }
        }
        r
    } else if c == '\'' {
        let j = ident_end_exec(s, i + 1);
        if j <= i + 1 {
            return Err(Error::Parse);
        }
        let word = string_from_chars(s, i, j);
        let ghost prev = out@;
        out.push(Token::Life(word));
        proof {
            assert(view_tokens(out@) =~= view_tokens(prev) + seq![TokV::Life(
                s@.subrange(i as int, j as int),
            )]);
        }
        let r = lex_into(s, j, out);
        proof {
            if r is Ok {
                assert(view_tokens(final(out)@) =~= view_tokens(prev) + lex(
                    s@,
                    i as int,
                )->Some_0);
            }
        }
        r
    } else {
        let (tok, next): (Token, usize) = if c == ':' {
            if i + 1 < s.len() && s[i + 1] == ':' {
                (Token::Colon2, i + 2)
            } else {
                (Token::Colon, i + 1)
            }
        } else if c == '<' {
            (Token::Lt, i + 1)
        } else if c == '>' {
            (Token::Gt, i + 1)
        } else if c == '+' {
            (Token::Plus, i + 1)
        } else if c == ',' {
            (Token::Comma, i + 1)
        } else if c == '&' {
            (Token::Amp, i + 1)
        } else if c == '(' {
            (Token::LParen, i + 1)
        } else if c == ')' {
            (Token::RParen, i + 1)
        } else if c == '=' {
            (Token::Equals, i + 1)
        } else {
            return Err(Error::Parse);
        };
        let ghost prev = out@;
        out.push(tok);
        proof {
            assert(view_tokens(out@) =~= view_tokens(prev).push(view_token(tok)));
        }
        let r = lex_into(s, next, out);
        proof {
            if r is Ok {
                assert(view_tokens(final(out)@) =~= view_tokens(prev) + lex(
                    s@,
                    i as int,
                )->Some_0);
            }
        }
        r
    }
}

/// Tokenizes `text` under the declaration grammar.
pub fn tokenize(text: &str) -> (r: Result<Vec<Token>, Error>)
    ensures
        match r {
            Ok(toks) => lex(text@, 0) == Some(view_tokens(toks@)),
            Err(e) => e == Error::Parse && lex(text@, 0) is None,
        },
{
    let chars = chars_of(text);
    let mut out: Vec<Token> = Vec::new();
    match lex_into(&chars, 0, &mut out) {
        Ok(_) => {
            proof {
                assert(view_tokens(out@) =~= lex(text@, 0)->Some_0);
            }
            Ok(out)
        },
        Err(e) => Err(e),
    }
}


// ----------------------------------------------------------------------
// The grammar, as spec-level recursive descent over the token stream.
// Every function takes the stream and a position and yields the parsed
// piece with the next position, or nothing where the stream does not match.
// ----------------------------------------------------------------------

/// One path segment: an identifier, optionally with `<` arguments `>`.
pub open spec fn sp_seg(t: Seq<TokV>, i: int) -> Option<(RawSegV, int)>
    decreases t.len() - i, 1int,
{
    if !(0 <= i < t.len()) {
        None
    } else {
        match t[i] {
            TokV::Ident(name) => {
                if i + 1 < t.len() && t[i + 1] is Lt {
                    match sp_args_list(t, i + 2) {
                        Some((args, j)) => Some((RawSegV { name, args }, j)),
                        None => None,
                    }
                } else {
                    Some((RawSegV { name, args: Seq::empty() }, i + 1))
                }
            },
            _ => None,
        }
    }
}

/// A path: an optional leading `::`, then `::`-separated segments.
pub open spec fn sp_path(t: Seq<TokV>, i: int) -> Option<(RawPathV, int)>
    decreases t.len() - i, 2int,
{
    if !(0 <= i <= t.len()) {
        None
    } else {
        let global = i < t.len() && t[i] is Colon2;
        let i1 = if global {
            i + 1
        } else {
            i
        };
        match sp_seg(t, i1) {
            Some((seg, j)) => {
                if j <= i1 || j > t.len() {
                    None
                } else {
                    match sp_more_segs(t, j) {
                        Some((rest, k)) => Some(
                            (RawPathV { global, segs: seq![seg] + rest }, k),
                        ),
                        None => None,
                    }
                }
            },
            None => None,
        }
    }
}

/// Zero or more `:: segment` continuations.
pub open spec fn sp_more_segs(t: Seq<TokV>, i: int) -> Option<(Seq<RawSegV>, int)>
    decreases t.len() - i, 9int,
{
    if !(0 <= i <= t.len()) {
        None
    } else if i < t.len() && t[i] is Colon2 {
        match sp_seg(t, i + 1) {
            Some((seg, j)) => {
                if j <= i + 1 || j > t.len() {
                    None
                } else {
                    match sp_more_segs(t, j) {
                        Some((rest, k)) => Some((seq![seg] + rest, k)),
                        None => None,
                    }
                }
            },
            None => None,
        }
    } else {
        Some((Seq::empty(), i))
    }
}

/// A `<`-opened argument list: arguments separated by `,`, closed by `>`.
/// Entered after the `<` is consumed.
pub open spec fn sp_args_list(t: Seq<TokV>, i: int) -> Option<(Seq<RawArgV>, int)>
    decreases t.len() - i, 5int,
{
    if !(0 <= i < t.len()) {
        None
    } else {
        match sp_arg(t, i) {
            Some((arg, j)) => {
                if j <= i || j >= t.len() {
                    None
                } else if t[j] is Gt {
                    Some((seq![arg], j + 1))
                } else if t[j] is Comma {
                    match sp_args_list(t, j + 1) {
                        Some((rest, k)) => Some((seq![arg] + rest, k)),
                        None => None,
                    }
                } else {
                    None
                }
            },
            None => None,
        }
    }
}

/// One generic argument: a lifetime, an associated-type binding
/// (`Item = T`), an associated-type constraint (`Item: Bound`), or a type.
pub open spec fn sp_arg(t: Seq<TokV>, i: int) -> Option<(RawArgV, int)>
    decreases t.len() - i, 4int,
{
    if !(0 <= i < t.len()) {
        None
    } else {
        match t[i] {
            TokV::Life(name) => Some((RawArgV::Life(name), i + 1)),
            TokV::Ident(name) => {
                if i + 1 < t.len() && t[i + 1] is Equals {
                    match sp_type(t, i + 2) {
                        Some((ty, j)) => Some((RawArgV::Binding { name, ty }, j)),
                        None => None,
                    }
                } else if i + 1 < t.len() && t[i + 1] is Colon {
                    match sp_bounds(t, i + 2) {
                        Some((bounds, j)) => Some((RawArgV::Constraint { name, bounds }, j)),
                        None => None,
                    }
                } else {
                    match sp_type(t, i) {
                        Some((ty, j)) => Some((RawArgV::Ty(ty), j)),
                        None => None,
                    }
                }
            },
            _ => match sp_type(t, i) {
                Some((ty, j)) => Some((RawArgV::Ty(ty), j)),
                None => None,
            },
        }
    }
}

/// A type: a reference, a parenthesized tuple (one untrailed element is
/// just that type), a `dyn` trait object, or a path.
pub open spec fn sp_type(t: Seq<TokV>, i: int) -> Option<(RawTypeV, int)>
    decreases t.len() - i, 3int,
{
    if !(0 <= i < t.len()) {
        None
    } else if t[i] is Amp {
        let (life, i1) = if i + 1 < t.len() && t[i + 1] is Life {
            (Some(t[i + 1]->Life_0), i + 2)
        } else {
            (None, i + 1)
        };
        let (is_mut, i2) = if i1 < t.len() && t[i1] is KwMut {
            (true, i1 + 1)
        } else {
            (false, i1)
        };
        if i2 <= i {
            None
        } else {
            match sp_type(t, i2) {
                Some((inner, j)) => Some(
                    (RawTypeV::Ref { is_mut, life, inner: seq![inner] }, j),
                ),
                None => None,
            }
        }
    } else if t[i] is LParen {
        if i + 1 < t.len() && t[i + 1] is RParen {
            Some((RawTypeV::Tup(Seq::empty()), i + 2))
        } else {
            match sp_type(t, i + 1) {
                Some((first, j)) => {
                    if j <= i + 1 || j > t.len() {
                        None
                    } else {
                        match sp_tuple_rest(t, j) {
                            Some((rest, trailing, k)) => {
                                if rest.len() == 0 && !trailing {
                                    Some((first, k))
                                } else {
                                    Some((RawTypeV::Tup(seq![first] + rest), k))
                                }
                            },
                            None => None,
                        }
                    }
                },
                None => None,
            }
        }
    } else if t[i] is KwDyn {
        match sp_bounds(t, i + 1) {
            Some((bounds, j)) => Some((RawTypeV::Dyn(bounds), j)),
            None => None,
        }
    } else {
        match sp_path(t, i) {
            Some((path, j)) => Some((RawTypeV::Named(path), j)),
            None => None,
        }
    }
}

/// The continuation of a parenthesized tuple after one element: `, ...` or
/// the closing `)`. Reports whether a trailing comma stood before `)`.
pub open spec fn sp_tuple_rest(t: Seq<TokV>, i: int) -> Option<(Seq<RawTypeV>, bool, int)>
    decreases t.len() - i, 9int,
{
    if !(0 <= i < t.len()) {
        None
    } else if t[i] is RParen {
        Some((Seq::empty(), false, i + 1))
    } else if t[i] is Comma {
        if i + 1 < t.len() && t[i + 1] is RParen {
            Some((Seq::empty(), true, i + 2))
        } else {
            match sp_type(t, i + 1) {
                Some((ty, j)) => {
                    if j <= i + 1 || j > t.len() {
                        None
                    } else {
                        match sp_tuple_rest(t, j) {
                            Some((rest, trailing, k)) => Some((seq![ty] + rest, trailing, k)),
                            None => None,
                        }
                    }
                },
                None => None,
            }
        }
    } else {
        None
    }
}

/// A `for < 'a , 'b >` bound-lifetime introducer prefix.
pub open spec fn sp_for_names(t: Seq<TokV>, i: int) -> Option<(Seq<Seq<char>>, int)>
    decreases t.len() - i, 1int,
{
    if !(0 <= i < t.len()) {
        None
    } else if t[i] is KwFor {
        if i + 1 < t.len() && t[i + 1] is Lt {
            sp_for_items(t, i + 2)
        } else {
            None
        }
    } else {
        None
    }
}

/// The comma-separated lifetimes of an introducer prefix, with an optional
/// trailing comma, closed by `>`.
pub open spec fn sp_for_items(t: Seq<TokV>, i: int) -> Option<(Seq<Seq<char>>, int)>
    decreases t.len() - i, 9int,
{
    if !(0 <= i < t.len()) {
        None
    } else {
        match t[i] {
            TokV::Life(name) => {
                if i + 1 < t.len() && t[i + 1] is Gt {
                    Some((seq![name], i + 2))
                } else if i + 1 < t.len() && t[i + 1] is Comma {
                    if i + 2 < t.len() && t[i + 2] is Gt {
                        Some((seq![name], i + 3))
                    } else {
                        match sp_for_items(t, i + 2) {
                            Some((rest, k)) => Some((seq![name] + rest, k)),
                            None => None,
                        }
                    }
                } else {
                    None
                }
            },
            _ => None,
        }
    }
}

/// One bound: an outliving lifetime, or a trait path with an optional
/// `for<...>` introducer prefix.
pub open spec fn sp_bound(t: Seq<TokV>, i: int) -> Option<(RawBoundV, int)>
    decreases t.len() - i, 5int,
{
    if !(0 <= i < t.len()) {
        None
    } else {
        match t[i] {
            TokV::Life(name) => Some((RawBoundV::Life(name), i + 1)),
            TokV::KwFor => {
                match sp_for_names(t, i) {
                    Some((names, j)) => {
                        if j <= i || j > t.len() {
                            None
                        } else {
                            match sp_path(t, j) {
                                Some((path, k)) => Some(
                                    (RawBoundV::Trait { for_lifetimes: names, path }, k),
                                ),
                                None => None,
                            }
                        }
                    },
                    None => None,
                }
            },
            _ => match sp_path(t, i) {
                Some((path, j)) => Some(
                    (RawBoundV::Trait { for_lifetimes: Seq::empty(), path }, j),
                ),
                None => None,
            },
        }
    }
}

/// Bounds separated by `+`.
pub open spec fn sp_bounds(t: Seq<TokV>, i: int) -> Option<(Seq<RawBoundV>, int)>
    decreases t.len() - i, 6int,
{
    if !(0 <= i <= t.len()) {
        None
    } else {
        match sp_bound(t, i) {
            Some((b, j)) => {
                if j <= i || j > t.len() {
                    None
                } else if j < t.len() && t[j] is Plus {
                    match sp_bounds(t, j + 1) {
                        Some((rest, k)) => Some((seq![b] + rest, k)),
                        None => None,
                    }
                } else {
                    Some((seq![b], j))
                }
            },
            None => None,
        }
    }
}

/// Lifetimes separated by `+`.
pub open spec fn sp_life_list(t: Seq<TokV>, i: int) -> Option<(Seq<Seq<char>>, int)>
    decreases t.len() - i,
{
    if !(0 <= i < t.len()) {
        None
    } else {
        match t[i] {
            TokV::Life(name) => {
                if i + 1 < t.len() && t[i + 1] is Plus {
                    match sp_life_list(t, i + 2) {
                        Some((rest, k)) => Some((seq![name] + rest, k)),
                        None => None,
                    }
                } else {
                    Some((seq![name], i + 1))
                }
            },
            _ => None,
        }
    }
}

/// One declared generic parameter: a lifetime or type parameter with
/// optional declared bounds, or a recognized-but-unsupported `const`
/// parameter.
pub open spec fn sp_param(t: Seq<TokV>, i: int) -> Option<(RawParamV, int)>
    decreases t.len() - i, 7int,
{
    if !(0 <= i < t.len()) {
        None
    } else {
        match t[i] {
            TokV::Life(name) => {
                if i + 1 < t.len() && t[i + 1] is Colon {
                    match sp_life_list(t, i + 2) {
                        Some((bounds, j)) => Some((RawParamV::Life { name, bounds }, j)),
                        None => None,
                    }
                } else {
                    Some((RawParamV::Life { name, bounds: Seq::empty() }, i + 1))
                }
            },
            TokV::Ident(name) => {
                if i + 1 < t.len() && t[i + 1] is Colon {
                    match sp_bounds(t, i + 2) {
                        Some((bounds, j)) => Some((RawParamV::Ty { name, bounds }, j)),
                        None => None,
                    }
                } else {
                    Some((RawParamV::Ty { name, bounds: Seq::empty() }, i + 1))
                }
            },
            TokV::KwConst => Some((RawParamV::ConstParam, t.len() as int)),
            _ => None,
        }
    }
}

/// One where-clause predicate: a bounded lifetime, or a bounded type with
/// an optional `for<...>` introducer prefix.
pub open spec fn sp_predicate(t: Seq<TokV>, i: int) -> Option<(RawPredicateV, int)>
    decreases t.len() - i, 7int,
{
    if !(0 <= i < t.len()) {
        None
    } else {
        match t[i] {
            TokV::Life(name) => {
                if i + 1 < t.len() && t[i + 1] is Colon {
                    match sp_life_list(t, i + 2) {
                        Some((bounds, j)) => Some((RawPredicateV::Life { name, bounds }, j)),
                        None => None,
                    }
                } else {
                    None
                }
            },
            TokV::KwFor => {
                match sp_for_names(t, i) {
                    Some((names, j0)) => {
                        if j0 <= i || j0 > t.len() {
                            None
                        } else {
                            match sp_type(t, j0) {
                                Some((ty, j)) => {
                                    if j <= j0 || j >= t.len() {
                                        None
                                    } else if t[j] is Colon {
                                        match sp_bounds(t, j + 1) {
                                            Some((bounds, k)) => Some(
                                                (
                                                    RawPredicateV::Ty {
                                                        for_lifetimes: names,
                                                        ty,
                                                        bounds,
                                                    },
                                                    k,
                                                ),
                                            ),
                                            None => None,
                                        }
                                    } else {
                                        None
                                    }
                                },
                                None => None,
                            }
                        }
                    },
                    None => None,
                }
            },
            _ => match sp_type(t, i) {
                Some((ty, j)) => {
                    if j <= i || j >= t.len() {
                        None
                    } else if t[j] is Colon {
                        match sp_bounds(t, j + 1) {
                            Some((bounds, k)) => Some(
                                (
                                    RawPredicateV::Ty {
                                        for_lifetimes: Seq::empty(),
                                        ty,
                                        bounds,
                                    },
                                    k,
                                ),
                            ),
                            None => None,
                        }
                    } else {
                        None
                    }
                },
                None => None,
            },
        }
    }
}

/// The parse of a whole parameter declaration text.
pub open spec fn sp_param_full(s: Seq<char>) -> Option<RawParamV> {
    match lex(s, 0) {
        Some(toks) => match sp_param(toks, 0) {
            Some((p, j)) => if j == toks.len() {
                Some(p)
            } else {
                None
            },
            None => None,
        },
        None => None,
    }
}

/// The parse of a whole predicate text.
pub open spec fn sp_predicate_full(s: Seq<char>) -> Option<RawPredicateV> {
    match lex(s, 0) {
        Some(toks) => match sp_predicate(toks, 0) {
            Some((p, j)) => if j == toks.len() {
                Some(p)
            } else {
                None
            },
            None => None,
        },
        None => None,
    }
}

/// The parse of a whole bound text.
pub open spec fn sp_bound_full(s: Seq<char>) -> Option<RawBoundV> {
    match lex(s, 0) {
        Some(toks) => match sp_bound(toks, 0) {
            Some((b, j)) => if j == toks.len() {
                Some(b)
            } else {
                None
            },
            None => None,
        },
        None => None,
    }
}

/// The parse of a whole path-segment text.
pub open spec fn sp_seg_full(s: Seq<char>) -> Option<RawSegV> {
    match lex(s, 0) {
        Some(toks) => match sp_seg(toks, 0) {
            Some((seg, j)) => if j == toks.len() {
                Some(seg)
            } else {
                None
            },
            None => None,
        },
        None => None,
    }
}


// ----------------------------------------------------------------------
// The executable parser: each function returns exactly what the grammar
// above defines.
// ----------------------------------------------------------------------

use crate::syntax::RawArg;
use crate::syntax::RawBound;
use crate::syntax::RawParam;
use crate::syntax::RawPath;
use crate::syntax::RawPredicate;
use crate::syntax::RawSeg;
use crate::syntax::RawType;

fn p_seg(toks: &Vec<Token>, i: usize) -> (r: Result<(RawSeg, usize), Error>)
    requires
        i <= toks@.len(),
    ensures
        match r {
            Ok(p) => i < p.1 <= toks@.len() && sp_seg(view_tokens(toks@), i as int) == Some(
                (crate::syntax::view_raw_seg(p.0), p.1 as int),
            ),
            Err(e) => e == Error::Parse && sp_seg(view_tokens(toks@), i as int) is None,
        },
    decreases toks@.len() - i, 1int,
{
    if i >= toks.len() {
        return Err(Error::Parse);
    }
    match &toks[i] {
        Token::Ident(name) => {
            if i + 1 < toks.len() && matches!(&toks[i + 1], Token::Lt) {
                match p_args_list(toks, i + 2) {
                    Ok((args, j)) => {
                        let seg = RawSeg { name: name.clone(), args };
                        Ok((seg, j))
                    },
                    Err(e) => Err(e),
                }
            } else {
                let seg = RawSeg { name: name.clone(), args: Vec::new() };
                proof {
                    assert(crate::syntax::view_seq_raw_arg(Seq::<RawArg>::empty()) =~= Seq::<
                        RawArgV,
                    >::empty());
                }
                Ok((seg, i + 1))
            }
        },
        _ => Err(Error::Parse),
    }
}

fn p_path(toks: &Vec<Token>, i: usize) -> (r: Result<(RawPath, usize), Error>)
    requires
        i <= toks@.len(),
    ensures
        match r {
            Ok(p) => i < p.1 <= toks@.len() && sp_path(view_tokens(toks@), i as int) == Some(
                (crate::syntax::view_raw_path(p.0), p.1 as int),
            ),
            Err(e) => e == Error::Parse && sp_path(view_tokens(toks@), i as int) is None,
        },
    decreases toks@.len() - i, 2int,
{
    let global = i < toks.len() && matches!(&toks[i], Token::Colon2);
    let i1 = if global {
        i + 1
    } else {
        i
    };
    match p_seg(toks, i1) {
        Ok((seg, j)) => {
            match p_more_segs(toks, j) {
                Ok((mut rest, k)) => {
                    let ghost pre = rest@;
                    let ghost segv = crate::syntax::view_raw_seg(seg);
                    rest.insert(0, seg);
                    proof {
                        assert(rest@.drop_first() =~= pre);
                        assert(crate::syntax::view_raw_seg(rest@[0]) == segv);
                        assert(crate::syntax::view_seq_raw_seg(rest@) =~= seq![segv]
                            + crate::syntax::view_seq_raw_seg(pre));
                    }
                    let path = RawPath { global, segs: rest };
                    Ok((path, k))
                },
                Err(e) => Err(e),
            }
        },
        Err(e) => Err(e),
    }
}

fn p_more_segs(toks: &Vec<Token>, i: usize) -> (r: Result<(Vec<RawSeg>, usize), Error>)
    requires
        i <= toks@.len(),
    ensures
        match r {
            Ok(p) => i <= p.1 <= toks@.len() && sp_more_segs(view_tokens(toks@), i as int)
                == Some((crate::syntax::view_seq_raw_seg(p.0@), p.1 as int)),
            Err(e) => e == Error::Parse && sp_more_segs(view_tokens(toks@), i as int) is None,
        },
    decreases toks@.len() - i, 9int,
{
    if i < toks.len() && matches!(&toks[i], Token::Colon2) {
        match p_seg(toks, i + 1) {
            Ok((seg, j)) => {
                match p_more_segs(toks, j) {
                    Ok((mut rest, k)) => {
                        let ghost pre = rest@;
                        let ghost segv = crate::syntax::view_raw_seg(seg);
                        rest.insert(0, seg);
                        proof {
                            assert(rest@.drop_first() =~= pre);
                            assert(crate::syntax::view_raw_seg(rest@[0]) == segv);
                            assert(crate::syntax::view_seq_raw_seg(rest@) =~= seq![segv]
                                + crate::syntax::view_seq_raw_seg(pre));
                        }
                        Ok((rest, k))
                    },
                    Err(e) => Err(e),
                }
            },
            Err(e) => Err(e),
        }
    } else {
        proof {
            assert(crate::syntax::view_seq_raw_seg(Seq::<RawSeg>::empty()) =~= Seq::<
                RawSegV,
            >::empty());
        }
        Ok((Vec::new(), i))
    }
}

fn p_args_list(toks: &Vec<Token>, i: usize) -> (r: Result<(Vec<RawArg>, usize), Error>)
    requires
        i <= toks@.len(),
    ensures
        match r {
            Ok(p) => i < p.1 <= toks@.len() && sp_args_list(view_tokens(toks@), i as int)
                == Some((crate::syntax::view_seq_raw_arg(p.0@), p.1 as int)),
            Err(e) => e == Error::Parse && sp_args_list(view_tokens(toks@), i as int) is None,
        },
    decreases toks@.len() - i, 5int,
{
    if i >= toks.len() {
        return Err(Error::Parse);
    }
    match p_arg(toks, i) {
        Ok((arg, j)) => {
            if j >= toks.len() {
                Err(Error::Parse)
            } else if matches!(&toks[j], Token::Gt) {
                let ghost argv = crate::syntax::view_raw_arg(arg);
                let mut args: Vec<RawArg> = Vec::new();
                args.push(arg);
                proof {
                    assert(args@.drop_first() =~= Seq::<RawArg>::empty());
                    assert(crate::syntax::view_seq_raw_arg(Seq::<RawArg>::empty()) =~= Seq::<
                        RawArgV,
                    >::empty());
                    assert(crate::syntax::view_raw_arg(args@[0]) == argv);
                    assert(crate::syntax::view_seq_raw_arg(args@) =~= seq![argv]);
                }
                Ok((args, j + 1))
            } else if matches!(&toks[j], Token::Comma) {
                match p_args_list(toks, j + 1) {
                    Ok((mut rest, k)) => {
                        let ghost pre = rest@;
                        let ghost argv = crate::syntax::view_raw_arg(arg);
                        rest.insert(0, arg);
                        proof {
                            assert(rest@.drop_first() =~= pre);
                            assert(crate::syntax::view_raw_arg(rest@[0]) == argv);
                            assert(crate::syntax::view_seq_raw_arg(rest@) =~= seq![argv]
                                + crate::syntax::view_seq_raw_arg(pre));
                        }
                        Ok((rest, k))
                    },
                    Err(e) => Err(e),
                }
            } else {
                Err(Error::Parse)
            }
        },
        Err(e) => Err(e),
    }
}

fn p_arg(toks: &Vec<Token>, i: usize) -> (r: Result<(RawArg, usize), Error>)
    requires
        i <= toks@.len(),
    ensures
        match r {
            Ok(p) => i < p.1 <= toks@.len() && sp_arg(view_tokens(toks@), i as int) == Some(
                (crate::syntax::view_raw_arg(p.0), p.1 as int),
            ),
            Err(e) => e == Error::Parse && sp_arg(view_tokens(toks@), i as int) is None,
        },
    decreases toks@.len() - i, 4int,
{
    if i >= toks.len() {
        return Err(Error::Parse);
    }
    match &toks[i] {
        Token::Life(name) => Ok((RawArg::Life(name.clone()), i + 1)),
        Token::Ident(name) => {
            if i + 1 < toks.len() && matches!(&toks[i + 1], Token::Equals) {
                match p_type(toks, i + 2) {
                    Ok((ty, j)) => Ok((RawArg::Binding { name: name.clone(), ty }, j)),
                    Err(e) => Err(e),
                }
            } else if i + 1 < toks.len() && matches!(&toks[i + 1], Token::Colon) {
                match p_bounds(toks, i + 2) {
                    Ok((bounds, j)) => Ok(
                        (RawArg::Constraint { name: name.clone(), bounds }, j),
                    ),
                    Err(e) => Err(e),
                }
            } else {
                match p_type(toks, i) {
                    Ok((ty, j)) => Ok((RawArg::Ty(ty), j)),
                    Err(e) => Err(e),
                }
            }
        },
        _ => match p_type(toks, i) {
            Ok((ty, j)) => Ok((RawArg::Ty(ty), j)),
            Err(e) => Err(e),
        },
    }
}

#[verifier::rlimit(60)]
fn p_type(toks: &Vec<Token>, i: usize) -> (r: Result<(RawType, usize), Error>)
    requires
        i <= toks@.len(),
    ensures
        match r {
            Ok(p) => i < p.1 <= toks@.len() && sp_type(view_tokens(toks@), i as int) == Some(
                (crate::syntax::view_raw_type(p.0), p.1 as int),
            ),
            Err(e) => e == Error::Parse && sp_type(view_tokens(toks@), i as int) is None,
        },
    decreases toks@.len() - i, 3int,
{
    if i >= toks.len() {
        return Err(Error::Parse);
    }
    if matches!(&toks[i], Token::Amp) {
        let (life, i1): (Option<String>, usize) = if i + 1 < toks.len() {
            match &toks[i + 1] {
                Token::Life(name) => (Some(name.clone()), i + 2),
                _ => (None, i + 1),
            }
        } else {
            (None, i + 1)
        };
        let (is_mut, i2): (bool, usize) = if i1 < toks.len() && matches!(
            &toks[i1],
            Token::KwMut,
        ) {
            (true, i1 + 1)
        } else {
            (false, i1)
        };
        match p_type(toks, i2) {
            Ok((inner, j)) => Ok(
                (RawType::Ref { is_mut, life, inner: Box::new(inner) }, j),
            ),
            Err(e) => Err(e),
        }
    } else if matches!(&toks[i], Token::LParen) {
        if i + 1 < toks.len() && matches!(&toks[i + 1], Token::RParen) {
            proof {
                assert(crate::syntax::view_seq_raw_type(Seq::<RawType>::empty()) =~= Seq::<
                    RawTypeV,
                >::empty());
            }
            Ok((RawType::Tup(Vec::new()), i + 2))
        } else {
            match p_type(toks, i + 1) {
                Ok((first, j)) => {
                    match p_tuple_rest(toks, j) {
                        Ok((mut rest, trailing, k)) => {
                            if rest.len() == 0 && !trailing {
                                proof {
                                    assert(crate::syntax::view_seq_raw_type(rest@) =~= Seq::<
                                        RawTypeV,
                                    >::empty());
                                }
                                Ok((first, k))
                            } else {
                                let ghost pre = rest@;
                                let ghost firstv = crate::syntax::view_raw_type(first);
                                rest.insert(0, first);
                                proof {
                                    assert(rest@.drop_first() =~= pre);
                                    assert(crate::syntax::view_raw_type(rest@[0]) == firstv);
                                    assert(crate::syntax::view_seq_raw_type(rest@) =~= seq![firstv]
                                        + crate::syntax::view_seq_raw_type(pre));
                                }
                                Ok((RawType::Tup(rest), k))
                            }
                        },
                        Err(e) => Err(e),
                    }
                },
                Err(e) => Err(e),
            }
        }
    } else if matches!(&toks[i], Token::KwDyn) {
        match p_bounds(toks, i + 1) {
            Ok((bounds, j)) => Ok((RawType::Dyn(bounds), j)),
            Err(e) => Err(e),
        }
    } else {
        match p_path(toks, i) {
            Ok((path, j)) => {
                if j <= i {
                    proof {
                        assert(false);
                    }
                    Err(Error::Parse)
                } else {
                    Ok((RawType::Named(path), j))
                }
            },
            Err(e) => Err(e),
        }
    }
}

fn p_tuple_rest(toks: &Vec<Token>, i: usize) -> (r: Result<(Vec<RawType>, bool, usize), Error>)
    requires
        i <= toks@.len(),
    ensures
        match r {
            Ok(p) => i < p.2 <= toks@.len() && sp_tuple_rest(view_tokens(toks@), i as int)
                == Some((crate::syntax::view_seq_raw_type(p.0@), p.1, p.2 as int)),
            Err(e) => e == Error::Parse && sp_tuple_rest(view_tokens(toks@), i as int) is None,
        },
    decreases toks@.len() - i, 9int,
{
    if i >= toks.len() {
        return Err(Error::Parse);
    }
    if matches!(&toks[i], Token::RParen) {
        proof {
            assert(crate::syntax::view_seq_raw_type(Seq::<RawType>::empty()) =~= Seq::<
                RawTypeV,
            >::empty());
        }
        Ok((Vec::new(), false, i + 1))
    } else if matches!(&toks[i], Token::Comma) {
        if i + 1 < toks.len() && matches!(&toks[i + 1], Token::RParen) {
            proof {
                assert(crate::syntax::view_seq_raw_type(Seq::<RawType>::empty()) =~= Seq::<
                    RawTypeV,
                >::empty());
            }
            Ok((Vec::new(), true, i + 2))
        } else {
            match p_type(toks, i + 1) {
                Ok((ty, j)) => {
                    match p_tuple_rest(toks, j) {
                        Ok((mut rest, trailing, k)) => {
                            let ghost pre = rest@;
                            let ghost tyv = crate::syntax::view_raw_type(ty);
                            rest.insert(0, ty);
                            proof {
                                assert(rest@.drop_first() =~= pre);
                                assert(crate::syntax::view_raw_type(rest@[0]) == tyv);
                                assert(crate::syntax::view_seq_raw_type(rest@) =~= seq![tyv]
                                    + crate::syntax::view_seq_raw_type(pre));
                            }
                            Ok((rest, trailing, k))
                        },
                        Err(e) => Err(e),
                    }
                },
                Err(e) => Err(e),
            }
        }
    } else {
        Err(Error::Parse)
    }
}

fn p_for_names(toks: &Vec<Token>, i: usize) -> (r: Result<(Vec<String>, usize), Error>)
    requires
        i <= toks@.len(),
    ensures
        match r {
            Ok(p) => i < p.1 <= toks@.len() && sp_for_names(view_tokens(toks@), i as int)
                == Some((crate::syntax::names_view(p.0@), p.1 as int)),
            Err(e) => e == Error::Parse && sp_for_names(view_tokens(toks@), i as int) is None,
        },
    decreases toks@.len() - i, 1int,
{
    if i >= toks.len() {
        return Err(Error::Parse);
    }
    if !matches!(&toks[i], Token::KwFor) {
        return Err(Error::Parse);
    }
    if !(i + 1 < toks.len() && matches!(&toks[i + 1], Token::Lt)) {
        return Err(Error::Parse);
    }
    p_for_items(toks, i + 2)
}

fn p_for_items(toks: &Vec<Token>, i: usize) -> (r: Result<(Vec<String>, usize), Error>)
    requires
        i <= toks@.len(),
    ensures
        match r {
            Ok(p) => i < p.1 <= toks@.len() && sp_for_items(view_tokens(toks@), i as int)
                == Some((crate::syntax::names_view(p.0@), p.1 as int)),
            Err(e) => e == Error::Parse && sp_for_items(view_tokens(toks@), i as int) is None,
        },
    decreases toks@.len() - i, 9int,
{
    if i >= toks.len() {
        return Err(Error::Parse);
    }
    match &toks[i] {
        Token::Life(name) => {
            if i + 1 < toks.len() && matches!(&toks[i + 1], Token::Gt) {
                let n = name.clone();
                let ghost nv = n@;
                let mut names: Vec<String> = Vec::new();
                names.push(n);
                proof {
                    assert(crate::syntax::names_view(names@) =~= seq![nv]);
                }
                Ok((names, i + 2))
            } else if i + 1 < toks.len() && matches!(&toks[i + 1], Token::Comma) {
                if i + 2 < toks.len() && matches!(&toks[i + 2], Token::Gt) {
                    let n = name.clone();
                    let ghost nv = n@;
                    let mut names: Vec<String> = Vec::new();
                    names.push(n);
                    proof {
                        assert(crate::syntax::names_view(names@) =~= seq![nv]);
                    }
                    Ok((names, i + 3))
                } else {
                    match p_for_items(toks, i + 2) {
                        Ok((mut rest, k)) => {
                            let ghost pre = rest@;
                            let n = name.clone();
                            let ghost nv = n@;
                            rest.insert(0, n);
                            proof {
                                assert(rest@.drop_first() =~= pre);
                                assert(crate::syntax::names_view(rest@) =~= seq![nv]
                                    + crate::syntax::names_view(pre));
                            }
                            Ok((rest, k))
                        },
                        Err(e) => Err(e),
                    }
                }
            } else {
                Err(Error::Parse)
            }
        },
        _ => Err(Error::Parse),
    }
}

fn p_bound(toks: &Vec<Token>, i: usize) -> (r: Result<(RawBound, usize), Error>)
    requires
        i <= toks@.len(),
    ensures
        match r {
            Ok(p) => i < p.1 <= toks@.len() && sp_bound(view_tokens(toks@), i as int) == Some(
                (crate::syntax::view_raw_bound(p.0), p.1 as int),
            ),
            Err(e) => e == Error::Parse && sp_bound(view_tokens(toks@), i as int) is None,
        },
    decreases toks@.len() - i, 5int,
{
    if i >= toks.len() {
        return Err(Error::Parse);
    }
    match &toks[i] {
        Token::Life(name) => Ok((RawBound::Life(name.clone()), i + 1)),
        Token::KwFor => match p_for_names(toks, i) {
            Ok((names, j)) => match p_path(toks, j) {
                Ok((path, k)) => Ok(
                    (RawBound::Trait { for_lifetimes: names, path }, k),
                ),
                Err(e) => Err(e),
            },
            Err(e) => Err(e),
        },
        _ => match p_path(toks, i) {
            Ok((path, j)) => {
                if j <= i {
                    proof {
                        assert(false);
                    }
                    Err(Error::Parse)
                } else {
                    proof {
                        assert(crate::syntax::names_view(Seq::<String>::empty()) =~= Seq::<
                            Seq<char>,
                        >::empty());
                    }
                    Ok(
                        (
                            RawBound::Trait { for_lifetimes: Vec::new(), path },
                            j,
                        ),
                    )
                }
            },
            Err(e) => Err(e),
        },
    }
}

fn p_bounds(toks: &Vec<Token>, i: usize) -> (r: Result<(Vec<RawBound>, usize), Error>)
    requires
        i <= toks@.len(),
    ensures
        match r {
            Ok(p) => i < p.1 <= toks@.len() && sp_bounds(view_tokens(toks@), i as int) == Some(
                (crate::syntax::view_seq_raw_bound(p.0@), p.1 as int),
            ),
            Err(e) => e == Error::Parse && sp_bounds(view_tokens(toks@), i as int) is None,
        },
    decreases toks@.len() - i, 6int,
{
    match p_bound(toks, i) {
        Ok((b, j)) => {
            if j < toks.len() && matches!(&toks[j], Token::Plus) {
                match p_bounds(toks, j + 1) {
                    Ok((mut rest, k)) => {
                        let ghost pre = rest@;
                        let ghost bv = crate::syntax::view_raw_bound(b);
                        rest.insert(0, b);
                        proof {
                            assert(rest@.drop_first() =~= pre);
                            assert(crate::syntax::view_raw_bound(rest@[0]) == bv);
                            assert(crate::syntax::view_seq_raw_bound(rest@) =~= seq![bv]
                                + crate::syntax::view_seq_raw_bound(pre));
                        }
                        Ok((rest, k))
                    },
                    Err(e) => Err(e),
                }
            } else {
                let ghost bv = crate::syntax::view_raw_bound(b);
                let mut bounds: Vec<RawBound> = Vec::new();
                bounds.push(b);
                proof {
                    assert(bounds@.drop_first() =~= Seq::<RawBound>::empty());
                    assert(crate::syntax::view_seq_raw_bound(Seq::<RawBound>::empty()) =~= Seq::<
                        RawBoundV,
                    >::empty());
                    assert(crate::syntax::view_raw_bound(bounds@[0]) == bv);
                    assert(crate::syntax::view_seq_raw_bound(bounds@) =~= seq![bv]);
                }
                Ok((bounds, j))
            }
        },
        Err(e) => Err(e),
    }
}

fn p_life_list(toks: &Vec<Token>, i: usize) -> (r: Result<(Vec<String>, usize), Error>)
    requires
        i <= toks@.len(),
    ensures
        match r {
            Ok(p) => i < p.1 <= toks@.len() && sp_life_list(view_tokens(toks@), i as int)
                == Some((crate::syntax::names_view(p.0@), p.1 as int)),
            Err(e) => e == Error::Parse && sp_life_list(view_tokens(toks@), i as int) is None,
        },
    decreases toks@.len() - i,
{
    if i >= toks.len() {
        return Err(Error::Parse);
    }
    match &toks[i] {
        Token::Life(name) => {
            if i + 1 < toks.len() && matches!(&toks[i + 1], Token::Plus) {
                match p_life_list(toks, i + 2) {
                    Ok((mut rest, k)) => {
                        let ghost pre = rest@;
                        let n = name.clone();
                        let ghost nv = n@;
                        rest.insert(0, n);
                        proof {
                            assert(rest@.drop_first() =~= pre);
                            assert(crate::syntax::names_view(rest@) =~= seq![nv]
                                + crate::syntax::names_view(pre));
                        }
                        Ok((rest, k))
                    },
                    Err(e) => Err(e),
                }
            } else {
                let n = name.clone();
                let ghost nv = n@;
                let mut names: Vec<String> = Vec::new();
                names.push(n);
                proof {
                    assert(crate::syntax::names_view(names@) =~= seq![nv]);
                }
                Ok((names, i + 1))
            }
        },
        _ => Err(Error::Parse),
    }
}

fn p_param(toks: &Vec<Token>, i: usize) -> (r: Result<(RawParam, usize), Error>)
    requires
        i <= toks@.len(),
    ensures
        match r {
            Ok(p) => i < p.1 <= toks@.len() && sp_param(view_tokens(toks@), i as int) == Some(
                (crate::syntax::view_raw_param(p.0), p.1 as int),
            ),
            Err(e) => e == Error::Parse && sp_param(view_tokens(toks@), i as int) is None,
        },
    decreases toks@.len() - i, 7int,
{
    if i >= toks.len() {
        return Err(Error::Parse);
    }
    match &toks[i] {
        Token::Life(name) => {
            if i + 1 < toks.len() && matches!(&toks[i + 1], Token::Colon) {
                match p_life_list(toks, i + 2) {
                    Ok((bounds, j)) => Ok(
                        (RawParam::Life { name: name.clone(), bounds }, j),
                    ),
                    Err(e) => Err(e),
                }
            } else {
                proof {
                    assert(crate::syntax::names_view(Seq::<String>::empty()) =~= Seq::<
                        Seq<char>,
                    >::empty());
                }
                Ok((RawParam::Life { name: name.clone(), bounds: Vec::new() }, i + 1))
            }
        },
        Token::Ident(name) => {
            if i + 1 < toks.len() && matches!(&toks[i + 1], Token::Colon) {
                match p_bounds(toks, i + 2) {
                    Ok((bounds, j)) => Ok(
                        (RawParam::Ty { name: name.clone(), bounds }, j),
                    ),
                    Err(e) => Err(e),
                }
            } else {
                proof {
                    assert(crate::syntax::view_seq_raw_bound(Seq::<RawBound>::empty()) =~= Seq::<
                        RawBoundV,
                    >::empty());
                }
                Ok((RawParam::Ty { name: name.clone(), bounds: Vec::new() }, i + 1))
            }
        },
        Token::KwConst => Ok((RawParam::ConstParam, toks.len())),
        _ => Err(Error::Parse),
    }
}

fn p_predicate(toks: &Vec<Token>, i: usize) -> (r: Result<(RawPredicate, usize), Error>)
    requires
        i <= toks@.len(),
    ensures
        match r {
            Ok(p) => i < p.1 <= toks@.len() && sp_predicate(view_tokens(toks@), i as int)
                == Some((crate::syntax::view_raw_predicate(p.0), p.1 as int)),
            Err(e) => e == Error::Parse && sp_predicate(view_tokens(toks@), i as int) is None,
        },
    decreases toks@.len() - i, 7int,
{
    if i >= toks.len() {
        return Err(Error::Parse);
    }
    match &toks[i] {
        Token::Life(name) => {
            if i + 1 < toks.len() && matches!(&toks[i + 1], Token::Colon) {
                match p_life_list(toks, i + 2) {
                    Ok((bounds, j)) => Ok(
                        (RawPredicate::Life { name: name.clone(), bounds }, j),
                    ),
                    Err(e) => Err(e),
                }
            } else {
                Err(Error::Parse)
            }
        },
        Token::KwFor => match p_for_names(toks, i) {
            Ok((names, j0)) => match p_type(toks, j0) {
                Ok((ty, j)) => {
                    if j >= toks.len() {
                        Err(Error::Parse)
                    } else if matches!(&toks[j], Token::Colon) {
                        match p_bounds(toks, j + 1) {
                            Ok((bounds, k)) => Ok(
                                (
                                    RawPredicate::Ty { for_lifetimes: names, ty, bounds },
                                    k,
                                ),
                            ),
                            Err(e) => Err(e),
                        }
                    } else {
                        Err(Error::Parse)
                    }
                },
                Err(e) => Err(e),
            },
            Err(e) => Err(e),
        },
        _ => match p_type(toks, i) {
            Ok((ty, j)) => {
                if j >= toks.len() {
                    Err(Error::Parse)
                } else if matches!(&toks[j], Token::Colon) {
                    match p_bounds(toks, j + 1) {
                        Ok((bounds, k)) => {
                            proof {
                                assert(crate::syntax::names_view(Seq::<String>::empty())
                                    =~= Seq::<Seq<char>>::empty());
                            }
                            Ok(
                                (
                                    RawPredicate::Ty {
                                        for_lifetimes: Vec::new(),
                                        ty,
                                        bounds,
                                    },
                                    k,
                                ),
                            )
                        },
                        Err(e) => Err(e),
                    }
                } else {
                    Err(Error::Parse)
                }
            },
            Err(e) => Err(e),
        },
    }
}

/// Parses one whole generic-parameter declaration.
pub fn parse_generic_param(text: &str) -> (r: Result<RawParam, Error>)
    ensures
        match r {
            Ok(p) => sp_param_full(text@) == Some(crate::syntax::view_raw_param(p)),
            Err(e) => e == Error::Parse && sp_param_full(text@) is None,
        },
{
    let toks = match tokenize(text) {
        Ok(toks) => toks,
        Err(e) => {
            return Err(e);
        },
    };
    match p_param(&toks, 0) {
        Ok((p, j)) => {
            if j == toks.len() {
                Ok(p)
            } else {
                Err(Error::Parse)
            }
        },
        Err(e) => Err(e),
    }
}

/// Parses one whole where-clause predicate.
pub fn parse_where_predicate(text: &str) -> (r: Result<RawPredicate, Error>)
    ensures
        match r {
            Ok(p) => sp_predicate_full(text@) == Some(crate::syntax::view_raw_predicate(p)),
            Err(e) => e == Error::Parse && sp_predicate_full(text@) is None,
        },
{
    let toks = match tokenize(text) {
        Ok(toks) => toks,
        Err(e) => {
            return Err(e);
        },
    };
    match p_predicate(&toks, 0) {
        Ok((p, j)) => {
            if j == toks.len() {
                Ok(p)
            } else {
                Err(Error::Parse)
            }
        },
        Err(e) => Err(e),
    }
}

/// Parses one whole bound.
pub fn parse_type_param_bound(text: &str) -> (r: Result<RawBound, Error>)
    ensures
        match r {
            Ok(b) => sp_bound_full(text@) == Some(crate::syntax::view_raw_bound(b)),
            Err(e) => e == Error::Parse && sp_bound_full(text@) is None,
        },
{
    let toks = match tokenize(text) {
        Ok(toks) => toks,
        Err(e) => {
            return Err(e);
        },
    };
    match p_bound(&toks, 0) {
        Ok((b, j)) => {
            if j == toks.len() {
                Ok(b)
            } else {
                Err(Error::Parse)
            }
        },
        Err(e) => Err(e),
    }
}

/// Parses one whole path segment, with optional generic arguments.
pub fn parse_path_segment(text: &str) -> (r: Result<RawSeg, Error>)
    ensures
        match r {
            Ok(seg) => sp_seg_full(text@) == Some(crate::syntax::view_raw_seg(seg)),
            Err(e) => e == Error::Parse && sp_seg_full(text@) is None,
        },
{
    let toks = match tokenize(text) {
        Ok(toks) => toks,
        Err(e) => {
            return Err(e);
        },
    };
    match p_seg(&toks, 0) {
        Ok((seg, j)) => {
            if j == toks.len() {
                Ok(seg)
            } else {
                Err(Error::Parse)
            }
        },
        Err(e) => Err(e),
    }
}

} // verus!
