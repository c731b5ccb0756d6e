//! Identifiers and opaque attribute annotations.

use vstd::prelude::*;

verus! {

/// A plain identifier: the name of a type, field, variant, path segment or
/// generic parameter, kept as it was given.
#[derive(PartialEq, Eq, Debug)]
pub struct Ident {
    pub name: String,
}

impl Ident {
    pub fn new(name: &str) -> (r: Ident)
        ensures
            r.name@ == name@,
    {
        Ident { name: name.to_owned() }
    }
}

impl Clone for Ident {
    fn clone(&self) -> (r: Self)
        ensures
            r == *self,
    {
        Ident { name: self.name.clone() }
    }
}

/// An attribute/annotation carried on a data shape. The representation keeps
/// it opaque: it is stored and handed back as it came, never interpreted.
#[derive(PartialEq, Eq, Debug)]
pub struct Attribute {
    pub text: String,
}

impl Attribute {
    pub fn new(text: &str) -> (r: Attribute)
        ensures
            r.text@ == text@,
    {
        Attribute { text: text.to_owned() }
    }
}

impl Clone for Attribute {
    fn clone(&self) -> (r: Self)
        ensures
            r == *self,
    {
        Attribute { text: self.text.clone() }
    }
}

/// Clones a list of attributes, value for value.
pub fn clone_attrs(attrs: &Vec<Attribute>) -> (r: Vec<Attribute>)
    ensures
        r@ == attrs@,
{
    let r = attrs.clone();
    proof {
        assert(r@ =~= attrs@);
    }
    r
}


/// Relies on String::push: appends exactly the one character to the end of
/// the string.
#[verifier::external_body]
pub fn push_char(s: &mut String, c: char)
    ensures
        final(s)@ == old(s)@.push(c),
{
    s.push(c)
}

/// The character for one decimal digit.
pub open spec fn digit_char(d: nat) -> char {
    if d == 0 {
        '0'
    } else if d == 1 {
        '1'
    } else if d == 2 {
        '2'
    } else if d == 3 {
        '3'
    } else if d == 4 {
        '4'
    } else if d == 5 {
        '5'
    } else if d == 6 {
        '6'
    } else if d == 7 {
        '7'
    } else if d == 8 {
        '8'
    } else {
        '9'
    }
}

/// The decimal spelling of a number, most significant digit first.
pub open spec fn dec_rep(n: nat) -> Seq<char>
    decreases n,
{
    if n < 10 {
        seq![digit_char(n)]
    } else {
        dec_rep(n / 10).push(digit_char(n % 10))
    }
}

fn digit_to_char(d: usize) -> (c: char)
    requires
        d < 10,
    ensures
        c == digit_char(d as nat),
{
    if d == 0 {
        '0'
    } else if d == 1 {
        '1'
    } else if d == 2 {
        '2'
    } else if d == 3 {
        '3'
    } else if d == 4 {
        '4'
    } else if d == 5 {
        '5'
    } else if d == 6 {
        '6'
    } else if d == 7 {
        '7'
    } else if d == 8 {
        '8'
    } else {
        '9'
    }
}

/// Appends the decimal spelling of `n` to `s`.
pub fn push_dec(s: &mut String, n: usize)
    ensures
        final(s)@ == old(s)@ + dec_rep(n as nat),
    decreases n,
{
    if n >= 10 {
        push_dec(s, n / 10);
        let c = digit_to_char(n % 10);
        push_char(s, c);
        proof {
            assert(final(s)@ =~= old(s)@ + dec_rep(n as nat));
        }
    } else {
        let c = digit_to_char(n);
        push_char(s, c);
        proof {
            assert(final(s)@ =~= old(s)@ + dec_rep(n as nat));
        }
    }
}

} // verus!
