//! Qualified paths: ordered name segments with optional generic arguments,
//! and a flag for a leading global qualifier.

use vstd::prelude::*;

use crate::generics::GenericArguments;
use crate::generics::GenericArgumentV;
use crate::generics::view_seq_arg;
use crate::ident::Ident;

verus! {

/// One segment of a path: a name, with the generic arguments applied to it.
#[derive(PartialEq, Eq, Debug)]
pub struct PathSegment {
    pub ident: Ident,
    pub args: GenericArguments,
}

/// A module-qualified name: its segments in order, and whether the path is
/// anchored at the crate root (`::a::b`) or relative.
#[derive(PartialEq, Eq, Debug)]
pub struct Path {
    pub global: bool,
    pub path: Vec<PathSegment>,
}

/// The mathematical value of a [`PathSegment`].
#[verifier::ext_equal]
pub struct PathSegmentV {
    pub ident: Seq<char>,
    pub args: Seq<GenericArgumentV>,
}

/// The mathematical value of a [`Path`].
#[verifier::ext_equal]
pub struct PathV {
    pub global: bool,
    pub segs: Seq<PathSegmentV>,
}

pub open spec fn view_seg(s: PathSegment) -> PathSegmentV
    decreases s,
{
    PathSegmentV { ident: s.ident.name@, args: view_seq_arg(s.args.args@) }
}

pub open spec fn view_seq_seg(s: Seq<PathSegment>) -> Seq<PathSegmentV>
    decreases s,
{
    if s.len() == 0 {
        Seq::empty()
    } else {
        seq![view_seg(s[0])] + view_seq_seg(s.drop_first())
    }
}

pub proof fn lemma_view_seq_seg(s: Seq<PathSegment>)
    ensures
        view_seq_seg(s).len() == s.len(),
        forall|i: int| 0 <= i < s.len() ==> view_seq_seg(s)[i] == view_seg(s[i]),
    decreases s,
{
    if s.len() > 0 {
        lemma_view_seq_seg(s.drop_first());
    }
}

pub open spec fn view_path(p: Path) -> PathV
    decreases p,
{
    PathV { global: p.global, segs: view_seq_seg(p.path@) }
}

impl View for PathSegment {
    type V = PathSegmentV;

    open spec fn view(&self) -> PathSegmentV {
        view_seg(*self)
    }
}

/// Clones a list of `PathSegment` values, element for element.
pub fn clone_segments(v: &Vec<PathSegment>) -> (r: Vec<PathSegment>)
    ensures
        view_seq_seg(r@) == view_seq_seg(v@),
    decreases v@,
{
    let mut r: Vec<PathSegment> = Vec::new();
    let mut i: usize = 0;
    while i < v.len()
        invariant
            i <= v@.len(),
            r@.len() == i,
            forall|j: int| 0 <= j < i ==> view_seg(#[trigger] r@[j]) == view_seg(v@[j]),
        decreases v@.len() - i,
    {
        let e = v[i].clone();
        r.push(e);
        i = i + 1;
    }
    proof {
        lemma_view_seq_seg(v@);
        lemma_view_seq_seg(r@);
        assert(view_seq_seg(r@) =~= view_seq_seg(v@));
    }
    r
}

impl Clone for PathSegment {
    fn clone(&self) -> (r: Self)
        ensures
            r@ == self@,
        decreases *self,
    {
        let args = crate::generics::clone_args(&self.args.args);
        PathSegment { ident: self.ident.clone(), args: GenericArguments { args } }
    }
}

impl Clone for Path {
    fn clone(&self) -> (r: Self)
        ensures
            r@ == self@,
        decreases *self,
    {
        let path = clone_segments(&self.path);
        Path { global: self.global, path }
    }
}

impl View for Path {
    type V = PathV;

    open spec fn view(&self) -> PathV {
        view_path(*self)
    }
}


/// Rewrites a list of path segments through the substitution map of a
/// fresh-generics clone.
pub fn fresh_segments(v: &Vec<PathSegment>, param_map: &crate::generics::ParamMap) -> (r: Vec<
    PathSegment,
>)
    requires
        crate::fresh::ok_seq_seg(param_map@, view_seq_seg(v@)),
    ensures
        view_seq_seg(r@) == crate::fresh::sub_seq_seg(param_map@, view_seq_seg(v@)),
    decreases v@,
{
    proof {
        lemma_view_seq_seg(v@);
        crate::fresh::lemma_ok_seq_seg(param_map@, view_seq_seg(v@));
    }
    let mut r: Vec<PathSegment> = Vec::new();
    let mut i: usize = 0;
    while i < v.len()
        invariant
            i <= v@.len(),
            r@.len() == i,
            crate::fresh::ok_seq_seg(param_map@, view_seq_seg(v@)),
            view_seq_seg(v@).len() == v@.len(),
            forall|j: int|
                0 <= j < v@.len() ==> view_seq_seg(v@)[j] == view_seg(#[trigger] v@[j]),
            forall|j: int|
                0 <= j < i ==> view_seg(#[trigger] r@[j]) == (PathSegmentV {
                    ident: view_seg(v@[j]).ident,
                    args: crate::fresh::sub_seq_arg(param_map@, view_seg(v@[j]).args),
                }),
        decreases v@.len() - i,
    {
        proof {
            crate::fresh::lemma_ok_seq_seg(param_map@, view_seq_seg(v@));
        }
        let seg = &v[i];
        let args = crate::generics::fresh_args(&seg.args.args, param_map);
        r.push(PathSegment { ident: seg.ident.clone(), args: GenericArguments { args } });
        i = i + 1;
    }
    proof {
        lemma_view_seq_seg(r@);
        crate::fresh::lemma_sub_seq_seg(param_map@, view_seq_seg(v@));
        assert(view_seq_seg(r@) =~= crate::fresh::sub_seq_seg(param_map@, view_seq_seg(v@)));
    }
    r
}

impl Path {
    /// Rewrites every symbol in this path through the substitution map of a
    /// fresh-generics clone.
    pub fn clone_with_fresh_generics(&self, param_map: &crate::generics::ParamMap) -> (r: Self)
        requires
            crate::fresh::ok_path(param_map@, self@),
        ensures
            r@ == crate::fresh::sub_path(param_map@, self@),
        decreases *self,
    {
        let path = fresh_segments(&self.path, param_map);
        Path { global: self.global, path }
    }
}

} // verus!
