use vstd::prelude::*;

pub mod catch;

verus! {

/// The outcome of testing a hit object: hit, with some details, or missed.
#[derive(Debug, Clone, PartialEq, Eq, Hash, PartialOrd, Ord)]
pub enum JudgementResult<H> {
    Hit(H),
    Miss,
}

/// `out` is what `map_hit` may give for `r` and `f`: a hit carries what `f` may return
/// for the hit's details, a miss stays a miss.
pub open spec fn map_hit_result<H, T, F: FnOnce(H) -> T>(
    r: JudgementResult<H>,
    f: F,
    out: JudgementResult<T>,
) -> bool {
    match r {
        JudgementResult::Hit(h) => (out matches JudgementResult::Hit(t) && f.ensures((h,), t)),
        JudgementResult::Miss => out is Miss,
    }
}

/// `r` with the details of a hit transformed by the function `sf`.
pub open spec fn mapped<H, T>(r: JudgementResult<H>, sf: spec_fn(H) -> T) -> JudgementResult<T> {
    match r {
        JudgementResult::Hit(h) => JudgementResult::Hit(sf(h)),
        JudgementResult::Miss => JudgementResult::Miss,
    }
}

impl<H> JudgementResult<H> {
    /// Transforms the details of a hit with `f`; a miss stays a miss.
    pub fn map_hit<T, F: FnOnce(H) -> T>(self, f: F) -> (r: JudgementResult<T>)
        requires
            self matches JudgementResult::Hit(h) ==> f.requires((h,)),
        ensures
            map_hit_result(self, f, r),
    {
        match self {
            JudgementResult::Hit(h) => JudgementResult::Hit(f(h)),
            JudgementResult::Miss => JudgementResult::Miss,
        }
    }
}

/// A function that always returns `sf` of its argument gives, through `map_hit`, exactly
/// `mapped(r, sf)`.
pub proof fn lemma_map_hit_pure<H, T, F: FnOnce(H) -> T>(
    r: JudgementResult<H>,
    f: F,
    sf: spec_fn(H) -> T,
    out: JudgementResult<T>,
)
    requires
        forall|h: H, t: T| f.ensures((h,), t) ==> t == sf(h),
        map_hit_result(r, f, out),
    ensures
        out == mapped(r, sf),
{
}

/// Mapping a hit with a function that returns its argument unchanged gives back the same
/// result.
pub proof fn lemma_map_hit_identity<H, F: FnOnce(H) -> H>(
    r: JudgementResult<H>,
    f: F,
    out: JudgementResult<H>,
)
    requires
        forall|h: H, t: H| f.ensures((h,), t) ==> t == h,
        map_hit_result(r, f, out),
    ensures
        out == r,
{
}

/// Mapping with a pure `f` and then with a pure `g` gives the same as mapping once with
/// a function that computes `g(f(h))`.
pub proof fn lemma_map_hit_composition<H, T, U, F: FnOnce(H) -> T, G: FnOnce(T) -> U, FG: FnOnce(
    H,
) -> U>(
    r: JudgementResult<H>,
    f: F,
    g: G,
    fg: FG,
    sf: spec_fn(H) -> T,
    sg: spec_fn(T) -> U,
    mid: JudgementResult<T>,
    twice: JudgementResult<U>,
    once: JudgementResult<U>,
)
    requires
        forall|h: H, t: T| f.ensures((h,), t) ==> t == sf(h),
        forall|t: T, u: U| g.ensures((t,), u) ==> u == sg(t),
        forall|h: H, u: U| fg.ensures((h,), u) ==> u == sg(sf(h)),
        map_hit_result(r, f, mid),
        map_hit_result(mid, g, twice),
        map_hit_result(r, fg, once),
    ensures
        twice == once,
        once == mapped(r, |h: H| sg(sf(h))),
{
}

} // verus!
