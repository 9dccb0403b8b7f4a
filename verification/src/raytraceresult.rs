//! The tri-state outcome of a swept collision test, and the fold that
//! reduces many outcomes to the single most urgent one.

use vstd::prelude::*;

use crate::fx32::Fx32Small;
use crate::vec2::Vec2;
use crate::vec2::Vec2Small;

verus! {

/// Outcome of sweeping the particle against one primitive.
///
/// `Hit(t, pos, normal)`: the surface is reached at time fraction `t`
/// of this sub-step, at contact position `pos`, with outward normal
/// `normal`. `Pop(pos, normal)`: the particle already overlaps the
/// primitive; `pos` is the corrective position. `Miss`: no contact.
#[derive(Clone, Copy, PartialEq, Eq, Structural, Debug)]
pub enum Ray2TraceResult {
    Hit(Fx32Small, Vec2, Vec2Small),
    Pop(Vec2, Vec2Small),
    Miss,
}

/// The fold's precedence: a pop outranks everything, and of two hits
/// the one with the strictly smaller time fraction wins (ties keep
/// the right operand).
pub open spec fn fold_spec(a: Ray2TraceResult, b: Ray2TraceResult) -> Ray2TraceResult {
    match a {
        Ray2TraceResult::Miss => b,
        Ray2TraceResult::Hit(a_t, a_pos, a_n) => match b {
            Ray2TraceResult::Miss => a,
            Ray2TraceResult::Hit(b_t, b_pos, b_n) => if a_t.x.x < b_t.x.x {
                a
            } else {
                b
            },
            Ray2TraceResult::Pop(b_pos, b_n) => b,
        },
        Ray2TraceResult::Pop(a_pos, a_n) => a,
    }
}

/// Left fold of a sequence of outcomes, seeded with a miss.
pub open spec fn fold_results(s: Seq<Ray2TraceResult>) -> Ray2TraceResult
    decreases s.len(),
{
    if s.len() == 0 {
        Ray2TraceResult::Miss
    } else {
        fold_spec(fold_results(s.drop_last()), s.last())
    }
}

/// Outcomes the collision tests hand out: normals carry their
/// boundedness tags truthfully and hit fractions lie in [0, 1].
pub open spec fn result_wf(r: Ray2TraceResult) -> bool {
    match r {
        Ray2TraceResult::Miss => true,
        Ray2TraceResult::Hit(t, pos, n) => n.inv() && 0 <= t.x.x <= 65536,
        Ray2TraceResult::Pop(pos, n) => n.inv(),
    }
}

/// The time fraction of a hit outcome.
pub open spec fn hit_time(r: Ray2TraceResult) -> int
    recommends
        r is Hit,
{
    match r {
        Ray2TraceResult::Hit(t, pos, n) => t.x.x as int,
        _ => 0,
    }
}

impl Ray2TraceResult {
    /// Reduces two outcomes to the more urgent one.
    pub fn fold(a: Ray2TraceResult, b: Ray2TraceResult) -> (r: Ray2TraceResult)
        ensures
            r == fold_spec(a, b),
    {
        match a {
            Ray2TraceResult::Miss => b,
            Ray2TraceResult::Hit(a_t, a_pos, a_n) => match b {
                Ray2TraceResult::Miss => a,
                Ray2TraceResult::Hit(b_t, b_pos, b_n) => if a_t.x.x < b_t.x.x {
                    a
                } else {
                    b
                },
                Ray2TraceResult::Pop(b_pos, b_n) => b,
            },
            Ray2TraceResult::Pop(a_pos, a_n) => a,
        }
    }
}

/// Law: a miss never displaces anything: folding with a miss on
/// either side returns the other outcome unchanged.
pub proof fn lemma_fold_miss_identity(a: Ray2TraceResult)
    ensures
        fold_spec(a, Ray2TraceResult::Miss) == a,
        fold_spec(Ray2TraceResult::Miss, a) == a,
{
}

/// Law: a penetrating outcome anywhere in the sequence outranks every
/// surface hit, whatever the iteration order: the fold is a pop.
pub proof fn lemma_fold_pop_precedence(s: Seq<Ray2TraceResult>, i: int)
    requires
        0 <= i < s.len(),
        s[i] is Pop,
    ensures
        fold_results(s) is Pop,
    decreases s.len(),
{
    if i == s.len() - 1 {
    } else {
        lemma_fold_pop_precedence(s.drop_last(), i);
    }
}

/// Law: with a hit in the sequence, the fold is a pop or a hit no
/// later than that hit; a miss never displaces anything.
pub proof fn lemma_fold_hit_bound(s: Seq<Ray2TraceResult>, i: int)
    requires
        0 <= i < s.len(),
        s[i] is Hit,
    ensures
        fold_results(s) is Pop || (fold_results(s) is Hit && hit_time(fold_results(s)) <= hit_time(
            s[i],
        )),
    decreases s.len(),
{
    if i == s.len() - 1 {
    } else {
        lemma_fold_hit_bound(s.drop_last(), i);
    }
}

/// Law: the fold only ever returns one of the outcomes it was given
/// (or the miss seed).
pub proof fn lemma_fold_membership(s: Seq<Ray2TraceResult>)
    ensures
        fold_results(s) is Miss || exists|i: int| 0 <= i < s.len() && fold_results(s) == s[i],
    decreases s.len(),
{
    if s.len() > 0 {
        lemma_fold_membership(s.drop_last());
        let sub = fold_results(s.drop_last());
        let whole = fold_results(s);
        if whole == s.last() {
            assert(whole == s[s.len() - 1]);
        } else if !(sub is Miss) {
            let j = choose|i: int| 0 <= i < s.drop_last().len() && sub == s.drop_last()[i];
            if whole == sub {
                assert(whole == s[j]);
            }
        }
    }
}

} // verus!
