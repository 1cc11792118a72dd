use vstd::prelude::*;

verus! {

/// An interpolation weight, as a function of the configured smoothing ratio `x`.
#[derive(Clone, Copy, Debug, PartialEq, Eq, Structural)]
pub enum Weight {
    /// `x`
    X,
    /// `1 - x`
    Xi,
    /// `x^2 - 2x + 1`
    Xpa,
    /// `-x^2 + 2x`
    Xpb,
}

/// A point of the smoothed segment, written over the three control points
/// `A`, `B`, `C`. `Lerp(p, q, w)` interpolates transform and age of `p` and `q`
/// with weight `w` (0 gives `p`, 1 gives `q`).
#[derive(Debug, PartialEq, Eq)]
pub enum Mix {
    A,
    B,
    C,
    Lerp(Box<Mix>, Box<Mix>, Weight),
}

pub open spec fn lerp(p: Mix, q: Mix, w: Weight) -> Mix {
    Mix::Lerp(Box::new(p), Box::new(q), w)
}

pub open spec fn a1() -> Mix { lerp(Mix::A, Mix::B, Weight::Xi) }
pub open spec fn b1() -> Mix { lerp(Mix::B, Mix::C, Weight::X) }
pub open spec fn a2() -> Mix { lerp(Mix::A, Mix::B, Weight::Xpa) }
pub open spec fn b2() -> Mix { lerp(Mix::B, Mix::C, Weight::Xpb) }
pub open spec fn a11() -> Mix { lerp(a1(), b1(), Weight::X) }
pub open spec fn b11() -> Mix { lerp(a1(), b1(), Weight::Xi) }
pub open spec fn a12() -> Mix { lerp(a1(), b1(), Weight::Xpb) }
pub open spec fn b12() -> Mix { lerp(a1(), b1(), Weight::Xpa) }
pub open spec fn a121() -> Mix { lerp(a11(), a2(), Weight::X) }
pub open spec fn b121() -> Mix { lerp(b11(), b2(), Weight::X) }

/// The points that corner cutting puts in place of `B` at refinement depth `depth`.
/// Depths past 3 give nothing.
pub open spec fn chaikin_terms(depth: int) -> Seq<Mix> {
    if depth == 0 {
        seq![Mix::B]
    } else if depth == 1 {
        seq![a1(), b1()]
    } else if depth == 2 {
        seq![a2(), a11(), b11(), b2()]
    } else if depth == 3 {
        seq![a2(), a121(), a12(), b12(), b121(), b2()]
    } else {
        Seq::empty()
    }
}

/// How many stored points each backbone segment may account for at a given depth.
pub open spec fn size_multiplier(depth: int) -> int {
    if depth == 1 {
        2
    } else if depth == 2 {
        4
    } else if depth == 3 {
        6
    } else {
        1
    }
}

fn mix_lerp(p: Mix, q: Mix, w: Weight) -> (r: Mix)
    ensures
        r == lerp(p, q, w),
{
    Mix::Lerp(Box::new(p), Box::new(q), w)
}

fn mix_a1() -> (r: Mix)
    ensures
        r == a1(),
{
    mix_lerp(Mix::A, Mix::B, Weight::Xi)
}

fn mix_b1() -> (r: Mix)
    ensures
        r == b1(),
{
    mix_lerp(Mix::B, Mix::C, Weight::X)
}

fn mix_a2() -> (r: Mix)
    ensures
        r == a2(),
{
    mix_lerp(Mix::A, Mix::B, Weight::Xpa)
}

fn mix_b2() -> (r: Mix)
    ensures
        r == b2(),
{
    mix_lerp(Mix::B, Mix::C, Weight::Xpb)
}

fn mix_level1(w: Weight) -> (r: Mix)
    ensures
        r == lerp(a1(), b1(), w),
{
    mix_lerp(mix_a1(), mix_b1(), w)
}

/// The smoothed points for control points `A`, `B`, `C` at refinement depth
/// `depth`, in order.
pub fn chaikin(depth: u32) -> (r: Vec<Mix>)
    ensures
        r@ == chaikin_terms(depth as int),
{
    if depth == 0 {
        return vec![Mix::B];
    }
    if depth == 1 {
        return vec![mix_a1(), mix_b1()];
    }
    if depth == 2 {
        return vec![mix_a2(), mix_level1(Weight::X), mix_level1(Weight::Xi), mix_b2()];
    }
    if depth == 3 {
        let a121 = mix_lerp(mix_level1(Weight::X), mix_a2(), Weight::X);
        let b121 = mix_lerp(mix_level1(Weight::Xi), mix_b2(), Weight::X);
        let r = vec![
            mix_a2(),
            a121,
            mix_level1(Weight::Xpb),
            mix_level1(Weight::Xpa),
            b121,
            mix_b2(),
        ];
        assert(r@ =~= chaikin_terms(3));
        return r;
    }
    Vec::new()
}

/// Executable form of `size_multiplier`.
pub fn multiplier(depth: u32) -> (r: u64)
    ensures
        r == size_multiplier(depth as int),
{
    match depth {
        1 => 2,
        2 => 4,
        3 => 6,
        _ => 1,
    }
}

} // verus!
