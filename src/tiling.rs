//! Repeated substitution of a working set of triangles.
use vstd::prelude::*;
use crate::triangle::RobinsonTriangle;

verus! {

/// `2^n`.
pub open spec fn two_pow(n: nat) -> nat
    decreases n,
{
    if n == 0 { 1 } else { 2 * two_pow((n - 1) as nat) }
}

/// Every triangle of `s` has a whole rotation in `[0, TURN)`.
pub open spec fn all_wf(s: Seq<RobinsonTriangle>) -> bool {
    forall|i: int| 0 <= i < s.len() ==> (#[trigger] s[i]).wf()
}

/// `out` replaces each triangle of `s`, in order, by its two children.
pub open spec fn is_refinement(s: Seq<RobinsonTriangle>, out: Seq<RobinsonTriangle>) -> bool {
    &&& out.len() == 2 * s.len()
    &&& forall|i: int| 0 <= i < s.len() ==> {
        &&& (#[trigger] s[i]).is_first_child(out[2 * i])
        &&& s[i].is_second_child(out[2 * i + 1])
    }
}

/// `out` is the working set after `n` generations from `seed`.
pub open spec fn generated(seed: Seq<RobinsonTriangle>, n: nat, out: Seq<RobinsonTriangle>) -> bool
    decreases n,
{
    if n == 0 {
        out == seed
    } else {
        exists|mid: Seq<RobinsonTriangle>| generated(seed, (n - 1) as nat, mid) && #[trigger] is_refinement(mid, out)
    }
}

/// Each generation doubles the working set: after `n` generations it holds
/// `2^n` triangles for each triangle of the seed.
pub proof fn lemma_generated_len(seed: Seq<RobinsonTriangle>, n: nat, out: Seq<RobinsonTriangle>)
    requires
        generated(seed, n, out),
    ensures
        out.len() == seed.len() * two_pow(n),
    decreases n,
{
    if n > 0 {
        let mid = choose|mid: Seq<RobinsonTriangle>|
            generated(seed, (n - 1) as nat, mid) && #[trigger] is_refinement(mid, out);
        lemma_generated_len(seed, (n - 1) as nat, mid);
        assert(out.len() == seed.len() * two_pow(n)) by (nonlinear_arith)
            requires
                out.len() == 2 * mid.len(),
                mid.len() == seed.len() * two_pow((n - 1) as nat),
                two_pow(n) == 2 * two_pow((n - 1) as nat),
        ;
    } else {
        assert(two_pow(0) == 1);
        assert(out.len() == seed.len() * 1);
    }
}

/// Some triangle of `s` cannot be decomposed within the machine types.
pub open spec fn some_overflows(s: Seq<RobinsonTriangle>) -> bool {
    exists|i: int| 0 <= i < s.len() && !(#[trigger] s[i]).decompose_fits()
}

/// One generation: each triangle, in order, replaced by its two children.
/// `None` exactly when some triangle cannot be decomposed.
pub fn refine(tiles: &Vec<RobinsonTriangle>) -> (r: Option<Vec<RobinsonTriangle>>)
    requires
        all_wf(tiles@),
    ensures
        r is Some <==> !some_overflows(tiles@),
        r matches Some(out) ==> is_refinement(tiles@, out@) && all_wf(out@),
{
    let mut out: Vec<RobinsonTriangle> = Vec::new();
    let mut i: usize = 0;
    while i < tiles.len()
        invariant
            i <= tiles.len(),
            all_wf(tiles@),
            out.len() == 2 * i,
            all_wf(out@),
            forall|j: int| 0 <= j < i ==> {
                &&& (#[trigger] tiles@[j]).is_first_child(out@[2 * j])
                &&& tiles@[j].is_second_child(out@[2 * j + 1])
            },
            forall|j: int| 0 <= j < i ==> (#[trigger] tiles@[j]).decompose_fits(),
        decreases tiles.len() - i,
    {
        let t = &tiles[i];
        match t.decompose() {
            None => {
                assert(!tiles@[i as int].decompose_fits());
                return None;
            },
            Some((a, b)) => {
                out.push(a);
                out.push(b);
                i = i + 1;
            },
        }
    }
    Some(out)
}

/// The working set after `generations` rounds of substitution from `seed`;
/// `None` when some round meets a triangle that cannot be decomposed.
pub fn generate(seed: &Vec<RobinsonTriangle>, generations: u32) -> (r: Option<Vec<RobinsonTriangle>>)
    requires
        all_wf(seed@),
    ensures
        r matches Some(out) ==> generated(seed@, generations as nat, out@),
        r matches Some(out) ==> out.len() == seed.len() * two_pow(generations as nat),
        r is None ==> exists|g: nat, mid: Seq<RobinsonTriangle>|
            g < generations && #[trigger] generated(seed@, g, mid) && some_overflows(mid),
{
    let mut cur: Vec<RobinsonTriangle> = seed.clone();
    assert(cur@ == seed@);
    assert(two_pow(0) == 1);
    assert(cur.len() == seed.len() * two_pow(0));
    let mut g: u32 = 0;
    while g < generations
        invariant
            g <= generations,
            all_wf(cur@),
            generated(seed@, g as nat, cur@),
            cur.len() == seed.len() * two_pow(g as nat),
        decreases generations - g,
    {
        match refine(&cur) {
            None => {
                assert(generated(seed@, g as nat, cur@) && some_overflows(cur@));
                return None;
            },
            Some(next) => {
                assert(generated(seed@, (g + 1) as nat, next@));
                assert(next.len() == seed.len() * two_pow((g + 1) as nat)) by (nonlinear_arith)
                    requires
                        next.len() == 2 * cur.len(),
                        cur.len() == seed.len() * two_pow(g as nat),
                        two_pow((g + 1) as nat) == 2 * two_pow(g as nat),
                ;
                cur = next;
                g = g + 1;
            },
        }
    }
    Some(cur)
}

} // verus!
