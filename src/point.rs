//! Exact points of the plane.
//!
//! A point is the complex number `c0 + c1·z + ... + c7·z^7` with integer
//! coefficients, where `z = e^(iπ/10)` is a primitive 20th root of unity.
//! Every vertex a Robinson substitution can reach from a seed at the origin
//! lies in this ring: all edge directions are multiples of π/10 and every leg
//! length is a power of `1/φ`, and `1/φ = z^4 - z^6` belongs to the ring.
//! Since `z^8 = z^6 - z^4 + z^2 - 1`, eight coefficients suffice and the
//! representation is unique.
use vstd::prelude::*;

verus! {

/// Number of angle units (of π/10 each) in a full turn.
pub const TURN: u32 = 20;

/// A point of the plane, exactly, as coefficients over the powers of `z`.
#[derive(Clone, Copy, Debug, PartialEq, Eq)]
pub struct Point {
    c: [i64; 8],
}

/// True when every coefficient of `s` can be held in an `i64`.
pub open spec fn fits(s: Seq<int>) -> bool {
    s.len() == 8 && forall|i: int| 0 <= i < 8 ==> i64::MIN <= #[trigger] s[i] <= i64::MAX
}

/// The sum of two points.
pub open spec fn sum(a: Seq<int>, b: Seq<int>) -> Seq<int> {
    Seq::new(8, |i: int| a[i] + b[i])
}

/// The point `a` turned by one angle unit (π/10) about the origin: `z·a`.
pub open spec fn turned(a: Seq<int>) -> Seq<int> {
    seq![-a[7], a[0], a[1] + a[7], a[2], a[3] - a[7], a[4], a[5] + a[7], a[6]]
}

/// The point `a` scaled by `1/φ`, that is `(z^4 - z^6)·a`.
pub open spec fn shrunk(a: Seq<int>) -> Seq<int> {
    seq![
        a[2] - a[6],
        a[3] - a[7],
        a[4] + a[6] - a[2],
        a[5] + a[7] - a[3],
        a[0] + a[2] - a[4],
        a[1] + a[3] - a[5],
        a[4] - a[0],
        a[5] - a[1],
    ]
}

/// The basis vector `z^k` for `k < 8`.
pub open spec fn basis(k: nat) -> Seq<int> {
    Seq::new(8, |i: int| if i == k { 1int } else { 0int })
}

/// The negation of a point.
pub open spec fn negated(a: Seq<int>) -> Seq<int> {
    Seq::new(8, |i: int| -a[i])
}

/// The unit vector `z^k` for `k < 10`.
pub open spec fn low_unit(k: nat) -> Seq<int> {
    if k < 8 {
        basis(k)
    } else if k == 8 {
        seq![-1, 0, 1, 0, -1, 0, 1, 0]
    } else {
        seq![0, -1, 0, 1, 0, -1, 0, 1]
    }
}

/// The unit vector at angle `k·π/10`, that is `z^k`, for `k < 20`
/// (using `z^10 = -1`).
pub open spec fn unit(k: nat) -> Seq<int> {
    if k < 10 {
        low_unit(k)
    } else if k < 20 {
        negated(low_unit((k - 10) as nat))
    } else {
        basis(0)
    }
}

/// The zero vector.
pub open spec fn zero() -> Seq<int> {
    Seq::new(8, |i: int| 0int)
}

/// The vector of length `φ^-level` at angle `dir·π/10`.
pub open spec fn leg_vector(level: nat, dir: nat) -> Seq<int>
    decreases level,
{
    if level == 0 {
        unit(dir)
    } else {
        shrunk(leg_vector((level - 1) as nat, dir))
    }
}

/// True when the vector of every level up to `level` can be held in `i64`s.
pub open spec fn leg_vector_fits(level: nat, dir: nat) -> bool {
    forall|j: nat| j <= level ==> fits(#[trigger] leg_vector(j, dir))
}

/// The coefficients of `s` as integers.
pub open spec fn wide(s: [i128; 8]) -> Seq<int> {
    s@.map_values(|x: i128| x as int)
}

impl Point {
    pub closed spec fn view(&self) -> Seq<int> {
        self.c@.map_values(|x: i64| x as int)
    }

    /// The point with the given coefficients.
    pub fn new(c: [i64; 8]) -> (r: Point)
        ensures
            r@ == c@.map_values(|x: i64| x as int),
    {
        Point { c }
    }

    /// The origin.
    pub fn origin() -> (r: Point)
        ensures
            r@ == Seq::new(8, |i: int| 0int),
    {
        let r = Point { c: [0, 0, 0, 0, 0, 0, 0, 0] };
        assert(r@ =~= Seq::new(8, |i: int| 0int));
        r
    }

    /// The coefficients of the point.
    pub fn coefficients(&self) -> (r: [i64; 8])
        ensures
            r@.map_values(|x: i64| x as int) == self@,
    {
        self.c
    }

    /// The unit vector at angle `k·π/10`.
    pub fn unit(k: u32) -> (r: Point)
        requires
            k < TURN,
        ensures
            r@ == unit(k as nat),
    {
        let (c, flip): ([i64; 8], bool) = if k < 10 { (Point::low_unit(k), false) } else { (Point::low_unit(k - 10), true) };
        if flip {
            let r = Point { c: [-c[0], -c[1], -c[2], -c[3], -c[4], -c[5], -c[6], -c[7]] };
            assert(r@ =~= negated(low_unit((k - 10) as nat)));
            r
        } else {
            Point { c }
        }
    }

    /// The coefficients of `z^k` for `k < 10`.
    fn low_unit(k: u32) -> (c: [i64; 8])
        requires
            k < 10,
        ensures
            c@.map_values(|x: i64| x as int) == unit(k as nat),
            forall|i: int| 0 <= i < 8 ==> -1 <= #[trigger] c@[i] <= 1,
    {
        if k == 0 {
            let c: [i64; 8] = [1, 0, 0, 0, 0, 0, 0, 0];
            assert(c@.map_values(|x: i64| x as int) =~= unit(0));
            c
        } else if k == 1 {
            let c: [i64; 8] = [0, 1, 0, 0, 0, 0, 0, 0];
            assert(c@.map_values(|x: i64| x as int) =~= unit(1));
            c
        } else if k == 2 {
            let c: [i64; 8] = [0, 0, 1, 0, 0, 0, 0, 0];
            assert(c@.map_values(|x: i64| x as int) =~= unit(2));
            c
        } else if k == 3 {
            let c: [i64; 8] = [0, 0, 0, 1, 0, 0, 0, 0];
            assert(c@.map_values(|x: i64| x as int) =~= unit(3));
            c
        } else if k == 4 {
            let c: [i64; 8] = [0, 0, 0, 0, 1, 0, 0, 0];
            assert(c@.map_values(|x: i64| x as int) =~= unit(4));
            c
        } else if k == 5 {
            let c: [i64; 8] = [0, 0, 0, 0, 0, 1, 0, 0];
            assert(c@.map_values(|x: i64| x as int) =~= unit(5));
            c
        } else if k == 6 {
            let c: [i64; 8] = [0, 0, 0, 0, 0, 0, 1, 0];
            assert(c@.map_values(|x: i64| x as int) =~= unit(6));
            c
        } else if k == 7 {
            let c: [i64; 8] = [0, 0, 0, 0, 0, 0, 0, 1];
            assert(c@.map_values(|x: i64| x as int) =~= unit(7));
            c
        } else if k == 8 {
            let c: [i64; 8] = [-1, 0, 1, 0, -1, 0, 1, 0];
            assert(c@.map_values(|x: i64| x as int) =~= unit(8));
            c
        } else {
            let c: [i64; 8] = [0, -1, 0, 1, 0, -1, 0, 1];
            assert(c@.map_values(|x: i64| x as int) =~= unit(9));
            c
        }
    }

    /// Two points with the same coefficients are the same point.
    pub proof fn lemma_view_injective(&self, o: Point)
        requires
            self@ == o@,
        ensures
            *self == o,
    {
        assert forall|i: int| 0 <= i < 8 implies self.c@[i] == o.c@[i] by {
            assert(self@[i] == self.c@[i] as int);
            assert(o@[i] == o.c@[i] as int);
        }
        assert(self.c@ =~= o.c@);
        assert(self.c =~= o.c);
    }

    /// Every point's coefficients fit in `i64`s.
    pub proof fn lemma_fits(&self)
        ensures
            fits(self@),
    {
    }

    /// The vector of length `φ^-level` at angle `dir·π/10`, if every step of
    /// its computation fits.
    pub fn leg(level: u32, dir: u32) -> (r: Option<Point>)
        requires
            dir < TURN,
        ensures
            r is Some <==> leg_vector_fits(level as nat, dir as nat),
            r matches Some(p) ==> p@ == leg_vector(level as nat, dir as nat),
    {
        let mut v = Point::unit(dir);
        let mut i: u32 = 0;
        proof {
            v.lemma_fits();
        }
        while i < level
            invariant
                i <= level,
                dir < TURN,
                v@ == leg_vector(i as nat, dir as nat),
                forall|j: nat| j <= i ==> fits(#[trigger] leg_vector(j, dir as nat)),
            decreases level - i,
        {
            match v.shrink() {
                None => {
                    assert(!fits(leg_vector((i + 1) as nat, dir as nat)));
                    return None;
                },
                Some(w) => {
                    proof {
                        w.lemma_fits();
                        assert(leg_vector((i + 1) as nat, dir as nat) == shrunk(leg_vector(i as nat, dir as nat)));
                    }
                    v = w;
                    i = i + 1;
                },
            }
        }
        Some(v)
    }

    /// The point with the given wide coefficients, if each fits in an `i64`.
    fn narrow(s: [i128; 8]) -> (r: Option<Point>)
        ensures
            r is Some <==> fits(wide(s)),
            r matches Some(p) ==> p@ == wide(s),
    {
        let lo = i64::MIN as i128;
        let hi = i64::MAX as i128;
        let mut i: usize = 0;
        while i < 8
            invariant
                0 <= i <= 8,
                lo == i64::MIN,
                hi == i64::MAX,
                forall|j: int| 0 <= j < i ==> lo <= #[trigger] s[j] <= hi,
            decreases 8 - i,
        {
            let x = s[i];
            if x < lo || x > hi {
                assert(x == s@[i as int]);
                assert(lo == i64::MIN && hi == i64::MAX);
                assert(wide(s)[i as int] == x as int);
                assert(!(i64::MIN <= wide(s)[i as int] <= i64::MAX));
                return None;
            }
            i = i + 1;
        }
        let p = Point {
            c: [
                s[0] as i64,
                s[1] as i64,
                s[2] as i64,
                s[3] as i64,
                s[4] as i64,
                s[5] as i64,
                s[6] as i64,
                s[7] as i64,
            ],
        };
        assert(p@ =~= wide(s));
        assert(forall|j: int| 0 <= j < 8 ==> wide(s)[j] == s[j] as int);
        Some(p)
    }

    /// The sum of two points, if it fits.
    pub fn add(&self, o: &Point) -> (r: Option<Point>)
        ensures
            r is Some <==> fits(sum(self@, o@)),
            r matches Some(p) ==> p@ == sum(self@, o@),
    {
        let a = &self.c;
        let b = &o.c;
        let s: [i128; 8] = [
            a[0] as i128 + b[0] as i128,
            a[1] as i128 + b[1] as i128,
            a[2] as i128 + b[2] as i128,
            a[3] as i128 + b[3] as i128,
            a[4] as i128 + b[4] as i128,
            a[5] as i128 + b[5] as i128,
            a[6] as i128 + b[6] as i128,
            a[7] as i128 + b[7] as i128,
        ];
        assert(wide(s) =~= sum(self@, o@));
        Point::narrow(s)
    }

    /// The point scaled by `1/φ`, if it fits.
    pub fn shrink(&self) -> (r: Option<Point>)
        ensures
            r is Some <==> fits(shrunk(self@)),
            r matches Some(p) ==> p@ == shrunk(self@),
    {
        let a = &self.c;
        let s: [i128; 8] = [
            a[2] as i128 - a[6] as i128,
            a[3] as i128 - a[7] as i128,
            a[4] as i128 + a[6] as i128 - a[2] as i128,
            a[5] as i128 + a[7] as i128 - a[3] as i128,
            a[0] as i128 + a[2] as i128 - a[4] as i128,
            a[1] as i128 + a[3] as i128 - a[5] as i128,
            a[4] as i128 - a[0] as i128,
            a[5] as i128 - a[1] as i128,
        ];
        assert(wide(s) =~= shrunk(self@));
        Point::narrow(s)
    }
}


/// Every leg vector has eight coefficients.
pub proof fn lemma_leg_len(n: nat, d: nat)
    ensures
        leg_vector(n, d).len() == 8,
    decreases n,
{
    if n > 0 {
        lemma_leg_len((n - 1) as nat, d);
    }
}

/// Turning the unit vector `z^d` by one unit gives `z^(d+1)`.
pub proof fn lemma_unit_turn(d: nat)
    requires
        d < 20,
    ensures
        unit((d + 1) % 20) == turned(unit(d)),
{
    if d == 0 {
        assert(unit(1) =~= turned(unit(0)));
    } else if d == 1 {
        assert(unit(2) =~= turned(unit(1)));
    } else if d == 2 {
        assert(unit(3) =~= turned(unit(2)));
    } else if d == 3 {
        assert(unit(4) =~= turned(unit(3)));
    } else if d == 4 {
        assert(unit(5) =~= turned(unit(4)));
    } else if d == 5 {
        assert(unit(6) =~= turned(unit(5)));
    } else if d == 6 {
        assert(unit(7) =~= turned(unit(6)));
    } else if d == 7 {
        assert(unit(8) =~= turned(unit(7)));
    } else if d == 8 {
        assert(unit(9) =~= turned(unit(8)));
    } else if d == 9 {
        assert(unit(10) =~= turned(unit(9)));
    } else if d == 10 {
        assert(unit(11) =~= turned(unit(10)));
    } else if d == 11 {
        assert(unit(12) =~= turned(unit(11)));
    } else if d == 12 {
        assert(unit(13) =~= turned(unit(12)));
    } else if d == 13 {
        assert(unit(14) =~= turned(unit(13)));
    } else if d == 14 {
        assert(unit(15) =~= turned(unit(14)));
    } else if d == 15 {
        assert(unit(16) =~= turned(unit(15)));
    } else if d == 16 {
        assert(unit(17) =~= turned(unit(16)));
    } else if d == 17 {
        assert(unit(18) =~= turned(unit(17)));
    } else if d == 18 {
        assert(unit(19) =~= turned(unit(18)));
    } else if d == 19 {
        assert(unit(0) =~= turned(unit(19)));
    }
}

/// Turning and scaling by `1/φ` commute.
pub proof fn lemma_shrunk_turned(a: Seq<int>)
    requires
        a.len() == 8,
    ensures
        shrunk(turned(a)) == turned(shrunk(a)),
{
    assert(shrunk(turned(a)) =~= turned(shrunk(a)));
}

/// Turning distributes over sums.
pub proof fn lemma_turned_sum(a: Seq<int>, b: Seq<int>)
    requires
        a.len() == 8,
        b.len() == 8,
    ensures
        turned(sum(a, b)) == sum(turned(a), turned(b)),
{
    assert(turned(sum(a, b)) =~= sum(turned(a), turned(b)));
}

/// Scaling by `1/φ` distributes over sums.
pub proof fn lemma_shrunk_sum(a: Seq<int>, b: Seq<int>)
    requires
        a.len() == 8,
        b.len() == 8,
    ensures
        shrunk(sum(a, b)) == sum(shrunk(a), shrunk(b)),
{
    assert(shrunk(sum(a, b)) =~= sum(shrunk(a), shrunk(b)));
}

/// A leg vector turned by one unit is the leg vector one unit further on.
pub proof fn lemma_leg_turn(n: nat, d: nat)
    requires
        d < 20,
    ensures
        leg_vector(n, (d + 1) % 20) == turned(leg_vector(n, d)),
    decreases n,
{
    if n == 0 {
        lemma_unit_turn(d);
    } else {
        lemma_leg_turn((n - 1) as nat, d);
        lemma_leg_len((n - 1) as nat, d);
        lemma_shrunk_turned(leg_vector((n - 1) as nat, d));
    }
}

/// Two opposite leg vectors of one level cancel.
pub proof fn lemma_leg_opposite(n: nat, d: nat)
    requires
        d < 20,
    ensures
        sum(leg_vector(n, d), leg_vector(n, (d + 10) % 20)) == zero(),
    decreases n,
{
    if n == 0 {
        if d < 10 {
            assert(sum(unit(d), unit(d + 10)) =~= zero());
        } else {
            assert(sum(unit(d), unit((d - 10) as nat)) =~= zero());
        }
    } else {
        let m = (n - 1) as nat;
        lemma_leg_opposite(m, d);
        lemma_leg_len(m, d);
        lemma_leg_len(m, (d + 10) % 20);
        lemma_shrunk_sum(leg_vector(m, d), leg_vector(m, (d + 10) % 20));
        assert(shrunk(zero()) =~= zero());
    }
}

proof fn lemma_mod_succ(x: nat)
    ensures
        (x % 20 + 1) % 20 == (x + 1) % 20,
        x % 20 < 20,
{
}

/// A relation `leg(i, a) + leg(j, b) == leg(k, c)` among leg vectors keeps
/// holding when all three are turned by `r` units.
pub proof fn lemma_identity_turn(i: nat, a: nat, j: nat, b: nat, k: nat, c: nat, r: nat)
    requires
        a < 20,
        b < 20,
        c < 20,
        sum(leg_vector(i, a), leg_vector(j, b)) == leg_vector(k, c),
    ensures
        sum(leg_vector(i, (a + r) % 20), leg_vector(j, (b + r) % 20)) == leg_vector(k, (c + r) % 20),
    decreases r,
{
    if r > 0 {
        let q = (r - 1) as nat;
        lemma_identity_turn(i, a, j, b, k, c, q);
        let (a1, b1, c1) = ((a + q) % 20, (b + q) % 20, (c + q) % 20);
        lemma_mod_succ(a + q);
        lemma_mod_succ(b + q);
        lemma_mod_succ(c + q);
        lemma_leg_turn(i, a1);
        lemma_leg_turn(j, b1);
        lemma_leg_turn(k, c1);
        lemma_leg_len(i, a1);
        lemma_leg_len(j, b1);
        lemma_turned_sum(leg_vector(i, a1), leg_vector(j, b1));
    }
}

/// A relation `leg(i, a) + leg(j, b) == leg(k, c)` among leg vectors keeps
/// holding when all three are scaled by `φ^-n`.
pub proof fn lemma_identity_scale(i: nat, a: nat, j: nat, b: nat, k: nat, c: nat, n: nat)
    requires
        sum(leg_vector(i, a), leg_vector(j, b)) == leg_vector(k, c),
    ensures
        sum(leg_vector(n + i, a), leg_vector(n + j, b)) == leg_vector(n + k, c),
    decreases n,
{
    if n > 0 {
        let m = (n - 1) as nat;
        lemma_identity_scale(i, a, j, b, k, c, m);
        lemma_leg_len(m + i, a);
        lemma_leg_len(m + j, b);
        lemma_shrunk_sum(leg_vector(m + i, a), leg_vector(m + j, b));
        assert(leg_vector(n + i, a) == shrunk(leg_vector(m + i, a)));
        assert(leg_vector(n + j, b) == shrunk(leg_vector(m + j, b)));
        assert(leg_vector(n + k, c) == shrunk(leg_vector(m + k, c)));
    }
}


/// The relations among the legs of a parent and of its children, at the
/// first level and with the altitude along the reference direction.
pub proof fn lemma_base_identities()
    ensures
        sum(leg_vector(1, 19), leg_vector(1, 3)) == leg_vector(0, 1),
        sum(leg_vector(0, 1), leg_vector(1, 15)) == leg_vector(0, 19),
        sum(leg_vector(0, 1), leg_vector(1, 13)) == leg_vector(1, 19),
        sum(leg_vector(1, 1), leg_vector(1, 17)) == leg_vector(0, 19),
        sum(leg_vector(0, 19), leg_vector(1, 7)) == leg_vector(1, 1),
        sum(leg_vector(0, 19), leg_vector(1, 5)) == leg_vector(0, 1),
        sum(leg_vector(0, 3), leg_vector(0, 15)) == leg_vector(1, 19),
        sum(leg_vector(1, 19), leg_vector(1, 15)) == leg_vector(0, 17),
        sum(leg_vector(0, 17), leg_vector(0, 5)) == leg_vector(1, 1),
        sum(leg_vector(1, 1), leg_vector(1, 5)) == leg_vector(0, 3),
{
    reveal_with_fuel(leg_vector, 2);
    assert(sum(leg_vector(1, 19), leg_vector(1, 3)) =~= leg_vector(0, 1));
    assert(sum(leg_vector(0, 1), leg_vector(1, 15)) =~= leg_vector(0, 19));
    assert(sum(leg_vector(0, 1), leg_vector(1, 13)) =~= leg_vector(1, 19));
    assert(sum(leg_vector(1, 1), leg_vector(1, 17)) =~= leg_vector(0, 19));
    assert(sum(leg_vector(0, 19), leg_vector(1, 7)) =~= leg_vector(1, 1));
    assert(sum(leg_vector(0, 19), leg_vector(1, 5)) =~= leg_vector(0, 1));
    assert(sum(leg_vector(0, 3), leg_vector(0, 15)) =~= leg_vector(1, 19));
    assert(sum(leg_vector(1, 19), leg_vector(1, 15)) =~= leg_vector(0, 17));
    assert(sum(leg_vector(0, 17), leg_vector(0, 5)) =~= leg_vector(1, 1));
    assert(sum(leg_vector(1, 1), leg_vector(1, 5)) =~= leg_vector(0, 3));
}

/// Associativity of the sum of points.
pub proof fn lemma_sum_assoc(a: Seq<int>, b: Seq<int>, c: Seq<int>)
    requires
        a.len() == 8,
        b.len() == 8,
        c.len() == 8,
    ensures
        sum(sum(a, b), c) == sum(a, sum(b, c)),
{
    assert(sum(sum(a, b), c) =~= sum(a, sum(b, c)));
}

/// Adding `leg(n+i, a+r)` then `leg(n+j, b+r)` to `p` is adding
/// `leg(n+k, c+r)`, whenever the relation holds at the first level.
pub proof fn lemma_two_steps(p: Seq<int>, i: nat, a: nat, j: nat, b: nat, k: nat, c: nat, n: nat, r: nat)
    requires
        p.len() == 8,
        a < 20,
        b < 20,
        c < 20,
        sum(leg_vector(i, a), leg_vector(j, b)) == leg_vector(k, c),
    ensures
        sum(sum(p, leg_vector(n + i, (a + r) % 20)), leg_vector(n + j, (b + r) % 20))
            == sum(p, leg_vector(n + k, (c + r) % 20)),
{
    lemma_identity_turn(i, a, j, b, k, c, r);
    lemma_identity_scale(i, (a + r) % 20, j, (b + r) % 20, k, (c + r) % 20, n);
    lemma_leg_len(n + i, (a + r) % 20);
    lemma_leg_len(n + j, (b + r) % 20);
    lemma_sum_assoc(p, leg_vector(n + i, (a + r) % 20), leg_vector(n + j, (b + r) % 20));
}

/// Adding two opposite legs of one level to `p` leaves `p`.
pub proof fn lemma_there_and_back(p: Seq<int>, m: nat, d: nat, e: nat)
    requires
        p.len() == 8,
        d < 20,
        e < 20,
        e == (d + 10) % 20 || d == (e + 10) % 20,
    ensures
        sum(sum(p, leg_vector(m, d)), leg_vector(m, e)) == p,
{
    lemma_leg_len(m, d);
    lemma_leg_len(m, e);
    lemma_sum_assoc(p, leg_vector(m, d), leg_vector(m, e));
    if e == (d + 10) % 20 {
        lemma_leg_opposite(m, d);
    } else {
        lemma_leg_opposite(m, e);
        assert(sum(leg_vector(m, d), leg_vector(m, e)) =~= sum(leg_vector(m, e), leg_vector(m, d)));
    }
    assert(sum(p, zero()) =~= p);
}

/// The point `a` turned by `k` units about the origin: `z^k·a`.
pub open spec fn turned_by(a: Seq<int>, k: nat) -> Seq<int>
    decreases k,
{
    if k == 0 { a } else { turned(turned_by(a, (k - 1) as nat)) }
}

/// A leg vector turned by `k` units is the leg vector `k` units further on.
pub proof fn lemma_leg_turned_by(n: nat, d: nat, k: nat)
    requires
        d < 20,
    ensures
        turned_by(leg_vector(n, d), k) == leg_vector(n, (d + k) % 20),
    decreases k,
{
    if k > 0 {
        let j = (k - 1) as nat;
        lemma_leg_turned_by(n, d, j);
        lemma_mod_succ(d + j);
        lemma_leg_turn(n, (d + j) % 20);
    }
}

} // verus!
