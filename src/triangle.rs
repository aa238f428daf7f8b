//! Robinson triangles and their substitution.
//!
//! Angles are whole multiples of the unit π/10 (18°); a full turn is
//! [`TURN`] units. A triangle's legs have length `φ^-level` and its
//! rotation is the direction of the altitude from the apex to the base.
//! Thin triangles have a 36° apex and 72° base angles, thick ones a 108°
//! apex and 36° base angles. A thin triangle splits into a thick and a
//! smaller thin one, a thick triangle into a thin and a smaller thick one.
use vstd::prelude::*;
use crate::point::{
    Point, TURN, fits, sum, leg_vector, leg_vector_fits, lemma_base_identities, lemma_two_steps,
    lemma_there_and_back, turned_by, lemma_leg_turned_by,
};

verus! {

/// The four shapes: Thin or Thick, each in two mirror images.
#[derive(Clone, Copy, Debug, PartialEq, Eq, Structural)]
pub enum RobinsonTriangleType {
    ThinLeft,
    ThinRight,
    ThickLeft,
    ThickRight,
}

/// An isosceles Robinson triangle, given by its apex, the level of its
/// legs (length `φ^-level`) and the direction of its altitude.
#[derive(Clone, Copy, Debug, PartialEq, Eq)]
pub struct RobinsonTriangle {
    pub triangle_type: RobinsonTriangleType,
    pub apex: Point,
    pub level: u32,
    pub rotation: u32,
}

pub open spec fn is_thin(k: RobinsonTriangleType) -> bool {
    k is ThinLeft || k is ThinRight
}

/// The apex angle, in units of π/10.
pub open spec fn vertex_units(k: RobinsonTriangleType) -> nat {
    if is_thin(k) { 2 } else { 6 }
}

/// Each base angle, in units of π/10.
pub open spec fn base_units(k: RobinsonTriangleType) -> nat {
    if is_thin(k) { 4 } else { 2 }
}

/// Half the apex angle, in units of π/10.
pub open spec fn half_vertex_units(k: RobinsonTriangleType) -> nat {
    vertex_units(k) / 2
}

/// The angle `a` brought into `[0, TURN)`.
pub open spec fn wrap(a: int) -> nat {
    (a % (TURN as int)) as nat
}

/// The type of the first child of a triangle of type `k`.
pub open spec fn first_child_type(k: RobinsonTriangleType) -> RobinsonTriangleType {
    match k {
        RobinsonTriangleType::ThinLeft => RobinsonTriangleType::ThickRight,
        RobinsonTriangleType::ThinRight => RobinsonTriangleType::ThickLeft,
        RobinsonTriangleType::ThickLeft => RobinsonTriangleType::ThinRight,
        RobinsonTriangleType::ThickRight => RobinsonTriangleType::ThinLeft,
    }
}

/// The type of the second child of a triangle of type `k`: the parent's own.
pub open spec fn second_child_type(k: RobinsonTriangleType) -> RobinsonTriangleType {
    k
}

impl RobinsonTriangle {
    /// The rotation is a whole angle in `[0, TURN)`.
    pub open spec fn wf(&self) -> bool {
        self.rotation < TURN
    }

    /// Direction of the leg to the first base vertex: counterclockwise of the altitude.
    pub open spec fn first_dir(&self) -> nat {
        wrap(self.rotation + half_vertex_units(self.triangle_type))
    }

    /// Direction of the leg to the second base vertex: clockwise of the altitude.
    pub open spec fn second_dir(&self) -> nat {
        wrap(self.rotation + TURN - half_vertex_units(self.triangle_type))
    }

    pub open spec fn first_base(&self) -> Seq<int> {
        sum(self.apex@, leg_vector(self.level as nat, self.first_dir()))
    }

    pub open spec fn second_base(&self) -> Seq<int> {
        sum(self.apex@, leg_vector(self.level as nat, self.second_dir()))
    }

    /// Both base vertices, and each step of computing them, fit in `i64`s.
    pub open spec fn base_points_fit(&self) -> bool {
        &&& leg_vector_fits(self.level as nat, self.first_dir())
        &&& fits(self.first_base())
        &&& leg_vector_fits(self.level as nat, self.second_dir())
        &&& fits(self.second_base())
    }

    /// The vertex from which the split point is measured.
    pub open spec fn split_origin(&self) -> Seq<int> {
        match self.triangle_type {
            RobinsonTriangleType::ThickLeft => self.first_base(),
            RobinsonTriangleType::ThickRight => self.second_base(),
            _ => self.apex@,
        }
    }

    /// The level of the vector from `split_origin` to the split point.
    pub open spec fn split_level(&self) -> nat {
        if is_thin(self.triangle_type) { self.level as nat + 1 } else { self.level as nat }
    }

    /// The direction of the vector from `split_origin` to the split point:
    /// along the second leg (ThinLeft), the first leg (ThinRight), or the
    /// base from one base vertex toward the other (Thick).
    pub open spec fn split_dir(&self) -> nat {
        match self.triangle_type {
            RobinsonTriangleType::ThinLeft => wrap(self.rotation + 19),
            RobinsonTriangleType::ThinRight => wrap(self.rotation + 1),
            RobinsonTriangleType::ThickLeft => wrap(self.rotation + 15),
            RobinsonTriangleType::ThickRight => wrap(self.rotation + 5),
        }
    }

    /// The point dividing a leg (Thin) or the base (Thick) in the golden ratio.
    pub open spec fn split_point(&self) -> Seq<int> {
        sum(self.split_origin(), leg_vector(self.split_level(), self.split_dir()))
    }

    /// Every value that decomposition computes fits in its machine type.
    pub open spec fn decompose_fits(&self) -> bool {
        &&& self.level < u32::MAX
        &&& self.base_points_fit()
        &&& leg_vector_fits(self.split_level(), self.split_dir())
        &&& fits(self.split_point())
    }

    pub open spec fn first_child_apex(&self) -> Seq<int> {
        match self.triangle_type {
            RobinsonTriangleType::ThickLeft => self.first_base(),
            RobinsonTriangleType::ThickRight => self.second_base(),
            _ => self.split_point(),
        }
    }

    pub open spec fn second_child_apex(&self) -> Seq<int> {
        match self.triangle_type {
            RobinsonTriangleType::ThinLeft => self.first_base(),
            RobinsonTriangleType::ThinRight => self.second_base(),
            _ => self.split_point(),
        }
    }

    /// A thin parent's children both have legs `1/φ` times its own; a thick
    /// parent's thin child keeps its legs.
    pub open spec fn first_child_level(&self) -> nat {
        if is_thin(self.triangle_type) { self.level as nat + 1 } else { self.level as nat }
    }

    pub open spec fn second_child_level(&self) -> nat {
        self.level as nat + 1
    }

    pub open spec fn first_child_rotation(&self) -> nat {
        match self.triangle_type {
            RobinsonTriangleType::ThinLeft => wrap(self.rotation + 6),
            RobinsonTriangleType::ThinRight => wrap(self.rotation + 14),
            RobinsonTriangleType::ThickLeft => wrap(self.rotation + 14),
            RobinsonTriangleType::ThickRight => wrap(self.rotation + 6),
        }
    }

    pub open spec fn second_child_rotation(&self) -> nat {
        match self.triangle_type {
            RobinsonTriangleType::ThinLeft => wrap(self.rotation + 14),
            RobinsonTriangleType::ThinRight => wrap(self.rotation + 6),
            RobinsonTriangleType::ThickLeft => wrap(self.rotation + 12),
            RobinsonTriangleType::ThickRight => wrap(self.rotation + 8),
        }
    }

    /// `c` is the first child of this triangle.
    pub open spec fn is_first_child(&self, c: RobinsonTriangle) -> bool {
        &&& c.triangle_type == first_child_type(self.triangle_type)
        &&& c.apex@ == self.first_child_apex()
        &&& c.level == self.first_child_level()
        &&& c.rotation == self.first_child_rotation()
    }

    /// `c` is the second child of this triangle.
    pub open spec fn is_second_child(&self, c: RobinsonTriangle) -> bool {
        &&& c.triangle_type == second_child_type(self.triangle_type)
        &&& c.apex@ == self.second_child_apex()
        &&& c.level == self.second_child_level()
        &&& c.rotation == self.second_child_rotation()
    }

    /// The starting triangle: ThinLeft, apex at the origin, unit legs, the
    /// altitude along the reference direction.
    pub fn new() -> (r: RobinsonTriangle)
        ensures
            r.wf(),
            r.triangle_type == RobinsonTriangleType::ThinLeft,
            r.apex@ == Seq::new(8, |i: int| 0int),
            r.level == 0,
            r.rotation == 0,
    {
        RobinsonTriangle {
            triangle_type: RobinsonTriangleType::ThinLeft,
            apex: Point::origin(),
            level: 0,
            rotation: 0,
        }
    }

    /// A triangle with the given parts, its rotation wrapped into `[0, TURN)`.
    pub fn from_parts(
        triangle_type: RobinsonTriangleType,
        apex: Point,
        level: u32,
        rotation: u32,
    ) -> (r: RobinsonTriangle)
        ensures
            r.wf(),
            r.triangle_type == triangle_type,
            r.apex == apex,
            r.level == level,
            r.rotation == wrap(rotation as int),
    {
        RobinsonTriangle { triangle_type, apex, level, rotation: rotation % TURN }
    }

    /// The apex angle, in units of π/10.
    pub fn vertex_angle(&self) -> (r: u32)
        ensures
            r == vertex_units(self.triangle_type),
    {
        match self.triangle_type {
            RobinsonTriangleType::ThinLeft | RobinsonTriangleType::ThinRight => 2,
            RobinsonTriangleType::ThickLeft | RobinsonTriangleType::ThickRight => 6,
        }
    }

    /// Each base angle, in units of π/10.
    pub fn base_angle(&self) -> (r: u32)
        ensures
            r == base_units(self.triangle_type),
    {
        match self.triangle_type {
            RobinsonTriangleType::ThinLeft | RobinsonTriangleType::ThinRight => 4,
            RobinsonTriangleType::ThickLeft | RobinsonTriangleType::ThickRight => 2,
        }
    }

    /// The directions from the apex to the two base vertices: the rotation
    /// plus and minus half the apex angle, each wrapped into `[0, TURN)`.
    pub fn base_directions(&self) -> (r: (u32, u32))
        requires
            self.wf(),
        ensures
            r.0 == self.first_dir(),
            r.1 == self.second_dir(),
            r.0 < TURN,
            r.1 < TURN,
    {
        let half = self.vertex_angle() / 2;
        let mut one = self.rotation + half;
        if one >= TURN {
            one = one - TURN;
        }
        let mut two = self.rotation + TURN - half;
        if two >= TURN {
            two = two - TURN;
        }
        (one, two)
    }

    /// The two base vertices: apex plus a leg of length `φ^-level` along
    /// each base direction.
    pub fn base_points(&self) -> (r: Option<(Point, Point)>)
        requires
            self.wf(),
        ensures
            r is Some <==> self.base_points_fit(),
            r matches Some(p) ==> p.0@ == self.first_base() && p.1@ == self.second_base(),
    {
        let (d1, d2) = self.base_directions();
        let v1 = match Point::leg(self.level, d1) {
            Some(v) => v,
            None => return None,
        };
        let p1 = match self.apex.add(&v1) {
            Some(p) => p,
            None => return None,
        };
        let v2 = match Point::leg(self.level, d2) {
            Some(v) => v,
            None => return None,
        };
        let p2 = match self.apex.add(&v2) {
            Some(p) => p,
            None => return None,
        };
        Some((p1, p2))
    }

    /// The two children of the substitution: the first of the other shape,
    /// the second of the parent's own shape, whose union is the parent.
    /// `None` when a value it computes does not fit its machine type.
    pub fn decompose(&self) -> (r: Option<(RobinsonTriangle, RobinsonTriangle)>)
        requires
            self.wf(),
        ensures
            r is Some <==> self.decompose_fits(),
            r matches Some(c) ==> {
                &&& self.is_first_child(c.0)
                &&& self.is_second_child(c.1)
                &&& c.0.wf()
                &&& c.1.wf()
            },
    {
        if self.level == u32::MAX {
            return None;
        }
        let (b1, b2) = match self.base_points() {
            Some(p) => p,
            None => return None,
        };
        let r = self.rotation;
        let n = self.level;
        let (from, split_level, split_dir) = match self.triangle_type {
            RobinsonTriangleType::ThinLeft => (self.apex, n + 1, (r + 19) % TURN),
            RobinsonTriangleType::ThinRight => (self.apex, n + 1, (r + 1) % TURN),
            RobinsonTriangleType::ThickLeft => (b1, n, (r + 15) % TURN),
            RobinsonTriangleType::ThickRight => (b2, n, (r + 5) % TURN),
        };
        let v = match Point::leg(split_level, split_dir) {
            Some(v) => v,
            None => return None,
        };
        let split = match from.add(&v) {
            Some(p) => p,
            None => return None,
        };
        let (first, second) = match self.triangle_type {
            RobinsonTriangleType::ThinLeft => (
                RobinsonTriangle {
                    triangle_type: RobinsonTriangleType::ThickRight,
                    apex: split,
                    level: n + 1,
                    rotation: (r + 6) % TURN,
                },
                RobinsonTriangle {
                    triangle_type: RobinsonTriangleType::ThinLeft,
                    apex: b1,
                    level: n + 1,
                    rotation: (r + 14) % TURN,
                },
            ),
            RobinsonTriangleType::ThinRight => (
                RobinsonTriangle {
                    triangle_type: RobinsonTriangleType::ThickLeft,
                    apex: split,
                    level: n + 1,
                    rotation: (r + 14) % TURN,
                },
                RobinsonTriangle {
                    triangle_type: RobinsonTriangleType::ThinRight,
                    apex: b2,
                    level: n + 1,
                    rotation: (r + 6) % TURN,
                },
            ),
            RobinsonTriangleType::ThickLeft => (
                RobinsonTriangle {
                    triangle_type: RobinsonTriangleType::ThinRight,
                    apex: b1,
                    level: n,
                    rotation: (r + 14) % TURN,
                },
                RobinsonTriangle {
                    triangle_type: RobinsonTriangleType::ThickLeft,
                    apex: split,
                    level: n + 1,
                    rotation: (r + 12) % TURN,
                },
            ),
            RobinsonTriangleType::ThickRight => (
                RobinsonTriangle {
                    triangle_type: RobinsonTriangleType::ThinLeft,
                    apex: b2,
                    level: n,
                    rotation: (r + 6) % TURN,
                },
                RobinsonTriangle {
                    triangle_type: RobinsonTriangleType::ThickRight,
                    apex: split,
                    level: n + 1,
                    rotation: (r + 8) % TURN,
                },
            ),
        };
        Some((first, second))
    }
}


#[verifier::rlimit(50)]
proof fn lemma_thin_left_children(t: RobinsonTriangle, c1: RobinsonTriangle, c2: RobinsonTriangle)
    requires
        t.wf(),
        t.triangle_type is ThinLeft,
        t.is_first_child(c1),
        t.is_second_child(c2),
    ensures
        c1.first_base() == t.apex@,
        c1.second_base() == t.first_base(),
        c2.first_base() == t.second_base(),
        c2.second_base() == t.split_point(),
{
    let r = t.rotation as int;
    let n = t.level as nat;
    let p = t.apex@;
    t.apex.lemma_fits();
    lemma_base_identities();
    lemma_wrap_twice(r, 6, 3, 9);
    lemma_wrap_twice(r, 6, 17, 3);
    lemma_wrap_twice(r, 14, 1, 15);
    lemma_wrap_twice(r, 14, 19, 13);
    lemma_wrap_twice(r, 0, 19, 19);
    lemma_wrap_twice(r, 0, 1, 1);
    lemma_there_and_back(p, n + 1, ((r + 19) % 20) as nat, ((r + 9) % 20) as nat);
    lemma_two_steps(p, 1, 19, 1, 3, 0, 1, n, r as nat);
    lemma_two_steps(p, 0, 1, 1, 15, 0, 19, n, r as nat);
    lemma_two_steps(p, 0, 1, 1, 13, 1, 19, n, r as nat);
}

#[verifier::rlimit(50)]
proof fn lemma_thin_right_children(t: RobinsonTriangle, c1: RobinsonTriangle, c2: RobinsonTriangle)
    requires
        t.wf(),
        t.triangle_type is ThinRight,
        t.is_first_child(c1),
        t.is_second_child(c2),
    ensures
        c1.first_base() == t.second_base(),
        c1.second_base() == t.apex@,
        c2.first_base() == t.split_point(),
        c2.second_base() == t.first_base(),
{
    let r = t.rotation as int;
    let n = t.level as nat;
    let p = t.apex@;
    t.apex.lemma_fits();
    lemma_base_identities();
    lemma_wrap_twice(r, 14, 3, 17);
    lemma_wrap_twice(r, 14, 17, 11);
    lemma_wrap_twice(r, 6, 1, 7);
    lemma_wrap_twice(r, 6, 19, 5);
    lemma_wrap_twice(r, 0, 19, 19);
    lemma_wrap_twice(r, 0, 1, 1);
    lemma_two_steps(p, 1, 1, 1, 17, 0, 19, n, r as nat);
    lemma_there_and_back(p, n + 1, ((r + 1) % 20) as nat, ((r + 11) % 20) as nat);
    lemma_two_steps(p, 0, 19, 1, 7, 1, 1, n, r as nat);
    lemma_two_steps(p, 0, 19, 1, 5, 0, 1, n, r as nat);
}

#[verifier::rlimit(50)]
proof fn lemma_thick_left_children(t: RobinsonTriangle, c1: RobinsonTriangle, c2: RobinsonTriangle)
    requires
        t.wf(),
        t.triangle_type is ThickLeft,
        t.is_first_child(c1),
        t.is_second_child(c2),
    ensures
        c1.first_base() == t.split_point(),
        c1.second_base() == t.apex@,
        c2.first_base() == t.second_base(),
        c2.second_base() == t.apex@,
{
    let r = t.rotation as int;
    let n = t.level as nat;
    let p = t.apex@;
    t.apex.lemma_fits();
    lemma_base_identities();
    lemma_wrap_twice(r, 14, 1, 15);
    lemma_wrap_twice(r, 14, 19, 13);
    lemma_wrap_twice(r, 12, 3, 15);
    lemma_wrap_twice(r, 12, 17, 9);
    lemma_wrap_twice(r, 0, 3, 3);
    lemma_wrap_twice(r, 0, 17, 17);
    lemma_wrap_twice(r, 0, 15, 15);
    lemma_there_and_back(p, n, ((r + 3) % 20) as nat, ((r + 13) % 20) as nat);
    lemma_two_steps(p, 0, 3, 0, 15, 1, 19, n, r as nat);
    lemma_two_steps(p, 1, 19, 1, 15, 0, 17, n, r as nat);
    lemma_there_and_back(p, n + 1, ((r + 19) % 20) as nat, ((r + 9) % 20) as nat);
}

#[verifier::rlimit(50)]
proof fn lemma_thick_right_children(t: RobinsonTriangle, c1: RobinsonTriangle, c2: RobinsonTriangle)
    requires
        t.wf(),
        t.triangle_type is ThickRight,
        t.is_first_child(c1),
        t.is_second_child(c2),
    ensures
        c1.first_base() == t.apex@,
        c1.second_base() == t.split_point(),
        c2.first_base() == t.apex@,
        c2.second_base() == t.first_base(),
{
    let r = t.rotation as int;
    let n = t.level as nat;
    let p = t.apex@;
    t.apex.lemma_fits();
    lemma_base_identities();
    lemma_wrap_twice(r, 6, 1, 7);
    lemma_wrap_twice(r, 6, 19, 5);
    lemma_wrap_twice(r, 8, 3, 11);
    lemma_wrap_twice(r, 8, 17, 5);
    lemma_wrap_twice(r, 0, 3, 3);
    lemma_wrap_twice(r, 0, 17, 17);
    lemma_wrap_twice(r, 0, 5, 5);
    lemma_there_and_back(p, n, ((r + 17) % 20) as nat, ((r + 7) % 20) as nat);
    lemma_two_steps(p, 0, 17, 0, 5, 1, 1, n, r as nat);
    lemma_there_and_back(p, n + 1, ((r + 1) % 20) as nat, ((r + 11) % 20) as nat);
    lemma_two_steps(p, 1, 1, 1, 5, 0, 3, n, r as nat);
}

proof fn lemma_wrap_twice(r: int, x: int, y: int, z: int)
    requires
        r >= 0,
        x >= 0,
        y >= 0,
        z == x + y || z + 20 == x + y,
    ensures
        wrap(wrap(r + x) + y) == (r + z) % 20,
        wrap(r + x) == (r + x) % 20,
{
}

/// The substitution covers the parent exactly: with `A` the apex, `B` and
/// `C` the first and second base vertices and `D` the split point, every
/// vertex of either child is one of `A`, `B`, `C`, `D`, and the two children
/// share an edge. Going by type, the children's (apex, first base, second
/// base) are: ThinLeft (D, A, B) and (B, C, D); ThinRight (D, C, A) and
/// (C, D, B); ThickLeft (B, D, A) and (D, C, A); ThickRight (C, A, D) and
/// (D, A, B).
pub proof fn lemma_children_vertices(t: RobinsonTriangle, c1: RobinsonTriangle, c2: RobinsonTriangle)
    requires
        t.wf(),
        t.is_first_child(c1),
        t.is_second_child(c2),
    ensures
        ({
            let (a, b, c, d) = (t.apex@, t.first_base(), t.second_base(), t.split_point());
            match t.triangle_type {
                RobinsonTriangleType::ThinLeft => c1.apex@ == d && c1.first_base() == a
                    && c1.second_base() == b && c2.apex@ == b && c2.first_base() == c
                    && c2.second_base() == d,
                RobinsonTriangleType::ThinRight => c1.apex@ == d && c1.first_base() == c
                    && c1.second_base() == a && c2.apex@ == c && c2.first_base() == d
                    && c2.second_base() == b,
                RobinsonTriangleType::ThickLeft => c1.apex@ == b && c1.first_base() == d
                    && c1.second_base() == a && c2.apex@ == d && c2.first_base() == c
                    && c2.second_base() == a,
                RobinsonTriangleType::ThickRight => c1.apex@ == c && c1.first_base() == a
                    && c1.second_base() == d && c2.apex@ == d && c2.first_base() == a
                    && c2.second_base() == b,
            }
        }),
{
    match t.triangle_type {
        RobinsonTriangleType::ThinLeft => lemma_thin_left_children(t, c1, c2),
        RobinsonTriangleType::ThinRight => lemma_thin_right_children(t, c1, c2),
        RobinsonTriangleType::ThickLeft => lemma_thick_left_children(t, c1, c2),
        RobinsonTriangleType::ThickRight => lemma_thick_right_children(t, c1, c2),
    }
}


/// The three angles of every Robinson triangle make a straight angle
/// (`TURN / 2` units, that is π), and the thin apex angle is the smaller.
pub proof fn lemma_angle_sum(k: RobinsonTriangleType)
    ensures
        vertex_units(k) + 2 * base_units(k) == TURN / 2,
        vertex_units(RobinsonTriangleType::ThinLeft) == vertex_units(RobinsonTriangleType::ThinRight),
        vertex_units(RobinsonTriangleType::ThickLeft) == vertex_units(RobinsonTriangleType::ThickRight),
        vertex_units(RobinsonTriangleType::ThinLeft) < vertex_units(RobinsonTriangleType::ThickLeft),
{
}

/// Both base vertices lie at the leg length `φ^-level` from the apex: each is
/// the apex plus a leg vector of that level, and the leg to the second base
/// vertex, turned by the apex angle, is the leg to the first.
pub proof fn lemma_legs(t: RobinsonTriangle)
    requires
        t.wf(),
    ensures
        t.first_dir() < TURN,
        t.second_dir() < TURN,
        t.first_base() == sum(t.apex@, leg_vector(t.level as nat, t.first_dir())),
        t.second_base() == sum(t.apex@, leg_vector(t.level as nat, t.second_dir())),
        turned_by(leg_vector(t.level as nat, t.second_dir()), vertex_units(t.triangle_type))
            == leg_vector(t.level as nat, t.first_dir()),
{
    let v = vertex_units(t.triangle_type);
    lemma_leg_turned_by(t.level as nat, t.second_dir(), v);
    assert((t.second_dir() + v) % 20 == t.first_dir());
}

/// Decomposition is deterministic: the children of a triangle are fixed by
/// the triangle.
pub proof fn lemma_children_unique(
    t: RobinsonTriangle,
    a1: RobinsonTriangle,
    b1: RobinsonTriangle,
    a2: RobinsonTriangle,
    b2: RobinsonTriangle,
)
    requires
        t.is_first_child(a1),
        t.is_second_child(b1),
        t.is_first_child(a2),
        t.is_second_child(b2),
    ensures
        a1 == a2,
        b1 == b2,
{
    a1.apex.lemma_view_injective(a2.apex);
    b1.apex.lemma_view_injective(b2.apex);
}

} // verus!
