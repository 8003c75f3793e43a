//! One bird of the flock: where it is, how it moves, and who it is.

use vstd::prelude::*;
use crate::scalar::Scalar;

verus! {

/// The width of the margin along each edge of the sky in which a bird is
/// pushed back: the pattern of 50.
pub const BORDER: u32 = 0x4248_0000;

/// The share of its depth in the margin that a bird is pushed back by each
/// tick: the pattern of the single-precision number nearest to one tenth.
pub const BORDER_COUCH: u32 = 0x3dcc_cccd;

/// The edges of the sky whose margin a bird is in.
#[derive(Clone, Copy, Debug, PartialEq, Eq, Structural)]
pub struct Edges {
    pub left: bool,
    pub right: bool,
    pub top: bool,
    pub bottom: bool,
}

impl Edges {
    /// Whether the bird is in the margin of any edge.
    pub open spec fn any_spec(self) -> bool {
        self.left || self.right || self.top || self.bottom
    }

    /// Whether the bird is in the margin of any edge.
    #[verifier::when_used_as_spec(any_spec)]
    pub fn any(self) -> (r: bool)
        ensures
            r == self.any_spec(),
    {
        self.left || self.right || self.top || self.bottom
    }
}

/// A bird: an identity, a position and a velocity.
#[derive(Clone, Copy, Debug, PartialEq, Eq, Structural)]
pub struct Bird {
    /// The identity: the bird's place in its flock.
    pub id: usize,
    pub x: Scalar,
    pub y: Scalar,
    pub dx: Scalar,
    pub dy: Scalar,
}

/// The velocity component `v` under the limit `vlim`: kept between `-l` and
/// `l` where the limit is `l`, and as it is where there is none.
pub open spec fn limited(v: Scalar, vlim: Option<Scalar>) -> Scalar {
    match vlim {
        Some(l) => v.limit_spec(l),
        None => v,
    }
}

/// Whether `r` may be the velocity component `v` after the four forces `f0`
/// to `f3` on it, where `plus` adds two numbers: the forces are summed from
/// the first to the last, and the sum is added to the component.
pub open spec fn applied<A: Fn(Scalar, Scalar) -> Scalar>(
    plus: &A,
    v: Scalar,
    f0: Scalar,
    f1: Scalar,
    f2: Scalar,
    f3: Scalar,
    r: Scalar,
) -> bool {
    exists|two: Scalar, three: Scalar, four: Scalar|
        #[trigger] call_ensures(*plus, (f0, f1), two) && #[trigger] call_ensures(*plus, (two, f2), three)
            && #[trigger] call_ensures(*plus, (three, f3), four) && call_ensures(*plus, (v, four), r)
}

impl Bird {
    /// The bird `id` at rest at `(x, y)`.
    pub open spec fn at_rest(id: usize, x: Scalar, y: Scalar) -> Bird {
        Bird { id, x, y, dx: Scalar { bits: 0 }, dy: Scalar { bits: 0 } }
    }

    /// The edges whose margin the bird is in, where the margins of the right
    /// and the bottom edge begin at `far_x` and `far_y`.
    pub open spec fn edges_spec(self, far_x: Scalar, far_y: Scalar) -> Edges {
        Edges {
            left: self.x.le_spec(Scalar { bits: BORDER }),
            right: far_x.le_spec(self.x),
            top: self.y.le_spec(Scalar { bits: BORDER }),
            bottom: far_y.le_spec(self.y),
        }
    }

    /// A bird at rest at `(x, y)`.
    pub fn new(id: usize, x: Scalar, y: Scalar) -> (r: Bird)
        ensures
            r == Bird::at_rest(id, x, y),
    {
        Bird { id, x, y, dx: Scalar::zero(), dy: Scalar::zero() }
    }

    /// The bird's position, `x` first.
    pub fn pos(&self) -> (r: (Scalar, Scalar))
        ensures
            r == (self.x, self.y),
    {
        (self.x, self.y)
    }

    /// Keeps each component of the velocity between `-l` and `l` where the
    /// limit is `l`; without a limit nothing changes. The two components are
    /// limited one by one, not the speed. Under a limit that is a number and
    /// not below zero, both components end between `-l` and `l`.
    pub fn limit_velocity(&mut self, vlim: Option<Scalar>)
        ensures
            *final(self) == (Bird {
                dx: limited(old(self).dx, vlim),
                dy: limited(old(self).dy, vlim),
                ..*old(self)
            }),
            vlim is None ==> *final(self) == *old(self),
            vlim is Some && !vlim->0.nan() && vlim->0.rank() >= 0 ==> {
                &&& vlim->0.neg_spec().le_spec(final(self).dx) && final(self).dx.le_spec(vlim->0)
                &&& vlim->0.neg_spec().le_spec(final(self).dy) && final(self).dy.le_spec(vlim->0)
            },
    {
        if let Some(l) = vlim {
            proof {
                if !l.nan() && l.rank() >= 0 {
                    self.dx.lemma_limit_bounds(l);
                    self.dy.lemma_limit_bounds(l);
                }
            }
            self.dx = self.dx.limit(l);
            self.dy = self.dy.limit(l);
        }
    }

    /// Adds the four forces to the velocity, where `plus` adds two numbers:
    /// component by component the forces are summed from the first to the
    /// last, and the sum is added to the velocity. One tick is one unit of
    /// time, so nothing is scaled.
    pub fn apply_forces<A: Fn(Scalar, Scalar) -> Scalar>(&mut self, forces: [(Scalar, Scalar); 4], plus: &A)
        requires
            forall|a: Scalar, b: Scalar| #[trigger] call_requires(*plus, (a, b)),
        ensures
            final(self).id == old(self).id,
            final(self).x == old(self).x,
            final(self).y == old(self).y,
            applied(plus, old(self).dx, forces[0].0, forces[1].0, forces[2].0, forces[3].0, final(self).dx),
            applied(plus, old(self).dy, forces[0].1, forces[1].1, forces[2].1, forces[3].1, final(self).dy),
    {
        let x2 = plus(forces[0].0, forces[1].0);
        let x3 = plus(x2, forces[2].0);
        let x4 = plus(x3, forces[3].0);
        let y2 = plus(forces[0].1, forces[1].1);
        let y3 = plus(y2, forces[2].1);
        let y4 = plus(y3, forces[3].1);
        self.dx = plus(self.dx, x4);
        self.dy = plus(self.dy, y4);
    }

    /// Moves the bird by its velocity, where `plus` adds two numbers.
    pub fn update_pos<A: Fn(Scalar, Scalar) -> Scalar>(&mut self, plus: &A)
        requires
            call_requires(*plus, (old(self).x, old(self).dx)),
            call_requires(*plus, (old(self).y, old(self).dy)),
        ensures
            final(self).id == old(self).id,
            final(self).dx == old(self).dx,
            final(self).dy == old(self).dy,
            call_ensures(*plus, (old(self).x, old(self).dx), final(self).x),
            call_ensures(*plus, (old(self).y, old(self).dy), final(self).y),
    {
        self.x = plus(self.x, self.dx);
        self.y = plus(self.y, self.dy);
    }

    /// The edges whose margin the bird is in. `far_x` and `far_y` are where
    /// the margins of the right and the bottom edge begin: the width and the
    /// height of the sky, less the border. A coordinate that is a NaN is in no
    /// margin.
    pub fn edges(&self, far_x: Scalar, far_y: Scalar) -> (r: Edges)
        ensures
            r == self.edges_spec(far_x, far_y),
    {
        let border = Scalar::from_bits(BORDER);
        Edges {
            left: self.x.le(border),
            right: far_x.le(self.x),
            top: self.y.le(border),
            bottom: far_y.le(self.y),
        }
    }
}

impl Default for Bird {
    /// The bird 0, at rest at the origin.
    fn default() -> (r: Bird)
        ensures
            r == Bird::at_rest(0, Scalar { bits: 0 }, Scalar { bits: 0 }),
    {
        Bird::new(0, Scalar::zero(), Scalar::zero())
    }
}

} // verus!
