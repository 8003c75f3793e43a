//! The birds of a flock, each known by its place.

use vstd::prelude::*;
use crate::bird::Bird;
use crate::scalar::Scalar;

verus! {

/// The birds of a flock. Their number is fixed once the flock is made, and
/// the identity of each is its place in the flock.
#[derive(Debug)]
pub struct Flock {
    birds: Vec<Bird>,
}

impl View for Flock {
    type V = Seq<Bird>;

    /// The birds, in the order of their identities.
    closed spec fn view(&self) -> Seq<Bird> {
        self.birds@
    }
}

/// Whether every bird of `birds` has its place as its identity.
pub open spec fn numbered(birds: Seq<Bird>) -> bool {
    forall|k: int| 0 <= k < birds.len() ==> (#[trigger] birds[k]).id == k
}

/// One bird at rest at each of `positions`, numbered from 0 in that order.
pub open spec fn at_rest(positions: Seq<(Scalar, Scalar)>) -> Seq<Bird> {
    Seq::new(
        positions.len(),
        |k: int| Bird::at_rest(k as usize, positions[k].0, positions[k].1),
    )
}

/// Whether every bird of `birds` has its place as its identity.
fn in_order(birds: &Vec<Bird>) -> (r: bool)
    ensures
        r == numbered(birds@),
{
    let mut k: usize = 0;
    while k < birds.len()
        invariant
            k <= birds@.len(),
            forall|j: int| 0 <= j < k ==> (#[trigger] birds@[j]).id == j,
        decreases birds@.len() - k,
    {
        if birds[k].id != k {
            return false;
        }
        k += 1;
    }
    true
}

impl Flock {
    /// Every bird's identity is its place in the flock.
    #[verifier::type_invariant]
    pub closed spec fn wf(&self) -> bool {
        numbered(self.birds@)
    }

    /// Whether `next` can follow `now` as the flock one tick later: as many
    /// birds, each with its place as its identity.
    pub open spec fn follows(now: Seq<Bird>, next: Seq<Bird>) -> bool {
        next.len() == now.len() && numbered(next)
    }

    /// A flock of one bird at rest at each of `positions`.
    pub fn new(positions: &Vec<(Scalar, Scalar)>) -> (r: Flock)
        ensures
            r@ == at_rest(positions@),
            numbered(r@),
    {
        let mut birds: Vec<Bird> = Vec::new();
        let mut k: usize = 0;
        while k < positions.len()
            invariant
                k <= positions@.len(),
                birds@.len() == k,
                forall|j: int| 0 <= j < k ==> (#[trigger] birds@[j]) == at_rest(positions@)[j],
                numbered(birds@),
            decreases positions@.len() - k,
        {
            let p = positions[k];
            birds.push(Bird::new(k, p.0, p.1));
            k += 1;
        }
        assert(birds@ =~= at_rest(positions@));
        Flock { birds }
    }

    /// The number of birds.
    pub fn len(&self) -> (r: usize)
        ensures
            r == self@.len(),
    {
        self.birds.len()
    }

    /// The bird with identity `i`.
    pub fn bird(&self, i: usize) -> (r: Bird)
        requires
            i < self@.len(),
        ensures
            r == self@[i as int],
            r.id == i,
    {
        proof {
            use_type_invariant(self);
        }
        self.birds[i]
    }

    /// The birds, in the order of their identities.
    pub fn birds(&self) -> (r: &Vec<Bird>)
        ensures
            r@ == self@,
            numbered(r@),
    {
        proof {
            use_type_invariant(self);
        }
        &self.birds
    }

    /// Puts `next` in the place of the birds, where it can follow them: the
    /// flock one tick later, each bird worked out from the flock as it was.
    /// Otherwise nothing changes. Either way the flock keeps its size and
    /// every bird its identity.
    pub fn advance(&mut self, next: Vec<Bird>) -> (done: bool)
        ensures
            done == Flock::follows(old(self)@, next@),
            done ==> final(self)@ == next@,
            !done ==> final(self)@ == old(self)@,
            final(self)@.len() == old(self)@.len(),
            forall|k: int| 0 <= k < old(self)@.len() ==> (#[trigger] final(self)@[k]).id == old(self)@[k].id,
            numbered(final(self)@),
    {
        proof {
            use_type_invariant(&*self);
        }
        if next.len() != self.birds.len() || !in_order(&next) {
            return false;
        }
        self.birds = next;
        true
    }

    /// No two birds of a flock share an identity.
    pub proof fn lemma_identities_differ(birds: Seq<Bird>, i: int, j: int)
        requires
            numbered(birds),
            0 <= i < birds.len(),
            0 <= j < birds.len(),
            i != j,
        ensures
            birds[i].id != birds[j].id,
    {
    }
}

impl Clone for Flock {
    /// A flock of the same birds.
    fn clone(&self) -> (r: Flock)
        ensures
            r@ == self@,
    {
        proof {
            use_type_invariant(self);
        }
        let mut birds: Vec<Bird> = Vec::new();
        let mut k: usize = 0;
        while k < self.birds.len()
            invariant
                k <= self.birds@.len(),
                birds@ == self.birds@.take(k as int),
            decreases self.birds@.len() - k,
        {
            birds.push(self.birds[k]);
            assert(self.birds@.take(k + 1) =~= self.birds@.take(k as int).push(self.birds@[k as int]));
            k += 1;
        }
        assert(self.birds@.take(k as int) =~= self.birds@);
        Flock { birds }
    }
}

impl Default for Flock {
    /// The flock without birds.
    fn default() -> (r: Flock)
        ensures
            r@.len() == 0,
    {
        Flock { birds: Vec::new() }
    }
}

} // verus!
