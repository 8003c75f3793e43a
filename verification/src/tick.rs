//! One tick of the flock: every bird is worked out from the flock as it was,
//! and then all of them take their new places at once.
//!
//! The rules are decided here: who is a neighbor, which edges push, when the
//! velocity is limited, and that a bird without neighbors is steered by the
//! edges alone, in which order the forces are added, and that a bird moves by
//! its new velocity. The arithmetic comes from the host as four functions.

use vstd::prelude::*;
use crate::bird::Bird;
use crate::bird::Edges;
use crate::bird::applied;
use crate::bird::limited;
use crate::flock::numbered;
use crate::scalar::Scalar;
use crate::state::State;

verus! {

/// Whether bird `i` sees bird `j`, which is at `distance` from it, when it
/// sees as far as `vision`: every bird up to that far away but itself.
pub open spec fn sees(vision: Scalar, i: int, j: int, distance: Scalar) -> bool {
    j != i && distance.le_spec(vision)
}

/// The birds below `n` that bird `i` sees, in rising order, where
/// `distances[j]` is how far bird `j` is from it.
pub open spec fn neighbors_below(vision: Scalar, i: int, distances: Seq<Scalar>, n: int) -> Seq<usize>
    decreases n,
{
    if n <= 0 {
        Seq::empty()
    } else {
        let rest = neighbors_below(vision, i, distances, n - 1);
        if sees(vision, i, n - 1, distances[n - 1]) {
            rest.push((n - 1) as usize)
        } else {
            rest
        }
    }
}

/// The list of neighbors holds the birds seen and no others, each once, in
/// rising order.
pub proof fn lemma_neighbors_below(vision: Scalar, i: int, distances: Seq<Scalar>, n: int)
    requires
        0 <= n <= usize::MAX,
    ensures
        forall|k: int|
            0 <= k < neighbors_below(vision, i, distances, n).len() ==> {
                let j = #[trigger] neighbors_below(vision, i, distances, n)[k];
                j < n && sees(vision, i, j as int, distances[j as int])
            },
        forall|a: int, b: int|
            0 <= a < b < neighbors_below(vision, i, distances, n).len() ==> neighbors_below(
                vision,
                i,
                distances,
                n,
            )[a] < neighbors_below(vision, i, distances, n)[b],
        forall|j: int|
            0 <= j < n && sees(vision, i, j, distances[j]) ==> neighbors_below(
                vision,
                i,
                distances,
                n,
            ).contains(j as usize),
    decreases n,
{
    if n > 0 {
        lemma_neighbors_below(vision, i, distances, n - 1);
        let rest = neighbors_below(vision, i, distances, n - 1);
        let list = neighbors_below(vision, i, distances, n);
        if sees(vision, i, n - 1, distances[n - 1]) {
            assert(list == rest.push((n - 1) as usize));
            assert(list[rest.len() as int] == (n - 1) as usize);
            assert forall|j: int| 0 <= j < n && sees(vision, i, j, distances[j]) implies list.contains(
                j as usize,
            ) by {
                if j < n - 1 {
                    let k = choose|k: int| 0 <= k < rest.len() && rest[k] == j as usize;
                    assert(list[k] == j as usize);
                } else {
                    assert(list[rest.len() as int] == j as usize);
                }
            }
        }
    }
}

/// A bird has no neighbors exactly when no other bird is within its vision
/// range.
pub proof fn lemma_alone(vision: Scalar, i: int, distances: Seq<Scalar>, n: int)
    ensures
        neighbors_below(vision, i, distances, n).len() == 0 <==> forall|j: int|
            0 <= j < n ==> !sees(vision, i, j, #[trigger] distances[j]),
    decreases n,
{
    if n > 0 {
        lemma_alone(vision, i, distances, n - 1);
        if neighbors_below(vision, i, distances, n).len() == 0 {
            assert(!sees(vision, i, n - 1, distances[n - 1]));
        }
    }
}

/// Whether `distances` may have been measured from bird `i`: one distance for
/// each bird of the flock, and for each but bird `i` itself one that
/// `distance` may give for the two.
pub open spec fn measured<D: Fn(Bird, Bird) -> Scalar>(
    birds: Seq<Bird>,
    i: int,
    distance: &D,
    distances: Seq<Scalar>,
) -> bool {
    &&& distances.len() == birds.len()
    &&& forall|j: int|
        0 <= j < birds.len() && j != i ==> call_ensures(*distance, (birds[i], birds[j]), #[trigger] distances[j])
}

/// Whether `pushed` may be the velocity of bird `i` after the push of the
/// edges: its own velocity where it is in no margin, and otherwise what `push`
/// may give for the edges whose margin it is in.
pub open spec fn pushed_back<P: Fn(Bird, Edges, Scalar, Scalar) -> (Scalar, Scalar)>(
    state: &State,
    i: int,
    far: (Scalar, Scalar),
    push: &P,
    pushed: (Scalar, Scalar),
) -> bool {
    let bird = state.birds@[i];
    let edges = bird.edges_spec(far.0, far.1);
    if edges.any() {
        call_ensures(*push, (bird, edges, state.width, state.height), pushed)
    } else {
        pushed == (bird.dx, bird.dy)
    }
}

/// Whether `v` may be the velocity `kept` after the pull of the neighbors:
/// `kept` itself where there are none, and otherwise `kept` with the four
/// forces on it that `forces` may give for these neighbors.
pub open spec fn pulled<F, A>(
    state: &State,
    i: int,
    neighbors: Seq<usize>,
    kept: (Scalar, Scalar),
    forces: &F,
    plus: &A,
    v: (Scalar, Scalar),
) -> bool where F: Fn(&State, usize, &Vec<usize>) -> [(Scalar, Scalar); 4], A: Fn(Scalar, Scalar) -> Scalar {
    if neighbors.len() == 0 {
        v == kept
    } else {
        exists|list: Vec<usize>, pull: [(Scalar, Scalar); 4]|
            list@ == neighbors && #[trigger] call_ensures(*forces, (state, i as usize, &list), pull) && applied(
                plus,
                kept.0,
                pull[0].0,
                pull[1].0,
                pull[2].0,
                pull[3].0,
                v.0,
            ) && applied(plus, kept.1, pull[0].1, pull[1].1, pull[2].1, pull[3].1, v.1)
    }
}

/// Whether `next` is bird `i` moved on by the velocity `v`, where `plus` adds
/// two numbers: the same bird, with that velocity, where it was plus the
/// velocity.
pub open spec fn moved<A: Fn(Scalar, Scalar) -> Scalar>(bird: Bird, v: (Scalar, Scalar), plus: &A, next: Bird) -> bool {
    &&& next.id == bird.id
    &&& (next.dx, next.dy) == v
    &&& call_ensures(*plus, (bird.x, v.0), next.x)
    &&& call_ensures(*plus, (bird.y, v.1), next.y)
}

/// Whether `next` may be bird `i` one tick later, where `distances` are the
/// distances measured from it and `pushed` is its velocity after the push of
/// the edges. Its neighbors are the birds that it sees at these distances;
/// the edges that push are those whose margin it is in; what they leave of
/// its velocity is limited; then the neighbors pull, and the bird moves.
pub open spec fn taken<D, P, F, A>(
    state: &State,
    i: int,
    far: (Scalar, Scalar),
    distance: &D,
    push: &P,
    forces: &F,
    plus: &A,
    distances: Seq<Scalar>,
    pushed: (Scalar, Scalar),
    next: Bird,
) -> bool where
    D: Fn(Bird, Bird) -> Scalar,
    P: Fn(Bird, Edges, Scalar, Scalar) -> (Scalar, Scalar),
    F: Fn(&State, usize, &Vec<usize>) -> [(Scalar, Scalar); 4],
    A: Fn(Scalar, Scalar) -> Scalar,
 {
    &&& measured(state.birds@, i, distance, distances)
    &&& pushed_back(state, i, far, push, pushed)
    &&& pulled(
        state,
        i,
        neighbors_below(state.params.vision_range, i, distances, state.birds@.len() as int),
        (limited(pushed.0, state.params.vlim), limited(pushed.1, state.params.vlim)),
        forces,
        plus,
        (next.dx, next.dy),
    )
    &&& moved(state.birds@[i], (next.dx, next.dy), plus, next)
}

/// Whether `next` may be bird `i` of `state` one tick later.
pub open spec fn stepped<D, P, F, A>(
    state: &State,
    i: int,
    far: (Scalar, Scalar),
    distance: &D,
    push: &P,
    forces: &F,
    plus: &A,
    next: Bird,
) -> bool where
    D: Fn(Bird, Bird) -> Scalar,
    P: Fn(Bird, Edges, Scalar, Scalar) -> (Scalar, Scalar),
    F: Fn(&State, usize, &Vec<usize>) -> [(Scalar, Scalar); 4],
    A: Fn(Scalar, Scalar) -> Scalar,
 {
    exists|distances: Seq<Scalar>, pushed: (Scalar, Scalar)|
        taken(state, i, far, distance, push, forces, plus, distances, pushed, next)
}

/// Whether the four functions can be called on all that the step of bird `i`
/// may hand them.
pub open spec fn callable<D, P, F, A>(
    state: &State,
    i: int,
    distance: &D,
    push: &P,
    forces: &F,
    plus: &A,
) -> bool where
    D: Fn(Bird, Bird) -> Scalar,
    P: Fn(Bird, Edges, Scalar, Scalar) -> (Scalar, Scalar),
    F: Fn(&State, usize, &Vec<usize>) -> [(Scalar, Scalar); 4],
    A: Fn(Scalar, Scalar) -> Scalar,
 {
    let bird = state.birds@[i];
    &&& forall|j: int|
        0 <= j < state.birds@.len() && j != i ==> call_requires(*distance, (bird, #[trigger] state.birds@[j]))
    &&& forall|e: Edges| e.any() ==> #[trigger] call_requires(*push, (bird, e, state.width, state.height))
    &&& forall|list: &Vec<usize>| #[trigger] call_requires(*forces, (state, i as usize, list))
    &&& forall|a: Scalar, b: Scalar| #[trigger] call_requires(*plus, (a, b))
}

/// Whether bird `i` is alone: whatever `distance` gives for it and another
/// bird of the flock is beyond its vision range.
pub open spec fn alone<D: Fn(Bird, Bird) -> Scalar>(state: &State, i: int, distance: &D) -> bool {
    forall|j: int, d: Scalar|
        0 <= j < state.birds@.len() && j != i && #[trigger] call_ensures(
            *distance,
            (state.birds@[i], state.birds@[j]),
            d,
        ) ==> !d.le_spec(state.params.vision_range)
}

/// Whether `next` may be bird `i` one tick later if nothing but the edges
/// steers it: its velocity is `pushed`, what the push of the edges made of
/// it, under the limit, and it has moved by that velocity.
pub open spec fn coasted<P, A>(
    state: &State,
    i: int,
    far: (Scalar, Scalar),
    push: &P,
    plus: &A,
    pushed: (Scalar, Scalar),
    next: Bird,
) -> bool where P: Fn(Bird, Edges, Scalar, Scalar) -> (Scalar, Scalar), A: Fn(Scalar, Scalar) -> Scalar {
    &&& pushed_back(state, i, far, push, pushed)
    &&& moved(
        state.birds@[i],
        (limited(pushed.0, state.params.vlim), limited(pushed.1, state.params.vlim)),
        plus,
        next,
    )
}

/// Whether each of the four functions gives one result only for what it is
/// handed, and `forces` the same for two lists of the same neighbors.
pub open spec fn single_valued<D, P, F, A>(distance: &D, push: &P, forces: &F, plus: &A) -> bool where
    D: Fn(Bird, Bird) -> Scalar,
    P: Fn(Bird, Edges, Scalar, Scalar) -> (Scalar, Scalar),
    F: Fn(&State, usize, &Vec<usize>) -> [(Scalar, Scalar); 4],
    A: Fn(Scalar, Scalar) -> Scalar,
 {
    &&& forall|a: Bird, b: Bird, one: Scalar, two: Scalar|
        #[trigger] call_ensures(*distance, (a, b), one) && #[trigger] call_ensures(*distance, (a, b), two) ==> one
            == two
    &&& forall|b: Bird, e: Edges, w: Scalar, h: Scalar, one: (Scalar, Scalar), two: (Scalar, Scalar)|
        #[trigger] call_ensures(*push, (b, e, w, h), one) && #[trigger] call_ensures(*push, (b, e, w, h), two)
            ==> one == two
    &&& forall|
        state: &State,
        i: usize,
        list: &Vec<usize>,
        again: &Vec<usize>,
        one: [(Scalar, Scalar); 4],
        two: [(Scalar, Scalar); 4],
    |
        list@ == again@ && #[trigger] call_ensures(*forces, (state, i, list), one) && #[trigger] call_ensures(
            *forces,
            (state, i, again),
            two,
        ) ==> one == two
    &&& forall|a: Scalar, b: Scalar, one: Scalar, two: Scalar|
        #[trigger] call_ensures(*plus, (a, b), one) && #[trigger] call_ensures(*plus, (a, b), two) ==> one == two
}

/// The neighbors of a bird do not depend on the distance that stands in its
/// own place.
pub proof fn lemma_neighbors_of_others(vision: Scalar, i: int, one: Seq<Scalar>, two: Seq<Scalar>, n: int)
    requires
        forall|j: int| 0 <= j < n && j != i ==> one[j] == two[j],
    ensures
        neighbors_below(vision, i, one, n) == neighbors_below(vision, i, two, n),
    decreases n,
{
    if n > 0 {
        lemma_neighbors_of_others(vision, i, one, two, n - 1);
    }
}

/// At distances measured from a bird that is alone it has no neighbors.
proof fn lemma_nobody_in_sight<D: Fn(Bird, Bird) -> Scalar>(
    state: &State,
    i: int,
    distance: &D,
    distances: Seq<Scalar>,
)
    requires
        alone(state, i, distance),
        measured(state.birds@, i, distance, distances),
    ensures
        neighbors_below(state.params.vision_range, i, distances, state.birds@.len() as int).len() == 0,
{
    let n = state.birds@.len() as int;
    lemma_alone(state.params.vision_range, i, distances, n);
    assert forall|j: int| 0 <= j < n implies !sees(state.params.vision_range, i, j, #[trigger] distances[j]) by {
        if j != i {
            assert(call_ensures(*distance, (state.birds@[i], state.birds@[j]), distances[j]));
        }
    }
}

/// A bird that is alone is steered by the edges alone: one tick later its
/// velocity is what the push of the edges made of it, under the limit, and
/// nothing else.
pub proof fn lemma_lone_bird_coasts<D, P, F, A>(
    state: &State,
    i: int,
    far: (Scalar, Scalar),
    distance: &D,
    push: &P,
    forces: &F,
    plus: &A,
    next: Bird,
) where
    D: Fn(Bird, Bird) -> Scalar,
    P: Fn(Bird, Edges, Scalar, Scalar) -> (Scalar, Scalar),
    F: Fn(&State, usize, &Vec<usize>) -> [(Scalar, Scalar); 4],
    A: Fn(Scalar, Scalar) -> Scalar,

    requires
        0 <= i < state.birds@.len(),
        alone(state, i, distance),
        stepped(state, i, far, distance, push, forces, plus, next),
    ensures
        exists|pushed: (Scalar, Scalar)| coasted(state, i, far, push, plus, pushed, next),
{
    let (distances, pushed) = choose|distances: Seq<Scalar>, pushed: (Scalar, Scalar)|
        taken(state, i, far, distance, push, forces, plus, distances, pushed, next);
    lemma_nobody_in_sight(state, i, distance, distances);
    assert(coasted(state, i, far, push, plus, pushed, next));
}

/// A bird that is alone and in no margin keeps its velocity, but for the
/// limit, and moves by it.
pub proof fn lemma_lone_bird_in_the_open<D, P, F, A>(
    state: &State,
    i: int,
    far: (Scalar, Scalar),
    distance: &D,
    push: &P,
    forces: &F,
    plus: &A,
    next: Bird,
) where
    D: Fn(Bird, Bird) -> Scalar,
    P: Fn(Bird, Edges, Scalar, Scalar) -> (Scalar, Scalar),
    F: Fn(&State, usize, &Vec<usize>) -> [(Scalar, Scalar); 4],
    A: Fn(Scalar, Scalar) -> Scalar,

    requires
        0 <= i < state.birds@.len(),
        alone(state, i, distance),
        !state.birds@[i].edges_spec(far.0, far.1).any(),
        stepped(state, i, far, distance, push, forces, plus, next),
    ensures
        moved(
            state.birds@[i],
            (limited(state.birds@[i].dx, state.params.vlim), limited(state.birds@[i].dy, state.params.vlim)),
            plus,
            next,
        ),
{
    lemma_lone_bird_coasts(state, i, far, distance, push, forces, plus, next);
}

/// The weights of the three rules do not reach a bird that is alone: what it
/// may be one tick later in one flock, it may be in any flock of the same
/// birds under the same sky, vision range and velocity limit, whatever the
/// weights.
pub proof fn lemma_lone_bird_whatever_weights<D, P, F, A>(
    state: &State,
    other: &State,
    i: int,
    far: (Scalar, Scalar),
    distance: &D,
    push: &P,
    forces: &F,
    plus: &A,
    next: Bird,
) where
    D: Fn(Bird, Bird) -> Scalar,
    P: Fn(Bird, Edges, Scalar, Scalar) -> (Scalar, Scalar),
    F: Fn(&State, usize, &Vec<usize>) -> [(Scalar, Scalar); 4],
    A: Fn(Scalar, Scalar) -> Scalar,

    requires
        0 <= i < state.birds@.len(),
        other.birds@ == state.birds@,
        other.width == state.width,
        other.height == state.height,
        other.params.vision_range == state.params.vision_range,
        other.params.vlim == state.params.vlim,
        alone(state, i, distance),
        stepped(state, i, far, distance, push, forces, plus, next),
    ensures
        stepped(other, i, far, distance, push, forces, plus, next),
{
    let (distances, pushed) = choose|distances: Seq<Scalar>, pushed: (Scalar, Scalar)|
        taken(state, i, far, distance, push, forces, plus, distances, pushed, next);
    lemma_nobody_in_sight(state, i, distance, distances);
    assert(taken(other, i, far, distance, push, forces, plus, distances, pushed, next));
}

/// The only bird of a flock is alone.
pub proof fn lemma_single_bird_is_alone<D: Fn(Bird, Bird) -> Scalar>(state: &State, distance: &D)
    requires
        state.birds@.len() == 1,
    ensures
        alone(state, 0, distance),
{
}

/// With addition that gives one result only, the four forces on a velocity
/// component leave one result only.
proof fn lemma_applied_is_settled<A: Fn(Scalar, Scalar) -> Scalar>(
    plus: &A,
    v: Scalar,
    f0: Scalar,
    f1: Scalar,
    f2: Scalar,
    f3: Scalar,
    one: Scalar,
    two: Scalar,
)
    requires
        forall|a: Scalar, b: Scalar, one: Scalar, two: Scalar|
            #[trigger] call_ensures(*plus, (a, b), one) && #[trigger] call_ensures(*plus, (a, b), two) ==> one
                == two,
        applied(plus, v, f0, f1, f2, f3, one),
        applied(plus, v, f0, f1, f2, f3, two),
    ensures
        one == two,
{
    let (a2, a3, a4) = choose|two: Scalar, three: Scalar, four: Scalar|
        #[trigger] call_ensures(*plus, (f0, f1), two) && #[trigger] call_ensures(*plus, (two, f2), three)
            && #[trigger] call_ensures(*plus, (three, f3), four) && call_ensures(*plus, (v, four), one);
    let (b2, b3, b4) = choose|two_: Scalar, three: Scalar, four: Scalar|
        #[trigger] call_ensures(*plus, (f0, f1), two_) && #[trigger] call_ensures(*plus, (two_, f2), three)
            && #[trigger] call_ensures(*plus, (three, f3), four) && call_ensures(*plus, (v, four), two);
    assert(a2 == b2);
    assert(a3 == b3);
    assert(a4 == b4);
}

/// With arithmetic that gives one result only, a bird's step has one outcome
/// only: what the bird is one tick later is settled by the flock as it was,
/// in whatever order the birds are worked out.
pub proof fn lemma_step_is_settled<D, P, F, A>(
    state: &State,
    i: int,
    far: (Scalar, Scalar),
    distance: &D,
    push: &P,
    forces: &F,
    plus: &A,
    one: Bird,
    two: Bird,
) where
    D: Fn(Bird, Bird) -> Scalar,
    P: Fn(Bird, Edges, Scalar, Scalar) -> (Scalar, Scalar),
    F: Fn(&State, usize, &Vec<usize>) -> [(Scalar, Scalar); 4],
    A: Fn(Scalar, Scalar) -> Scalar,

    requires
        0 <= i < state.birds@.len(),
        single_valued(distance, push, forces, plus),
        stepped(state, i, far, distance, push, forces, plus, one),
        stepped(state, i, far, distance, push, forces, plus, two),
    ensures
        one == two,
{
    let (far_one, pushed_one) = choose|distances: Seq<Scalar>, pushed: (Scalar, Scalar)|
        taken(state, i, far, distance, push, forces, plus, distances, pushed, one);
    let (far_two, pushed_two) = choose|distances: Seq<Scalar>, pushed: (Scalar, Scalar)|
        taken(state, i, far, distance, push, forces, plus, distances, pushed, two);
    let n = state.birds@.len() as int;
    assert forall|j: int| 0 <= j < n && j != i implies far_one[j] == far_two[j] by {
        assert(call_ensures(*distance, (state.birds@[i], state.birds@[j]), far_one[j]));
        assert(call_ensures(*distance, (state.birds@[i], state.birds@[j]), far_two[j]));
    }
    lemma_neighbors_of_others(state.params.vision_range, i, far_one, far_two, n);
    assert(pushed_one == pushed_two);
    let neighbors = neighbors_below(state.params.vision_range, i, far_one, n);
    let kept = (limited(pushed_one.0, state.params.vlim), limited(pushed_one.1, state.params.vlim));
    assert(pulled(state, i, neighbors, kept, forces, plus, (one.dx, one.dy)));
    assert(pulled(state, i, neighbors, kept, forces, plus, (two.dx, two.dy)));
    if neighbors.len() != 0 {
        let (list, pull) = choose|list: Vec<usize>, pull: [(Scalar, Scalar); 4]|
            list@ == neighbors && #[trigger] call_ensures(*forces, (state, i as usize, &list), pull) && applied(
                plus,
                kept.0,
                pull[0].0,
                pull[1].0,
                pull[2].0,
                pull[3].0,
                one.dx,
            ) && applied(plus, kept.1, pull[0].1, pull[1].1, pull[2].1, pull[3].1, one.dy);
        let (again, push_again) = choose|list: Vec<usize>, pull: [(Scalar, Scalar); 4]|
            list@ == neighbors && #[trigger] call_ensures(*forces, (state, i as usize, &list), pull) && applied(
                plus,
                kept.0,
                pull[0].0,
                pull[1].0,
                pull[2].0,
                pull[3].0,
                two.dx,
            ) && applied(plus, kept.1, pull[0].1, pull[1].1, pull[2].1, pull[3].1, two.dy);
        assert(pull == push_again);
        lemma_applied_is_settled(plus, kept.0, pull[0].0, pull[1].0, pull[2].0, pull[3].0, one.dx, two.dx);
        lemma_applied_is_settled(plus, kept.1, pull[0].1, pull[1].1, pull[2].1, pull[3].1, one.dy, two.dy);
    }
    assert((one.dx, one.dy) == (two.dx, two.dy));
    assert(one.x == two.x);
    assert(one.y == two.y);
}

/// With arithmetic that gives one result only, a tick has one outcome only:
/// two flocks that each hold, in every place, what the bird of that place may
/// be one tick later are the same flock, on however many threads and in
/// whatever order their birds were worked out.
pub proof fn lemma_tick_is_settled<D, P, F, A>(
    state: &State,
    far: (Scalar, Scalar),
    distance: &D,
    push: &P,
    forces: &F,
    plus: &A,
    one: Seq<Bird>,
    two: Seq<Bird>,
) where
    D: Fn(Bird, Bird) -> Scalar,
    P: Fn(Bird, Edges, Scalar, Scalar) -> (Scalar, Scalar),
    F: Fn(&State, usize, &Vec<usize>) -> [(Scalar, Scalar); 4],
    A: Fn(Scalar, Scalar) -> Scalar,

    requires
        single_valued(distance, push, forces, plus),
        one.len() == state.birds@.len(),
        two.len() == state.birds@.len(),
        forall|i: int|
            0 <= i < state.birds@.len() ==> stepped(state, i, far, distance, push, forces, plus, #[trigger] one[i]),
        forall|i: int|
            0 <= i < state.birds@.len() ==> stepped(state, i, far, distance, push, forces, plus, #[trigger] two[i]),
    ensures
        one == two,
{
    assert forall|i: int| 0 <= i < one.len() implies one[i] == two[i] by {
        lemma_step_is_settled(state, i, far, distance, push, forces, plus, one[i], two[i]);
    }
    assert(one =~= two);
}

impl State {
    /// The neighbors of bird `i`: all the birds of the flock that it sees.
    pub open spec fn neighbor_list(&self, i: int, distances: Seq<Scalar>) -> Seq<usize> {
        neighbors_below(self.params.vision_range, i, distances, self.birds@.len() as int)
    }

    /// Whether bird `i` sees bird `j`, which is at `distance` from it.
    pub fn is_neighbor(&self, i: usize, j: usize, distance: Scalar) -> (r: bool)
        requires
            i < self.birds@.len(),
            j < self.birds@.len(),
        ensures
            r == sees(self.params.vision_range, i as int, j as int, distance),
    {
        self.birds.bird(j).id != self.birds.bird(i).id && distance.le(self.params.vision_range)
    }

    /// The neighbors of bird `i` in rising order, where `distances[j]` is how
    /// far bird `j` is from it; `None` where it has none, and so nothing to
    /// steer by but the edges of the sky.
    pub fn neighbors(&self, i: usize, distances: &Vec<Scalar>) -> (r: Option<Vec<usize>>)
        requires
            i < self.birds@.len(),
            distances@.len() == self.birds@.len(),
        ensures
            r is None <==> self.neighbor_list(i as int, distances@).len() == 0,
            r is Some ==> r->0@ == self.neighbor_list(i as int, distances@),
    {
        let mut found: Vec<usize> = Vec::new();
        let mut j: usize = 0;
        while j < self.birds.len()
            invariant
                i < self.birds@.len(),
                distances@.len() == self.birds@.len(),
                j <= self.birds@.len(),
                found@ == neighbors_below(self.params.vision_range, i as int, distances@, j as int),
            decreases self.birds@.len() - j,
        {
            if self.is_neighbor(i, j, distances[j]) {
                found.push(j);
            }
            j += 1;
        }
        if found.len() == 0 {
            None
        } else {
            Some(found)
        }
    }

    /// Bird `i` one tick later, worked out from the flock as it is.
    ///
    /// The bird's neighbors are found. The edges whose margin it is in push
    /// it, and what they leave of its velocity is limited. If it has
    /// neighbors, their four forces are added to that. Then it moves by its
    /// new velocity.
    ///
    /// `distance` measures from one bird to another. `push` gives a bird's
    /// velocity after the push of the edges whose margin it is in, in a sky of
    /// the given width and height; it is not asked where the bird is in none.
    /// `forces` gives the four forces of the listed neighbors on bird `i`:
    /// cohesion, separation, alignment and the matching of velocities. `plus`
    /// adds two numbers. `far_x` and `far_y` are where the margins of the
    /// right and the bottom edge begin.
    pub fn step<D, P, F, A>(
        &self,
        i: usize,
        far_x: Scalar,
        far_y: Scalar,
        distance: &D,
        push: &P,
        forces: &F,
        plus: &A,
    ) -> (next: Bird) where
        D: Fn(Bird, Bird) -> Scalar,
        P: Fn(Bird, Edges, Scalar, Scalar) -> (Scalar, Scalar),
        F: Fn(&State, usize, &Vec<usize>) -> [(Scalar, Scalar); 4],
        A: Fn(Scalar, Scalar) -> Scalar,

        requires
            i < self.birds@.len(),
            callable(self, i as int, distance, push, forces, plus),
        ensures
            stepped(self, i as int, (far_x, far_y), distance, push, forces, plus, next),
            next.id == i,
    {
        let bird = self.birds.bird(i);
        let mut distances: Vec<Scalar> = Vec::new();
        let mut j: usize = 0;
        while j < self.birds.len()
            invariant
                i < self.birds@.len(),
                bird == self.birds@[i as int],
                callable(self, i as int, distance, push, forces, plus),
                j <= self.birds@.len(),
                distances@.len() == j,
                forall|k: int|
                    0 <= k < j && k != i ==> call_ensures(
                        *distance,
                        (bird, self.birds@[k]),
                        #[trigger] distances@[k],
                    ),
            decreases self.birds@.len() - j,
        {
            if j == i {
                distances.push(Scalar::zero());
            } else {
                let other = self.birds.bird(j);
                distances.push(distance(bird, other));
            }
            j += 1;
        }
        let seen = self.neighbors(i, &distances);
        let edges = bird.edges(far_x, far_y);
        let pushed = if edges.any() {
            push(bird, edges, self.width, self.height)
        } else {
            (bird.dx, bird.dy)
        };
        let mut next = bird;
        next.dx = pushed.0;
        next.dy = pushed.1;
        next.limit_velocity(self.params.vlim);
        let ghost kept = (next.dx, next.dy);
        if let Some(list) = seen {
            let pull = forces(self, i, &list);
            next.apply_forces(pull, plus);
        }
        next.update_pos(plus);
        proof {
            assert(measured(self.birds@, i as int, distance, distances@));
            assert(pushed_back(self, i as int, (far_x, far_y), push, pushed));
            assert(pulled(
                self,
                i as int,
                self.neighbor_list(i as int, distances@),
                kept,
                forces,
                plus,
                (next.dx, next.dy),
            ));
            assert(moved(bird, (next.dx, next.dy), plus, next));
            assert(taken(
                self,
                i as int,
                (far_x, far_y),
                distance,
                push,
                forces,
                plus,
                distances@,
                pushed,
                next,
            ));
        }
        next
    }

    /// One tick: every bird is replaced by what [`State::step`] makes of it
    /// in the flock as it was before the tick. The flock keeps its size and
    /// every bird its identity, and the settings and the sky stay.
    pub fn tick<D, P, F, A>(
        &mut self,
        far_x: Scalar,
        far_y: Scalar,
        distance: &D,
        push: &P,
        forces: &F,
        plus: &A,
    ) where
        D: Fn(Bird, Bird) -> Scalar,
        P: Fn(Bird, Edges, Scalar, Scalar) -> (Scalar, Scalar),
        F: Fn(&State, usize, &Vec<usize>) -> [(Scalar, Scalar); 4],
        A: Fn(Scalar, Scalar) -> Scalar,

        requires
            forall|i: int|
                0 <= i < old(self).birds@.len() ==> #[trigger] callable(&*old(self), i, distance, push, forces, plus),
        ensures
            final(self).birds@.len() == old(self).birds@.len(),
            forall|i: int|
                0 <= i < old(self).birds@.len() ==> stepped(
                    &*old(self),
                    i,
                    (far_x, far_y),
                    distance,
                    push,
                    forces,
                    plus,
                    #[trigger] final(self).birds@[i],
                ),
            forall|i: int|
                0 <= i < old(self).birds@.len() ==> (#[trigger] final(self).birds@[i]).id == old(self).birds@[i].id,
            numbered(final(self).birds@),
            final(self).params == old(self).params,
            final(self).show_ui == old(self).show_ui,
            final(self).width == old(self).width,
            final(self).height == old(self).height,
    {
        let mut next: Vec<Bird> = Vec::new();
        let mut i: usize = 0;
        while i < self.birds.len()
            invariant
                *self == *old(self),
                forall|k: int|
                    0 <= k < self.birds@.len() ==> #[trigger] callable(&*self, k, distance, push, forces, plus),
                i <= self.birds@.len(),
                next@.len() == i,
                forall|k: int|
                    0 <= k < i ==> stepped(
                        &*self,
                        k,
                        (far_x, far_y),
                        distance,
                        push,
                        forces,
                        plus,
                        #[trigger] next@[k],
                    ),
                forall|k: int| 0 <= k < i ==> (#[trigger] next@[k]).id == k,
            decreases self.birds@.len() - i,
        {
            let bird = self.step(i, far_x, far_y, distance, push, forces, plus);
            next.push(bird);
            i += 1;
        }
        let done = self.birds.advance(next);
        assert(done);
    }
}

} // verus!
