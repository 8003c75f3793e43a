use lignum::{Bird, Flock, Scalar};

fn s(x: f32) -> Scalar {
    Scalar::from_bits(x.to_bits())
}

fn three() -> Flock {
    Flock::new(&vec![(s(1.0), s(2.0)), (s(3.0), s(4.0)), (s(5.0), s(6.0))])
}

fn moved(id: usize, x: f32) -> Bird {
    let mut bird = Bird::new(id, s(x), s(0.0));
    bird.dx = s(1.0);
    bird
}

#[test]
fn new_flock_numbers_its_birds() {
    let flock = three();
    assert_eq!(flock.len(), 3);
    assert_eq!(flock.bird(0), Bird::new(0, s(1.0), s(2.0)));
    assert_eq!(flock.bird(1), Bird::new(1, s(3.0), s(4.0)));
    assert_eq!(flock.bird(2), Bird::new(2, s(5.0), s(6.0)));
    let ids: Vec<usize> = flock.birds().iter().map(|b| b.id).collect();
    assert_eq!(ids, vec![0, 1, 2]);
}

#[test]
fn default_flock_is_empty() {
    let flock = Flock::default();
    assert_eq!(flock.len(), 0);
    assert!(flock.birds().is_empty());
}

#[test]
fn advance_takes_a_flock_that_follows() {
    let mut flock = three();
    let next = vec![moved(0, 10.0), moved(1, 20.0), moved(2, 30.0)];
    assert!(flock.advance(next.clone()));
    assert_eq!(flock.birds(), &next);
    assert_eq!(flock.len(), 3);
}

#[test]
fn advance_refuses_another_size() {
    let mut flock = three();
    let before = flock.birds().clone();
    assert!(!flock.advance(vec![moved(0, 10.0), moved(1, 20.0)]));
    assert_eq!(flock.birds(), &before);
    assert!(!flock.advance(vec![moved(0, 10.0), moved(1, 20.0), moved(2, 30.0), moved(3, 40.0)]));
    assert_eq!(flock.birds(), &before);
    assert!(!flock.advance(Vec::new()));
    assert_eq!(flock.birds(), &before);
}

#[test]
fn advance_refuses_other_identities() {
    let mut flock = three();
    let before = flock.birds().clone();
    assert!(!flock.advance(vec![moved(1, 10.0), moved(0, 20.0), moved(2, 30.0)]));
    assert_eq!(flock.birds(), &before);
    assert!(!flock.advance(vec![moved(0, 10.0), moved(1, 20.0), moved(1, 30.0)]));
    assert_eq!(flock.birds(), &before);
    assert!(!flock.advance(vec![moved(0, 10.0), moved(1, 20.0), moved(7, 30.0)]));
    assert_eq!(flock.birds(), &before);
}

#[test]
fn advance_of_an_empty_flock() {
    let mut flock = Flock::default();
    assert!(flock.advance(Vec::new()));
    assert_eq!(flock.len(), 0);
    assert!(!flock.advance(vec![moved(0, 1.0)]));
    assert_eq!(flock.len(), 0);
}

#[test]
fn identities_stay_over_many_advances() {
    let mut flock = three();
    for round in 0..10 {
        let next: Vec<Bird> = flock.birds().iter().map(|b| moved(b.id, round as f32)).collect();
        assert!(flock.advance(next));
        let ids: Vec<usize> = flock.birds().iter().map(|b| b.id).collect();
        assert_eq!(ids, vec![0, 1, 2]);
    }
}
