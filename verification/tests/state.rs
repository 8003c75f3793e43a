use lignum::state::{COHESION, MATCH_FACTOR, NO_LIMIT, SEPARATION, VELOCITY_LIMIT, VISION_RANGE};
use lignum::{Parameters, Scalar, State};

fn s(x: f32) -> Scalar {
    Scalar::from_bits(x.to_bits())
}

fn f(x: Scalar) -> f32 {
    f32::from_bits(x.to_bits())
}

#[test]
fn constants_hold_their_numbers() {
    assert_eq!(SEPARATION, 1.0f32.to_bits());
    assert_eq!(MATCH_FACTOR, 0.02f32.to_bits());
    assert_eq!(COHESION, 0.01f32.to_bits());
    assert_eq!(VISION_RANGE, 125.0f32.to_bits());
    assert_eq!(VELOCITY_LIMIT, 10.0f32.to_bits());
    assert_eq!(NO_LIMIT, (-1.0f32).to_bits());
}

#[test]
fn default_parameters() {
    let p = Parameters::default();
    assert_eq!(f(p.separation), 1.0);
    assert_eq!(f(p.match_factor), 0.02);
    assert_eq!(f(p.cohesion), 0.01);
    assert_eq!(f(p.vision_range), 125.0);
    assert_eq!(p.vlim, Some(s(10.0)));
    assert_eq!(p, Parameters::new(Some(s(10.0))));
}

#[test]
fn new_parameters_take_the_limit_as_given() {
    assert_eq!(Parameters::new(None).vlim, None);
    assert_eq!(Parameters::new(Some(s(3.5))).vlim, Some(s(3.5)));
    assert_eq!(f(Parameters::new(None).vision_range), 125.0);
}

#[test]
fn default_state_is_an_empty_sky() {
    let state = State::default();
    assert_eq!(state.birds.len(), 0);
    assert!(state.show_ui);
    assert_eq!(state.params, Parameters::default());
    assert_eq!((f(state.width), f(state.height)), (0.0, 0.0));
}

#[test]
fn new_state_puts_one_bird_at_each_position() {
    let positions = vec![(s(1.0), s(2.0)), (s(30.0), s(40.0)), (s(-5.0), s(600.0))];
    let state = State::new(&positions, None, s(800.0), s(600.0));
    assert_eq!(state.birds.len(), 3);
    for (k, p) in positions.iter().enumerate() {
        let bird = state.birds.bird(k);
        assert_eq!(bird.id, k);
        assert_eq!(bird.pos(), *p);
        assert_eq!((bird.dx.to_bits(), bird.dy.to_bits()), (0, 0));
    }
    assert_eq!(state.params, Parameters::new(None));
    assert!(state.show_ui);
    assert_eq!((f(state.width), f(state.height)), (800.0, 600.0));
}

#[test]
fn new_state_without_birds() {
    let state = State::new(&Vec::new(), Some(s(10.0)), s(800.0), s(600.0));
    assert_eq!(state.birds.len(), 0);
    assert_eq!(state.params, Parameters::default());
}

#[test]
fn velocity_limit_reads_minus_one_as_no_limit() {
    assert_eq!(State::velocity_limit(s(-1.0)), None);
}

#[test]
fn velocity_limit_takes_a_number_without_its_sign() {
    assert_eq!(State::velocity_limit(s(10.0)), Some(s(10.0)));
    assert_eq!(State::velocity_limit(s(-5.0)), Some(s(5.0)));
    assert_eq!(State::velocity_limit(s(0.0)), Some(s(0.0)));
    assert_eq!(State::velocity_limit(s(-0.0)), Some(s(0.0)));
    assert_eq!(State::velocity_limit(s(1.0)), Some(s(1.0)));
    assert_eq!(State::velocity_limit(s(-1.000_000_1)), Some(s(1.000_000_1)));
    assert_eq!(State::velocity_limit(s(-0.999_999_94)), Some(s(0.999_999_94)));
    assert_eq!(State::velocity_limit(s(f32::NEG_INFINITY)), Some(s(f32::INFINITY)));
}

#[test]
fn velocity_limit_agrees_with_plain_floats() {
    for v in [-100.0f32, -1.0, -0.5, 0.0, 0.5, 1.0, 10.0, 1.0e20] {
        let want = if v == -1.0 { None } else { Some(v.abs()) };
        assert_eq!(State::velocity_limit(s(v)).map(f), want);
    }
    let nan = State::velocity_limit(s(f32::NAN));
    assert!(nan.map(f).unwrap().is_nan());
}

#[test]
fn set_world_bounds_changes_the_sky_only() {
    let positions = vec![(s(1.0), s(2.0)), (s(30.0), s(40.0))];
    let mut state = State::new(&positions, Some(s(4.0)), s(800.0), s(600.0));
    state.params.cohesion = s(0.05);
    state.show_ui = false;
    let birds = state.birds.birds().clone();
    let params = state.params;
    state.set_world_bounds(s(1024.0), s(768.0));
    assert_eq!((f(state.width), f(state.height)), (1024.0, 768.0));
    assert_eq!(state.birds.birds(), &birds);
    assert_eq!(state.params, params);
    assert!(!state.show_ui);
}

#[test]
fn key_u_shows_and_hides_the_panel() {
    let mut state = State::default();
    assert!(state.show_ui);
    state.key_down_event(true, false);
    assert!(!state.show_ui);
    state.key_down_event(true, false);
    assert!(state.show_ui);
}

#[test]
fn a_held_key_and_other_keys_do_nothing() {
    let mut state = State::default();
    state.key_down_event(true, true);
    assert!(state.show_ui);
    state.key_down_event(false, false);
    assert!(state.show_ui);
    state.key_down_event(false, true);
    assert!(state.show_ui);
    state.show_ui = false;
    state.key_down_event(true, true);
    assert!(!state.show_ui);
    state.key_down_event(false, false);
    assert!(!state.show_ui);
}

#[test]
fn key_event_leaves_the_rest_alone() {
    let positions = vec![(s(1.0), s(2.0))];
    let mut state = State::new(&positions, None, s(800.0), s(600.0));
    state.key_down_event(true, false);
    assert_eq!(state.birds.len(), 1);
    assert_eq!(state.birds.bird(0).pos(), (s(1.0), s(2.0)));
    assert_eq!(state.params, Parameters::new(None));
    assert_eq!((f(state.width), f(state.height)), (800.0, 600.0));
}

#[test]
fn parameters_take_any_value() {
    let mut state = State::default();
    state.params.separation = s(-3.0);
    state.params.cohesion = s(f32::NAN);
    state.params.vision_range = s(0.0);
    state.params.vlim = None;
    assert_eq!(f(state.params.separation), -3.0);
    assert!(f(state.params.cohesion).is_nan());
    assert_eq!(f(state.params.vision_range), 0.0);
    assert_eq!(state.params.vlim, None);
}
