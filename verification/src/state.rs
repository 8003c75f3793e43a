//! The flock with what steers it and the sky it flies in.

use vstd::prelude::*;
use crate::flock::Flock;
use crate::flock::at_rest;
use crate::scalar::Scalar;

verus! {

/// The weight of separation at the start: the pattern of 1.
pub const SEPARATION: u32 = 0x3f80_0000;

/// The weight of alignment and of velocity matching at the start: the pattern
/// of the single-precision number nearest to 0.02.
pub const MATCH_FACTOR: u32 = 0x3ca3_d70a;

/// The weight of cohesion at the start: the pattern of the single-precision
/// number nearest to 0.01.
pub const COHESION: u32 = 0x3c23_d70a;

/// How far a bird sees at the start: the pattern of 125.
pub const VISION_RANGE: u32 = 0x42fa_0000;

/// The velocity limit at the start: the pattern of 10.
pub const VELOCITY_LIMIT: u32 = 0x4120_0000;

/// The argument that switches the velocity limit off: the pattern of -1.
pub const NO_LIMIT: u32 = 0xbf80_0000;

/// What steers the flock. Every field is open to whoever tunes it between two
/// ticks, and no value is refused: a weight below zero turns its rule round.
#[derive(Clone, Copy, Debug, PartialEq, Eq, Structural)]
pub struct Parameters {
    /// The weight of separation.
    pub separation: Scalar,
    /// The weight of alignment and of velocity matching.
    pub match_factor: Scalar,
    /// The weight of cohesion.
    pub cohesion: Scalar,
    /// The distance up to which a bird sees another.
    pub vision_range: Scalar,
    /// The limit on each component of a velocity, if there is one.
    pub vlim: Option<Scalar>,
}

impl Parameters {
    /// The parameters of a new flock under the velocity limit `vlim`.
    pub open spec fn initial(vlim: Option<Scalar>) -> Parameters {
        Parameters {
            separation: Scalar { bits: SEPARATION },
            match_factor: Scalar { bits: MATCH_FACTOR },
            cohesion: Scalar { bits: COHESION },
            vision_range: Scalar { bits: VISION_RANGE },
            vlim,
        }
    }

    /// The parameters of a new flock under the velocity limit `vlim`.
    pub fn new(vlim: Option<Scalar>) -> (r: Parameters)
        ensures
            r == Parameters::initial(vlim),
    {
        Parameters {
            separation: Scalar::from_bits(SEPARATION),
            match_factor: Scalar::from_bits(MATCH_FACTOR),
            cohesion: Scalar::from_bits(COHESION),
            vision_range: Scalar::from_bits(VISION_RANGE),
            vlim,
        }
    }
}

impl Default for Parameters {
    /// The parameters of a new flock under a velocity limit of 10.
    fn default() -> (r: Parameters)
        ensures
            r == Parameters::initial(Some(Scalar { bits: VELOCITY_LIMIT })),
    {
        Parameters::new(Some(Scalar::from_bits(VELOCITY_LIMIT)))
    }
}

/// What the argument for the velocity limit stands for: -1 for no limit, any
/// other number for the limit of that size, whatever its sign.
pub open spec fn velocity_limit_spec(arg: Scalar) -> Option<Scalar> {
    if arg.same_spec(Scalar { bits: NO_LIMIT }) {
        None
    } else {
        Some(arg.abs_spec())
    }
}

/// The flock, its parameters, and the sky it flies in.
#[derive(Debug)]
pub struct State {
    /// What steers the flock.
    pub params: Parameters,
    /// Whether the panel of settings is shown.
    pub show_ui: bool,
    /// The width of the sky.
    pub width: Scalar,
    /// The height of the sky.
    pub height: Scalar,
    /// The birds.
    pub birds: Flock,
}

impl State {
    /// A flock of one bird at rest at each of `positions`, numbered from 0 in
    /// that order, in a sky of the given size, with the parameters of a new
    /// flock under the velocity limit `vlim`.
    pub fn new(positions: &Vec<(Scalar, Scalar)>, vlim: Option<Scalar>, width: Scalar, height: Scalar) -> (r: State)
        ensures
            r.birds@ == at_rest(positions@),
            r.params == Parameters::initial(vlim),
            r.show_ui,
            r.width == width,
            r.height == height,
    {
        State {
            params: Parameters::new(vlim),
            show_ui: true,
            width,
            height,
            birds: Flock::new(positions),
        }
    }

    /// Reads the argument for the velocity limit: -1 switches the limit off,
    /// any other number is taken without its sign.
    pub fn velocity_limit(arg: Scalar) -> (r: Option<Scalar>)
        ensures
            r == velocity_limit_spec(arg),
            r is None <==> arg.bits == NO_LIMIT,
    {
        if arg.same(Scalar::from_bits(NO_LIMIT)) {
            None
        } else {
            Some(arg.abs())
        }
    }

    /// Takes the new size of the sky. The birds and the settings stay.
    pub fn set_world_bounds(&mut self, width: Scalar, height: Scalar)
        ensures
            *final(self) == (State { width, height, ..*old(self) }),
    {
        self.width = width;
        self.height = height;
    }

    /// A key went down: `U` shows or hides the panel of settings, unless the
    /// key is only being held. Nothing else changes.
    pub fn key_down_event(&mut self, pressed_u: bool, repeat: bool)
        ensures
            *final(self) == (State {
                show_ui: old(self).show_ui != (pressed_u && !repeat),
                ..*old(self)
            }),
    {
        if repeat {
            return ;
        }
        if pressed_u {
            self.show_ui = !self.show_ui;
        }
    }
}

impl Clone for State {
    /// The same flock under the same parameters and the same sky.
    fn clone(&self) -> (r: State)
        ensures
            r.birds@ == self.birds@,
            r.params == self.params,
            r.show_ui == self.show_ui,
            r.width == self.width,
            r.height == self.height,
    {
        State {
            params: self.params,
            show_ui: self.show_ui,
            width: self.width,
            height: self.height,
            birds: self.birds.clone(),
        }
    }
}

impl Default for State {
    /// A flock without birds, in a sky of no size, under a velocity limit of
    /// 10.
    fn default() -> (r: State)
        ensures
            r.birds@.len() == 0,
            r.params == Parameters::initial(Some(Scalar { bits: VELOCITY_LIMIT })),
            r.show_ui,
            r.width == (Scalar { bits: 0 }),
            r.height == (Scalar { bits: 0 }),
    {
        State {
            params: Parameters::default(),
            show_ui: true,
            width: Scalar::zero(),
            height: Scalar::zero(),
            birds: Flock::default(),
        }
    }
}

} // verus!
