//! A brightness "throbber": a level that ramps up to full brightness and back down.

use vstd::prelude::*;

use crate::utils::{clip_min, clip_min_spec};

verus! {

/// Which way the brightness is currently moving.
#[derive(Clone, Copy, PartialEq, Eq, Structural)]
pub enum Direction {
    Up,
    Down,
}

/// Throbber state
///
/// A throbber slowly changes its brightness level from `min` to 255 and back each time
/// `next()` is called. The level can modulate an LED colour before it is written out.
#[derive(Clone, Copy)]
pub struct Throbber {
    brightness: i16,
    direction: Direction,
    step: i16,
    min: u8,
    once: bool,
    done: bool,
}

/// The mathematical state of a throbber.
pub struct ThrobberState {
    pub brightness: int,
    pub up: bool,
    pub step: int,
    pub min: int,
    pub once: bool,
    pub done: bool,
}

impl ThrobberState {
    /// The level stays between `min` and 255, and the step is a byte.
    pub open spec fn wf(self) -> bool {
        &&& 0 <= self.min <= self.brightness <= 255
        &&& 0 <= self.step <= 255
    }

    /// The state after one call of `next`.
    pub open spec fn advanced(self) -> ThrobberState {
        if self.done {
            self
        } else if self.up {
            if self.brightness + self.step >= 255 {
                ThrobberState { brightness: 255, up: false, ..self }
            } else {
                ThrobberState { brightness: self.brightness + self.step, ..self }
            }
        } else {
            if self.brightness - self.step < self.min {
                ThrobberState { brightness: self.min, up: true, done: self.once, ..self }
            } else {
                ThrobberState { brightness: self.brightness - self.step, ..self }
            }
        }
    }

    /// The level that one call of `next` returns, if any.
    pub open spec fn level(self) -> Option<u8> {
        if self.done {
            None
        } else {
            Some(clip_min_spec(self.advanced().brightness, self.min) as u8)
        }
    }

    /// The state after `n` calls of `next`.
    pub open spec fn advanced_by(self, n: nat) -> ThrobberState
        decreases n,
    {
        if n == 0 {
            self
        } else {
            self.advanced_by((n - 1) as nat).advanced()
        }
    }
}

impl View for Throbber {
    type V = ThrobberState;

    closed spec fn view(&self) -> ThrobberState {
        ThrobberState {
            brightness: self.brightness as int,
            up: self.direction == Direction::Up,
            step: self.step as int,
            min: self.min as int,
            once: self.once,
            done: self.done,
        }
    }
}

impl Throbber {
    /// Create a throbber.
    ///
    /// * `step` - Amount to change brightness by in each iteration
    /// * `min` - Minimum brightness value to not go below
    /// * `once` - Throb just once, ending when the brightness on the way down reaches `min`
    pub fn new(step: u8, min: u8, once: bool) -> (r: Self)
        ensures
            r@ == (ThrobberState {
                brightness: min as int,
                up: true,
                step: step as int,
                min: min as int,
                once,
                done: false,
            }),
            r@.wf(),
    {
        Self { brightness: min as i16, direction: Direction::Up, step: step as i16, min, once, done: false }
    }

    /// Create a throbber that throbs once, starting and ending at zero brightness.
    ///
    /// It goes up by `step` each time until full brightness, then back down until it is dark
    /// again; from then on it returns `None`.
    pub fn new_once(step: u8) -> (r: Self)
        ensures
            r@ == (ThrobberState {
                brightness: 0,
                up: true,
                step: step as int,
                min: 0,
                once: true,
                done: false,
            }),
            r@.wf(),
    {
        Self { brightness: 0, direction: Direction::Up, step: step as i16, min: 0, once: true, done: false }
    }

    /// The next brightness level, or `None` once a single-shot throbber has finished.
    pub fn next(&mut self) -> (r: Option<u8>)
        requires
            old(self)@.wf(),
        ensures
            final(self)@ == old(self)@.advanced(),
            r == old(self)@.level(),
            final(self)@.wf(),
    {
        if self.done {
            return None;
        }
        match self.direction {
            Direction::Up => {
                self.brightness = self.brightness + self.step;
                if self.brightness >= 255 {
                    self.direction = Direction::Down;
                    self.brightness = 255;
                }
            },
            Direction::Down => {
                self.brightness = self.brightness - self.step;
                if self.brightness < self.min as i16 {
                    if self.once {
                        self.done = true;
                    }
                    self.direction = Direction::Up;
                    self.brightness = self.min as i16;
                }
            },
        }
        Some(clip_min(self.brightness, self.min))
    }

    /// Advances the throbber by `steps` levels, so that it can start at a brightness other
    /// than `min`.
    pub fn advance(&mut self, steps: u8)
        requires
            old(self)@.wf(),
        ensures
            final(self)@ == old(self)@.advanced_by(steps as nat),
            final(self)@.wf(),
    {
        let mut i: u8 = 0;
        while i < steps
            invariant
                0 <= i <= steps,
                self@ == old(self)@.advanced_by(i as nat),
                self@.wf(),
            decreases steps - i,
        {
            self.next();
            i = i + 1;
        }
    }
}

} // verus!
