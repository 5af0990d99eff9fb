//! LED animations: a closed set of variants, each a lazy producer of frames.
//!
//! * Sparkle: one colour at a random brightness per pixel, optionally until an expiry time.
//! * Presence: the colours of the visible souls, rotating one step per frame.

use vstd::prelude::*;

use crate::colour::{scaled, set_brightness, Rgb};
use crate::configuration::{LED_STRING_SIZE, MAX_SOULS_TRACKED};
use crate::tracker::{SoulSummary, VisibleSouls};

verus! {

#[verifier::external_type_specification]
#[verifier::external_body]
pub struct ExRng(fastrand::Rng);

/// Relies on fastrand's `Rng::with_seed`: a generator seeded with `seed`.
#[verifier::external_body]
fn rng_with_seed(seed: u64) -> (r: fastrand::Rng) {
    fastrand::Rng::with_seed(seed)
}

/// Relies on fastrand's `Rng::u8` over the range `0..=255`: any byte.
#[verifier::external_body]
fn rng_level(rng: &mut fastrand::Rng) -> (r: u8) {
    rng.u8(0..=255)
}

/// One frame for the whole LED string.
pub type LedBuffer = Vec<Rgb>;

/// Whether an animation can be interrupted before it has run out.
pub trait Interruptable {
    /// Whether this animation may be replaced by a pending one.
    spec fn interruptable(&self) -> bool;

    /// If this is true the animation may be replaced before it runs out. A new soul's arrival
    /// sparkle is not interruptable: later arrivals wait in the queue until it is done, so
    /// such an animation must run out on its own.
    fn is_interruptable(&self) -> (r: bool)
        ensures
            r == self.interruptable(),
    ;
}

// ---------------------------------------------------------------------------------------------
// Sparkle
// ---------------------------------------------------------------------------------------------

/// Takes one colour and gives each pixel a random brightness of it. It produces frames until
/// its expiry time, if it has one.
pub struct SparkleAnimation {
    /// The colour to sparkle.
    colour: Rgb,
    /// The uptime (milliseconds) at which the animation ends; `None` runs forever, and makes
    /// the animation interruptable.
    expires: Option<u64>,
    /// Random number generator for the sparkle effect.
    rng: fastrand::Rng,
}

/// What a sparkle animation is, apart from its generator's state.
pub struct SparkleState {
    pub colour: Rgb,
    pub expires: Option<u64>,
}

impl View for SparkleAnimation {
    type V = SparkleState;

    closed spec fn view(&self) -> SparkleState {
        SparkleState { colour: self.colour, expires: self.expires }
    }
}

/// Whether a sparkle with this expiry still produces frames at `now`.
pub open spec fn sparkle_live(expires: Option<u64>, now: u64) -> bool {
    match expires {
        None => true,
        Some(e) => now < e,
    }
}

/// `p` is `colour` at some brightness.
pub open spec fn is_sparkle_pixel(p: Rgb, colour: Rgb) -> bool {
    exists|b: u8| p == #[trigger] scaled(colour, b)
}

/// `f` is a sparkle frame of `colour`: each pixel is the colour at some brightness.
pub open spec fn is_sparkle_frame(f: Seq<Rgb>, colour: Rgb) -> bool {
    &&& f.len() == LED_STRING_SIZE
    &&& forall|i: int| 0 <= i < f.len() ==> is_sparkle_pixel(#[trigger] f[i], colour)
}

impl SparkleAnimation {
    /// A sparkle of `colour` created at uptime `now`, running for `ttl` milliseconds or, with no
    /// `ttl`, forever. The generator is seeded with `now`.
    pub fn new(colour: Rgb, ttl: Option<u64>, now: u64) -> (r: Self)
        requires
            ttl matches Some(t) ==> now + t <= u64::MAX,
        ensures
            r@.colour == colour,
            r@.expires == match ttl {
                Some(t) => Some((now + t) as u64),
                None => None,
            },
    {
        let expires = match ttl {
            Some(t) => Some(now + t),
            None => None,
        };
        SparkleAnimation { colour, expires, rng: rng_with_seed(now) }
    }

    /// The next frame at uptime `now`, or `None` once the expiry time has been reached.
    pub fn next(&mut self, now: u64) -> (r: Option<LedBuffer>)
        ensures
            final(self)@ == old(self)@,
            r is Some <==> sparkle_live(old(self)@.expires, now),
            r matches Some(f) ==> is_sparkle_frame(f@, old(self)@.colour),
    {
        let done = match self.expires {
            Some(exp) => now >= exp,
            None => false,
        };
        if done {
            return None;
        }
        let mut levels: Vec<u8> = Vec::new();
        let mut i: usize = 0;
        while i < LED_STRING_SIZE
            invariant
                0 <= i <= LED_STRING_SIZE,
                levels@.len() == i,
                self@ == old(self)@,
            decreases LED_STRING_SIZE - i,
        {
            levels.push(rng_level(&mut self.rng));
            i = i + 1;
        }
        let buffer = sparkle_frame(self.colour, &levels);
        assert forall|j: int| 0 <= j < buffer@.len() implies is_sparkle_pixel(
            #[trigger] buffer@[j],
            self.colour,
        ) by {
            assert(buffer@[j] == scaled(self.colour, levels@[j]));
        }
        Some(buffer)
    }
}

/// The sparkle frame of `colour` for the drawn brightness levels: pixel `i` is the colour at
/// brightness `levels[i]`.
pub fn sparkle_frame(colour: Rgb, levels: &Vec<u8>) -> (r: LedBuffer)
    ensures
        r@.len() == levels@.len(),
        forall|i: int| 0 <= i < r@.len() ==> #[trigger] r@[i] == scaled(colour, levels@[i]),
{
    let mut buffer: Vec<Rgb> = Vec::new();
    let mut i: usize = 0;
    while i < levels.len()
        invariant
            0 <= i <= levels@.len(),
            buffer@.len() == i,
            forall|j: int| 0 <= j < i ==> #[trigger] buffer@[j] == scaled(colour, levels@[j]),
        decreases levels@.len() - i,
    {
        buffer.push(set_brightness(levels[i], colour));
        i = i + 1;
    }
    buffer
}

impl Interruptable for SparkleAnimation {
    open spec fn interruptable(&self) -> bool {
        self@.expires is None
    }

    fn is_interruptable(&self) -> (r: bool) {
        self.expires.is_none()
    }
}

// ---------------------------------------------------------------------------------------------
// Presence
// ---------------------------------------------------------------------------------------------

/// Displays the colours of the visible souls and rotates them one position per frame. With
/// no souls it ends at once.
pub struct PresenceAnimation {
    /// The souls visible when the animation was created.
    souls: VisibleSouls,
    /// The current rotation.
    index: usize,
}

/// What a presence animation is: its souls and its current rotation.
pub struct PresenceState {
    pub souls: Seq<SoulSummary>,
    pub index: int,
}

impl PresenceState {
    pub open spec fn wf(self) -> bool {
        &&& self.souls.len() <= MAX_SOULS_TRACKED
        &&& 0 <= self.index < LED_STRING_SIZE
    }
}

impl View for PresenceAnimation {
    type V = PresenceState;

    closed spec fn view(&self) -> PresenceState {
        PresenceState { souls: self.souls@, index: self.index as int }
    }
}

/// The souls' colours at positions `0..n` of a dark frame.
pub open spec fn presence_base(souls: Seq<SoulSummary>) -> Seq<Rgb> {
    Seq::new(
        LED_STRING_SIZE as nat,
        |i: int|
            if i < souls.len() {
                souls[i].colour
            } else {
                Rgb::black_spec()
            },
    )
}

/// `s` rotated right by `k` positions: the pixel at position `i` moves to `i + k`, wrapping.
pub open spec fn rotate_right(s: Seq<Rgb>, k: int) -> Seq<Rgb> {
    Seq::new(s.len(), |j: int| s[(j - k) % (s.len() as int)])
}

/// The frame that a presence animation over `souls` shows at rotation `index`.
pub open spec fn presence_frame(souls: Seq<SoulSummary>, index: int) -> Seq<Rgb> {
    rotate_right(presence_base(souls), index)
}

/// The rotation of a presence animation after `k` frames.
pub open spec fn rotation_after(k: nat) -> int
    decreases k,
{
    if k == 0 {
        0
    } else {
        (rotation_after((k - 1) as nat) + 1) % (LED_STRING_SIZE as int)
    }
}

/// A presence animation's frames turn one position per frame: its `k`-th frame (counting
/// from 0) is its first frame rotated right by `k` modulo the string length, so the pixel at
/// position `i` of the first frame stands at position `(i + k) mod length` of the `k`-th.
pub proof fn lemma_presence_rotation(souls: Seq<SoulSummary>, k: nat)
    ensures
        rotation_after(k) == (k as int) % (LED_STRING_SIZE as int),
        presence_frame(souls, rotation_after(k)) == rotate_right(
            presence_frame(souls, rotation_after(0)),
            (k as int) % (LED_STRING_SIZE as int),
        ),
        forall|i: int|
            0 <= i < LED_STRING_SIZE ==> #[trigger] presence_frame(souls, rotation_after(0))[i]
                == presence_frame(souls, rotation_after(k))[(i + k) % (LED_STRING_SIZE as int)],
    decreases k,
{
    let n = LED_STRING_SIZE as int;
    if k > 0 {
        lemma_presence_rotation(souls, (k - 1) as nat);
        assert(((k - 1) % n + 1) % n == (k as int) % n) by {
            vstd::arithmetic::div_mod::lemma_add_mod_noop((k - 1) as int, 1, n);
        }
    }
    let base = presence_base(souls);
    assert forall|j: int| 0 <= j < base.len() implies #[trigger] rotate_right(base, 0)[j] == base[j] by {
        vstd::arithmetic::div_mod::lemma_small_mod(j as nat, base.len());
    }
    assert(rotate_right(base, 0) =~= base);
    assert(presence_frame(souls, rotation_after(0)) == base);
    assert forall|i: int| 0 <= i < n implies #[trigger] base[i] == presence_frame(
        souls,
        rotation_after(k),
    )[(i + k) % n] by {
        let j = (i + k) % n;
        vstd::arithmetic::div_mod::lemma_sub_mod_noop(i + k, k as int, n);
        vstd::arithmetic::div_mod::lemma_mod_self_0(n);
        vstd::arithmetic::div_mod::lemma_small_mod(i as nat, n as nat);
        vstd::arithmetic::div_mod::lemma_mod_twice(j - (k as int) % n, n);
        assert((j - (k as int) % n) % n == i);
        assert(0 <= j < n);
    }
}

/// `states` and `frames` record successive calls of `PresenceAnimation::next` on an animation
/// with souls, as its contract describes them: call `j` turns `states[j]` into `states[j + 1]`
/// and returns `frames[j]`.
pub open spec fn presence_run(states: Seq<PresenceState>, frames: Seq<Seq<Rgb>>) -> bool {
    &&& states.len() == frames.len() + 1
    &&& forall|j: int|
        0 <= j < frames.len() ==> {
            &&& states[j].souls.len() > 0
            &&& #[trigger] frames[j] == presence_frame(states[j].souls, states[j].index)
            &&& states[j + 1].souls == states[j].souls
            &&& states[j + 1].index == (states[j].index + 1) % (LED_STRING_SIZE as int)
        }
}

proof fn lemma_presence_run_state(states: Seq<PresenceState>, frames: Seq<Seq<Rgb>>, k: int)
    requires
        presence_run(states, frames),
        states[0].index == 0,
        0 <= k <= frames.len(),
    ensures
        states[k].index == rotation_after(k as nat),
        states[k].souls == states[0].souls,
    decreases k,
{
    if k > 0 {
        lemma_presence_run_state(states, frames, k - 1);
        assert(frames[k - 1] == presence_frame(states[k - 1].souls, states[k - 1].index));
    }
}

/// Frames of a presence animation created by `new` (rotation 0) turn one position per call:
/// the pixel at position `i` of the first frame stands at position `(i + k) mod length` of the
/// frame of call `k`.
pub proof fn lemma_presence_run(states: Seq<PresenceState>, frames: Seq<Seq<Rgb>>, k: int)
    requires
        presence_run(states, frames),
        states[0].index == 0,
        0 <= k < frames.len(),
    ensures
        forall|i: int|
            0 <= i < LED_STRING_SIZE ==> #[trigger] frames[0][i] == frames[k][(i + k) % (
            LED_STRING_SIZE as int)],
{
    lemma_presence_run_state(states, frames, k);
    lemma_presence_rotation(states[0].souls, k as nat);
    assert(frames[0] == presence_frame(states[0].souls, states[0].index));
    assert(frames[k] == presence_frame(states[k].souls, states[k].index));
}

impl PresenceAnimation {
    /// A presence animation over a snapshot of `souls`, starting unrotated.
    pub fn new(souls: &VisibleSouls) -> (r: Self)
        requires
            souls@.len() <= MAX_SOULS_TRACKED,
        ensures
            r@.souls == souls@,
            r@.index == 0,
            r@.wf(),
    {
        let mut copy: Vec<SoulSummary> = Vec::new();
        let mut i: usize = 0;
        while i < souls.len()
            invariant
                0 <= i <= souls@.len(),
                copy@ == souls@.subrange(0, i as int),
            decreases souls@.len() - i,
        {
            copy.push(souls[i]);
            i = i + 1;
            assert(copy@ =~= souls@.subrange(0, i as int));
        }
        assert(copy@ =~= souls@);
        PresenceAnimation { souls: copy, index: 0 }
    }

    /// The souls' colours rotated by the current rotation, which then advances by one; `None`
    /// when there are no souls.
    pub fn next(&mut self) -> (r: Option<LedBuffer>)
        requires
            old(self)@.wf(),
        ensures
            final(self)@.wf(),
            final(self)@.souls == old(self)@.souls,
            old(self)@.souls.len() == 0 ==> r is None && final(self)@ == old(self)@,
            old(self)@.souls.len() > 0 ==> (r matches Some(f) && f@ == presence_frame(
                old(self)@.souls,
                old(self)@.index,
            )) && final(self)@.index == (old(self)@.index + 1) % (LED_STRING_SIZE as int),
    {
        if self.souls.len() == 0 {
            return None;
        }
        let ghost base = presence_base(self.souls@);
        let mut buffer: Vec<Rgb> = Vec::new();
        let mut j: usize = 0;
        while j < LED_STRING_SIZE
            invariant
                0 <= j <= LED_STRING_SIZE,
                self@ == old(self)@,
                self@.wf(),
                base == presence_base(self.souls@),
                buffer@.len() == j,
                forall|i: int| 0 <= i < j ==> #[trigger] buffer@[i] == base[(i - self.index) % (LED_STRING_SIZE as int)],
            decreases LED_STRING_SIZE - j,
        {
            let src: usize = (j + LED_STRING_SIZE - self.index) % LED_STRING_SIZE;
            assert(src as int == (j as int - self.index as int) % (LED_STRING_SIZE as int));
            let pixel = if src < self.souls.len() {
                self.souls[src].colour
            } else {
                Rgb::black()
            };
            buffer.push(pixel);
            j = j + 1;
        }
        assert(buffer@ =~= presence_frame(self.souls@, self.index as int));
        self.index = (self.index + 1) % LED_STRING_SIZE;
        Some(buffer)
    }
}

impl Interruptable for PresenceAnimation {
    open spec fn interruptable(&self) -> bool {
        true
    }

    /// Presence animations are always interruptable.
    fn is_interruptable(&self) -> (r: bool) {
        true
    }
}

// ---------------------------------------------------------------------------------------------
// The closed set
// ---------------------------------------------------------------------------------------------

/// An animation that can be shown on the LED string.
pub enum Animation {
    /// Random brightness variations of one colour.
    Sparkle(SparkleAnimation),
    /// The colours of the visible souls, rotating.
    Presence(PresenceAnimation),
}

impl Animation {
    pub open spec fn wf(&self) -> bool {
        match self {
            Animation::Sparkle(_) => true,
            Animation::Presence(p) => p@.wf(),
        }
    }
}

/// Whether an animation may be replaced before it runs out.
pub open spec fn anim_interruptable(a: Animation) -> bool {
    match a {
        Animation::Sparkle(s) => s.interruptable(),
        Animation::Presence(p) => p.interruptable(),
    }
}

/// `b` is `a` after producing one frame: the same animation, with a presence animation over
/// some souls turned by one.
pub open spec fn anim_advanced(a: Animation, b: Animation) -> bool {
    match (a, b) {
        (Animation::Sparkle(x), Animation::Sparkle(y)) => y@ == x@,
        (Animation::Presence(x), Animation::Presence(y)) => {
            &&& y@.souls == x@.souls
            &&& y@.index == if x@.souls.len() == 0 {
                x@.index
            } else {
                (x@.index + 1) % (LED_STRING_SIZE as int)
            }
        },
        _ => false,
    }
}

/// `r` is a frame that `a` may produce at `now`, or `None` exactly when `a` has run out.
pub open spec fn anim_frame(a: Animation, now: u64, r: Option<Seq<Rgb>>) -> bool {
    match a {
        Animation::Sparkle(s) => {
            &&& r is Some <==> sparkle_live(s@.expires, now)
            &&& r matches Some(f) ==> is_sparkle_frame(f, s@.colour)
        },
        Animation::Presence(p) => r == if p@.souls.len() == 0 {
            None
        } else {
            Some(presence_frame(p@.souls, p@.index))
        },
    }
}

/// The frame of an optional buffer.
pub open spec fn frame_of(r: Option<LedBuffer>) -> Option<Seq<Rgb>> {
    match r {
        Some(f) => Some(f@),
        None => None,
    }
}

/// Checks if the given animation can be interrupted.
pub fn is_interruptable(anim: &Animation) -> (r: bool)
    ensures
        r == anim_interruptable(*anim),
{
    match anim {
        Animation::Sparkle(s) => s.is_interruptable(),
        Animation::Presence(p) => p.is_interruptable(),
    }
}

/// The next frame of any animation at uptime `now`.
pub fn next_buffer(anim: &mut Animation, now: u64) -> (r: Option<LedBuffer>)
    requires
        old(anim).wf(),
    ensures
        final(anim).wf(),
        anim_advanced(*old(anim), *final(anim)),
        anim_frame(*old(anim), now, frame_of(r)),
{
    match anim {
        Animation::Sparkle(s) => s.next(now),
        Animation::Presence(p) => p.next(),
    }
}

} // verus!
