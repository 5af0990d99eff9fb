//! The display orchestrator: it owns the current animation, the queue of pending animations,
//! the presence tracker and the running/brightness state, and decides what each animation
//! tick shows. The task around it waits on the animation ticker, the control messages and the
//! flush ticker, hands each event to it, and performs the LED writes it asks for.

use vstd::prelude::*;

use crate::animations::{
    anim_advanced, anim_frame, anim_interruptable, frame_of, is_interruptable, is_sparkle_frame,
    next_buffer, sparkle_live, Animation, LedBuffer, PresenceAnimation, SparkleAnimation,
};
use crate::colour::Rgb;
use crate::configuration::{MAX_PENDING_ANIMATIONS, NEW_SOUL_ANIMATION, PENDING_CAPACITY};
use crate::presence::{identity_key, PresenceMessage};
use crate::tracker::{flushed, has_stale, summarises, updated, Tracker};
use heapless::spsc::Queue;

verus! {

/// heapless's single-producer single-consumer `Queue` of pending animations, with
/// `MAX_PENDING_ANIMATIONS` slots and so room for `PENDING_CAPACITY` animations.
#[verifier::external_body]
pub struct PendingQueue {
    queue: Queue<Animation, MAX_PENDING_ANIMATIONS>,
}

/// The animations in a `PendingQueue`, front first.
pub uninterp spec fn pending_of(q: PendingQueue) -> Seq<Animation>;

/// The queue with nothing in it.
pub open spec fn no_pending() -> Seq<Animation> {
    Seq::empty()
}

/// Relies on heapless's `Queue::new`: an empty queue.
#[verifier::external_body]
fn pending_new() -> (r: PendingQueue)
    ensures
        pending_of(r) == no_pending(),
{
    PendingQueue { queue: Queue::new() }
}

/// Relies on heapless's `Queue::len`: the number of animations queued.
#[verifier::external_body]
fn pending_len(q: &PendingQueue) -> (r: usize)
    ensures
        r == pending_of(*q).len(),
{
    q.queue.len()
}

/// Relies on heapless's `Queue::enqueue`: the animation goes to the back when there is room
/// (one slot is always left free), else it is handed back and the queue is unchanged.
#[verifier::external_body]
fn pending_enqueue(q: &mut PendingQueue, a: Animation) -> (r: Result<(), Animation>)
    ensures
        pending_of(*old(q)).len() < PENDING_CAPACITY ==> r is Ok && pending_of(*final(q))
            == pending_of(*old(q)).push(a),
        pending_of(*old(q)).len() >= PENDING_CAPACITY ==> r is Err && pending_of(*final(q))
            == pending_of(*old(q)),
        pending_of(*final(q)).len() <= PENDING_CAPACITY,
{
    q.queue.enqueue(a)
}

/// Relies on heapless's `Queue::dequeue`: the front animation, removed; `None` when empty.
#[verifier::external_body]
fn pending_dequeue(q: &mut PendingQueue) -> (r: Option<Animation>)
    ensures
        pending_of(*old(q)).len() == 0 ==> r is None && pending_of(*final(q)) == pending_of(
            *old(q),
        ),
        pending_of(*old(q)).len() > 0 ==> r == Some(pending_of(*old(q))[0]) && pending_of(
            *final(q),
        ) == pending_of(*old(q)).drop_first(),
{
    q.queue.dequeue()
}

/// `q` with `a` added at the back, or unchanged when it is full.
pub open spec fn enqueued(q: Seq<Animation>, a: Animation) -> Seq<Animation> {
    if q.len() < PENDING_CAPACITY {
        q.push(a)
    } else {
        q
    }
}

/// A control message for the display.
pub enum DisplayState {
    /// Suspends animation updates.
    Stop,
    /// Restarts animation updates.
    Start,
    /// Switches all the LEDs off, stopping animation.
    Off,
    /// Starts the animation again.
    On,
    /// Enables or disables the torch.
    Torch(bool),
    /// Sets the display brightness.
    Brightness(u8),
    /// Updates the presence tracker with a newly received beacon.
    PresenceUpdate(PresenceMessage),
}

/// What the LED string must do after a control message.
#[derive(PartialEq, Eq, Structural, Debug, Clone, Copy)]
pub enum LedCommand {
    /// Nothing to write.
    Keep,
    /// Write a dark frame.
    AllOff,
    /// Write a solid white frame at this brightness.
    Torch(u8),
}

/// The state of the display.
pub struct DisplayView {
    pub running: bool,
    pub brightness: u8,
    pub souls: Map<u32, PresenceMessage>,
    pub pending: Seq<Animation>,
    pub current: Animation,
    pub default_colour: Rgb,
}

/// The display orchestrator.
pub struct Display {
    running: bool,
    brightness: u8,
    tracker: Tracker,
    pending: PendingQueue,
    current: Animation,
    default_colour: Rgb,
}

impl View for Display {
    type V = DisplayView;

    closed spec fn view(&self) -> DisplayView {
        DisplayView {
            running: self.running,
            brightness: self.brightness,
            souls: self.tracker@,
            pending: pending_of(self.pending),
            current: self.current,
            default_colour: self.default_colour,
        }
    }
}

/// Whether animation `a` still produces a frame at `now`.
pub open spec fn anim_live(a: Animation, now: u64) -> bool {
    match a {
        Animation::Sparkle(s) => sparkle_live(s@.expires, now),
        Animation::Presence(p) => p@.souls.len() > 0,
    }
}

/// `a` is the default animation: a sparkle of `colour` that never expires.
pub open spec fn is_default_anim(a: Animation, colour: Rgb) -> bool {
    a matches Animation::Sparkle(s) && s@.colour == colour && s@.expires is None
}

/// `a` is the sparkle announcing a new soul of `colour`, created at `now`.
pub open spec fn is_arrival_anim(a: Animation, colour: Rgb, now: u64) -> bool {
    a matches Animation::Sparkle(s) && s@.colour == colour && s@.expires == Some(
        (now + NEW_SOUL_ANIMATION) as u64,
    )
}

/// `a` is a fresh presence animation over the souls of `souls`.
pub open spec fn is_presence_anim(a: Animation, souls: Map<u32, PresenceMessage>) -> bool {
    a matches Animation::Presence(p) && p@.index == 0 && summarises(p@.souls, souls)
}

/// `new` is `old` with only the animation and the queue changed.
pub open spec fn same_settings(old: DisplayView, new: DisplayView) -> bool {
    &&& new.running == old.running
    &&& new.brightness == old.brightness
    &&& new.souls == old.souls
    &&& new.default_colour == old.default_colour
}

/// One animation tick from `old` to `new` shows `r`. While running, the first that applies of:
/// a pending animation replaces an interruptable current one; a current animation that still
/// produces a frame keeps going; an exhausted one with nothing pending gives way to the
/// default; an exhausted one gives way to the first pending animation.
pub open spec fn tick_step(old: DisplayView, now: u64, new: DisplayView, r: Option<Seq<Rgb>>) -> bool {
    let q = old.pending;
    let c = old.current;
    if !old.running {
        r is None && new == old
    } else {
        &&& same_settings(old, new)
        &&& if q.len() > 0 && anim_interruptable(c) {
            &&& new.pending == q.drop_first()
            &&& anim_advanced(q[0], new.current)
            &&& anim_frame(q[0], now, r)
        } else if anim_live(c, now) {
            &&& new.pending == q
            &&& anim_advanced(c, new.current)
            &&& anim_frame(c, now, r)
            &&& r is Some
        } else if q.len() == 0 {
            &&& new.pending == q
            &&& is_default_anim(new.current, old.default_colour)
            &&& r matches Some(f) && is_sparkle_frame(f, old.default_colour)
        } else {
            &&& new.pending == q.drop_first()
            &&& anim_advanced(q[0], new.current)
            &&& anim_frame(q[0], now, r)
        }
    }
}

/// A running display whose current animation is interruptable (a sparkle without expiry) and
/// whose queue is not empty switches to the first pending animation on the next tick.
pub proof fn lemma_tick_interrupts(old: DisplayView, now: u64, new: DisplayView, r: Option<Seq<Rgb>>)
    requires
        old.running,
        old.pending.len() > 0,
        old.current matches Animation::Sparkle(s) && s@.expires is None,
        tick_step(old, now, new, r),
    ensures
        anim_advanced(old.pending[0], new.current),
        new.pending == old.pending.drop_first(),
{
}

/// A running display whose current animation is a sparkle that has not expired yet keeps
/// showing it on the next tick, whatever is pending, and leaves the queue as it is.
pub proof fn lemma_tick_keeps_uninterruptable(
    old: DisplayView,
    now: u64,
    new: DisplayView,
    r: Option<Seq<Rgb>>,
)
    requires
        old.running,
        old.current matches Animation::Sparkle(s) && s@.expires matches Some(e) && now < e,
        tick_step(old, now, new, r),
    ensures
        anim_advanced(old.current, new.current),
        new.pending == old.pending,
        r is Some,
{
}

impl Display {
    /// The tracker is bounded, the queue within its capacity, and every animation sound.
    pub closed spec fn wf(&self) -> bool {
        &&& self.tracker.wf()
        &&& pending_of(self.pending).len() <= PENDING_CAPACITY
        &&& forall|i: int|
            0 <= i < pending_of(self.pending).len() ==> #[trigger] pending_of(self.pending)[i].wf()
        &&& self.current.wf()
    }

    /// A running display at brightness 128, tracking nobody, with nothing pending, showing
    /// the default animation: a sparkle of `default_colour` that never expires.
    pub fn new(default_colour: Rgb, now: u64) -> (r: Self)
        ensures
            r.wf(),
            r@.running,
            r@.brightness == 128,
            r@.souls == crate::tracker::no_souls(),
            r@.pending == no_pending(),
            is_default_anim(r@.current, default_colour),
            r@.default_colour == default_colour,
    {
        Display {
            running: true,
            brightness: 128,
            tracker: Tracker::new(),
            pending: pending_new(),
            current: Animation::Sparkle(SparkleAnimation::new(default_colour, None, now)),
            default_colour,
        }
    }

    /// The global brightness applied when frames are written.
    pub fn brightness(&self) -> (r: u8)
        ensures
            r == self@.brightness,
    {
        self.brightness
    }

    /// Whether animation ticks are shown.
    pub fn is_running(&self) -> (r: bool)
        ensures
            r == self@.running,
    {
        self.running
    }

    /// The number of souls tracked.
    pub fn soul_count(&self) -> (r: usize)
        requires
            self.wf(),
        ensures
            r == self@.souls.len(),
    {
        self.tracker.len()
    }

    /// The number of animations pending.
    pub fn pending_count(&self) -> (r: usize)
        ensures
            r == self@.pending.len(),
    {
        pending_len(&self.pending)
    }

    /// Whether the current animation may be replaced by a pending one.
    pub fn current_is_interruptable(&self) -> (r: bool)
        ensures
            r == anim_interruptable(self@.current),
    {
        is_interruptable(&self.current)
    }

    /// Makes the first pending animation current and produces its first frame.
    fn start_pending(&mut self, now: u64) -> (r: Option<LedBuffer>)
        requires
            old(self).wf(),
            pending_of(old(self).pending).len() > 0,
        ensures
            final(self).wf(),
            same_settings(old(self)@, final(self)@),
            final(self)@.pending == old(self)@.pending.drop_first(),
            anim_advanced(old(self)@.pending[0], final(self)@.current),
            anim_frame(old(self)@.pending[0], now, frame_of(r)),
    {
        let ghost q = pending_of(self.pending);
        match pending_dequeue(&mut self.pending) {
            Some(a) => {
                assert(q[0].wf());
                self.current = a;
            },
            None => {},
        }
        assert forall|i: int| 0 <= i < pending_of(self.pending).len() implies #[trigger] pending_of(
            self.pending,
        )[i].wf() by {
            assert(pending_of(self.pending)[i] == q[i + 1]);
        }
        next_buffer(&mut self.current, now)
    }

    /// One animation tick at uptime `now`: the frame to show, if any (see `tick_step`).
    pub fn on_animation_tick(&mut self, now: u64) -> (r: Option<LedBuffer>)
        requires
            old(self).wf(),
        ensures
            final(self).wf(),
            tick_step(old(self)@, now, final(self)@, frame_of(r)),
    {
        if !self.running {
            return None;
        }
        let waiting = pending_len(&self.pending);
        if waiting > 0 && is_interruptable(&self.current) {
            return self.start_pending(now);
        }
        let frame = next_buffer(&mut self.current, now);
        match frame {
            Some(f) => Some(f),
            None => {
                if waiting == 0 {
                    self.current = Animation::Sparkle(
                        SparkleAnimation::new(self.default_colour, None, now),
                    );
                    next_buffer(&mut self.current, now)
                } else {
                    self.start_pending(now)
                }
            },
        }
    }

    /// Queues an animation, dropping it when the queue is full.
    fn enqueue(&mut self, a: Animation)
        requires
            old(self).wf(),
            a.wf(),
        ensures
            final(self).wf(),
            same_settings(old(self)@, final(self)@),
            final(self)@.current == old(self)@.current,
            final(self)@.pending == enqueued(old(self)@.pending, a),
    {
        let ghost q = pending_of(self.pending);
        let _ = pending_enqueue(&mut self.pending, a);
        assert forall|i: int| 0 <= i < pending_of(self.pending).len() implies #[trigger] pending_of(
            self.pending,
        )[i].wf() by {
            if i < q.len() {
                assert(pending_of(self.pending)[i] == q[i]);
            }
        }
    }

    /// Queues a presence animation over the souls tracked now.
    fn enqueue_presence(&mut self)
        requires
            old(self).wf(),
        ensures
            final(self).wf(),
            same_settings(old(self)@, final(self)@),
            final(self)@.current == old(self)@.current,
            old(self)@.pending.len() < PENDING_CAPACITY ==> final(self)@.pending.len()
                == old(self)@.pending.len() + 1 && final(self)@.pending.drop_last()
                == old(self)@.pending && is_presence_anim(
                final(self)@.pending.last(),
                old(self)@.souls,
            ),
            old(self)@.pending.len() >= PENDING_CAPACITY ==> final(self)@.pending
                == old(self)@.pending,
    {
        let souls = self.tracker.get_soul_summary();
        let a = Animation::Presence(PresenceAnimation::new(&souls));
        self.enqueue(a);
        assert(old(self)@.pending.len() < PENDING_CAPACITY ==> final(self)@.pending.drop_last()
            =~= old(self)@.pending);
    }

    /// Handles a control message received at uptime `now`, and says what the LED string must
    /// do.
    ///
    /// `Stop` and `Start` suspend and resume ticks; `Off` also switches the LEDs off; `On`
    /// resumes; `Brightness` sets the global brightness; `Torch(true)` suspends ticks and
    /// lights the string white, `Torch(false)` resumes. `PresenceUpdate` records the message;
    /// a new soul queues an arrival sparkle in its colour and then a fresh presence animation.
    pub fn on_message(&mut self, msg: DisplayState, now: u64) -> (r: LedCommand)
        requires
            old(self).wf(),
            now + NEW_SOUL_ANIMATION <= u64::MAX,
        ensures
            final(self).wf(),
            final(self)@.default_colour == old(self)@.default_colour,
            final(self)@.current == old(self)@.current,
            match msg {
                DisplayState::PresenceUpdate(_) => final(self)@.running == old(self)@.running
                    && final(self)@.brightness == old(self)@.brightness && r == LedCommand::Keep,
                _ => final(self)@.souls == old(self)@.souls && final(self)@.pending
                    == old(self)@.pending,
            },
            match msg {
                DisplayState::Stop => !final(self)@.running && final(self)@.brightness
                    == old(self)@.brightness && r == LedCommand::Keep,
                DisplayState::Start => final(self)@.running && final(self)@.brightness
                    == old(self)@.brightness && r == LedCommand::Keep,
                DisplayState::Off => !final(self)@.running && final(self)@.brightness
                    == old(self)@.brightness && r == LedCommand::AllOff,
                DisplayState::On => final(self)@.running && final(self)@.brightness
                    == old(self)@.brightness && r == LedCommand::Keep,
                DisplayState::Brightness(b) => final(self)@.running == old(self)@.running
                    && final(self)@.brightness == b && r == LedCommand::Keep,
                DisplayState::Torch(on) => final(self)@.running == !on && final(self)@.brightness
                    == old(self)@.brightness && r == (if on {
                    LedCommand::Torch(old(self)@.brightness)
                } else {
                    LedCommand::Keep
                }),
                DisplayState::PresenceUpdate(m) => presence_step(old(self)@, m, now, final(self)@),
            },
    {
        match msg {
            DisplayState::Stop => {
                self.running = false;
                LedCommand::Keep
            },
            DisplayState::Start => {
                self.running = true;
                LedCommand::Keep
            },
            DisplayState::Off => {
                self.running = false;
                LedCommand::AllOff
            },
            DisplayState::On => {
                self.running = true;
                LedCommand::Keep
            },
            DisplayState::Brightness(b) => {
                self.brightness = b;
                LedCommand::Keep
            },
            DisplayState::Torch(on) => {
                if on {
                    self.running = false;
                    LedCommand::Torch(self.brightness)
                } else {
                    self.running = true;
                    LedCommand::Keep
                }
            },
            DisplayState::PresenceUpdate(message) => {
                self.on_presence(message, now);
                LedCommand::Keep
            },
        }
    }

    fn on_presence(&mut self, message: PresenceMessage, now: u64)
        requires
            old(self).wf(),
            now + NEW_SOUL_ANIMATION <= u64::MAX,
        ensures
            final(self).wf(),
            final(self)@.running == old(self)@.running,
            final(self)@.brightness == old(self)@.brightness,
            final(self)@.default_colour == old(self)@.default_colour,
            final(self)@.current == old(self)@.current,
            presence_step(old(self)@, message, now, final(self)@),
    {
        let colour = message.colour;
        let ghost m = message;
        let is_new = self.tracker.update(message);
        if is_new {
            let ghost q0 = pending_of(self.pending);
            let arrival = Animation::Sparkle(
                SparkleAnimation::new(colour, Some(NEW_SOUL_ANIMATION), now),
            );
            let ghost arrival_view = arrival;
            self.enqueue(arrival);
            let ghost q1 = pending_of(self.pending);
            self.enqueue_presence();
            proof {
                let n = q0.len() as int;
                let fin = self@.pending;
                assert(is_arrival_anim(arrival_view, m.colour, now));
                if n < PENDING_CAPACITY {
                    assert(q1 == q0.push(arrival_view));
                    if q1.len() < PENDING_CAPACITY {
                        assert(fin.drop_last() == q1);
                        assert(fin[n] == fin.drop_last()[n]);
                        assert(fin[n] == arrival_view);
                        assert(fin.subrange(0, n) =~= q0);
                        assert(fin[n + 1] == fin.last());
                    } else {
                        assert(fin == q1);
                        assert(fin.subrange(0, n) =~= q0);
                    }
                } else {
                    assert(q1 == q0);
                    assert(fin == q0);
                    assert(fin.subrange(0, n) =~= q0);
                }
            }
        }
    }

    /// One flush tick at uptime `now`: souls not heard from for `TRACKER_FLUSH_AGE` are
    /// dropped, and when any were, a fresh presence animation is queued.
    pub fn on_flush_tick(&mut self, now: u64)
        requires
            old(self).wf(),
        ensures
            final(self).wf(),
            final(self)@.running == old(self)@.running,
            final(self)@.brightness == old(self)@.brightness,
            final(self)@.default_colour == old(self)@.default_colour,
            final(self)@.current == old(self)@.current,
            final(self)@.souls == flushed(old(self)@.souls, now),
            !has_stale(old(self)@.souls, now) ==> final(self)@.pending == old(self)@.pending,
            has_stale(old(self)@.souls, now) && old(self)@.pending.len() < PENDING_CAPACITY
                ==> final(self)@.pending.len() == old(self)@.pending.len() + 1
                && final(self)@.pending.drop_last() == old(self)@.pending && is_presence_anim(
                final(self)@.pending.last(),
                final(self)@.souls,
            ),
            has_stale(old(self)@.souls, now) && old(self)@.pending.len() >= PENDING_CAPACITY
                ==> final(self)@.pending == old(self)@.pending,
    {
        if self.tracker.flush(now) {
            self.enqueue_presence();
        }
    }
}

/// The effect of a presence update `m` at `now` from `old` to `new`: the tracker records it; a soul that was not tracked and found room has an arrival sparkle
/// and then a fresh presence animation queued, each dropped when the queue is full.
pub open spec fn presence_step(old: DisplayView, m: PresenceMessage, now: u64, new: DisplayView) -> bool {
    let k = identity_key(m.address@);
    let is_new = !old.souls.contains_key(k) && old.souls.len() < crate::configuration::MAX_SOULS_TRACKED;
    let n = old.pending.len() as int;
    &&& updated(old.souls, m, new.souls, is_new)
    &&& !is_new ==> new.pending == old.pending
    &&& is_new ==> {
        &&& new.pending.len() == if n + 2 <= PENDING_CAPACITY {
            n + 2
        } else {
            PENDING_CAPACITY as int
        }
        &&& new.pending.subrange(0, n) == old.pending
        &&& n < PENDING_CAPACITY ==> is_arrival_anim(new.pending[n], m.colour, now)
        &&& n + 1 < PENDING_CAPACITY ==> is_presence_anim(new.pending[n + 1], new.souls)
    }
}

} // verus!
