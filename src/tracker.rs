//! Track presence messages: a bounded map from identity key to the last message heard from
//! each soul, with eviction of souls not heard from recently.

use vstd::prelude::*;

use crate::colour::Rgb;
use crate::configuration::{MAX_SOULS_TRACKED, TRACKER_FLUSH_AGE};
use crate::presence::{addr_to_key, identity_key, PresenceMessage};
use heapless::index_map::FnvIndexMap;

verus! {

/// heapless's `FnvIndexMap` from identity key to presence message, with room for
/// `MAX_SOULS_TRACKED` entries.
#[verifier::external_body]
pub struct SoulMap {
    map: FnvIndexMap<u32, PresenceMessage, 16>,
}

/// The entries of a `SoulMap`.
pub uninterp spec fn souls_of(m: SoulMap) -> Map<u32, PresenceMessage>;

/// The entries of a map are finite and never more than its capacity.
pub open spec fn souls_bounded(m: Map<u32, PresenceMessage>) -> bool {
    m.dom().finite() && m.len() <= MAX_SOULS_TRACKED
}

/// The map with no entries.
pub open spec fn no_souls() -> Map<u32, PresenceMessage> {
    Map::empty()
}

/// Relies on heapless's `FnvIndexMap::new`: a map with no entries.
#[verifier::external_body]
fn soul_map_new() -> (r: SoulMap)
    ensures
        souls_of(r) == no_souls(),
{
    SoulMap { map: FnvIndexMap::new() }
}

/// Relies on heapless's `IndexMap::len`: the number of entries.
#[verifier::external_body]
fn soul_map_len(m: &SoulMap) -> (r: usize)
    ensures
        r == souls_of(*m).len(),
{
    m.map.len()
}

/// Relies on heapless's `IndexMap::insert`: an existing key has its value replaced (also when
/// the map is full) and the old value is returned; a new key is added when there is room;
/// otherwise the pair is handed back and the map is unchanged.
#[verifier::external_body]
fn soul_map_insert(m: &mut SoulMap, key: u32, value: PresenceMessage) -> (r: Result<
    Option<PresenceMessage>,
    (u32, PresenceMessage),
>)
    ensures
        souls_bounded(souls_of(*final(m))),
        souls_of(*old(m)).contains_key(key) ==> (r matches Ok(Some(_))) && souls_of(*final(m))
            == souls_of(*old(m)).insert(key, value),
        !souls_of(*old(m)).contains_key(key) && souls_of(*old(m)).len() < MAX_SOULS_TRACKED ==> (r
            matches Ok(None)) && souls_of(*final(m)) == souls_of(*old(m)).insert(key, value),
        !souls_of(*old(m)).contains_key(key) && souls_of(*old(m)).len() >= MAX_SOULS_TRACKED ==> r
            is Err && souls_of(*final(m)) == souls_of(*old(m)),
{
    m.map.insert(key, value)
}

/// Relies on heapless's `IndexMap::retain`: exactly the entries for which the closure holds
/// are kept; here, those heard after `horizon`.
#[verifier::external_body]
fn soul_map_retain_seen_after(m: &mut SoulMap, horizon: u64)
    ensures
        souls_of(*final(m)) == souls_of(*old(m)).filter_keys(
            |k: u32| souls_of(*old(m))[k].last_seen > horizon,
        ),
        souls_bounded(souls_of(*final(m))),
{
    m.map.retain(|_, v| seen_after(v, horizon))
}

/// Relies on heapless's `IndexMap::iter`: each entry once, as (key, colour, transmit power,
/// rssi).
#[verifier::external_body]
fn soul_map_entries(m: &SoulMap) -> (r: Vec<(u32, Rgb, i8, i8)>)
    ensures
        r@.len() == souls_of(*m).len(),
        forall|i: int, j: int| 0 <= i < j < r@.len() ==> r@[i].0 != r@[j].0,
        forall|i: int|
            0 <= i < r@.len() ==> {
                &&& #[trigger] souls_of(*m).contains_key(r@[i].0)
                &&& souls_of(*m)[r@[i].0].colour == r@[i].1
                &&& souls_of(*m)[r@[i].0].tx_power == r@[i].2
                &&& souls_of(*m)[r@[i].0].rssi == r@[i].3
            },
{
    m.map.iter().map(|(k, v)| (*k, v.colour, v.tx_power, v.rssi)).collect()
}

/// Whether a message was heard after `horizon`.
pub(crate) fn seen_after(v: &PresenceMessage, horizon: u64) -> (r: bool)
    ensures
        r == (v.last_seen > horizon),
{
    v.last_seen > horizon
}

/// The render-ready view of a soul: its colour and the loss between its transmit power and
/// the power received.
#[derive(Clone, Copy, PartialEq, Eq, Structural, Debug)]
pub struct SoulSummary {
    pub colour: Rgb,
    pub tx_loss: i32,
}

/// A snapshot of the summaries of all souls currently tracked.
pub type VisibleSouls = Vec<SoulSummary>;

/// The summary of one message.
pub open spec fn summary_of(m: PresenceMessage) -> SoulSummary {
    SoulSummary { colour: m.colour, tx_loss: (m.tx_power as int - m.rssi as int) as i32 }
}

/// `s` holds the summary of each entry of `m` exactly once, in some order.
pub open spec fn summarises(s: Seq<SoulSummary>, m: Map<u32, PresenceMessage>) -> bool {
    &&& s.len() == m.len()
    &&& exists|keys: Seq<u32>|
        {
            &&& keys.len() == s.len()
            &&& keys.no_duplicates()
            &&& forall|i: int|
                0 <= i < s.len() ==> #[trigger] m.contains_key(keys[i]) && s[i] == summary_of(
                    m[keys[i]],
                )
        }
}

/// Whether a message is old enough at `now` to be flushed.
pub open spec fn is_stale(m: PresenceMessage, now: u64) -> bool {
    m.last_seen as int + TRACKER_FLUSH_AGE as int <= now as int
}

/// What is left of `m` after a flush at `now`.
pub open spec fn flushed(m: Map<u32, PresenceMessage>, now: u64) -> Map<u32, PresenceMessage> {
    m.filter_keys(|k: u32| !is_stale(m[k], now))
}

/// Whether `m` holds an entry that a flush at `now` removes.
pub open spec fn has_stale(m: Map<u32, PresenceMessage>, now: u64) -> bool {
    exists|k: u32| m.contains_key(k) && is_stale(#[trigger] m[k], now)
}

/// A finite map loses entries under a restriction exactly when a key falls outside it.
proof fn lemma_restrict_len(m: Map<u32, PresenceMessage>, keep: Set<u32>)
    requires
        m.dom().finite(),
    ensures
        m.restrict(keep).dom().finite(),
        m.restrict(keep).len() <= m.len(),
        m.restrict(keep).len() < m.len() <==> exists|k: u32| m.contains_key(k) && !keep.contains(k),
{
    let kept = m.restrict(keep).dom();
    assert(kept.subset_of(m.dom()));
    vstd::set_lib::lemma_len_subset(kept, m.dom());
    if exists|k: u32| m.contains_key(k) && !keep.contains(k) {
        let k = choose|k: u32| m.contains_key(k) && !keep.contains(k);
        assert(kept.subset_of(m.dom().remove(k)));
        vstd::set_lib::lemma_len_subset(kept, m.dom().remove(k));
    } else {
        assert(kept =~= m.dom());
    }
}

/// Recording `m` takes `old` to `new` and returns `r`: the message replaces what its identity
/// key held, or is added when the key is new and there is room; `r` says whether it was added.
pub open spec fn updated(
    old: Map<u32, PresenceMessage>,
    m: PresenceMessage,
    new: Map<u32, PresenceMessage>,
    r: bool,
) -> bool {
    let k = identity_key(m.address@);
    &&& r == (!old.contains_key(k) && old.len() < MAX_SOULS_TRACKED)
    &&& new == if old.contains_key(k) || old.len() < MAX_SOULS_TRACKED {
        old.insert(k, m)
    } else {
        old
    }
}

/// The first message recorded in an empty tracker is an arrival, and afterwards the tracker
/// holds exactly that message under its sender's identity key.
pub proof fn lemma_first_update(m: PresenceMessage, new: Map<u32, PresenceMessage>, r: bool)
    requires
        updated(Map::empty(), m, new, r),
    ensures
        r,
        new.dom() == set![identity_key(m.address@)],
        new[identity_key(m.address@)] == m,
        new.len() == 1,
{
    let k = identity_key(m.address@);
    assert(new.dom() =~= set![k]);
    assert(set![k].len() == 1) by {
        assert(set![k] =~= Set::<u32>::empty().insert(k));
    }
}

/// A message from a soul already tracked is no arrival, and it replaces everything stored for
/// that soul (colour, rssi, last seen and the rest).
pub proof fn lemma_repeat_update(
    old: Map<u32, PresenceMessage>,
    m: PresenceMessage,
    new: Map<u32, PresenceMessage>,
    r: bool,
)
    requires
        old.contains_key(identity_key(m.address@)),
        updated(old, m, new, r),
    ensures
        !r,
        new[identity_key(m.address@)] == m,
        new.dom() == old.dom(),
{
    assert(new.dom() =~= old.dom());
}

/// A bounded map from identity key to the last presence message heard from that soul.
pub struct Tracker {
    souls: SoulMap,
}

impl View for Tracker {
    type V = Map<u32, PresenceMessage>;

    closed spec fn view(&self) -> Map<u32, PresenceMessage> {
        souls_of(self.souls)
    }
}

impl Tracker {
    /// The tracker never holds more than its capacity.
    pub open spec fn wf(&self) -> bool {
        souls_bounded(self@)
    }

    /// An empty tracker.
    pub fn new() -> (r: Self)
        ensures
            r@ == no_souls(),
            r.wf(),
    {
        let r = Tracker { souls: soul_map_new() };
        assert(r@.dom() =~= Set::<u32>::empty());
        r
    }

    /// The number of souls tracked.
    pub fn len(&self) -> (r: usize)
        requires
            self.wf(),
        ensures
            r == self@.len(),
            r <= MAX_SOULS_TRACKED,
    {
        soul_map_len(&self.souls)
    }

    /// Records a message under its sender's identity key, replacing what was stored there.
    ///
    /// Returns true when the soul was not tracked before. A new soul that finds the tracker
    /// full is dropped (and false is returned).
    pub fn update(&mut self, presence: PresenceMessage) -> (r: bool)
        requires
            old(self).wf(),
        ensures
            final(self).wf(),
            updated(old(self)@, presence, final(self)@, r),
    {
        let key = addr_to_key(&presence.address);
        match soul_map_insert(&mut self.souls, key, presence) {
            Ok(Some(_)) => false,
            Ok(None) => true,
            Err(_) => false,
        }
    }

    /// The summaries of all souls tracked, in no particular order.
    pub fn get_soul_summary(&self) -> (r: VisibleSouls)
        requires
            self.wf(),
        ensures
            summarises(r@, self@),
            r@.len() == self@.len(),
            r@.len() <= MAX_SOULS_TRACKED,
    {
        let entries = soul_map_entries(&self.souls);
        let ghost keys = entries@.map_values(|e: (u32, Rgb, i8, i8)| e.0);
        let mut out: Vec<SoulSummary> = Vec::new();
        let mut i: usize = 0;
        while i < entries.len()
            invariant
                0 <= i <= entries@.len(),
                entries@.len() == self@.len(),
                keys == entries@.map_values(|e: (u32, Rgb, i8, i8)| e.0),
                out@.len() == i,
                forall|j: int|
                    0 <= j < i ==> #[trigger] self@.contains_key(keys[j]) && out@[j] == summary_of(
                        self@[keys[j]],
                    ),
                forall|j: int|
                    0 <= j < entries@.len() ==> {
                        &&& #[trigger] souls_of(self.souls).contains_key(entries@[j].0)
                        &&& souls_of(self.souls)[entries@[j].0].colour == entries@[j].1
                        &&& souls_of(self.souls)[entries@[j].0].tx_power == entries@[j].2
                        &&& souls_of(self.souls)[entries@[j].0].rssi == entries@[j].3
                    },
            decreases entries@.len() - i,
        {
            let (_, colour, tx_power, rssi) = entries[i];
            let s = SoulSummary { colour, tx_loss: tx_power as i32 - rssi as i32 };
            out.push(s);
            assert(keys[i as int] == entries@[i as int].0);
            i = i + 1;
        }
        assert(keys.no_duplicates()) by {
            assert forall|a: int, b: int| 0 <= a < keys.len() && 0 <= b < keys.len() && a != b implies keys[a]
                != keys[b] by {
                if a < b {
                    assert(entries@[a].0 != entries@[b].0);
                } else {
                    assert(entries@[b].0 != entries@[a].0);
                }
            }
        }
        assert(keys.len() == out@.len());
        out
    }

    /// Removes every soul last heard at least `TRACKER_FLUSH_AGE` before `now`; the others
    /// stay. Returns true when a soul was removed.
    pub fn flush(&mut self, now: u64) -> (r: bool)
        requires
            old(self).wf(),
        ensures
            final(self).wf(),
            final(self)@ == flushed(old(self)@, now),
            r == has_stale(old(self)@, now),
    {
        let ghost m = self@;
        let ghost keep = m.dom().filter(|k: u32| !is_stale(m[k], now));
        proof {
            lemma_restrict_len(m, keep);
            if has_stale(m, now) {
                let k = choose|k: u32| m.contains_key(k) && is_stale(#[trigger] m[k], now);
                assert(!keep.contains(k));
            }
            if exists|k: u32| m.contains_key(k) && !keep.contains(k) {
                let k = choose|k: u32| m.contains_key(k) && !keep.contains(k);
                assert(is_stale(m[k], now));
            }
        }
        if now < TRACKER_FLUSH_AGE {
            assert(flushed(m, now) =~= m);
            return false;
        }
        let horizon = now - TRACKER_FLUSH_AGE;
        let before = soul_map_len(&self.souls);
        soul_map_retain_seen_after(&mut self.souls, horizon);
        assert(self@ =~= flushed(m, now));
        let after = soul_map_len(&self.souls);
        before > after
    }
}

} // verus!
