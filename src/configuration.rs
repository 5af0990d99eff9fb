//! Build-time configuration. Times are in milliseconds of device uptime.

use vstd::prelude::*;

verus! {

/// The display animation update interval (milliseconds).
pub const ANIMATION_UPDATE: u64 = 200;

/// A soul that has not been heard from for this long (milliseconds) is flushed from the
/// presence list.
pub const TRACKER_FLUSH_AGE: u64 = 15_000;

/// The interval at which the presence register is flushed (milliseconds).
pub const PRESENCE_REGISTER_FLUSH_INTERVAL: u64 = 1_000;

/// How long the arrival animation of a new soul runs (milliseconds).
pub const NEW_SOUL_ANIMATION: u64 = 1_000;

/// Maximum number of souls tracked at once.
pub const MAX_SOULS_TRACKED: usize = 16;

/// The transmission power of the beacon, in dBm.
pub const TX_POWER_DBM: i8 = 20;

/// Company identifier carried by this product's beacons, used to recognise peers.
pub const COMPANY_ID: u16 = 0xBEEF;

/// The number of LEDs in the string.
pub const LED_STRING_SIZE: usize = 24;

/// Slots of the pending-animation queue; it holds one animation less than this.
pub const MAX_PENDING_ANIMATIONS: usize = 20;

/// The number of animations that can wait in the pending queue.
pub const PENDING_CAPACITY: usize = 19;

/// Longest peer name kept, in bytes.
pub const NAME_CAPACITY: usize = 24;

/// Size of the advertisement buffer, in bytes.
pub const ADV_BUFFER_SIZE: usize = 64;

} // verus!
