//! The presence wire protocol: this device's beacon, the filter and decoder for the beacons
//! of peers, and the identity key derived from a peer's radio address.
//!
//! A beacon is a list of advertisement structures, each laid out as a length byte (type byte
//! plus data), a type byte and the data.

use vstd::prelude::*;

use crate::colour::Rgb;
use crate::configuration::{ADV_BUFFER_SIZE, COMPANY_ID, NAME_CAPACITY};
use trouble_host::prelude::AdStructure;

verus! {

/// Advertisement structure type of the complete local name.
pub const AD_TYPE_NAME: u8 = 0x09;

/// Advertisement structure type of the flags.
pub const AD_TYPE_FLAGS: u8 = 0x01;

/// Advertisement structure type of the transmit power.
pub const AD_TYPE_TX_POWER: u8 = 0x0A;

/// Advertisement structure type of manufacturer-specific data.
pub const AD_TYPE_MANUFACTURER: u8 = 0xFF;

/// LE general discoverable, BR/EDR not supported.
pub const BEACON_FLAGS: u8 = 0x06;

/// Bytes of a beacon besides the name: two headers for the name, three for the flags,
/// seven for the manufacturer data and three for the transmit power.
pub const BEACON_OVERHEAD: usize = 15;

/// The name reported for a peer whose beacon carries none.
pub open spec fn unknown_name() -> Seq<u8> {
    seq![60u8, 85u8, 110u8, 107u8, 110u8, 111u8, 119u8, 110u8, 62u8]
}

/// One peer's last-known state, as received in its beacon.
#[derive(Debug)]
pub struct PresenceMessage {
    /// Received signal strength in dBm.
    pub rssi: i8,
    /// Transmit power advertised by the peer, in dBm.
    pub tx_power: i8,
    /// Radio address of the sender, most significant byte first.
    pub address: [u8; 6],
    /// Uptime (milliseconds) at which the beacon was received.
    pub last_seen: u64,
    /// The advertised name, at most `NAME_CAPACITY` bytes.
    pub name: Vec<u8>,
    /// The colour the peer displays.
    pub colour: Rgb,
}

// ---------------------------------------------------------------------------------------------
// Identity key
// ---------------------------------------------------------------------------------------------

/// The 32-bit identity key of a 6-byte radio address: the two low bytes kept, the two high
/// pairs folded together by XOR.
pub open spec fn identity_key(a: Seq<u8>) -> u32 {
    a[5] as u32 | (a[4] as u32) << 8u32 | ((a[3] ^ a[1]) as u32) << 16u32 | ((a[2] ^ a[0]) as u32)
        << 24u32
}

/// Derives the identity key of a radio address.
pub fn addr_to_key(addr: &[u8; 6]) -> (r: u32)
    ensures
        r == identity_key(addr@),
{
    addr[5] as u32 | (addr[4] as u32) << 8u32 | ((addr[3] ^ addr[1]) as u32) << 16u32 | ((addr[2]
        ^ addr[0]) as u32) << 24u32
}

/// The identity key depends on the address bytes alone: equal addresses give equal keys,
/// however often it is computed.
pub proof fn lemma_identity_key_deterministic(a: [u8; 6], b: [u8; 6])
    requires
        a@ == b@,
    ensures
        identity_key(a@) == identity_key(b@),
{
}

// ---------------------------------------------------------------------------------------------
// Advertisement structures
// ---------------------------------------------------------------------------------------------

/// One advertisement structure on the wire.
pub open spec fn ad_record(ty: u8, data: Seq<u8>) -> Seq<u8> {
    seq![(data.len() + 1) as u8, ty] + data
}

/// A 16-bit value, least significant byte first.
pub open spec fn le16(v: u16) -> Seq<u8> {
    seq![(v % 256) as u8, (v / 256) as u8]
}

/// The structures of a well-formed advertisement, as (type, data) pairs, or `None` where a
/// length byte is below 2 or runs past the end.
pub open spec fn ad_records(b: Seq<u8>) -> Option<Seq<(u8, Seq<u8>)>>
    decreases b.len(),
{
    if b.len() == 0 {
        Some(Seq::empty())
    } else if b[0] < 2 || b.len() < b[0] + 1 {
        None
    } else {
        match ad_records(b.skip(b[0] + 1)) {
            Some(rest) => Some(seq![(b[1], b.subrange(2, b[0] + 1))] + rest),
            None => None,
        }
    }
}

/// What the protocol reads of one advertisement structure.
pub enum AdField {
    /// The complete local name.
    Name(Vec<u8>),
    /// Manufacturer-specific data.
    Manufacturer { company: u16, payload: Vec<u8> },
    /// The transmit power in dBm.
    TxPower(i8),
    /// Any other structure.
    Other,
}

/// The mathematical value of an `AdField`.
pub enum AdFieldSpec {
    Name(Seq<u8>),
    Manufacturer { company: u16, payload: Seq<u8> },
    TxPower(i8),
    Other,
}

impl View for AdField {
    type V = AdFieldSpec;

    open spec fn view(&self) -> AdFieldSpec {
        match self {
            AdField::Name(n) => AdFieldSpec::Name(n@),
            AdField::Manufacturer { company, payload } => AdFieldSpec::Manufacturer {
                company: *company,
                payload: payload@,
            },
            AdField::TxPower(p) => AdFieldSpec::TxPower(*p),
            AdField::Other => AdFieldSpec::Other,
        }
    }
}

/// What one well-formed structure of the given type and data is read as.
pub open spec fn record_field(rec: (u8, Seq<u8>)) -> AdFieldSpec {
    let (ty, data) = rec;
    if ty == AD_TYPE_NAME {
        AdFieldSpec::Name(data)
    } else if ty == AD_TYPE_TX_POWER {
        AdFieldSpec::TxPower(data[0] as i8)
    } else if ty == AD_TYPE_MANUFACTURER && data.len() >= 2 {
        AdFieldSpec::Manufacturer {
            company: (data[0] as int + 256 * data[1] as int) as u16,
            payload: data.skip(2),
        }
    } else {
        AdFieldSpec::Other
    }
}

/// The views of a list of fields.
pub open spec fn field_views(fs: Seq<AdField>) -> Seq<AdFieldSpec> {
    fs.map_values(|f: AdField| f@)
}

/// One advertisement structure to encode.
pub enum AdItem {
    /// The complete local name.
    Name(Vec<u8>),
    /// The flags.
    Flags(u8),
    /// Manufacturer-specific data.
    Manufacturer { company: u16, payload: Vec<u8> },
    /// A structure of any type, with its data as given.
    Raw { ty: u8, data: Vec<u8> },
}

/// The mathematical value of an `AdItem`.
pub enum AdItemSpec {
    Name(Seq<u8>),
    Flags(u8),
    Manufacturer { company: u16, payload: Seq<u8> },
    Raw { ty: u8, data: Seq<u8> },
}

impl View for AdItem {
    type V = AdItemSpec;

    open spec fn view(&self) -> AdItemSpec {
        match self {
            AdItem::Name(n) => AdItemSpec::Name(n@),
            AdItem::Flags(f) => AdItemSpec::Flags(*f),
            AdItem::Manufacturer { company, payload } => AdItemSpec::Manufacturer {
                company: *company,
                payload: payload@,
            },
            AdItem::Raw { ty, data } => AdItemSpec::Raw { ty: *ty, data: data@ },
        }
    }
}

/// The bytes of one structure: the company identifier goes least significant byte first.
pub open spec fn ad_item_bytes(item: AdItemSpec) -> Seq<u8> {
    match item {
        AdItemSpec::Name(n) => ad_record(AD_TYPE_NAME, n),
        AdItemSpec::Flags(f) => ad_record(AD_TYPE_FLAGS, seq![f]),
        AdItemSpec::Manufacturer { company, payload } => ad_record(
            AD_TYPE_MANUFACTURER,
            le16(company) + payload,
        ),
        AdItemSpec::Raw { ty, data } => ad_record(ty, data),
    }
}

/// The bytes of a list of structures, one after the other.
pub open spec fn ad_items_bytes(items: Seq<AdItemSpec>) -> Seq<u8>
    decreases items.len(),
{
    if items.len() == 0 {
        Seq::empty()
    } else {
        ad_item_bytes(items[0]) + ad_items_bytes(items.drop_first())
    }
}

/// The views of a list of structures.
pub open spec fn item_views(items: Seq<AdItem>) -> Seq<AdItemSpec> {
    items.map_values(|i: AdItem| i@)
}

/// Relies on trouble_host's `AdStructure::encode_slice`: it writes the structures one after
/// the other at the start of `dest`, each as length, type, data, and fails when they do not
/// fit.
#[verifier::external_body]
fn encode_ad_items(dest: &mut Vec<u8>, items: &Vec<AdItem>) -> (r: Option<usize>)
    ensures
        final(dest)@.len() == old(dest)@.len(),
        r is Some <==> ad_items_bytes(item_views(items@)).len() <= old(dest)@.len(),
        r matches Some(n) ==> n == ad_items_bytes(item_views(items@)).len(),
        r matches Some(n) ==> final(dest)@.subrange(0, n as int) == ad_items_bytes(
            item_views(items@),
        ),
{
    let structures: Vec<AdStructure<'_>> = items.iter().map(
        |i| match i {
            AdItem::Name(n) => AdStructure::CompleteLocalName(n.as_slice()),
            AdItem::Flags(f) => AdStructure::Flags(*f),
            AdItem::Manufacturer { company, payload } => AdStructure::ManufacturerSpecificData {
                company_identifier: *company,
                payload: payload.as_slice(),
            },
            AdItem::Raw { ty, data } => AdStructure::Unknown { ty: *ty, data: data.as_slice() },
        },
    ).collect();
    AdStructure::encode_slice(&structures, dest.as_mut_slice()).ok()
}

/// Relies on trouble_host's `AdStructure::decode`: on a well-formed advertisement it yields
/// one structure per (type, data) record, in order, read as `record_field` states.
#[verifier::external_body]
fn decode_ad_fields(raw: &[u8]) -> (r: Vec<AdField>)
    ensures
        ad_records(raw@) matches Some(recs) ==> field_views(r@) == recs.map_values(
            |rec: (u8, Seq<u8>)| record_field(rec),
        ),
{
    AdStructure::decode(raw).map(
        |s| match s {
            Ok(AdStructure::CompleteLocalName(n)) => AdField::Name(n.to_vec()),
            Ok(AdStructure::TxPowerLevel(p)) => AdField::TxPower(p),
            Ok(AdStructure::ManufacturerSpecificData { company_identifier, payload }) => {
                AdField::Manufacturer { company: company_identifier, payload: payload.to_vec() }
            },
            _ => AdField::Other,
        },
    ).collect()
}

// ---------------------------------------------------------------------------------------------
// The beacon
// ---------------------------------------------------------------------------------------------

/// The structures of this device's beacon after its name: flags, colour, transmit power.
pub open spec fn beacon_tail(colour: Rgb, tx_power: i8) -> Seq<u8> {
    ad_record(AD_TYPE_FLAGS, seq![BEACON_FLAGS]) + ad_record(
        AD_TYPE_MANUFACTURER,
        le16(COMPANY_ID) + seq![colour.r, colour.g, colour.b],
    ) + ad_record(AD_TYPE_TX_POWER, seq![tx_power as u8])
}

/// The bytes of this device's beacon. An empty name is left out: a name structure needs at
/// least one byte of data.
pub open spec fn beacon_bytes(name: Seq<u8>, colour: Rgb, tx_power: i8) -> Seq<u8> {
    if name.len() == 0 {
        beacon_tail(colour, tx_power)
    } else {
        ad_record(AD_TYPE_NAME, name) + beacon_tail(colour, tx_power)
    }
}

fn copy_bytes(b: &[u8]) -> (r: Vec<u8>)
    ensures
        r@ == b@,
{
    let mut out: Vec<u8> = Vec::new();
    let mut i: usize = 0;
    while i < b.len()
        invariant
            0 <= i <= b@.len(),
            out@ == b@.subrange(0, i as int),
        decreases b@.len() - i,
    {
        out.push(b[i]);
        i = i + 1;
        assert(out@ =~= b@.subrange(0, i as int));
    }
    assert(out@ =~= b@);
    out
}

/// Builds this device's beacon: its name (when it has one), the discoverability flags, the
/// colour as manufacturer data under this product's company identifier, and the transmit
/// power.
///
/// The name must leave room for the rest in the advertisement buffer.
pub fn encode_beacon(name: &[u8], colour: Rgb, tx_power: i8) -> (r: Vec<u8>)
    requires
        name@.len() + BEACON_OVERHEAD <= ADV_BUFFER_SIZE,
    ensures
        r@ == beacon_bytes(name@, colour, tx_power),
{
    let mut buf: Vec<u8> = Vec::new();
    while buf.len() < ADV_BUFFER_SIZE
        invariant
            buf@.len() <= ADV_BUFFER_SIZE,
        decreases ADV_BUFFER_SIZE - buf@.len(),
    {
        buf.push(0u8);
    }
    let mut items: Vec<AdItem> = Vec::new();
    if name.len() > 0 {
        items.push(AdItem::Name(copy_bytes(name)));
    }
    let ghost start = item_views(items@);
    items.push(AdItem::Flags(BEACON_FLAGS));
    let payload: Vec<u8> = vec![colour.r, colour.g, colour.b];
    assert(payload@ =~= seq![colour.r, colour.g, colour.b]);
    items.push(AdItem::Manufacturer { company: COMPANY_ID, payload });
    let power: Vec<u8> = vec![tx_power as u8];
    assert(power@ =~= seq![tx_power as u8]);
    items.push(AdItem::Raw { ty: AD_TYPE_TX_POWER, data: power });
    proof {
        let f = AdItemSpec::Flags(BEACON_FLAGS);
        let m = AdItemSpec::Manufacturer {
            company: COMPANY_ID,
            payload: seq![colour.r, colour.g, colour.b],
        };
        let t = AdItemSpec::Raw { ty: AD_TYPE_TX_POWER, data: seq![tx_power as u8] };
        let tail = seq![f, m, t];
        assert(item_views(items@) =~= start + tail);
        assert(tail.drop_first() =~= seq![m, t]);
        assert(seq![m, t].drop_first() =~= seq![t]);
        assert(seq![t].drop_first() =~= Seq::<AdItemSpec>::empty());
        assert(ad_items_bytes(Seq::<AdItemSpec>::empty()) == Seq::<u8>::empty());
        assert(seq![t][0] == t);
        assert(ad_items_bytes(seq![t]) == ad_item_bytes(t) + ad_items_bytes(
            Seq::<AdItemSpec>::empty(),
        ));
        assert(ad_items_bytes(seq![t]) =~= ad_item_bytes(t));
        assert(ad_items_bytes(seq![m, t]) =~= ad_item_bytes(m) + ad_item_bytes(t));
        assert(ad_items_bytes(tail) =~= beacon_tail(colour, tx_power));
        if name@.len() == 0 {
            assert(start =~= Seq::<AdItemSpec>::empty());
            assert(start + tail =~= tail);
        } else {
            assert(start =~= seq![AdItemSpec::Name(name@)]);
            assert((start + tail).drop_first() =~= tail);
        }
        assert(ad_items_bytes(item_views(items@)) =~= beacon_bytes(name@, colour, tx_power));
    }
    match encode_ad_items(&mut buf, &items) {
        Some(n) => {
            let mut out: Vec<u8> = Vec::new();
            let mut i: usize = 0;
            while i < n
                invariant
                    0 <= i <= n,
                    n <= buf@.len(),
                    out@ == buf@.subrange(0, i as int),
                decreases n - i,
            {
                out.push(buf[i]);
                i = i + 1;
                assert(out@ =~= buf@.subrange(0, i as int));
            }
            out
        },
        None => {
            proof {
                assert(false);
            }
            Vec::new()
        },
    }
}

/// Reading a well-formed structure in front of more bytes.
proof fn lemma_ad_records_cons(ty: u8, data: Seq<u8>, rest: Seq<u8>)
    requires
        1 <= data.len() <= 254,
    ensures
        ad_records(ad_record(ty, data) + rest) == match ad_records(rest) {
            Some(recs) => Some(seq![(ty, data)] + recs),
            None => None::<Seq<(u8, Seq<u8>)>>,
        },
{
    let b = ad_record(ty, data) + rest;
    assert(b[0] as int == data.len() + 1);
    assert(b[1] == ty);
    assert(b.subrange(2, b[0] + 1) =~= data);
    assert(b.skip(b[0] + 1) =~= rest);
}

/// The records of the beacon after its name.
pub open spec fn beacon_tail_records(colour: Rgb, tx_power: i8) -> Seq<(u8, Seq<u8>)> {
    seq![(AD_TYPE_FLAGS, seq![BEACON_FLAGS]), (
        AD_TYPE_MANUFACTURER,
        le16(COMPANY_ID) + seq![colour.r, colour.g, colour.b],
    ), (AD_TYPE_TX_POWER, seq![tx_power as u8])]
}

proof fn lemma_beacon_tail_records(colour: Rgb, tx_power: i8)
    ensures
        ad_records(beacon_tail(colour, tx_power)) == Some(beacon_tail_records(colour, tx_power)),
{
    let d3 = le16(COMPANY_ID) + seq![colour.r, colour.g, colour.b];
    let d4 = seq![tx_power as u8];
    let r2 = ad_record(AD_TYPE_FLAGS, seq![BEACON_FLAGS]);
    let r3 = ad_record(AD_TYPE_MANUFACTURER, d3);
    let r4 = ad_record(AD_TYPE_TX_POWER, d4);
    assert(beacon_tail(colour, tx_power) =~= r2 + (r3 + (r4 + Seq::empty())));
    assert(ad_records(Seq::<u8>::empty()) == Some(Seq::<(u8, Seq<u8>)>::empty()));
    lemma_ad_records_cons(AD_TYPE_TX_POWER, d4, Seq::empty());
    lemma_ad_records_cons(AD_TYPE_MANUFACTURER, d3, r4 + Seq::empty());
    lemma_ad_records_cons(AD_TYPE_FLAGS, seq![BEACON_FLAGS], r3 + (r4 + Seq::empty()));
    assert(seq![(AD_TYPE_TX_POWER, d4)] + Seq::<(u8, Seq<u8>)>::empty() =~= seq![
        (AD_TYPE_TX_POWER, d4),
    ]);
    assert(beacon_tail_records(colour, tx_power) =~= seq![(AD_TYPE_FLAGS, seq![BEACON_FLAGS])] + (
    seq![(AD_TYPE_MANUFACTURER, d3)] + seq![(AD_TYPE_TX_POWER, d4)]));
}

/// The fields read from the beacon after its name, from index `s` on: flags, colour, power.
proof fn lemma_tail_fields(fs: Seq<AdFieldSpec>, s: int, colour: Rgb, tx_power: i8)
    requires
        s == 0 || s == 1,
        fs.len() == s + 3,
        forall|i: int| 0 <= i < s ==> field_colour(#[trigger] fs[i]) is None && !(fs[i] is TxPower),
        fs[s] == record_field((AD_TYPE_FLAGS, seq![BEACON_FLAGS])),
        fs[s + 1] == record_field(
            (AD_TYPE_MANUFACTURER, le16(COMPANY_ID) + seq![colour.r, colour.g, colour.b]),
        ),
        fs[s + 2] == record_field((AD_TYPE_TX_POWER, seq![tx_power as u8])),
    ensures
        first_colour(fs, 0) == Some(colour),
        first_tx_power(fs, 0) == Some(tx_power),
        !(fs[s] is Name) && !(fs[s + 1] is Name) && !(fs[s + 2] is Name),
{
    let d3 = le16(COMPANY_ID) + seq![colour.r, colour.g, colour.b];
    assert((COMPANY_ID % 256) as u8 as int + 256 * (COMPANY_ID / 256) as u8 as int == COMPANY_ID);
    assert(d3.skip(2) =~= seq![colour.r, colour.g, colour.b]);
    assert(((tx_power as u8) as i8) == tx_power) by (bit_vector);
    assert(fs[s] == AdFieldSpec::Other);
    assert(fs[s + 1] == AdFieldSpec::Manufacturer { company: COMPANY_ID, payload: d3.skip(2) });
    assert(fs[s + 2] == AdFieldSpec::TxPower(tx_power));
    assert(first_colour(fs, s + 1) == Some(colour));
    assert(first_colour(fs, s) == Some(colour));
    assert(first_tx_power(fs, s + 2) == Some(tx_power));
    assert(first_tx_power(fs, s + 1) == Some(tx_power));
    assert(first_tx_power(fs, s) == Some(tx_power));
    if s == 1 {
        assert(field_colour(fs[0]) is None && !(fs[0] is TxPower));
        assert(first_colour(fs, 0) == Some(colour));
        assert(first_tx_power(fs, 0) == Some(tx_power));
    }
}

/// Decoding this device's beacon gives back its colour and its transmit power, and its name
/// cut to the stored capacity; a beacon without a name reads as the unknown name.
pub proof fn lemma_beacon_round_trip(name: Seq<u8>, colour: Rgb, tx_power: i8)
    requires
        name.len() + BEACON_OVERHEAD <= ADV_BUFFER_SIZE,
    ensures
        ad_records(beacon_bytes(name, colour, tx_power)) matches Some(recs) && ({
            let fs = recs.map_values(|rec: (u8, Seq<u8>)| record_field(rec));
            &&& first_colour(fs, 0) == Some(colour)
            &&& report_tx_power(fs) == tx_power
            &&& report_name(fs) == if name.len() == 0 {
                unknown_name()
            } else {
                bounded_name(name)
            }
        }),
{
    lemma_beacon_tail_records(colour, tx_power);
    let tail = beacon_tail_records(colour, tx_power);
    if name.len() == 0 {
        let fs = tail.map_values(|rec: (u8, Seq<u8>)| record_field(rec));
        lemma_tail_fields(fs, 0, colour, tx_power);
        assert(first_name(fs, 3) is None);
        assert(first_name(fs, 2) is None);
        assert(first_name(fs, 1) is None);
        assert(first_name(fs, 0) is None);
    } else {
        lemma_ad_records_cons(AD_TYPE_NAME, name, beacon_tail(colour, tx_power));
        let recs = seq![(AD_TYPE_NAME, name)] + tail;
        assert(ad_records(beacon_bytes(name, colour, tx_power)) == Some(recs));
        let fs = recs.map_values(|rec: (u8, Seq<u8>)| record_field(rec));
        assert(fs[0] == AdFieldSpec::Name(name));
        assert(fs[1] == record_field(tail[0]));
        assert(fs[2] == record_field(tail[1]));
        assert(fs[3] == record_field(tail[2]));
        lemma_tail_fields(fs, 1, colour, tx_power);
        assert(first_name(fs, 0) == Some(name));
    }
}

// ---------------------------------------------------------------------------------------------
// Reports from peers
// ---------------------------------------------------------------------------------------------

/// The colour a field carries, if it is manufacturer data of this product with a 3-byte
/// payload.
pub open spec fn field_colour(f: AdFieldSpec) -> Option<Rgb> {
    match f {
        AdFieldSpec::Manufacturer { company, payload } => {
            if company == COMPANY_ID && payload.len() == 3 {
                Some(Rgb { r: payload[0], g: payload[1], b: payload[2] })
            } else {
                None
            }
        },
        _ => None,
    }
}

/// The colour of the first field, from index `i` on, that carries one.
pub open spec fn first_colour(fs: Seq<AdFieldSpec>, i: int) -> Option<Rgb>
    decreases fs.len() - i,
{
    if i < 0 || i >= fs.len() {
        None
    } else {
        match field_colour(fs[i]) {
            Some(c) => Some(c),
            None => first_colour(fs, i + 1),
        }
    }
}

/// The first name field from index `i` on.
pub open spec fn first_name(fs: Seq<AdFieldSpec>, i: int) -> Option<Seq<u8>>
    decreases fs.len() - i,
{
    if i < 0 || i >= fs.len() {
        None
    } else {
        match fs[i] {
            AdFieldSpec::Name(n) => Some(n),
            _ => first_name(fs, i + 1),
        }
    }
}

/// The first transmit power field from index `i` on.
pub open spec fn first_tx_power(fs: Seq<AdFieldSpec>, i: int) -> Option<i8>
    decreases fs.len() - i,
{
    if i < 0 || i >= fs.len() {
        None
    } else {
        match fs[i] {
            AdFieldSpec::TxPower(p) => Some(p),
            _ => first_tx_power(fs, i + 1),
        }
    }
}

/// A name cut to the capacity of a stored name.
pub open spec fn bounded_name(n: Seq<u8>) -> Seq<u8> {
    if n.len() <= NAME_CAPACITY {
        n
    } else {
        n.subrange(0, NAME_CAPACITY as int)
    }
}

/// The name recorded for a report with these fields.
pub open spec fn report_name(fs: Seq<AdFieldSpec>) -> Seq<u8> {
    match first_name(fs, 0) {
        Some(n) => bounded_name(n),
        None => unknown_name(),
    }
}

/// The transmit power recorded for a report with these fields: 0 dBm when it has none.
pub open spec fn report_tx_power(fs: Seq<AdFieldSpec>) -> i8 {
    match first_tx_power(fs, 0) {
        Some(p) => p,
        None => 0,
    }
}

/// `m` is the message for a report with fields `fs` carrying colour `c`.
pub open spec fn is_report_message(
    m: PresenceMessage,
    fs: Seq<AdFieldSpec>,
    c: Rgb,
    rssi: i8,
    address: [u8; 6],
    now: u64,
) -> bool {
    &&& m.colour == c
    &&& m.rssi == rssi
    &&& m.tx_power == report_tx_power(fs)
    &&& m.address == address
    &&& m.last_seen == now
    &&& m.name@ == report_name(fs)
}

fn find_colour(fields: &Vec<AdField>) -> (r: Option<Rgb>)
    ensures
        r == first_colour(field_views(fields@), 0),
{
    let ghost fs = field_views(fields@);
    let mut i: usize = 0;
    while i < fields.len()
        invariant
            0 <= i <= fields@.len(),
            fs == field_views(fields@),
            first_colour(fs, 0) == first_colour(fs, i as int),
        decreases fields@.len() - i,
    {
        assert(fs[i as int] == fields@[i as int]@);
        match &fields[i] {
            AdField::Manufacturer { company, payload } => {
                if *company == COMPANY_ID && payload.len() == 3 {
                    return Some(Rgb::new(payload[0], payload[1], payload[2]));
                }
            },
            _ => {},
        }
        i = i + 1;
    }
    None
}

fn find_tx_power(fields: &Vec<AdField>) -> (r: Option<i8>)
    ensures
        r == first_tx_power(field_views(fields@), 0),
{
    let ghost fs = field_views(fields@);
    let mut i: usize = 0;
    while i < fields.len()
        invariant
            0 <= i <= fields@.len(),
            fs == field_views(fields@),
            first_tx_power(fs, 0) == first_tx_power(fs, i as int),
        decreases fields@.len() - i,
    {
        assert(fs[i as int] == fields@[i as int]@);
        match &fields[i] {
            AdField::TxPower(p) => {
                return Some(*p);
            },
            _ => {},
        }
        i = i + 1;
    }
    None
}

/// Copies at most `NAME_CAPACITY` bytes of `n`.
fn bounded_copy(n: &Vec<u8>) -> (r: Vec<u8>)
    ensures
        r@ == bounded_name(n@),
{
    let end: usize = if n.len() <= NAME_CAPACITY {
        n.len()
    } else {
        NAME_CAPACITY
    };
    let mut out: Vec<u8> = Vec::new();
    let mut i: usize = 0;
    while i < end
        invariant
            0 <= i <= end,
            end <= n@.len(),
            out@ == n@.subrange(0, i as int),
        decreases end - i,
    {
        out.push(n[i]);
        i = i + 1;
        assert(out@ =~= n@.subrange(0, i as int));
    }
    assert(n@.len() <= NAME_CAPACITY ==> n@.subrange(0, end as int) =~= n@);
    out
}

fn unknown_name_bytes() -> (r: Vec<u8>)
    ensures
        r@ == unknown_name(),
{
    let v: Vec<u8> = vec![60u8, 85u8, 110u8, 107u8, 110u8, 111u8, 119u8, 110u8, 62u8];
    assert(v@ =~= unknown_name());
    v
}

fn find_name(fields: &Vec<AdField>) -> (r: Vec<u8>)
    ensures
        r@ == report_name(field_views(fields@)),
{
    let ghost fs = field_views(fields@);
    let mut i: usize = 0;
    while i < fields.len()
        invariant
            0 <= i <= fields@.len(),
            fs == field_views(fields@),
            first_name(fs, 0) == first_name(fs, i as int),
        decreases fields@.len() - i,
    {
        assert(fs[i as int] == fields@[i as int]@);
        match &fields[i] {
            AdField::Name(n) => {
                return bounded_copy(n);
            },
            _ => {},
        }
        i = i + 1;
    }
    unknown_name_bytes()
}

/// Builds the message for a report from its decoded fields: accepted only when a field is
/// manufacturer data of this product carrying a 3-byte colour, and `None` otherwise.
pub fn message_from_fields(fields: &Vec<AdField>, rssi: i8, address: [u8; 6], now: u64) -> (r:
    Option<PresenceMessage>)
    ensures
        ({
            let fs = field_views(fields@);
            match first_colour(fs, 0) {
                None => r is None,
                Some(c) => r matches Some(m) && is_report_message(m, fs, c, rssi, address, now),
            }
        }),
{
    match find_colour(fields) {
        None => None,
        Some(colour) => {
            let tx_power: i8 = match find_tx_power(fields) {
                Some(p) => p,
                None => 0,
            };
            let name = find_name(fields);
            Some(PresenceMessage { rssi, tx_power, address, last_seen: now, name, colour })
        },
    }
}

/// Whether an advertisement is well formed: every length byte is at least 2 and its structure
/// ends within the bytes.
pub fn is_well_formed_ad(raw: &[u8]) -> (r: bool)
    ensures
        r == ad_records(raw@) is Some,
{
    let mut pos: usize = 0;
    assert(raw@.skip(0) =~= raw@);
    while pos < raw.len()
        invariant
            pos <= raw@.len(),
            (ad_records(raw@) is Some) == (ad_records(raw@.skip(pos as int)) is Some),
        decreases raw@.len() - pos,
    {
        let len = raw[pos] as usize;
        let ghost b = raw@.skip(pos as int);
        assert(b[0] == raw@[pos as int]);
        if len < 2 || raw.len() - pos < len + 1 {
            return false;
        }
        assert(b.skip(b[0] + 1) =~= raw@.skip(pos + len + 1));
        pos = pos + len + 1;
    }
    assert(raw@.skip(pos as int) =~= Seq::<u8>::empty());
    true
}

/// Decodes a report heard at `rssi` from `address` at uptime `now`. Malformed reports and
/// reports of other products are dropped (`None`), which is not an error.
pub fn decode_report(raw: &[u8], rssi: i8, address: [u8; 6], now: u64) -> (r: Option<
    PresenceMessage,
>)
    ensures
        ad_records(raw@) is None ==> r is None,
        ad_records(raw@) matches Some(recs) ==> ({
            let fs = recs.map_values(|rec: (u8, Seq<u8>)| record_field(rec));
            match first_colour(fs, 0) {
                None => r is None,
                Some(c) => r matches Some(m) && is_report_message(m, fs, c, rssi, address, now),
            }
        }),
{
    if !is_well_formed_ad(raw) {
        return None;
    }
    let fields = decode_ad_fields(raw);
    message_from_fields(&fields, rssi, address, now)
}

} // verus!
