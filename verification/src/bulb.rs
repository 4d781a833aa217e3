//! What the server knows of one bulb, and how each message the bulb sends
//! changes that knowledge.
use vstd::prelude::*;

use rand::distributions::Alphanumeric;
use rand::{thread_rng, Rng};

use crate::color::{Hsbk, LifxColor};
use crate::lan::{
    lookup_product, opt_product_view, product_entry, query_datagram, query_datagrams,
    query_packet, setting_datagram, setting_packet, LanMessage, MessageView, PowerLevel, Product,
    ProductView, Query, Setting,
};
use crate::refresh::{spec_empty, spec_needs_refresh, spec_updated, RefreshView, RefreshableData};
use crate::text::{decimal, push_decimal, string_from_chars};

verus! {

/// One hour, in nanoseconds.
pub const HOUR: u64 = 3_600_000_000_000;

/// How long a reported power level stays fresh, in nanoseconds.
pub const POWER_MAX_AGE: u64 = 500_000_000;

/// How long a reported color stays fresh, in nanoseconds.
pub const COLOR_MAX_AGE: u64 = 15_000_000_000;

#[derive(Debug)]
pub struct LifxLocation {
    pub id: String,
    pub name: String,
}

#[derive(Debug)]
pub struct LifxGroup {
    pub id: String,
    pub name: String,
}

/// An identifier with a name, as a view of [`LifxLocation`] and [`LifxGroup`].
pub struct NamedView {
    pub id: Seq<char>,
    pub name: Seq<char>,
}

impl View for LifxLocation {
    type V = NamedView;

    open spec fn view(&self) -> NamedView {
        NamedView { id: self.id@, name: self.name@ }
    }
}

impl View for LifxGroup {
    type V = NamedView;

    open spec fn view(&self) -> NamedView {
        NamedView { id: self.id@, name: self.name@ }
    }
}

impl View for PowerLevel {
    type V = PowerLevel;

    open spec fn view(&self) -> PowerLevel {
        *self
    }
}

impl View for Hsbk {
    type V = Hsbk;

    open spec fn view(&self) -> Hsbk {
        *self
    }
}

/// A network address: the IP address's bytes (4 or 16) and the port.
#[derive(Debug)]
pub struct PeerAddr {
    pub ip: Vec<u8>,
    pub port: u16,
}

/// What is known of a bulb's color: nothing until its model is known, then
/// a single color or, for multizone devices, one color per zone.
pub enum LiColor {
    Unknown,
    Single(RefreshableData<Hsbk>),
    Multi(RefreshableData<Vec<Option<Hsbk>>>),
}

pub enum ColorView {
    Unknown,
    Single(RefreshView<Hsbk>),
    Multi(RefreshView<Seq<Option<Hsbk>>>),
}

impl View for LiColor {
    type V = ColorView;

    open spec fn view(&self) -> ColorView {
        match self {
            LiColor::Unknown => ColorView::Unknown,
            LiColor::Single(d) => ColorView::Single(d@),
            LiColor::Multi(d) => ColorView::Multi(d@),
        }
    }
}

/// A bulb known to the server.
pub struct BulbInfo {
    pub id: String,
    pub uuid: String,
    pub label: String,
    pub connected: bool,
    pub power: String,
    pub lifx_color: Option<LifxColor>,
    /// The brightness last reported, on the full `u16` scale.
    pub brightness: u16,
    pub lifx_group: Option<LifxGroup>,
    pub lifx_location: Option<LifxLocation>,
    pub product: Option<Product>,
    pub lifx_last_seen: String,
    pub seconds_since_seen: i64,
    /// When the bulb was last heard from.
    pub last_seen: u64,
    pub source: u32,
    pub target: u64,
    pub addr: PeerAddr,
    pub group: RefreshableData<LifxGroup>,
    pub name: RefreshableData<String>,
    pub model: RefreshableData<(u32, u32)>,
    pub location: RefreshableData<String>,
    pub host_firmware: RefreshableData<u32>,
    pub wifi_firmware: RefreshableData<u32>,
    pub power_level: RefreshableData<PowerLevel>,
    pub color: LiColor,
}

pub struct BulbView {
    pub id: Seq<char>,
    pub uuid: Seq<char>,
    pub label: Seq<char>,
    pub connected: bool,
    pub power: Seq<char>,
    pub lifx_color: Option<LifxColor>,
    pub brightness: u16,
    pub lifx_group: Option<NamedView>,
    pub lifx_location: Option<NamedView>,
    pub product: Option<ProductView>,
    pub lifx_last_seen: Seq<char>,
    pub seconds_since_seen: i64,
    pub last_seen: u64,
    pub source: u32,
    pub target: u64,
    pub addr: (Seq<u8>, u16),
    pub group: RefreshView<NamedView>,
    pub name: RefreshView<Seq<char>>,
    pub model: RefreshView<(u32, u32)>,
    pub location: RefreshView<Seq<char>>,
    pub host_firmware: RefreshView<u32>,
    pub wifi_firmware: RefreshView<u32>,
    pub power_level: RefreshView<PowerLevel>,
    pub color: ColorView,
}

pub open spec fn opt_named<T: View<V = NamedView>>(o: Option<T>) -> Option<NamedView> {
    match o {
        Some(t) => Some(t@),
        None => None,
    }
}

impl View for BulbInfo {
    type V = BulbView;

    open spec fn view(&self) -> BulbView {
        BulbView {
            id: self.id@,
            uuid: self.uuid@,
            label: self.label@,
            connected: self.connected,
            power: self.power@,
            lifx_color: self.lifx_color,
            brightness: self.brightness,
            lifx_group: opt_named(self.lifx_group),
            lifx_location: opt_named(self.lifx_location),
            product: opt_product_view(self.product),
            lifx_last_seen: self.lifx_last_seen@,
            seconds_since_seen: self.seconds_since_seen,
            last_seen: self.last_seen,
            source: self.source,
            target: self.target,
            addr: (self.addr.ip@, self.addr.port),
            group: self.group@,
            name: self.name@,
            model: self.model@,
            location: self.location@,
            host_firmware: self.host_firmware@,
            wifi_firmware: self.wifi_firmware@,
            power_level: self.power_level@,
            color: self.color@,
        }
    }
}

// ---------------------------------------------------------------------------
// Identifiers
// ---------------------------------------------------------------------------

/// The bytes of an identifier written in decimal, one after the other.
pub open spec fn ident_digits(b: Seq<u8>) -> Seq<char>
    decreases b.len(),
{
    if b.len() == 0 {
        Seq::empty()
    } else {
        ident_digits(b.drop_last()) + decimal(b.last() as nat)
    }
}

/// The bytes of an identifier in decimal, separated by `", "`.
pub open spec fn ident_list(b: Seq<u8>) -> Seq<char>
    decreases b.len(),
{
    if b.len() == 0 {
        Seq::empty()
    } else if b.len() == 1 {
        decimal(b[0] as nat)
    } else {
        ident_list(b.drop_last()) + seq![',', ' '] + decimal(b.last() as nat)
    }
}

/// The debug form of an identifier's byte array: `[1, 2, …]`.
pub open spec fn ident_debug(b: Seq<u8>) -> Seq<char> {
    seq!['['] + ident_list(b) + seq![']']
}

pub fn ident_digits_string(b: &[u8]) -> (s: String)
    ensures
        s@ == ident_digits(b@),
{
    let mut out: Vec<char> = Vec::new();
    let mut i: usize = 0;
    while i < b.len()
        invariant
            i <= b@.len(),
            out@ == ident_digits(b@.take(i as int)),
        decreases b.len() - i,
    {
        push_decimal(&mut out, b[i]);
        assert(b@.take(i + 1).drop_last() =~= b@.take(i as int));
        i = i + 1;
    }
    assert(b@.take(b@.len() as int) =~= b@);
    string_from_chars(out.as_slice())
}

pub fn ident_debug_string(b: &[u8]) -> (s: String)
    ensures
        s@ == ident_debug(b@),
{
    let mut out: Vec<char> = Vec::new();
    out.push('[');
    let mut i: usize = 0;
    while i < b.len()
        invariant
            i <= b@.len(),
            out@ == seq!['['] + ident_list(b@.take(i as int)),
        decreases b.len() - i,
    {
        assert(b@.take(i + 1).drop_last() =~= b@.take(i as int));
        if i > 0 {
            out.push(',');
            out.push(' ');
        }
        push_decimal(&mut out, b[i]);
        proof {
            if i == 0 {
                assert(ident_list(b@.take(1)) == decimal(b@[0] as nat));
            }
        }
        i = i + 1;
        assert(out@ =~= seq!['['] + ident_list(b@.take(i as int)));
    }
    out.push(']');
    assert(b@.take(b@.len() as int) =~= b@);
    assert(out@ =~= ident_debug(b@));
    string_from_chars(out.as_slice())
}

pub open spec fn is_alphanumeric(c: char) -> bool {
    ('A' <= c && c <= 'Z') || ('a' <= c && c <= 'z') || ('0' <= c && c <= '9')
}

/// `len` characters drawn by rand's `Alphanumeric` distribution from the
/// thread-local generator. Claimed (as rand documents): `len` characters,
/// each an ASCII letter or digit. Which ones is chance.
#[verifier::external_body]
pub(crate) fn random_alphanumeric(len: usize) -> (s: String)
    ensures
        s@.len() == len,
        forall|i: int| 0 <= i < len ==> is_alphanumeric(#[trigger] s@[i]),
{
    thread_rng().sample_iter(&Alphanumeric).take(len).map(char::from).collect()
}

// ---------------------------------------------------------------------------
// Transitions
// ---------------------------------------------------------------------------

pub open spec fn chars_on() -> Seq<char> {
    seq!['o', 'n']
}

pub open spec fn chars_off() -> Seq<char> {
    seq!['o', 'f', 'f']
}

/// A bulb first heard from at `now`.
pub open spec fn spec_fresh(
    id: Seq<char>,
    uuid: Seq<char>,
    source: u32,
    target: u64,
    addr: (Seq<u8>, u16),
    now: u64,
) -> BulbView {
    BulbView {
        id,
        uuid,
        label: Seq::empty(),
        connected: true,
        power: chars_off(),
        lifx_color: None,
        brightness: 0,
        lifx_group: None,
        lifx_location: None,
        product: None,
        lifx_last_seen: Seq::empty(),
        seconds_since_seen: 0,
        last_seen: now,
        source,
        target,
        addr,
        group: spec_empty(HOUR, Query::Group, now),
        name: spec_empty(HOUR, Query::Label, now),
        model: spec_empty(HOUR, Query::Version, now),
        location: spec_empty(HOUR, Query::Location, now),
        host_firmware: spec_empty(HOUR, Query::HostFirmware, now),
        wifi_firmware: spec_empty(HOUR, Query::WifiFirmware, now),
        power_level: spec_empty(POWER_MAX_AGE, Query::Power, now),
        color: ColorView::Unknown,
    }
}

/// The zones a multizone record holds, or `count` unknown zones if none.
pub open spec fn zones_or_new(data: Option<Seq<Option<Hsbk>>>, count: u8) -> Seq<Option<Hsbk>> {
    match data {
        Some(v) => v,
        None => Seq::new(count as nat, |i: int| None),
    }
}

/// `v` with zones `index .. index + 8` set to `colors`.
pub open spec fn write_zones(v: Seq<Option<Hsbk>>, index: u8, colors: Seq<Hsbk>) -> Seq<
    Option<Hsbk>,
> {
    Seq::new(
        v.len(),
        |i: int|
            if index <= i < index + 8 {
                Some(colors[i - index])
            } else {
                v[i]
            },
    )
}

/// The messages on which the server would index past a zone list: a zone
/// index at or beyond the zone count (or the list it keeps), or a run of
/// eight zones that does not fit.
pub open spec fn message_fits(b: BulbView, m: MessageView) -> bool {
    match (m, b.color) {
        (MessageView::Zone { count, index, .. }, ColorView::Multi(d)) => index < zones_or_new(
            d.data,
            count,
        ).len(),
        (MessageView::MultiZone { count, index, .. }, ColorView::Multi(d)) => match d.data {
            Some(v) => index + 7 < v.len(),
            None => index + 7 < count,
        },
        _ => true,
    }
}

/// The bulb after it sent `m` at `now`. `product` is the product table's
/// entry for the model a `Version` message names, if the table has one.
pub open spec fn spec_apply(b: BulbView, m: MessageView, now: u64, product: Option<ProductView>) -> BulbView {
    match m {
        MessageView::Label(l) => BulbView { name: spec_updated(b.name, l, now), label: l, ..b },
        MessageView::Location { ident, label } => BulbView {
            location: spec_updated(b.location, label, now),
            lifx_location: Some(NamedView { id: ident_digits(ident), name: label }),
            ..b
        },
        MessageView::Version { vendor, product: p } => {
            let b1 = BulbView { model: spec_updated(b.model, (vendor, p), now), ..b };
            match product {
                Some(info) => BulbView {
                    product: Some(info),
                    color: if info.capabilities.has_multizone {
                        ColorView::Multi(
                            spec_empty(
                                COLOR_MAX_AGE,
                                Query::ColorZones { start_index: 0, end_index: 255 },
                                now,
                            ),
                        )
                    } else {
                        ColorView::Single(spec_empty(COLOR_MAX_AGE, Query::Light, now))
                    },
                    ..b1
                },
                None => b1,
            }
        },
        MessageView::Power(level) => BulbView {
            power_level: spec_updated(b.power_level, level, now),
            power: if level == PowerLevel::Enabled {
                chars_on()
            } else {
                chars_off()
            },
            ..b
        },
        MessageView::Group { ident, label } => BulbView {
            group: spec_updated(b.group, NamedView { id: ident_debug(ident), name: label }, now),
            lifx_group: Some(NamedView { id: ident_digits(ident), name: label }),
            ..b
        },
        MessageView::HostFirmware(v) => BulbView {
            host_firmware: spec_updated(b.host_firmware, v, now),
            ..b
        },
        MessageView::WifiFirmware(v) => BulbView {
            wifi_firmware: spec_updated(b.wifi_firmware, v, now),
            ..b
        },
        MessageView::LightState { color, power, label } => {
            let b1 = match b.color {
                ColorView::Single(d) => BulbView {
                    color: ColorView::Single(spec_updated(d, color, now)),
                    lifx_color: Some(color.spec_lifx_color()),
                    brightness: color.brightness,
                    power_level: spec_updated(b.power_level, power, now),
                    ..b
                },
                _ => b,
            };
            BulbView { name: spec_updated(b1.name, label, now), ..b1 }
        },
        MessageView::Zone { count, index, color } => match b.color {
            ColorView::Multi(d) => BulbView {
                color: ColorView::Multi(
                    RefreshView {
                        data: Some(zones_or_new(d.data, count).update(index as int, Some(color))),
                        ..d
                    },
                ),
                ..b
            },
            _ => b,
        },
        MessageView::MultiZone { count, index, colors } => match b.color {
            ColorView::Multi(d) => BulbView {
                color: ColorView::Multi(
                    RefreshView {
                        data: Some(write_zones(zones_or_new(d.data, count), index, colors)),
                        ..d
                    },
                ),
                ..b
            },
            _ => b,
        },
        MessageView::Undecodable(_) => b,
        MessageView::Other => b,
    }
}

/// The product-table entry that `spec_apply` uses for a message.
pub open spec fn product_answer(m: MessageView) -> Option<ProductView> {
    match m {
        MessageView::Version { vendor, product } => product_entry(vendor, product),
        _ => None,
    }
}

/// The queries a bulb needs answered at `now`, in the order they are sent:
/// label, version, location, host firmware, Wi-Fi firmware, power, group,
/// then color, each when its record needs refreshing.
pub open spec fn spec_queries(b: BulbView, now: u64) -> Seq<Query> {
    when_stale(b.name, now) + when_stale(b.model, now) + when_stale(b.location, now) + when_stale(
        b.host_firmware,
        now,
    ) + when_stale(b.wifi_firmware, now) + when_stale(b.power_level, now) + when_stale(b.group, now)
        + match b.color {
        ColorView::Unknown => Seq::<Query>::empty(),
        ColorView::Single(d) => when_stale(d, now),
        ColorView::Multi(d) => when_stale(d, now),
    }
}

/// The record's query, if the record needs refreshing at `now`.
pub open spec fn when_stale<V>(r: RefreshView<V>, now: u64) -> Seq<Query> {
    if spec_needs_refresh(r, now) {
        seq![r.refresh_msg]
    } else {
        Seq::empty()
    }
}

fn push_when_stale<T: View>(r: &RefreshableData<T>, now: u64, out: &mut Vec<Query>)
    ensures
        final(out)@ == old(out)@ + when_stale(r@, now),
{
    if r.needs_refresh(now) {
        out.push(r.refresh_msg);
    }
    assert(final(out)@ =~= old(out)@ + when_stale(r@, now));
}

/// Whether the bulb can take `msg` in without indexing past its zone list.
pub fn fits(b: &BulbInfo, msg: &LanMessage) -> (r: bool)
    ensures
        r == message_fits(b@, msg@),
{
    match (msg, &b.color) {
        (LanMessage::Zone { count, index, .. }, LiColor::Multi(d)) => match &d.data {
            Some(v) => (*index as usize) < v.len(),
            None => *index < *count,
        },
        (LanMessage::MultiZone { count, index, .. }, LiColor::Multi(d)) => match &d.data {
            Some(v) => (*index as usize) + 7 < v.len(),
            None => (*index as u16) + 7 < *count as u16,
        },
        _ => true,
    }
}

/// Taking a message in never changes who a bulb is or where it was heard:
/// its id, uuid, target, source, address and last-seen time stay.
pub proof fn lemma_apply_keeps_identity(b: BulbView, m: MessageView, now: u64, product: Option<ProductView>)
    ensures
        ({
            let after = spec_apply(b, m, now, product);
            &&& after.id == b.id
            &&& after.uuid == b.uuid
            &&& after.target == b.target
            &&& after.source == b.source
            &&& after.addr == b.addr
            &&& after.last_seen == b.last_seen
            &&& after.connected == b.connected
        }),
{
}

/// The product entry a bulb shows changes only when the bulb reports a
/// model the product table knows, and then it becomes that model's entry.
pub proof fn lemma_apply_product(b: BulbView, m: MessageView, now: u64, product: Option<ProductView>)
    ensures
        spec_apply(b, m, now, product).product == (if m is Version && product is Some {
            product
        } else {
            b.product
        }),
{
}

/// A message lifx-rs cannot decode leaves the bulb as it was.
pub proof fn lemma_undecodable_changes_nothing(
    b: BulbView,
    e: crate::lan::DecodeErrorView,
    now: u64,
    product: Option<ProductView>,
)
    ensures
        spec_apply(b, MessageView::Undecodable(e), now, product) == b,
{
}

/// 1 when the record needs refreshing at `now`, else 0.
pub open spec fn stale_count<V>(r: RefreshView<V>, now: u64) -> nat {
    if spec_needs_refresh(r, now) {
        1
    } else {
        0
    }
}

/// A bulb is sent the query of every record of it that needs refreshing
/// at `now`, its color record (single or multizone) included, and one
/// query per such record, so nothing else.
pub proof fn lemma_queries_cover_stale_records(b: BulbView, now: u64)
    ensures
        spec_needs_refresh(b.name, now) ==> spec_queries(b, now).contains(b.name.refresh_msg),
        spec_needs_refresh(b.model, now) ==> spec_queries(b, now).contains(b.model.refresh_msg),
        spec_needs_refresh(b.location, now) ==> spec_queries(b, now).contains(
            b.location.refresh_msg,
        ),
        spec_needs_refresh(b.host_firmware, now) ==> spec_queries(b, now).contains(
            b.host_firmware.refresh_msg,
        ),
        spec_needs_refresh(b.wifi_firmware, now) ==> spec_queries(b, now).contains(
            b.wifi_firmware.refresh_msg,
        ),
        spec_needs_refresh(b.power_level, now) ==> spec_queries(b, now).contains(
            b.power_level.refresh_msg,
        ),
        spec_needs_refresh(b.group, now) ==> spec_queries(b, now).contains(b.group.refresh_msg),
        b.color matches ColorView::Single(d) ==> (spec_needs_refresh(d, now) ==> spec_queries(
            b,
            now,
        ).contains(d.refresh_msg)),
        b.color matches ColorView::Multi(d) ==> (spec_needs_refresh(d, now) ==> spec_queries(
            b,
            now,
        ).contains(d.refresh_msg)),
        spec_queries(b, now).len() == stale_count(b.name, now) + stale_count(b.model, now)
            + stale_count(b.location, now) + stale_count(b.host_firmware, now) + stale_count(
            b.wifi_firmware,
            now,
        ) + stale_count(b.power_level, now) + stale_count(b.group, now) + match b.color {
            ColorView::Unknown => 0nat,
            ColorView::Single(d) => stale_count(d, now),
            ColorView::Multi(d) => stale_count(d, now),
        },
{
    let q0 = when_stale(b.name, now);
    let q1 = when_stale(b.model, now);
    let q2 = when_stale(b.location, now);
    let q3 = when_stale(b.host_firmware, now);
    let q4 = when_stale(b.wifi_firmware, now);
    let q5 = when_stale(b.power_level, now);
    let q6 = when_stale(b.group, now);
    let q7 = match b.color {
        ColorView::Unknown => Seq::<Query>::empty(),
        ColorView::Single(d) => when_stale(d, now),
        ColorView::Multi(d) => when_stale(d, now),
    };
    let all = spec_queries(b, now);
    assert(all == q0 + q1 + q2 + q3 + q4 + q5 + q6 + q7);
    let o1: int = q0.len() as int;
    let o2: int = o1 + q1.len();
    let o3: int = o2 + q2.len();
    let o4: int = o3 + q3.len();
    let o5: int = o4 + q4.len();
    let o6: int = o5 + q5.len();
    let o7: int = o6 + q6.len();
    if q0.len() == 1 { assert(all[0] == q0[0]); }
    if q1.len() == 1 { assert(all[o1] == q1[0]); }
    if q2.len() == 1 { assert(all[o2] == q2[0]); }
    if q3.len() == 1 { assert(all[o3] == q3[0]); }
    if q4.len() == 1 { assert(all[o4] == q4[0]); }
    if q5.len() == 1 { assert(all[o5] == q5[0]); }
    if q6.len() == 1 { assert(all[o6] == q6[0]); }
    if q7.len() == 1 { assert(all[o7] == q7[0]); }
}

/// A `Version` message whose model the product table knows stores that
/// entry and gives the bulb a fresh, empty color record decided by the
/// entry's multizone capability alone: a multizone device gets a zone
/// record queried by `GetColorZones` over zones 0 to 255, any other device
/// a single-color record queried by `LightGet`; both stay fresh for 15 s.
/// A model the table does not know leaves the product and color as they were.
pub proof fn lemma_version_sets_color_record(
    b: BulbView,
    vendor: u32,
    p: u32,
    now: u64,
    product: Option<ProductView>,
)
    ensures
        ({
            let after = spec_apply(b, MessageView::Version { vendor, product: p }, now, product);
            &&& after.model.data == Some((vendor, p))
            &&& match product {
                Some(info) => {
                    &&& after.product == Some(info)
                    &&& !info.capabilities.has_multizone ==> after.color == ColorView::Single(
                        RefreshView {
                            data: None,
                            max_age: 15_000_000_000,
                            last_updated: now,
                            refresh_msg: Query::Light,
                        },
                    )
                    &&& info.capabilities.has_multizone ==> after.color == ColorView::Multi(
                        RefreshView {
                            data: None,
                            max_age: 15_000_000_000,
                            last_updated: now,
                            refresh_msg: Query::ColorZones { start_index: 0, end_index: 255 },
                        },
                    )
                },
                None => after.product == b.product && after.color == b.color,
            }
        }),
{
}

/// After a bulb reports its label, the label shown is that label, and the
/// label record holds it, fresh.
pub proof fn lemma_label_reported(b: BulbView, l: Seq<char>, now: u64, product: Option<ProductView>)
    ensures
        ({
            let after = spec_apply(b, MessageView::Label(l), now, product);
            &&& after.label == l
            &&& after.name.data == Some(l)
            &&& !spec_needs_refresh(after.name, now)
        }),
{
}

/// After a bulb reports its power level, the power shown is `on` exactly
/// when the level is `Enabled`, and `off` otherwise.
pub proof fn lemma_power_reported(b: BulbView, level: PowerLevel, now: u64, product: Option<ProductView>)
    ensures
        ({
            let after = spec_apply(b, MessageView::Power(level), now, product);
            &&& after.power == (if level == PowerLevel::Enabled {
                chars_on()
            } else {
                chars_off()
            })
            &&& after.power_level.data == Some(level)
            &&& !spec_needs_refresh(after.power_level, now)
        }),
{
}

/// A zone report on a multizone bulb sets that zone to the reported color
/// and leaves the number of zones and every other zone as they were.
pub proof fn lemma_zone_reported(
    b: BulbView,
    count: u8,
    index: u8,
    color: Hsbk,
    now: u64,
    product: Option<ProductView>,
)
    requires
        b.color is Multi,
        message_fits(b, MessageView::Zone { count, index, color }),
    ensures
        ({
            let before = zones_or_new(b.color->Multi_0.data, count);
            let after = spec_apply(b, MessageView::Zone { count, index, color }, now, product);
            &&& after.color is Multi
            &&& after.color->Multi_0.data matches Some(zones) && zones.len() == before.len()
                && zones[index as int] == Some(color) && forall|i: int|
                0 <= i < zones.len() && i != index ==> zones[i] == before[i]
        }),
{
}

/// A light state report on a single-color bulb shows the reported color
/// and keeps its brightness.
pub proof fn lemma_light_state_reported(
    b: BulbView,
    color: Hsbk,
    power: PowerLevel,
    label: Seq<char>,
    now: u64,
    product: Option<ProductView>,
)
    requires
        b.color is Single,
    ensures
        ({
            let after = spec_apply(b, MessageView::LightState { color, power, label }, now, product);
            &&& after.lifx_color == Some(color.spec_lifx_color())
            &&& after.brightness == color.brightness
            &&& after.power_level.data == Some(power)
            &&& after.name.data == Some(label)
        }),
{
}

fn vec_of_unknown_zones(count: u8) -> (v: Vec<Option<Hsbk>>)
    ensures
        v@ == Seq::new(count as nat, |i: int| None::<Hsbk>),
{
    let mut v: Vec<Option<Hsbk>> = Vec::new();
    let mut i: u8 = 0;
    while i < count
        invariant
            i <= count,
            v@ == Seq::new(i as nat, |k: int| None::<Hsbk>),
        decreases count - i,
    {
        v.push(None);
        i = i + 1;
        assert(v@ =~= Seq::new(i as nat, |k: int| None::<Hsbk>));
    }
    v
}

impl BulbInfo {
    /// A bulb first heard from at `now`, with the given identifiers.
    pub fn with_ids(id: String, uuid: String, source: u32, target: u64, addr: PeerAddr, now: u64) -> (r:
        BulbInfo)
        ensures
            r@ == spec_fresh(id@, uuid@, source, target, (addr.ip@, addr.port), now),
    {
        BulbInfo {
            id,
            uuid,
            label: String::new(),
            connected: true,
            power: string_from_chars(&['o', 'f', 'f']),
            lifx_color: None,
            brightness: 0,
            lifx_group: None,
            lifx_location: None,
            product: None,
            lifx_last_seen: String::new(),
            seconds_since_seen: 0,
            last_seen: now,
            source,
            target,
            addr,
            group: RefreshableData::empty(HOUR, Query::Group, now),
            name: RefreshableData::empty(HOUR, Query::Label, now),
            model: RefreshableData::empty(HOUR, Query::Version, now),
            location: RefreshableData::empty(HOUR, Query::Location, now),
            host_firmware: RefreshableData::empty(HOUR, Query::HostFirmware, now),
            wifi_firmware: RefreshableData::empty(HOUR, Query::WifiFirmware, now),
            power_level: RefreshableData::empty(POWER_MAX_AGE, Query::Power, now),
            color: LiColor::Unknown,
        }
    }

    /// A bulb first heard from at `now`, given a random 12-character id and
    /// a random 30-character uuid.
    pub fn new(source: u32, target: u64, addr: PeerAddr, now: u64) -> (r: BulbInfo)
        ensures
            r@ == spec_fresh(r.id@, r.uuid@, source, target, (addr.ip@, addr.port), now),
            r.id@.len() == 12,
            r.uuid@.len() == 30,
            forall|i: int| 0 <= i < 12 ==> is_alphanumeric(#[trigger] r.id@[i]),
            forall|i: int| 0 <= i < 30 ==> is_alphanumeric(#[trigger] r.uuid@[i]),
    {
        let id = random_alphanumeric(12);
        let uuid = random_alphanumeric(30);
        BulbInfo::with_ids(id, uuid, source, target, addr, now)
    }

    /// The bulb was heard from again, at `now`, from `addr`.
    pub fn update(&mut self, addr: PeerAddr, now: u64)
        ensures
            final(self)@ == (BulbView { last_seen: now, addr: (addr.ip@, addr.port), ..old(self)@ }),
    {
        self.last_seen = now;
        self.addr = addr;
    }

    /// Applies a message the bulb sent at `now`, given the product table's
    /// entry for the model a `Version` message names.
    pub fn apply_message_with(&mut self, msg: LanMessage, now: u64, product: Option<Product>)
        requires
            message_fits(old(self)@, msg@),
            crate::lan::message_shape(msg@),
        ensures
            final(self)@ == spec_apply(old(self)@, msg@, now, opt_product_view(product)),
    {
        match msg {
            LanMessage::Label(l) => {
                let shown = l.clone();
                self.name.update(l, now);
                self.label = shown;
            },
            LanMessage::Location { ident, label } => {
                let shown = label.clone();
                self.location.update(label, now);
                self.lifx_location = Some(
                    LifxLocation { id: ident_digits_string(ident.as_slice()), name: shown },
                );
            },
            LanMessage::Version { vendor, product: p } => {
                self.model.update((vendor, p), now);
                if let Some(info) = product {
                    let multizone = info.capabilities.has_multizone;
                    self.product = Some(info);
                    if multizone {
                        self.color = LiColor::Multi(
                            RefreshableData::empty(
                                COLOR_MAX_AGE,
                                Query::ColorZones { start_index: 0, end_index: 255 },
                                now,
                            ),
                        );
                    } else {
                        self.color = LiColor::Single(
                            RefreshableData::empty(COLOR_MAX_AGE, Query::Light, now),
                        );
                    }
                }
            },
            LanMessage::Power(level) => {
                self.power_level.update(level, now);
                if level == PowerLevel::Enabled {
                    self.power = string_from_chars(&['o', 'n']);
                } else {
                    self.power = string_from_chars(&['o', 'f', 'f']);
                }
            },
            LanMessage::Group { ident, label } => {
                let shown = label.clone();
                let debug_id = ident_debug_string(ident.as_slice());
                self.group.update(LifxGroup { id: debug_id, name: label }, now);
                self.lifx_group = Some(
                    LifxGroup { id: ident_digits_string(ident.as_slice()), name: shown },
                );
            },
            LanMessage::HostFirmware(v) => {
                self.host_firmware.update(v, now);
            },
            LanMessage::WifiFirmware(v) => {
                self.wifi_firmware.update(v, now);
            },
            LanMessage::LightState { color, power, label } => {
                if let LiColor::Single(d) = &mut self.color {
                    d.update(color, now);
                    self.lifx_color = Some(color.to_lifx_color());
                    self.brightness = color.brightness;
                    self.power_level.update(power, now);
                }
                self.name.update(label, now);
            },
            LanMessage::Zone { count, index, color } => {
                if let LiColor::Multi(d) = &mut self.color {
                    let mut zones = match d.data.take() {
                        Some(v) => v,
                        None => vec_of_unknown_zones(count),
                    };
                    zones.set(index as usize, Some(color));
                    d.data = Some(zones);
                }
            },
            LanMessage::MultiZone { count, index, colors } => {
                if let LiColor::Multi(d) = &mut self.color {
                    let mut zones = match d.data.take() {
                        Some(v) => v,
                        None => vec_of_unknown_zones(count),
                    };
                    let ghost before = zones@;
                    let mut k: usize = 0;
                    while k < 8
                        invariant
                            colors@.len() == 8,
                            index + 7 < before.len(),
                            zones@.len() == before.len(),
                            k <= 8,
                            forall|i: int|
                                0 <= i < zones@.len() ==> #[trigger] zones@[i] == if index <= i
                                    < index + k {
                                    Some(colors@[i - index])
                                } else {
                                    before[i]
                                },
                        decreases 8 - k,
                    {
                        zones.set(index as usize + k, Some(colors[k]));
                        k = k + 1;
                    }
                    assert(zones@ =~= write_zones(before, index, colors@));
                    d.data = Some(zones);
                }
            },
            LanMessage::Undecodable(_) => {},
            LanMessage::Other => {},
        }
    }

    /// Applies a message the bulb sent at `now`, looking up a `Version`
    /// message's model in lifx-rs's product table.
    pub fn apply_message(&mut self, msg: LanMessage, now: u64)
        requires
            message_fits(old(self)@, msg@),
            crate::lan::message_shape(msg@),
        ensures
            final(self)@ == spec_apply(old(self)@, msg@, now, product_answer(msg@)),
    {
        let product = match &msg {
            LanMessage::Version { vendor, product } => lookup_product(*vendor, *product),
            _ => None,
        };
        self.apply_message_with(msg, now, product);
    }

    /// The queries this bulb needs answered at `now`.
    pub fn missing_info(&self, now: u64) -> (r: Vec<Query>)
        ensures
            r@ == spec_queries(self@, now),
    {
        let mut r: Vec<Query> = Vec::new();
        push_when_stale(&self.name, now, &mut r);
        push_when_stale(&self.model, now, &mut r);
        push_when_stale(&self.location, now, &mut r);
        push_when_stale(&self.host_firmware, now, &mut r);
        push_when_stale(&self.wifi_firmware, now, &mut r);
        push_when_stale(&self.power_level, now, &mut r);
        push_when_stale(&self.group, now, &mut r);
        match &self.color {
            LiColor::Unknown => {},
            LiColor::Single(d) => push_when_stale(d, now, &mut r),
            LiColor::Multi(d) => push_when_stale(d, now, &mut r),
        }
        assert(r@ =~= spec_queries(self@, now));
        r
    }

    /// The datagram that queries this bulb for the record `data`, if the
    /// record needs refreshing at `now`.
    pub fn refresh_if_needed<T: View>(&self, data: &RefreshableData<T>, now: u64) -> (r: Option<
        Vec<u8>,
    >)
        ensures
            match r {
                Some(p) => spec_needs_refresh(data@, now) && p@ == query_datagram(
                    Some(self.target),
                    self.source,
                    true,
                    data.refresh_msg,
                ),
                None => !spec_needs_refresh(data@, now),
            },
    {
        if data.needs_refresh(now) {
            Some(query_packet(Some(self.target), self.source, true, data.refresh_msg))
        } else {
            None
        }
    }

    /// The datagrams that query this bulb for what it needs answered at
    /// `now`, each addressed to the bulb with a response required, in the
    /// order of [`spec_queries`].
    pub fn query_for_missing_info(&self, now: u64) -> (r: Vec<Vec<u8>>)
        ensures
            r@.map_values(|p: Vec<u8>| p@) == query_datagrams(
                Some(self.target),
                self.source,
                true,
                spec_queries(self@, now),
            ),
    {
        let queries = self.missing_info(now);
        let mut packets: Vec<Vec<u8>> = Vec::new();
        let mut j: usize = 0;
        while j < queries.len()
            invariant
                j <= queries@.len(),
                queries@ == spec_queries(self@, now),
                packets@.len() == j,
                forall|k: int|
                    0 <= k < j ==> (#[trigger] packets@[k])@ == query_datagram(
                        Some(self.target),
                        self.source,
                        true,
                        queries@[k],
                    ),
            decreases queries.len() - j,
        {
            let p = query_packet(Some(self.target), self.source, true, queries[j]);
            packets.push(p);
            j = j + 1;
        }
        assert(packets@.map_values(|p: Vec<u8>| p@) =~= query_datagrams(
            Some(self.target),
            self.source,
            true,
            queries@,
        ));
        packets
    }

    /// The datagram that sets this bulb's power level.
    pub fn set_power(&self, level: PowerLevel) -> (r: Vec<u8>)
        ensures
            r@ == setting_datagram(self.target, self.source, true, Setting::Power(level)),
    {
        setting_packet(self.target, self.source, true, Setting::Power(level))
    }

    /// The datagram that sets this bulb's infrared brightness.
    pub fn set_infrared(&self, brightness: u16) -> (r: Vec<u8>)
        ensures
            r@ == setting_datagram(self.target, self.source, true, Setting::Infrared(brightness)),
    {
        setting_packet(self.target, self.source, true, Setting::Infrared(brightness))
    }

    /// The datagram that sets this bulb's color over `duration` milliseconds.
    pub fn set_color(&self, color: Hsbk, duration: u32) -> (r: Vec<u8>)
        ensures
            r@ == setting_datagram(self.target, self.source, true, Setting::Color(color, duration)),
    {
        setting_packet(self.target, self.source, true, Setting::Color(color, duration))
    }
}

} // verus!
