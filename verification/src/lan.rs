//! The LIFX LAN protocol as this server uses it: the messages it sends,
//! built and packed by `lifx-rs`, and the messages it reads from bulbs,
//! unpacked and decoded by `lifx-rs`.
use vstd::prelude::*;

use lifx_rs::lan::{BuildOptions, Message, RawMessage, HSBK};

use crate::color::Hsbk;
use crate::text::opt_string_view;

verus! {

/// Declares `lifx_rs::lan::Error`, the encoding and decoding error of lifx-rs.
#[verifier::external_type_specification]
#[verifier::external_body]
pub struct ExLanError(lifx_rs::lan::Error);

/// Why lifx-rs could not read a datagram, as its `Error` says: a message
/// type it does not know, a field it rejects (with its explanation), or a
/// datagram too short for what it reads.
#[derive(Debug)]
pub enum DecodeError {
    UnknownMessageType(u16),
    Protocol(String),
    Io,
}

pub enum DecodeErrorView {
    UnknownMessageType(u16),
    Protocol(Seq<char>),
    Io,
}

impl View for DecodeError {
    type V = DecodeErrorView;

    open spec fn view(&self) -> DecodeErrorView {
        match self {
            DecodeError::UnknownMessageType(t) => DecodeErrorView::UnknownMessageType(*t),
            DecodeError::Protocol(s) => DecodeErrorView::Protocol(s@),
            DecodeError::Io => DecodeErrorView::Io,
        }
    }
}

/// A bulb's power level.
#[derive(Clone, Copy, Debug, PartialEq, Eq, Structural)]
pub enum PowerLevel {
    Standby,
    Enabled,
}

/// The messages that ask a bulb (or, for `Service`, every bulb) to report.
#[derive(Clone, Copy, Debug, PartialEq, Eq, Structural)]
pub enum Query {
    Service,
    Label,
    Version,
    Location,
    HostFirmware,
    WifiFirmware,
    Power,
    Group,
    Light,
    ColorZones { start_index: u8, end_index: u8 },
}

/// The messages that change a bulb.
#[derive(Clone, Copy, Debug, PartialEq, Eq, Structural)]
pub enum Setting {
    Power(PowerLevel),
    Infrared(u16),
    Color(Hsbk, u32),
}

// ---------------------------------------------------------------------------
// Writing datagrams
// ---------------------------------------------------------------------------

/// `v` as `n` bytes, least significant first.
pub open spec fn le_bytes(v: int, n: nat) -> Seq<u8>
    decreases n,
{
    if n == 0 {
        Seq::empty()
    } else {
        seq![(v % 256) as u8] + le_bytes(v / 256, (n - 1) as nat)
    }
}

pub open spec fn zeros(n: nat) -> Seq<u8> {
    Seq::new(n, |i: int| 0u8)
}

/// A datagram of message type `typ` with `payload`, laid out as the LIFX
/// LAN protocol has it and lifx-rs packs it. The frame: the size (36 bytes
/// of header and the payload), then protocol 1024 with the addressable bit,
/// and the tagged bit when no target is given, then the source. The frame
/// address: the target (0 for none), six reserved bytes, the flags byte
/// (response required as bit 0; no acknowledgement), sequence 0. The
/// protocol header: eight reserved bytes, the type, two reserved bytes.
pub open spec fn datagram(
    target: Option<u64>,
    source: u32,
    res_required: bool,
    typ: u16,
    payload: Seq<u8>,
) -> Seq<u8> {
    le_bytes((36 + payload.len()) as int, 2) + le_bytes(
        if target is Some {
            0x1400
        } else {
            0x3400
        },
        2,
    ) + le_bytes(source as int, 4) + le_bytes(
        match target {
            Some(t) => t as int,
            None => 0,
        },
        8,
    ) + zeros(6) + seq![
        if res_required {
            1u8
        } else {
            0u8
        },
        0u8,
    ] + zeros(8) + le_bytes(typ as int, 2) + zeros(2) + payload
}

/// The message type of a query: `GetService` 2, `GetLabel` 23,
/// `GetVersion` 32, `GetLocation` 48, `GetHostFirmware` 14,
/// `GetWifiFirmware` 18, `GetPower` 20, `GetGroup` 51, `LightGet` 101,
/// `GetColorZones` 502.
pub open spec fn query_type(q: Query) -> u16 {
    match q {
        Query::Service => 2,
        Query::Label => 23,
        Query::Version => 32,
        Query::Location => 48,
        Query::HostFirmware => 14,
        Query::WifiFirmware => 18,
        Query::Power => 20,
        Query::Group => 51,
        Query::Light => 101,
        Query::ColorZones { .. } => 502,
    }
}

/// A query's payload: the two zone indexes of `GetColorZones`, else none.
pub open spec fn query_payload(q: Query) -> Seq<u8> {
    match q {
        Query::ColorZones { start_index, end_index } => seq![start_index, end_index],
        _ => Seq::empty(),
    }
}

/// The message type of a setting: `SetPower` 21, `LightSetInfrared` 122,
/// `LightSetColor` 102.
pub open spec fn setting_type(s: Setting) -> u16 {
    match s {
        Setting::Power(_) => 21,
        Setting::Infrared(_) => 122,
        Setting::Color(..) => 102,
    }
}

/// A setting's payload: the power level (0 or 65535) or the infrared
/// brightness as two bytes; for a color, a reserved zero byte, hue,
/// saturation, brightness and kelvin as two bytes each, and the duration
/// as four.
pub open spec fn setting_payload(s: Setting) -> Seq<u8> {
    match s {
        Setting::Power(level) => le_bytes(
            if level == PowerLevel::Enabled {
                65535
            } else {
                0
            },
            2,
        ),
        Setting::Infrared(b) => le_bytes(b as int, 2),
        Setting::Color(c, duration) => seq![0u8] + le_bytes(c.hue as int, 2) + le_bytes(
            c.saturation as int,
            2,
        ) + le_bytes(c.brightness as int, 2) + le_bytes(c.kelvin as int, 2) + le_bytes(
            duration as int,
            4,
        ),
    }
}

pub open spec fn query_datagram(target: Option<u64>, source: u32, res_required: bool, q: Query) -> Seq<u8> {
    datagram(target, source, res_required, query_type(q), query_payload(q))
}

pub open spec fn setting_datagram(target: u64, source: u32, res_required: bool, s: Setting) -> Seq<u8> {
    datagram(Some(target), source, res_required, setting_type(s), setting_payload(s))
}

/// The datagrams of the queries `qs`, in order.
pub open spec fn query_datagrams(
    target: Option<u64>,
    source: u32,
    res_required: bool,
    qs: Seq<Query>,
) -> Seq<Seq<u8>> {
    qs.map_values(|q: Query| query_datagram(target, source, res_required, q))
}

/// `lifx_rs::lan::RawMessage::build` followed by `RawMessage::pack` on the
/// `Get…` message that `query` names (`GetColorZones` with its indexes).
/// Claimed: both succeed (they only write into a `Vec`), and the bytes are
/// [`query_datagram`].
#[verifier::external_body]
fn pack_query(target: Option<u64>, source: u32, res_required: bool, query: Query) -> (r: Result<
    Vec<u8>,
    lifx_rs::lan::Error,
>)
    ensures
        match r {
            Ok(bytes) => bytes@ == query_datagram(target, source, res_required, query),
            Err(_) => false,
        },
{
    let message = match query {
        Query::Service => Message::GetService,
        Query::Label => Message::GetLabel,
        Query::Version => Message::GetVersion,
        Query::Location => Message::GetLocation,
        Query::HostFirmware => Message::GetHostFirmware,
        Query::WifiFirmware => Message::GetWifiFirmware,
        Query::Power => Message::GetPower,
        Query::Group => Message::GetGroup,
        Query::Light => Message::LightGet,
        Query::ColorZones { start_index, end_index } => Message::GetColorZones { start_index, end_index },
    };
    let options = BuildOptions { target, res_required, source, ..BuildOptions::default() };
    RawMessage::build(&options, message)?.pack()
}

/// `lifx_rs::lan::RawMessage::build` followed by `RawMessage::pack` on
/// `SetPower`, `LightSetInfrared` or `LightSetColor` (reserved field zero).
/// Claimed: both succeed, and the bytes are [`setting_datagram`].
#[verifier::external_body]
fn pack_setting(target: u64, source: u32, res_required: bool, setting: Setting) -> (r: Result<
    Vec<u8>,
    lifx_rs::lan::Error,
>)
    ensures
        match r {
            Ok(bytes) => bytes@ == setting_datagram(target, source, res_required, setting),
            Err(_) => false,
        },
{
    let message = match setting {
        Setting::Power(PowerLevel::Standby) => Message::SetPower { level: lifx_rs::lan::PowerLevel::Standby },
        Setting::Power(PowerLevel::Enabled) => Message::SetPower { level: lifx_rs::lan::PowerLevel::Enabled },
        Setting::Infrared(brightness) => Message::LightSetInfrared { brightness },
        Setting::Color(c, duration) => Message::LightSetColor {
            reserved: 0,
            color: HSBK { hue: c.hue, saturation: c.saturation, brightness: c.brightness, kelvin: c.kelvin },
            duration,
        },
    };
    let options = BuildOptions { target: Some(target), res_required, source, ..BuildOptions::default() };
    RawMessage::build(&options, message)?.pack()
}

/// Builds the datagram of a query.
pub fn query_packet(target: Option<u64>, source: u32, res_required: bool, query: Query) -> (r: Vec<u8>)
    ensures
        r@ == query_datagram(target, source, res_required, query),
{
    match pack_query(target, source, res_required, query) {
        Ok(bytes) => bytes,
        Err(_) => Vec::new(),
    }
}

/// Builds the datagram of a setting.
pub fn setting_packet(target: u64, source: u32, res_required: bool, setting: Setting) -> (r: Vec<u8>)
    ensures
        r@ == setting_datagram(target, source, res_required, setting),
{
    match pack_setting(target, source, res_required, setting) {
        Ok(bytes) => bytes,
        Err(_) => Vec::new(),
    }
}

// ---------------------------------------------------------------------------
// Reading datagrams
// ---------------------------------------------------------------------------

pub open spec fn le16(b: Seq<u8>, i: int) -> int {
    b[i] + 256 * b[i + 1]
}

/// `RawMessage::unpack` of lifx-rs panics on these datagrams: the frame
/// header reads (at least 8 bytes, protocol number 1024) but its
/// `addressable` bit is clear, or the whole header reads (at least 36 bytes)
/// but the size field is below 36 or beyond the datagram.
pub open spec fn unpack_panics(b: Seq<u8>) -> bool {
    &&& b.len() >= 8
    &&& le16(b, 2) % 4096 == 1024
    &&& ((le16(b, 2) / 4096) % 2 == 0 || (b.len() >= 36 && (le16(b, 0) < 36 || le16(b, 0)
        > b.len())))
}

/// Whether lifx-rs would panic unpacking `b`.
pub fn unpack_would_panic(b: &[u8]) -> (r: bool)
    ensures
        r == unpack_panics(b@),
{
    if b.len() < 8 {
        return false;
    }
    let flags: u32 = b[2] as u32 + 256 * (b[3] as u32);
    let size: u32 = b[0] as u32 + 256 * (b[1] as u32);
    if flags % 4096 != 1024 {
        return false;
    }
    if (flags / 4096) % 2 == 0 {
        return true;
    }
    b.len() >= 36 && (size < 36 || size as usize > b.len())
}

/// What `RawMessage::unpack` makes of a datagram: the target of its frame
/// address, or why it could not unpack it.
pub uninterp spec fn datagram_target(bytes: Seq<u8>) -> Result<u64, DecodeErrorView>;

/// Why `Message::from_raw` rejects a datagram that unpacks; `None` where it
/// reads it (or the datagram does not unpack).
pub uninterp spec fn datagram_decode_error(bytes: Seq<u8>) -> Option<DecodeErrorView>;

/// A `StateLabel` message's label.
pub uninterp spec fn datagram_label(bytes: Seq<u8>) -> Option<Seq<char>>;

/// A `StateLocation` message's location identifier and label.
pub uninterp spec fn datagram_location(bytes: Seq<u8>) -> Option<(Seq<u8>, Seq<char>)>;

/// A `StateVersion` message's vendor and product.
pub uninterp spec fn datagram_version(bytes: Seq<u8>) -> Option<(u32, u32)>;

/// A `StatePower` message's level.
pub uninterp spec fn datagram_power(bytes: Seq<u8>) -> Option<PowerLevel>;

/// A `StateGroup` message's group identifier and label.
pub uninterp spec fn datagram_group(bytes: Seq<u8>) -> Option<(Seq<u8>, Seq<char>)>;

/// A `StateHostFirmware` message's version.
pub uninterp spec fn datagram_host_firmware(bytes: Seq<u8>) -> Option<u32>;

/// A `StateWifiFirmware` message's version.
pub uninterp spec fn datagram_wifi_firmware(bytes: Seq<u8>) -> Option<u32>;

/// A `LightState` message's color, power level and label.
pub uninterp spec fn datagram_light_state(bytes: Seq<u8>) -> Option<(Hsbk, PowerLevel, Seq<char>)>;

/// A `StateZone` message's zone count, index and color.
pub uninterp spec fn datagram_zone(bytes: Seq<u8>) -> Option<(u8, u8, Hsbk)>;

/// A `StateMultiZone` message's zone count, first index and eight colors.
pub uninterp spec fn datagram_multizone(bytes: Seq<u8>) -> Option<(u8, u8, Seq<Hsbk>)>;

pub open spec fn target_view(r: Result<u64, DecodeError>) -> Result<u64, DecodeErrorView> {
    match r {
        Ok(t) => Ok(t),
        Err(e) => Err(e@),
    }
}

pub open spec fn opt_error_view(r: Option<DecodeError>) -> Option<DecodeErrorView> {
    match r {
        Some(e) => Some(e@),
        None => None,
    }
}

/// `RawMessage::unpack`, then the frame address's `target`; an error of
/// lifx-rs becomes a [`DecodeError`] of the same kind. Claimed: the result
/// depends on the bytes alone.
#[verifier::external_body]
pub(crate) fn read_target(bytes: &[u8]) -> (r: Result<u64, DecodeError>)
    requires
        !unpack_panics(bytes@),
    ensures
        target_view(r) == datagram_target(bytes@),
{
    match RawMessage::unpack(bytes) {
        Ok(raw) => Ok(raw.frame_addr.target),
        Err(lifx_rs::lan::Error::UnknownMessageType(t)) => Err(DecodeError::UnknownMessageType(t)),
        Err(lifx_rs::lan::Error::ProtocolError(s)) => Err(DecodeError::Protocol(s)),
        Err(lifx_rs::lan::Error::Io(_)) => Err(DecodeError::Io),
    }
}

/// `RawMessage::unpack` and `Message::from_raw`: the error `from_raw`
/// returns, as a [`DecodeError`] of the same kind; `None` where it reads
/// the message or the datagram does not unpack. Claimed: the result
/// depends on the bytes alone.
#[verifier::external_body]
fn read_decode_error(bytes: &[u8]) -> (r: Option<DecodeError>)
    requires
        !unpack_panics(bytes@),
    ensures
        opt_error_view(r) == datagram_decode_error(bytes@),
{
    let raw = RawMessage::unpack(bytes).ok()?;
    match Message::from_raw(&raw) {
        Ok(_) => None,
        Err(lifx_rs::lan::Error::UnknownMessageType(t)) => Some(DecodeError::UnknownMessageType(t)),
        Err(lifx_rs::lan::Error::ProtocolError(s)) => Some(DecodeError::Protocol(s)),
        Err(lifx_rs::lan::Error::Io(_)) => Some(DecodeError::Io),
    }
}

/// `RawMessage::unpack` and `Message::from_raw`; the label of a
/// `StateLabel`. Claimed: the result depends on the bytes alone.
#[verifier::external_body]
fn read_label(bytes: &[u8]) -> (r: Option<String>)
    requires
        !unpack_panics(bytes@),
    ensures
        opt_string_view(r) == datagram_label(bytes@),
{
    let raw = RawMessage::unpack(bytes).ok()?;
    match Message::from_raw(&raw) {
        Ok(Message::StateLabel { label }) => Some(label.0),
        _ => None,
    }
}

/// As [`read_label`], for `StateLocation`: its location bytes and label.
#[verifier::external_body]
fn read_location(bytes: &[u8]) -> (r: Option<(Vec<u8>, String)>)
    requires
        !unpack_panics(bytes@),
    ensures
        match r {
            Some(t) => datagram_location(bytes@) == Some((t.0@, t.1@)),
            None => datagram_location(bytes@) is None,
        },
{
    let raw = RawMessage::unpack(bytes).ok()?;
    match Message::from_raw(&raw) {
        Ok(Message::StateLocation { location, label, .. }) => Some((location.0.to_vec(), label.0)),
        _ => None,
    }
}

/// As [`read_label`], for `StateVersion`: vendor and product.
#[verifier::external_body]
fn read_version(bytes: &[u8]) -> (r: Option<(u32, u32)>)
    requires
        !unpack_panics(bytes@),
    ensures
        r == datagram_version(bytes@),
{
    let raw = RawMessage::unpack(bytes).ok()?;
    match Message::from_raw(&raw) {
        Ok(Message::StateVersion { vendor, product, .. }) => Some((vendor, product)),
        _ => None,
    }
}

/// As [`read_label`], for `StatePower`: the level.
#[verifier::external_body]
fn read_power(bytes: &[u8]) -> (r: Option<PowerLevel>)
    requires
        !unpack_panics(bytes@),
    ensures
        r == datagram_power(bytes@),
{
    let raw = RawMessage::unpack(bytes).ok()?;
    match Message::from_raw(&raw) {
        Ok(Message::StatePower { level: lifx_rs::lan::PowerLevel::Standby }) => Some(PowerLevel::Standby),
        Ok(Message::StatePower { level: lifx_rs::lan::PowerLevel::Enabled }) => Some(PowerLevel::Enabled),
        _ => None,
    }
}

/// As [`read_label`], for `StateGroup`: its group bytes and label.
#[verifier::external_body]
fn read_group(bytes: &[u8]) -> (r: Option<(Vec<u8>, String)>)
    requires
        !unpack_panics(bytes@),
    ensures
        match r {
            Some(t) => datagram_group(bytes@) == Some((t.0@, t.1@)),
            None => datagram_group(bytes@) is None,
        },
{
    let raw = RawMessage::unpack(bytes).ok()?;
    match Message::from_raw(&raw) {
        Ok(Message::StateGroup { group, label, .. }) => Some((group.0.to_vec(), label.0)),
        _ => None,
    }
}

/// As [`read_label`], for `StateHostFirmware`: the version.
#[verifier::external_body]
fn read_host_firmware(bytes: &[u8]) -> (r: Option<u32>)
    requires
        !unpack_panics(bytes@),
    ensures
        r == datagram_host_firmware(bytes@),
{
    let raw = RawMessage::unpack(bytes).ok()?;
    match Message::from_raw(&raw) {
        Ok(Message::StateHostFirmware { version, .. }) => Some(version),
        _ => None,
    }
}

/// As [`read_label`], for `StateWifiFirmware`: the version.
#[verifier::external_body]
fn read_wifi_firmware(bytes: &[u8]) -> (r: Option<u32>)
    requires
        !unpack_panics(bytes@),
    ensures
        r == datagram_wifi_firmware(bytes@),
{
    let raw = RawMessage::unpack(bytes).ok()?;
    match Message::from_raw(&raw) {
        Ok(Message::StateWifiFirmware { version, .. }) => Some(version),
        _ => None,
    }
}

/// As [`read_label`], for `LightState`: color, power level and label.
#[verifier::external_body]
fn read_light_state(bytes: &[u8]) -> (r: Option<(Hsbk, PowerLevel, String)>)
    requires
        !unpack_panics(bytes@),
    ensures
        match r {
            Some(t) => datagram_light_state(bytes@) == Some((t.0, t.1, t.2@)),
            None => datagram_light_state(bytes@) is None,
        },
{
    let raw = RawMessage::unpack(bytes).ok()?;
    let (c, level, label) = match Message::from_raw(&raw) {
        Ok(Message::LightState { color, power, label, .. }) => (color, power, label.0),
        _ => return None,
    };
    let color = Hsbk { hue: c.hue, saturation: c.saturation, brightness: c.brightness, kelvin: c.kelvin };
    match level {
        lifx_rs::lan::PowerLevel::Standby => Some((color, PowerLevel::Standby, label)),
        lifx_rs::lan::PowerLevel::Enabled => Some((color, PowerLevel::Enabled, label)),
    }
}

/// As [`read_label`], for `StateZone`: count, index and color.
#[verifier::external_body]
fn read_zone(bytes: &[u8]) -> (r: Option<(u8, u8, Hsbk)>)
    requires
        !unpack_panics(bytes@),
    ensures
        r == datagram_zone(bytes@),
{
    let raw = RawMessage::unpack(bytes).ok()?;
    match Message::from_raw(&raw) {
        Ok(Message::StateZone { count, index, color: c }) => Some(
            (count, index, Hsbk { hue: c.hue, saturation: c.saturation, brightness: c.brightness, kelvin: c.kelvin }),
        ),
        _ => None,
    }
}

/// As [`read_label`], for `StateMultiZone`: count, first index and the
/// eight colors in order.
#[verifier::external_body]
fn read_multizone(bytes: &[u8]) -> (r: Option<(u8, u8, Vec<Hsbk>)>)
    requires
        !unpack_panics(bytes@),
    ensures
        match r {
            Some(t) => datagram_multizone(bytes@) == Some((t.0, t.1, t.2@)) && t.2@.len() == 8,
            None => datagram_multizone(bytes@) is None,
        },
{
    let raw = RawMessage::unpack(bytes).ok()?;
    match Message::from_raw(&raw) {
        Ok(Message::StateMultiZone { count, index, color0, color1, color2, color3, color4, color5, color6, color7 }) => {
            let colors = [color0, color1, color2, color3, color4, color5, color6, color7];
            Some((count, index, colors.iter().map(|c| Hsbk::new(c.hue, c.saturation, c.brightness, c.kelvin)).collect()))
        },
        _ => None,
    }
}

/// A message from a bulb, as far as this server reads it.
pub enum LanMessage {
    Label(String),
    Location { ident: Vec<u8>, label: String },
    Version { vendor: u32, product: u32 },
    Power(PowerLevel),
    Group { ident: Vec<u8>, label: String },
    HostFirmware(u32),
    WifiFirmware(u32),
    LightState { color: Hsbk, power: PowerLevel, label: String },
    Zone { count: u8, index: u8, color: Hsbk },
    MultiZone { count: u8, index: u8, colors: Vec<Hsbk> },
    Undecodable(DecodeError),
    Other,
}

/// The abstract content of a [`LanMessage`].
pub enum MessageView {
    Label(Seq<char>),
    Location { ident: Seq<u8>, label: Seq<char> },
    Version { vendor: u32, product: u32 },
    Power(PowerLevel),
    Group { ident: Seq<u8>, label: Seq<char> },
    HostFirmware(u32),
    WifiFirmware(u32),
    LightState { color: Hsbk, power: PowerLevel, label: Seq<char> },
    Zone { count: u8, index: u8, color: Hsbk },
    MultiZone { count: u8, index: u8, colors: Seq<Hsbk> },
    Undecodable(DecodeErrorView),
    Other,
}

impl View for LanMessage {
    type V = MessageView;

    open spec fn view(&self) -> MessageView {
        match self {
            LanMessage::Label(l) => MessageView::Label(l@),
            LanMessage::Location { ident, label } => MessageView::Location { ident: ident@, label: label@ },
            LanMessage::Version { vendor, product } => MessageView::Version { vendor: *vendor, product: *product },
            LanMessage::Power(p) => MessageView::Power(*p),
            LanMessage::Group { ident, label } => MessageView::Group { ident: ident@, label: label@ },
            LanMessage::HostFirmware(v) => MessageView::HostFirmware(*v),
            LanMessage::WifiFirmware(v) => MessageView::WifiFirmware(*v),
            LanMessage::LightState { color, power, label } => MessageView::LightState {
                color: *color,
                power: *power,
                label: label@,
            },
            LanMessage::Zone { count, index, color } => MessageView::Zone {
                count: *count,
                index: *index,
                color: *color,
            },
            LanMessage::MultiZone { count, index, colors } => MessageView::MultiZone {
                count: *count,
                index: *index,
                colors: colors@,
            },
            LanMessage::Undecodable(e) => MessageView::Undecodable(e@),
            LanMessage::Other => MessageView::Other,
        }
    }
}

/// What a datagram says, as decoded by lifx-rs: why it does not decode,
/// else the first of the message kinds this server reads that it is, else
/// `Other`.
pub open spec fn spec_decode(b: Seq<u8>) -> MessageView {
    if let Some(e) = datagram_decode_error(b) {
        MessageView::Undecodable(e)
    } else if let Some(l) = datagram_label(b) {
        MessageView::Label(l)
    } else if let Some((ident, label)) = datagram_location(b) {
        MessageView::Location { ident, label }
    } else if let Some((vendor, product)) = datagram_version(b) {
        MessageView::Version { vendor, product }
    } else if let Some(p) = datagram_power(b) {
        MessageView::Power(p)
    } else if let Some((ident, label)) = datagram_group(b) {
        MessageView::Group { ident, label }
    } else if let Some(v) = datagram_host_firmware(b) {
        MessageView::HostFirmware(v)
    } else if let Some(v) = datagram_wifi_firmware(b) {
        MessageView::WifiFirmware(v)
    } else if let Some((color, power, label)) = datagram_light_state(b) {
        MessageView::LightState { color, power, label }
    } else if let Some((count, index, color)) = datagram_zone(b) {
        MessageView::Zone { count, index, color }
    } else if let Some((count, index, colors)) = datagram_multizone(b) {
        MessageView::MultiZone { count, index, colors }
    } else {
        MessageView::Other
    }
}

/// A `MultiZone` message carries eight colors.
pub open spec fn message_shape(m: MessageView) -> bool {
    match m {
        MessageView::MultiZone { colors, .. } => colors.len() == 8,
        _ => true,
    }
}

/// Decodes a datagram from a bulb.
pub fn decode(bytes: &[u8]) -> (r: LanMessage)
    requires
        !unpack_panics(bytes@),
    ensures
        r@ == spec_decode(bytes@),
        message_shape(r@),
{
    if let Some(e) = read_decode_error(bytes) {
        return LanMessage::Undecodable(e);
    }
    if let Some(l) = read_label(bytes) {
        return LanMessage::Label(l);
    }
    if let Some((ident, label)) = read_location(bytes) {
        return LanMessage::Location { ident, label };
    }
    if let Some((vendor, product)) = read_version(bytes) {
        return LanMessage::Version { vendor, product };
    }
    if let Some(p) = read_power(bytes) {
        return LanMessage::Power(p);
    }
    if let Some((ident, label)) = read_group(bytes) {
        return LanMessage::Group { ident, label };
    }
    if let Some(v) = read_host_firmware(bytes) {
        return LanMessage::HostFirmware(v);
    }
    if let Some(v) = read_wifi_firmware(bytes) {
        return LanMessage::WifiFirmware(v);
    }
    if let Some((color, power, label)) = read_light_state(bytes) {
        return LanMessage::LightState { color, power, label };
    }
    if let Some((count, index, color)) = read_zone(bytes) {
        return LanMessage::Zone { count, index, color };
    }
    if let Some((count, index, colors)) = read_multizone(bytes) {
        return LanMessage::MultiZone { count, index, colors };
    }
    LanMessage::Other
}

/// What a product supports, as lifx-rs's product table lists it.
#[derive(Clone, Copy, Debug, PartialEq, Eq, Structural)]
pub struct Capabilities {
    pub has_color: bool,
    pub has_variable_color_temp: bool,
    pub has_ir: bool,
    pub has_hev: bool,
    pub has_chain: bool,
    pub has_matrix: bool,
    pub has_multizone: bool,
    pub min_kelvin: i64,
    pub max_kelvin: i64,
}

/// An entry of lifx-rs's product table.
#[derive(Clone, Debug)]
pub struct Product {
    pub name: String,
    pub identifier: String,
    pub company: String,
    pub vendor_id: i64,
    pub product_id: i64,
    pub capabilities: Capabilities,
}

pub struct ProductView {
    pub name: Seq<char>,
    pub identifier: Seq<char>,
    pub company: Seq<char>,
    pub vendor_id: i64,
    pub product_id: i64,
    pub capabilities: Capabilities,
}

impl View for Product {
    type V = ProductView;

    open spec fn view(&self) -> ProductView {
        ProductView {
            name: self.name@,
            identifier: self.identifier@,
            company: self.company@,
            vendor_id: self.vendor_id,
            product_id: self.product_id,
            capabilities: self.capabilities,
        }
    }
}

pub open spec fn opt_product_view(p: Option<Product>) -> Option<ProductView> {
    match p {
        Some(p) => Some(p@),
        None => None,
    }
}

/// The entry lifx-rs's product table holds for a vendor and product, if any.
pub uninterp spec fn product_entry(vendor: u32, product: u32) -> Option<ProductView>;

/// `lifx_rs::lan::get_product_info`, copying the entry field by field.
/// Claimed: the table's entries depend on vendor and product alone.
#[verifier::external_body]
pub(crate) fn lookup_product(vendor: u32, product: u32) -> (r: Option<Product>)
    ensures
        opt_product_view(r) == product_entry(vendor, product),
{
    let info = lifx_rs::lan::get_product_info(vendor, product)?;
    let c = &info.capabilities;
    Some(Product {
        name: info.name.to_string(),
        identifier: info.identifier.to_string(),
        company: info.company.to_string(),
        vendor_id: info.vendor_id,
        product_id: info.product_id,
        capabilities: Capabilities {
            has_color: c.has_color, has_variable_color_temp: c.has_variable_color_temp, has_ir: c.has_ir,
            has_hev: c.has_hev, has_chain: c.has_chain, has_matrix: c.has_matrix,
            has_multizone: c.has_multizone, min_kelvin: c.min_kelvin, max_kelvin: c.max_kelvin,
        },
    })
}

} // verus!
