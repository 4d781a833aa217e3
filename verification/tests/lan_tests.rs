use lifx_api_server::bulb::{BulbInfo, LiColor, PeerAddr};
use lifx_api_server::color::{Hsbk, LifxColor};
use lifx_api_server::lan::{
    decode, query_packet, unpack_would_panic, Capabilities, DecodeError, LanMessage, PowerLevel, Query,
};
use lifx_api_server::manager::{Manager, Received, SOURCE};

const T: u64 = 0x0000_d073_d500_1234;

fn datagram(target: u64, typ: u16, payload: &[u8]) -> Vec<u8> {
    let size = 36 + payload.len();
    let mut v = Vec::new();
    v.extend_from_slice(&(size as u16).to_le_bytes());
    v.extend_from_slice(&0x1400u16.to_le_bytes());
    v.extend_from_slice(&7u32.to_le_bytes());
    v.extend_from_slice(&target.to_le_bytes());
    v.extend_from_slice(&[0; 8]);
    v.extend_from_slice(&[0; 8]);
    v.extend_from_slice(&typ.to_le_bytes());
    v.extend_from_slice(&[0, 0]);
    v.extend_from_slice(payload);
    v
}

fn label(s: &str) -> Vec<u8> {
    let mut p = s.as_bytes().to_vec();
    p.resize(32, 0);
    p
}

fn header(size: u16, typ: u16, target: u64, flags: u16, res: u8) -> Vec<u8> {
    let mut v = Vec::new();
    v.extend_from_slice(&size.to_le_bytes());
    v.extend_from_slice(&flags.to_le_bytes());
    v.extend_from_slice(&SOURCE.to_le_bytes());
    v.extend_from_slice(&target.to_le_bytes());
    v.extend_from_slice(&[0; 6]);
    v.push(res);
    v.push(0);
    v.extend_from_slice(&[0; 8]);
    v.extend_from_slice(&typ.to_le_bytes());
    v.extend_from_slice(&[0, 0]);
    v
}

fn addr() -> PeerAddr {
    PeerAddr { ip: vec![192, 168, 1, 20], port: 56700 }
}

fn bulb() -> BulbInfo {
    BulbInfo::with_ids("abc".to_string(), "def".to_string(), SOURCE, T, addr(), 5)
}

#[test]
fn set_power_packet_bytes() {
    let p = bulb().set_power(PowerLevel::Enabled);
    let mut expected = header(38, 21, T, 0x1400, 1);
    expected.extend_from_slice(&[0xff, 0xff]);
    assert_eq!(p, expected);
    let p = bulb().set_power(PowerLevel::Standby);
    let mut expected = header(38, 21, T, 0x1400, 1);
    expected.extend_from_slice(&[0, 0]);
    assert_eq!(p, expected);
}

#[test]
fn set_color_packet_bytes() {
    let c = Hsbk { hue: 0x0102, saturation: 0x0304, brightness: 0x0506, kelvin: 9000 };
    let p = bulb().set_color(c, 1500);
    let mut expected = header(49, 102, T, 0x1400, 1);
    expected.push(0);
    for x in [0x0102u16, 0x0304, 0x0506, 9000] {
        expected.extend_from_slice(&x.to_le_bytes());
    }
    expected.extend_from_slice(&1500u32.to_le_bytes());
    assert_eq!(p, expected);
}

#[test]
fn set_infrared_packet_bytes() {
    let p = bulb().set_infrared(65535);
    let mut expected = header(38, 122, T, 0x1400, 1);
    expected.extend_from_slice(&[0xff, 0xff]);
    assert_eq!(p, expected);
}

#[test]
fn query_packets() {
    let p = query_packet(None, SOURCE, false, Query::Service);
    let mut expected = header(36, 2, 0, 0x3400, 0);
    assert_eq!(p, expected);
    let p = query_packet(Some(T), SOURCE, true, Query::ColorZones { start_index: 0, end_index: 255 });
    expected = header(38, 502, T, 0x1400, 1);
    expected.extend_from_slice(&[0, 255]);
    assert_eq!(p, expected);
    let mgr = Manager::new(0);
    assert_eq!(mgr.discovery_packet(), header(36, 2, 0, 0x3400, 0));
}

#[test]
fn unpack_panic_detection() {
    let good = datagram(T, 25, &label("x"));
    assert!(!unpack_would_panic(&good));
    let mut not_addressable = good.clone();
    not_addressable[3] = 0x04;
    assert!(unpack_would_panic(&not_addressable));
    let mut too_long = good.clone();
    too_long[0] = 200;
    assert!(unpack_would_panic(&too_long));
    let mut too_short = good.clone();
    too_short[0] = 20;
    assert!(unpack_would_panic(&too_short));
    assert!(!unpack_would_panic(&[1, 2, 3]));
    let mut other_protocol = good.clone();
    other_protocol[2] = 0x01;
    assert!(!unpack_would_panic(&other_protocol));
}

#[test]
fn decoding_messages() {
    match decode(&datagram(T, 25, &label("Kitchen"))) {
        LanMessage::Label(l) => assert_eq!(l, "Kitchen"),
        _ => panic!("expected a label"),
    }
    match decode(&datagram(T, 22, &[0xff, 0xff])) {
        LanMessage::Power(p) => assert_eq!(p, PowerLevel::Enabled),
        _ => panic!("expected a power level"),
    }
    let mut v = Vec::new();
    v.extend_from_slice(&1u32.to_le_bytes());
    v.extend_from_slice(&27u32.to_le_bytes());
    v.extend_from_slice(&0u32.to_le_bytes());
    match decode(&datagram(T, 33, &v)) {
        LanMessage::Version { vendor, product } => assert_eq!((vendor, product), (1, 27)),
        _ => panic!("expected a version"),
    }
    match decode(&datagram(T, 22, &[1, 0])) {
        LanMessage::Undecodable(DecodeError::Protocol(e)) => assert_eq!(e, "Unknown power level 1"),
        _ => panic!("expected a rejected power level"),
    }
    assert!(matches!(
        decode(&datagram(T, 9999, &[])),
        LanMessage::Undecodable(DecodeError::UnknownMessageType(9999))
    ));
    assert!(matches!(decode(&datagram(T, 22, &[])), LanMessage::Undecodable(DecodeError::Io)));
    assert!(matches!(decode(&datagram(T, 2, &[])), LanMessage::Other));
    assert!(matches!(decode(&[0u8; 5]), LanMessage::Other));
}

fn version(vendor: u32, product: u32) -> Vec<u8> {
    let mut v = Vec::new();
    v.extend_from_slice(&vendor.to_le_bytes());
    v.extend_from_slice(&product.to_le_bytes());
    v.extend_from_slice(&0u32.to_le_bytes());
    datagram(T, 33, &v)
}

fn light_state(c: Hsbk, power: u16, name: &str) -> Vec<u8> {
    let mut v = Vec::new();
    for x in [c.hue, c.saturation, c.brightness, c.kelvin] {
        v.extend_from_slice(&x.to_le_bytes());
    }
    v.extend_from_slice(&0i16.to_le_bytes());
    v.extend_from_slice(&power.to_le_bytes());
    v.extend_from_slice(&label(name));
    v.extend_from_slice(&0u64.to_le_bytes());
    datagram(T, 107, &v)
}

#[test]
fn receiving_fills_the_table() {
    let mut mgr = Manager::new(0);
    mgr.receive(&datagram(T, 25, &label("Kitchen")), addr(), 10);
    let b = &mgr.bulbs[&T];
    assert_eq!(b.label, "Kitchen");
    assert_eq!(b.name.data.as_deref(), Some("Kitchen"));
    assert_eq!(b.name.last_updated, 10);
    assert_eq!(b.id.len(), 12);
    assert_eq!(b.uuid.len(), 30);
    assert!(b.id.chars().all(|c| c.is_ascii_alphanumeric()));
    assert_eq!(b.power, "off");
    assert_eq!(b.target, T);
    assert_eq!(b.source, SOURCE);
    assert!(b.connected);
    let id = b.id.clone();

    mgr.receive(&datagram(T, 22, &[0xff, 0xff]), PeerAddr { ip: vec![10, 0, 0, 9], port: 1 }, 20);
    let b = &mgr.bulbs[&T];
    assert_eq!(b.power, "on");
    assert_eq!(b.id, id);
    assert_eq!(b.last_seen, 20);
    assert_eq!(b.addr.ip, vec![10, 0, 0, 9]);
    assert_eq!(b.power_level.data, Some(PowerLevel::Enabled));

    mgr.receive(&datagram(T, 22, &[0, 0]), addr(), 21);
    assert_eq!(mgr.bulbs[&T].power, "off");
}

#[test]
fn target_zero_and_garbage_change_nothing() {
    let mut mgr = Manager::new(0);
    mgr.receive(&datagram(0, 25, &label("x")), addr(), 1);
    mgr.receive(&[9, 9, 9], addr(), 1);
    mgr.receive(&[], addr(), 1);
    assert!(mgr.bulbs.is_empty());
    mgr.receive(&datagram(T, 2, &[]), addr(), 3);
    assert_eq!(mgr.bulbs.len(), 1);
    assert_eq!(mgr.bulbs[&T].last_seen, 3);
}

#[test]
fn version_then_light_state() {
    let mut mgr = Manager::new(0);
    mgr.receive(&version(1, 27), addr(), 1);
    let b = &mgr.bulbs[&T];
    assert_eq!(b.model.data, Some((1, 27)));
    let p = b.product.as_ref().unwrap();
    assert_eq!((p.name.as_str(), p.identifier.as_str(), p.company.as_str()), ("LIFX A19", "lifx_unknown", "LIFX"));
    assert_eq!((p.vendor_id, p.product_id), (1, 27));
    assert_eq!(
        p.capabilities,
        Capabilities {
            has_color: true,
            has_variable_color_temp: true,
            has_ir: false,
            has_hev: false,
            has_chain: false,
            has_matrix: false,
            has_multizone: false,
            min_kelvin: 2500,
            max_kelvin: 9000,
        }
    );
    assert!(matches!(b.color, LiColor::Single(_)));
    let c = Hsbk { hue: 100, saturation: 200, brightness: 65535, kelvin: 3500 };
    mgr.receive(&light_state(c, 65535, "Desk"), addr(), 2);
    let b = &mgr.bulbs[&T];
    assert_eq!(b.lifx_color, Some(LifxColor { hue: 100, saturation: 200, kelvin: 3500, brightness: 65535 }));
    assert_eq!(b.brightness, 65535);
    assert_eq!(b.power_level.data, Some(PowerLevel::Enabled));
    assert_eq!(b.name.data.as_deref(), Some("Desk"));
    assert_eq!(b.label, "");
    let c2 = Hsbk { brightness: 32768, ..c };
    mgr.receive(&light_state(c2, 0, "Desk"), addr(), 3);
    assert_eq!(mgr.bulbs[&T].brightness, 32768);
}

#[test]
fn unknown_product_keeps_color_unknown() {
    let mut mgr = Manager::new(0);
    mgr.receive(&version(99, 99), addr(), 1);
    let b = &mgr.bulbs[&T];
    assert!(b.product.is_none());
    assert!(matches!(b.color, LiColor::Unknown));
    let c = Hsbk { hue: 1, saturation: 2, brightness: 3, kelvin: 4 };
    mgr.receive(&light_state(c, 65535, "Desk"), addr(), 2);
    let b = &mgr.bulbs[&T];
    assert_eq!(b.lifx_color, None);
    assert_eq!(b.name.data.as_deref(), Some("Desk"));
    assert_eq!(b.power_level.data, None);
}

#[test]
fn group_and_location_ids() {
    let mut mgr = Manager::new(0);
    let ident: Vec<u8> = (1..=16).collect();
    let mut p = ident.clone();
    p.extend_from_slice(&label("Upstairs"));
    p.extend_from_slice(&0u64.to_le_bytes());
    mgr.receive(&datagram(T, 53, &p), addr(), 1);
    mgr.receive(&datagram(T, 50, &p), addr(), 1);
    let b = &mgr.bulbs[&T];
    let digits: String = ident.iter().map(|x| x.to_string()).collect();
    let g = b.lifx_group.as_ref().unwrap();
    assert_eq!(g.id, digits);
    assert_eq!(g.name, "Upstairs");
    assert_eq!(b.group.data.as_ref().unwrap().id, format!("{:?}", ident));
    let l = b.lifx_location.as_ref().unwrap();
    assert_eq!(l.id, digits);
    assert_eq!(l.name, "Upstairs");
    assert_eq!(b.location.data.as_deref(), Some("Upstairs"));
}

#[test]
fn firmware_versions() {
    let mut mgr = Manager::new(0);
    let mut p = Vec::new();
    p.extend_from_slice(&0u64.to_le_bytes());
    p.extend_from_slice(&0u64.to_le_bytes());
    p.extend_from_slice(&77u32.to_le_bytes());
    mgr.receive(&datagram(T, 15, &p), addr(), 1);
    mgr.receive(&datagram(T, 19, &p), addr(), 1);
    let b = &mgr.bulbs[&T];
    assert_eq!(b.host_firmware.data, Some(77));
    assert_eq!(b.wifi_firmware.data, Some(77));
}

#[test]
fn refresh_queries_what_is_missing() {
    let mut mgr = Manager::new(0);
    mgr.receive(&datagram(T, 25, &label("Kitchen")), addr(), 0);
    let ts = mgr.targets();
    assert_eq!(ts, vec![T]);
    let packets = mgr.refresh(&ts, 1);
    let types: Vec<u16> = packets.iter().map(|(_, p)| u16::from_le_bytes([p[32], p[33]])).collect();
    assert_eq!(types, vec![32, 48, 14, 18, 20, 51]);
    assert!(packets.iter().all(|(t, p)| *t == T && p[8..16] == T.to_le_bytes()));
    let later = mgr.refresh(&ts, 3_600_000_000_001);
    let types: Vec<u16> = later.iter().map(|(_, p)| u16::from_le_bytes([p[32], p[33]])).collect();
    assert_eq!(types, vec![23, 32, 48, 14, 18, 20, 51]);
}

#[test]
fn needs_refresh_timing() {
    let b = bulb();
    assert!(b.name.needs_refresh(5));
    let mut b = bulb();
    b.name.update("x".to_string(), 100);
    assert!(!b.name.needs_refresh(100));
    assert!(!b.name.needs_refresh(100 + 3_600_000_000_000));
    assert!(b.name.needs_refresh(101 + 3_600_000_000_000));
    assert!(!b.name.needs_refresh(50));
    assert_eq!(b.name.as_ref().map(|s| s.as_str()), Some("x"));
}

#[test]
fn zone_reports_on_multizone_bulbs() {
    let mut b = bulb();
    b.color = LiColor::Multi(lifx_api_server::refresh::RefreshableData::empty(
        15_000_000_000,
        Query::ColorZones { start_index: 0, end_index: 255 },
        0,
    ));
    let c = Hsbk { hue: 9, saturation: 9, brightness: 9, kelvin: 9 };
    let m = LanMessage::Zone { count: 4, index: 2, color: c };
    assert!(lifx_api_server::bulb::fits(&b, &m));
    b.apply_message(m, 1);
    match &b.color {
        LiColor::Multi(d) => assert_eq!(d.data, Some(vec![None, None, Some(c), None])),
        _ => panic!("expected zones"),
    }
    let too_far = LanMessage::Zone { count: 4, index: 4, color: c };
    assert!(!lifx_api_server::bulb::fits(&b, &too_far));
    let colors = vec![c; 8];
    let multi = LanMessage::MultiZone { count: 4, index: 0, colors };
    assert!(!lifx_api_server::bulb::fits(&b, &multi));
}

fn hsbk_bytes(c: Hsbk) -> Vec<u8> {
    let mut v = Vec::new();
    for x in [c.hue, c.saturation, c.brightness, c.kelvin] {
        v.extend_from_slice(&x.to_le_bytes());
    }
    v
}

#[test]
fn decoding_zone_messages() {
    let c = Hsbk { hue: 1, saturation: 2, brightness: 3, kelvin: 4 };
    let mut p = vec![16u8, 5];
    p.extend_from_slice(&hsbk_bytes(c));
    match decode(&datagram(T, 503, &p)) {
        LanMessage::Zone { count, index, color } => assert_eq!((count, index, color), (16, 5, c)),
        _ => panic!("expected a zone"),
    }
    let mut p = vec![16u8, 8];
    let colors: Vec<Hsbk> = (0..8u16).map(|k| Hsbk { hue: k, ..c }).collect();
    for k in &colors {
        p.extend_from_slice(&hsbk_bytes(*k));
    }
    match decode(&datagram(T, 506, &p)) {
        LanMessage::MultiZone { count, index, colors: got } => {
            assert_eq!((count, index), (16, 8));
            assert_eq!(got, colors);
        }
        _ => panic!("expected zones"),
    }
}

#[test]
fn queries_of_a_fresh_bulb() {
    let b = bulb();
    let packets = b.query_for_missing_info(5);
    let types: Vec<u16> = packets.iter().map(|p| u16::from_le_bytes([p[32], p[33]])).collect();
    assert_eq!(types, vec![23, 32, 48, 14, 18, 20, 51]);
    assert!(packets.iter().all(|p| p.len() == 36 && p[8..16] == T.to_le_bytes() && p[22] == 1));
    let p = b.refresh_if_needed(&b.name, 5).unwrap();
    assert_eq!(p, header(36, 23, T, 0x1400, 1));
    let mut b = bulb();
    b.name.update("n".to_string(), 6);
    assert_eq!(b.refresh_if_needed(&b.name, 7), None);
    assert_eq!(b.missing_info(7).len(), 6);
}

#[test]
fn checked_receive() {
    let mut mgr = Manager::new(0);
    let good = datagram(T, 25, &label("Hall"));
    let mut bad = good.clone();
    bad[3] = 0x04;
    assert!(mgr.receive_checked(&bad, addr(), 1).is_none());
    assert!(mgr.bulbs.is_empty());
    assert!(matches!(mgr.receive_checked(&good, addr(), 1), Some(Received::Taken)));
    assert_eq!(mgr.bulbs[&T].label, "Hall");
    assert!(!mgr.receive_would_fail(&good));
    assert!(Manager::new(0).targets().is_empty());
}

#[test]
fn what_became_of_a_datagram() {
    let mut mgr = Manager::new(0);
    assert!(matches!(mgr.receive(&datagram(0, 25, &label("x")), addr(), 1), Received::NoTarget));
    assert!(matches!(mgr.receive(&[9, 9, 9], addr(), 1), Received::NotUnpacked(DecodeError::Io)));
    let mut other_protocol = datagram(T, 25, &label("x"));
    other_protocol[2] = 0x01;
    match mgr.receive(&other_protocol, addr(), 1) {
        Received::NotUnpacked(DecodeError::Protocol(e)) => assert_eq!(e, "Unpacked frame had protocol version 1025"),
        _ => panic!("expected a rejected frame"),
    }
    assert!(mgr.bulbs.is_empty());
    match mgr.receive(&datagram(T, 22, &[7, 0]), addr(), 4) {
        Received::NotDecoded(DecodeError::Protocol(e)) => assert_eq!(e, "Unknown power level 7"),
        _ => panic!("expected a rejected message"),
    }
    let b = &mgr.bulbs[&T];
    assert_eq!(b.last_seen, 4);
    assert_eq!(b.power_level.data, None);
    assert_eq!(b.power, "off");
    assert!(matches!(mgr.receive(&datagram(T, 22, &[0xff, 0xff]), addr(), 5), Received::Taken));
    assert_eq!(mgr.bulbs[&T].power, "on");
}

#[test]
fn set_color_for_a_kelvin_request() {
    let b = BulbInfo::with_ids(
        "abc".to_string(),
        "def".to_string(),
        SOURCE,
        0xD073D5000001,
        PeerAddr { ip: vec![192, 168, 1, 5], port: 56700 },
        0,
    );
    let p = b.set_color(Hsbk { hue: 0, saturation: 0, brightness: 65535, kelvin: 9000 }, 0);
    let mut expected = vec![49, 0, 0x00, 0x14, 0x74, 0x73, 0x75, 0x72];
    expected.extend_from_slice(&[0x01, 0x00, 0x00, 0xD5, 0x73, 0xD0, 0, 0]);
    expected.extend_from_slice(&[0, 0, 0, 0, 0, 0, 1, 0]);
    expected.extend_from_slice(&[0, 0, 0, 0, 0, 0, 0, 0, 102, 0, 0, 0]);
    expected.extend_from_slice(&[0, 0, 0, 0, 0, 0xff, 0xff, 0x28, 0x23, 0, 0, 0, 0]);
    assert_eq!(p, expected);
}
