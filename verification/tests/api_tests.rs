use lifx_api_server::api::{
    authorized, plan_set_state, plan_set_states, route, select, selection_is_undefined, selector,
    selector_is_missing, state_color, Command, Config, Route, SelectorState, StateRequest,
};
use lifx_api_server::bulb::PeerAddr;
use lifx_api_server::color::{parse_color, ColorStep, Hsbk};
use lifx_api_server::lan::PowerLevel;
use lifx_api_server::manager::Manager;

fn datagram(target: u64, typ: u16, payload: &[u8]) -> Vec<u8> {
    let size = 36 + payload.len();
    let mut v = Vec::new();
    v.extend_from_slice(&(size as u16).to_le_bytes());
    v.extend_from_slice(&0x1400u16.to_le_bytes());
    v.extend_from_slice(&7u32.to_le_bytes());
    v.extend_from_slice(&target.to_le_bytes());
    v.extend_from_slice(&[0; 16]);
    v.extend_from_slice(&typ.to_le_bytes());
    v.extend_from_slice(&[0, 0]);
    v.extend_from_slice(payload);
    v
}

fn group_payload(first: u8, name: &str) -> Vec<u8> {
    let mut p: Vec<u8> = (first..first + 16).collect();
    let mut l = name.as_bytes().to_vec();
    l.resize(32, 0);
    p.extend_from_slice(&l);
    p.extend_from_slice(&0u64.to_le_bytes());
    p
}

fn addr() -> PeerAddr {
    PeerAddr { ip: vec![127, 0, 0, 1], port: 56700 }
}

fn light_state(target: u64, c: Hsbk) -> Vec<u8> {
    let mut v = Vec::new();
    for x in [c.hue, c.saturation, c.brightness, c.kelvin] {
        v.extend_from_slice(&x.to_le_bytes());
    }
    v.extend_from_slice(&0i16.to_le_bytes());
    v.extend_from_slice(&65535u16.to_le_bytes());
    v.extend_from_slice(&[0; 32]);
    v.extend_from_slice(&0u64.to_le_bytes());
    datagram(target, 107, &v)
}

fn version(target: u64) -> Vec<u8> {
    let mut v = Vec::new();
    v.extend_from_slice(&1u32.to_le_bytes());
    v.extend_from_slice(&27u32.to_le_bytes());
    v.extend_from_slice(&0u32.to_le_bytes());
    datagram(target, 33, &v)
}

#[test]
fn authorization_header() {
    assert!(authorized(Some("Bearer xxx"), "xxx"));
    assert!(!authorized(Some("Bearer xxy"), "xxx"));
    assert!(!authorized(Some("bearer xxx"), "xxx"));
    assert!(!authorized(Some("Bearer xxx "), "xxx"));
    assert!(!authorized(None, "xxx"));
    assert!(authorized(Some("Bearer "), ""));
}

#[test]
fn routes() {
    assert_eq!(route("/v1/lights/all/state"), Route::SetState);
    assert_eq!(route("/v1/lights/states"), Route::SetStates);
    assert_eq!(route("/v1/lights/id:x/state"), Route::SetState);
    assert_eq!(route("/v1/lights/all"), Route::ListLights);
    assert_eq!(route("/v1/lights/"), Route::ListLights);
    assert_eq!(route("/v1/lights"), Route::Other);
    assert_eq!(route("/"), Route::Other);
}

#[test]
fn selectors() {
    assert_eq!(selector("/v1/lights/all/state"), "all");
    assert_eq!(selector("/v1/lights/id:abc"), "id:abc");
    assert_eq!(selector("/v1/lights/"), "");
    assert_eq!(selector("/"), "");
    assert!(selector_is_missing("/v1/lights"));
    assert!(!selector_is_missing("/v1/lights/all"));
    assert!(!selector_is_missing("/v1"));
}

#[test]
fn default_config() {
    let c = Config::default();
    assert_eq!(c.secret_key, "");
    assert_eq!(c.port, 0);
}

fn two_bulbs() -> Manager {
    let mut mgr = Manager::new(0);
    mgr.receive(&datagram(1, 53, &group_payload(1, "A")), addr(), 1);
    mgr.receive(&datagram(2, 53, &group_payload(2, "B")), addr(), 1);
    mgr
}

#[test]
fn selecting_bulbs() {
    let mgr = two_bulbs();
    let ts = mgr.targets();
    let mut all = select(&mgr, &ts, "all");
    all.sort();
    assert_eq!(all, vec![1, 2]);
    let id1 = mgr.bulbs[&1].id.clone();
    assert_eq!(select(&mgr, &ts, &format!("id:{}", id1)), vec![1]);
    assert!(select(&mgr, &ts, "id:?").is_empty());
    // Group ids are the identifier's bytes in decimal: bulb 1's is
    // "12345678910111213141516", bulb 2's "234567891011121314151617".
    assert_eq!(select(&mgr, &ts, "group_id:12345"), vec![1]);
    let mut both = select(&mgr, &ts, "group_id:2345");
    both.sort();
    assert_eq!(both, vec![1, 2]);
    assert!(select(&mgr, &ts, "group_id:99").is_empty());
    assert!(!selection_is_undefined(&mgr, &ts, "group_id:1"));
    assert!(selection_is_undefined(&mgr, &ts, "location_id:1"));
    assert!(!selection_is_undefined(&mgr, &ts, "all"));
}

#[test]
fn selecting_by_location() {
    let mut mgr = two_bulbs();
    mgr.receive(&datagram(1, 50, &group_payload(1, "Home")), addr(), 2);
    mgr.receive(&datagram(2, 50, &group_payload(2, "Home")), addr(), 2);
    let ts = mgr.targets();
    assert!(!selection_is_undefined(&mgr, &ts, "location_id:1617"));
    assert_eq!(select(&mgr, &ts, "location_id:1617"), vec![2]);
    assert_eq!(select(&mgr, &ts, "location_id:123"), vec![1]);
    assert!(select(&mgr, &ts, "location_id:99").is_empty());
}

#[test]
fn config_equality() {
    let c = Config { secret_key: "xxx".to_string(), port: 8089 };
    assert_eq!(c.clone(), c);
    assert_ne!(c, Config::default());
}

#[test]
fn set_state_plan() {
    let mut mgr = Manager::new(0);
    mgr.receive(&version(1), addr(), 0);
    let c = Hsbk { hue: 100, saturation: 200, brightness: 300, kelvin: 3500 };
    mgr.receive(&light_state(1, c), addr(), 0);
    mgr.receive(&version(2), addr(), 0);
    let sel = vec![1u64, 2];
    let req = StateRequest {
        power: Some("on".to_string()),
        color: parse_color("kelvin:9000"),
        brightness: Some(1000),
        duration: Some(250),
        infrared: Some(7),
    };
    let plan = plan_set_state(&mgr, &sel, &req);
    let default = Hsbk { hue: 0, saturation: 0, brightness: 65535, kelvin: 6500 };
    assert_eq!(
        plan,
        vec![
            (1, Command::Power(PowerLevel::Enabled)),
            (2, Command::Power(PowerLevel::Enabled)),
            (1, Command::Color(ColorStep::Exact(Hsbk { saturation: 0, kelvin: 9000, ..c }), 250)),
            (2, Command::Color(ColorStep::Exact(Hsbk { saturation: 0, kelvin: 9000, ..default }), 250)),
            (1, Command::Color(ColorStep::Exact(Hsbk { brightness: 1000, ..c }), 250)),
            (2, Command::Color(ColorStep::Exact(Hsbk { brightness: 1000, ..default }), 250)),
            (1, Command::Infrared(7)),
            (2, Command::Infrared(7)),
        ]
    );
    let off = StateRequest { power: Some("off".to_string()), color: None, brightness: None, duration: None, infrared: None };
    assert_eq!(
        plan_set_state(&mgr, &sel, &off),
        vec![(1, Command::Power(PowerLevel::Standby)), (2, Command::Power(PowerLevel::Standby))]
    );
    let other = StateRequest { power: Some("dim".to_string()), color: parse_color("white"), brightness: None, duration: None, infrared: None };
    assert_eq!(
        plan_set_state(&mgr, &vec![2], &other),
        vec![(2, Command::Color(ColorStep::Exact(Hsbk { hue: 0, saturation: 0, ..default }), 0))]
    );
}

#[test]
fn readme_example_request() {
    // PUT /v1/lights/all/state with color=kelvin:9000 and the right key.
    let url = "/v1/lights/all/state";
    assert!(authorized(Some("Bearer xxx"), "xxx"));
    assert_eq!(route(url), Route::SetState);
    let mut mgr = Manager::new(0);
    mgr.receive(&version(5), addr(), 0);
    let ts = mgr.targets();
    let sel = select(&mgr, &ts, &selector(url));
    assert_eq!(sel, vec![5]);
    let req = StateRequest { power: None, color: parse_color("kelvin:9000"), brightness: None, duration: None, infrared: None };
    let plan = plan_set_state(&mgr, &sel, &req);
    assert_eq!(
        plan,
        vec![(5, Command::Color(ColorStep::Exact(Hsbk { hue: 0, saturation: 0, brightness: 65535, kelvin: 9000 }), 0))]
    );
}

fn empty() -> StateRequest {
    StateRequest { power: None, color: None, brightness: None, duration: None, infrared: None }
}

#[test]
fn set_states_apply_each_state_to_its_selector() {
    let mgr = two_bulbs();
    let ts = mgr.targets();
    let id1 = mgr.bulbs[&1].id.clone();
    let states = vec![
        SelectorState {
            selector: format!("id:{}", id1),
            state: StateRequest { power: Some("on".to_string()), ..empty() },
        },
        SelectorState { selector: "group_id:1617".to_string(), state: empty() },
    ];
    let defaults = StateRequest { power: Some("off".to_string()), infrared: Some(9), ..empty() };
    let plans = plan_set_states(&mgr, &ts, &states, &defaults);
    assert_eq!(
        plans,
        vec![
            vec![(1, Command::Power(PowerLevel::Enabled)), (1, Command::Infrared(9))],
            vec![(2, Command::Power(PowerLevel::Standby)), (2, Command::Infrared(9))],
        ]
    );
    assert!(plan_set_states(&mgr, &ts, &vec![], &defaults).is_empty());
}

#[test]
fn set_states_colors_and_defaults() {
    let mut mgr = Manager::new(0);
    mgr.receive(&version(5), addr(), 0);
    let ts = mgr.targets();
    let states = vec![
        SelectorState { selector: "all".to_string(), state: StateRequest { color: parse_color("red"), ..empty() } },
        SelectorState { selector: "all".to_string(), state: StateRequest { duration: Some(100), ..empty() } },
    ];
    let defaults = StateRequest { color: parse_color("kelvin:3000"), ..empty() };
    let plans = plan_set_states(&mgr, &ts, &states, &defaults);
    let default = Hsbk { hue: 0, saturation: 0, brightness: 65535, kelvin: 6500 };
    assert_eq!(
        plans,
        vec![
            vec![(5, Command::Color(ColorStep::Exact(Hsbk { hue: 0, saturation: 65535, ..default }), 0))],
            vec![(5, Command::Color(ColorStep::Exact(Hsbk { saturation: 0, kelvin: 3000, ..default }), 100))],
        ]
    );
    assert_eq!(state_color(&states[0].state, &defaults).unwrap().named, vec![(0, 65535)]);
    assert_eq!(state_color(&states[1].state, &defaults).unwrap().kelvin, Some(3000));
    assert!(state_color(&empty(), &empty()).is_none());
}
