//! The HTTP API's decisions: who may call it, which route a URL takes,
//! which bulbs a selector picks, and what a `SetState` request sends.
use vstd::prelude::*;

use crate::bulb::BulbView;
use crate::color::{spec_base_color, spec_color_steps, base_color, push_color_steps, ColorRequest, ColorStep, Hsbk};
use crate::lan::PowerLevel;
use crate::manager::Manager;
use crate::text::{
    chars_equal, chars_of, contains, contains_exec, field, field_exec, opt_string_view, remove_all,
    remove_all_exec, string_from_chars,
};

verus! {

/// The server's settings: the key callers must present, and the port.
#[derive(Debug, Clone, PartialEq)]
pub struct Config {
    pub secret_key: String,
    pub port: u16,
}

impl Default for Config {
    fn default() -> (r: Config)
        ensures
            r.secret_key@ == Seq::<char>::empty(),
            r.port == 0,
    {
        Config { secret_key: String::new(), port: 0 }
    }
}

pub open spec fn bearer_prefix() -> Seq<char> {
    seq!['B', 'e', 'a', 'r', 'e', 'r', ' ']
}

/// A request is authorized when its `Authorization` header is exactly
/// `Bearer ` followed by the secret key.
pub open spec fn spec_authorized(header: Option<Seq<char>>, secret: Seq<char>) -> bool {
    match header {
        Some(h) => h == bearer_prefix() + secret,
        None => false,
    }
}

pub fn authorized(header: Option<&str>, secret: &str) -> (r: bool)
    ensures
        r == spec_authorized(
            match header {
                Some(h) => Some(h@),
                None => None,
            },
            secret@,
        ),
{
    match header {
        None => false,
        Some(h) => {
            let mut expected: Vec<char> = vec!['B', 'e', 'a', 'r', 'e', 'r', ' '];
            let s = chars_of(secret);
            let mut i: usize = 0;
            while i < s.len()
                invariant
                    i <= s@.len(),
                    expected@ == bearer_prefix() + s@.take(i as int),
                decreases s.len() - i,
            {
                expected.push(s[i]);
                i = i + 1;
                assert(expected@ =~= bearer_prefix() + s@.take(i as int));
            }
            assert(s@.take(s@.len() as int) =~= s@);
            let hc = chars_of(h);
            chars_equal(hc.as_slice(), expected.as_slice())
        },
    }
}

/// The header built from the secret key is accepted, and no other.
pub proof fn lemma_bearer_accepted(secret: Seq<char>, header: Seq<char>)
    ensures
        spec_authorized(Some(bearer_prefix() + secret), secret),
        spec_authorized(Some(header), secret) <==> header == bearer_prefix() + secret,
        !spec_authorized(None, secret),
{
}

/// What a request asks for.
#[derive(Clone, Copy, Debug, PartialEq, Eq, Structural)]
pub enum Route {
    /// Apply a list of states, each to the bulbs its own selector picks
    /// (any URL holding `/lights/states`).
    SetStates,
    /// Change the selected bulbs (other URLs holding `/state`).
    SetState,
    /// List the selected bulbs (URLs holding `/v1/lights/`, not `/state`).
    ListLights,
    Other,
}

pub open spec fn pat_states() -> Seq<char> {
    seq!['/', 'l', 'i', 'g', 'h', 't', 's', '/', 's', 't', 'a', 't', 'e', 's']
}

pub open spec fn pat_state() -> Seq<char> {
    seq!['/', 's', 't', 'a', 't', 'e']
}

pub open spec fn pat_lights() -> Seq<char> {
    seq!['/', 'v', '1', '/', 'l', 'i', 'g', 'h', 't', 's', '/']
}

pub open spec fn spec_route(url: Seq<char>) -> Route {
    if contains(url, pat_states()) {
        Route::SetStates
    } else if contains(url, pat_state()) {
        Route::SetState
    } else if contains(url, pat_lights()) {
        Route::ListLights
    } else {
        Route::Other
    }
}

/// A URL routes to `SetStates` when it holds `/lights/states`; else to
/// `SetState` when it holds `/state`; else to `ListLights` when it holds
/// `/v1/lights/`, whatever its selector holds; else to `Other`. In
/// particular every URL that holds `/v1/lights/` and not `/state` lists
/// lights.
pub proof fn lemma_routes(url: Seq<char>)
    ensures
        contains(url, pat_lights()) && !contains(url, pat_state()) ==> spec_route(url)
            == Route::ListLights,
        !contains(url, pat_lights()) && !contains(url, pat_state()) ==> spec_route(url)
            == Route::Other,
        contains(url, pat_state()) && !contains(url, pat_states()) ==> spec_route(url)
            == Route::SetState,
        contains(url, pat_states()) ==> spec_route(url) == Route::SetStates,
{
    if contains(url, pat_states()) {
        let i = choose|i: int| crate::text::occurs_at(url, pat_states(), i);
        assert(url.subrange(i + 7, i + 13) =~= pat_state()) by {
            assert(url.subrange(i, i + 14) == pat_states());
            assert forall|k: int| 0 <= k < 6 implies url.subrange(i + 7, i + 13)[k] == pat_state()[k] by {
                assert(url.subrange(i, i + 14)[k + 7] == url[i + 7 + k]);
            }
        }
        assert(crate::text::occurs_at(url, pat_state(), i + 7));
    }
}

pub fn route(url: &str) -> (r: Route)
    ensures
        r == spec_route(url@),
{
    let u = chars_of(url);
    let states: Vec<char> = vec!['/', 'l', 'i', 'g', 'h', 't', 's', '/', 's', 't', 'a', 't', 'e', 's'];
    let state: Vec<char> = vec!['/', 's', 't', 'a', 't', 'e'];
    assert(states@ =~= pat_states());
    let lights: Vec<char> = vec!['/', 'v', '1', '/', 'l', 'i', 'g', 'h', 't', 's', '/'];
    assert(state@ =~= pat_state());
    assert(lights@ =~= pat_lights());
    if contains_exec(u.as_slice(), states.as_slice()) {
        Route::SetStates
    } else if contains_exec(u.as_slice(), state.as_slice()) {
        Route::SetState
    } else if contains_exec(u.as_slice(), lights.as_slice()) {
        Route::ListLights
    } else {
        Route::Other
    }
}

/// The selector is the URL's fourth `/`-separated field (as in
/// `/v1/lights/<selector>/state`); empty when the URL has fewer than three
/// fields. A URL with exactly three fields has no selector to read.
pub open spec fn selector_missing(url: Seq<char>) -> bool {
    field(url, '/', 2) is Some && field(url, '/', 3) is None
}

pub open spec fn spec_selector(url: Seq<char>) -> Seq<char> {
    match field(url, '/', 3) {
        Some(f) => f,
        None => Seq::empty(),
    }
}

/// Whether the URL has exactly three `/`-separated fields.
pub fn selector_is_missing(url: &str) -> (r: bool)
    ensures
        r == selector_missing(url@),
{
    let u = chars_of(url);
    field_exec(u.as_slice(), '/', 2).is_some() && field_exec(u.as_slice(), '/', 3).is_none()
}

pub fn selector(url: &str) -> (r: String)
    requires
        !selector_missing(url@),
    ensures
        r@ == spec_selector(url@),
{
    let u = chars_of(url);
    match field_exec(u.as_slice(), '/', 3) {
        Some(f) => string_from_chars(f.as_slice()),
        None => String::new(),
    }
}

pub open spec fn pat_group_id() -> Seq<char> {
    seq!['g', 'r', 'o', 'u', 'p', '_', 'i', 'd', ':']
}

pub open spec fn pat_location_id() -> Seq<char> {
    seq!['l', 'o', 'c', 'a', 't', 'i', 'o', 'n', '_', 'i', 'd', ':']
}

pub open spec fn pat_id() -> Seq<char> {
    seq!['i', 'd', ':']
}

/// The bulb passes the group filter: when the selector holds `group_id:`,
/// the bulb's group id holds the selector with every `group_id:` removed.
pub open spec fn passes_group(b: BulbView, sel: Seq<char>) -> bool {
    contains(sel, pat_group_id()) ==> contains(
        b.lifx_group->0.id,
        remove_all(sel, pat_group_id()),
    )
}

/// The same for `location_id:` and the bulb's location id.
pub open spec fn passes_location(b: BulbView, sel: Seq<char>) -> bool {
    contains(sel, pat_location_id()) ==> contains(
        b.lifx_location->0.id,
        remove_all(sel, pat_location_id()),
    )
}

/// The same for `id:` and the bulb's id, where that `id:` is not part of
/// `group_id:` or `location_id:`: a selector holding either of those is
/// filtered by group or location alone.
pub open spec fn passes_id(b: BulbView, sel: Seq<char>) -> bool {
    contains(sel, pat_id()) && !contains(sel, pat_group_id()) && !contains(sel, pat_location_id())
        ==> contains(b.id, remove_all(sel, pat_id()))
}

pub open spec fn selected(b: BulbView, sel: Seq<char>) -> bool {
    passes_group(b, sel) && passes_location(b, sel) && passes_id(b, sel)
}

/// The filters read a bulb's group (location) only where the selector
/// asks for one, and then every bulb reaching that filter must have one.
pub open spec fn selection_defined(table: Map<u64, BulbView>, ts: Seq<u64>, sel: Seq<char>) -> bool {
    &&& forall|i: int|
        0 <= i < ts.len() ==> table.contains_key(#[trigger] ts[i])
    &&& contains(sel, pat_group_id()) ==> forall|i: int|
        0 <= i < ts.len() ==> (#[trigger] table[ts[i]]).lifx_group is Some
    &&& contains(sel, pat_location_id()) ==> forall|i: int|
        0 <= i < ts.len() && passes_group(#[trigger] table[ts[i]], sel)
            ==> table[ts[i]].lifx_location is Some
}

/// The targets among `ts` whose bulbs the selector picks, in order.
pub open spec fn spec_select(table: Map<u64, BulbView>, ts: Seq<u64>, sel: Seq<char>) -> Seq<u64>
    decreases ts.len(),
{
    if ts.len() == 0 {
        Seq::empty()
    } else {
        let rest = spec_select(table, ts.drop_last(), sel);
        if selected(table[ts.last()], sel) {
            rest.push(ts.last())
        } else {
            rest
        }
    }
}

/// `group_id:` and `location_id:` each hold `id:`.
proof fn lemma_id_patterns(sel: Seq<char>)
    ensures
        contains(sel, pat_group_id()) ==> contains(sel, pat_id()),
        contains(sel, pat_location_id()) ==> contains(sel, pat_id()),
{
    if contains(sel, pat_group_id()) {
        let i = choose|i: int| crate::text::occurs_at(sel, pat_group_id(), i);
        assert(sel.subrange(i + 6, i + 9) =~= pat_id()) by {
            assert(sel.subrange(i, i + 9) == pat_group_id());
            assert forall|k: int| 0 <= k < 3 implies sel.subrange(i + 6, i + 9)[k] == pat_id()[k] by {
                assert(sel.subrange(i, i + 9)[k + 6] == sel[i + 6 + k]);
            }
        }
        assert(crate::text::occurs_at(sel, pat_id(), i + 6));
    }
    if contains(sel, pat_location_id()) {
        let i = choose|i: int| crate::text::occurs_at(sel, pat_location_id(), i);
        assert(sel.subrange(i + 9, i + 12) =~= pat_id()) by {
            assert(sel.subrange(i, i + 12) == pat_location_id());
            assert forall|k: int| 0 <= k < 3 implies sel.subrange(i + 9, i + 12)[k] == pat_id()[k] by {
                assert(sel.subrange(i, i + 12)[k + 9] == sel[i + 9 + k]);
            }
        }
        assert(crate::text::occurs_at(sel, pat_location_id(), i) ==> crate::text::occurs_at(
            sel,
            pat_id(),
            i + 9,
        ));
    }
}

/// A selection keeps the order of `ts` and only picks bulbs the selector
/// accepts; a selector without `id:` (such as `all`) picks every bulb.
pub proof fn lemma_select(table: Map<u64, BulbView>, ts: Seq<u64>, sel: Seq<char>)
    ensures
        spec_select(table, ts, sel).len() <= ts.len(),
        forall|i: int|
            0 <= i < spec_select(table, ts, sel).len() ==> ts.contains(
                #[trigger] spec_select(table, ts, sel)[i],
            ) && selected(table[spec_select(table, ts, sel)[i]], sel),
        !contains(sel, pat_id()) ==> spec_select(table, ts, sel) == ts,
    decreases ts.len(),
{
    lemma_id_patterns(sel);
    if ts.len() > 0 {
        lemma_select(table, ts.drop_last(), sel);
        let rest = spec_select(table, ts.drop_last(), sel);
        assert forall|i: int| 0 <= i < rest.len() implies ts.contains(#[trigger] rest[i]) by {
            let j = choose|j: int| 0 <= j < ts.drop_last().len() && ts.drop_last()[j] == rest[i];
            assert(ts[j] == rest[i]);
        }
        assert(ts.contains(ts.last()) ) by {
            assert(ts[ts.len() - 1] == ts.last());
        }
        if !contains(sel, pat_id()) {
            assert(ts.drop_last().push(ts.last()) =~= ts);
        }
    }
}

/// A selector naming a group and no location picks exactly the bulbs whose
/// group id holds the selector with `group_id:` removed; one naming a
/// location and no group, those whose location id holds it with
/// `location_id:` removed. The bulb's own id plays no part in either.
pub proof fn lemma_group_and_location_selectors(b: BulbView, sel: Seq<char>)
    ensures
        contains(sel, pat_group_id()) && !contains(sel, pat_location_id()) ==> (selected(b, sel)
            <==> contains(b.lifx_group->0.id, remove_all(sel, pat_group_id()))),
        contains(sel, pat_location_id()) && !contains(sel, pat_group_id()) ==> (selected(b, sel)
            <==> contains(b.lifx_location->0.id, remove_all(sel, pat_location_id()))),
{
}

/// Whether some bulb would reach a group or location filter without a
/// group or location to compare.
pub fn selection_is_undefined(mgr: &Manager, targets: &Vec<u64>, sel: &str) -> (r: bool)
    requires
        forall|i: int| 0 <= i < targets@.len() ==> mgr.table().contains_key(#[trigger] targets@[i]),
    ensures
        r == !selection_defined(mgr.table(), targets@, sel@),
{
    let s = chars_of(sel);
    let p_group: Vec<char> = vec!['g', 'r', 'o', 'u', 'p', '_', 'i', 'd', ':'];
    let p_location: Vec<char> = vec!['l', 'o', 'c', 'a', 't', 'i', 'o', 'n', '_', 'i', 'd', ':'];
    assert(p_group@ =~= pat_group_id());
    assert(p_location@ =~= pat_location_id());
    let by_group = contains_exec(s.as_slice(), p_group.as_slice());
    let by_location = contains_exec(s.as_slice(), p_location.as_slice());
    let group_key = remove_all_exec(s.as_slice(), p_group.as_slice());
    let mut i: usize = 0;
    while i < targets.len()
        invariant
            i <= targets@.len(),
            forall|k: int| 0 <= k < targets@.len() ==> mgr.table().contains_key(#[trigger] targets@[k]),
            s@ == sel@,
            by_group == contains(sel@, pat_group_id()),
            by_location == contains(sel@, pat_location_id()),
            group_key@ == remove_all(sel@, pat_group_id()),
            by_group ==> forall|k: int|
                0 <= k < i ==> (#[trigger] mgr.table()[targets@[k]]).lifx_group is Some,
            by_location ==> forall|k: int|
                0 <= k < i && passes_group(#[trigger] mgr.table()[targets@[k]], sel@)
                    ==> mgr.table()[targets@[k]].lifx_location is Some,
        decreases targets.len() - i,
    {
        let b = mgr.bulbs.get(&targets[i]).unwrap();
        let mut reaches_location = true;
        if by_group {
            match &b.lifx_group {
                None => {
                    return true;
                },
                Some(g) => {
                    let gid = chars_of(g.id.as_str());
                    reaches_location = contains_exec(gid.as_slice(), group_key.as_slice());
                },
            }
        }
        assert(reaches_location == passes_group(mgr.table()[targets@[i as int]], sel@));
        if by_location && reaches_location && b.lifx_location.is_none() {
            return true;
        }
        i = i + 1;
    }
    false
}

/// The targets among `targets` whose bulbs the selector picks, in order.
pub fn select(mgr: &Manager, targets: &Vec<u64>, sel: &str) -> (r: Vec<u64>)
    requires
        selection_defined(mgr.table(), targets@, sel@),
    ensures
        r@ == spec_select(mgr.table(), targets@, sel@),
{
    let s = chars_of(sel);
    let p_group: Vec<char> = vec!['g', 'r', 'o', 'u', 'p', '_', 'i', 'd', ':'];
    let p_location: Vec<char> = vec!['l', 'o', 'c', 'a', 't', 'i', 'o', 'n', '_', 'i', 'd', ':'];
    let p_id: Vec<char> = vec!['i', 'd', ':'];
    assert(p_group@ =~= pat_group_id());
    assert(p_location@ =~= pat_location_id());
    assert(p_id@ =~= pat_id());
    let by_group = contains_exec(s.as_slice(), p_group.as_slice());
    let by_location = contains_exec(s.as_slice(), p_location.as_slice());
    let by_id = contains_exec(s.as_slice(), p_id.as_slice());
    let group_key = remove_all_exec(s.as_slice(), p_group.as_slice());
    let location_key = remove_all_exec(s.as_slice(), p_location.as_slice());
    let id_key = remove_all_exec(s.as_slice(), p_id.as_slice());
    let mut r: Vec<u64> = Vec::new();
    let mut i: usize = 0;
    while i < targets.len()
        invariant
            i <= targets@.len(),
            selection_defined(mgr.table(), targets@, sel@),
            s@ == sel@,
            by_group == contains(sel@, pat_group_id()),
            by_location == contains(sel@, pat_location_id()),
            by_id == contains(sel@, pat_id()),
            group_key@ == remove_all(sel@, pat_group_id()),
            location_key@ == remove_all(sel@, pat_location_id()),
            id_key@ == remove_all(sel@, pat_id()),
            r@ == spec_select(mgr.table(), targets@.take(i as int), sel@),
        decreases targets.len() - i,
    {
        let t = targets[i];
        let b = mgr.bulbs.get(&t).unwrap();
        let ghost bv = mgr.table()[t];
        assert(b@ == bv);
        let mut keep = true;
        if by_group {
            let g = b.lifx_group.as_ref().unwrap();
            let gid = chars_of(g.id.as_str());
            keep = contains_exec(gid.as_slice(), group_key.as_slice());
        }
        assert(keep == passes_group(bv, sel@));
        if keep && by_location {
            let l = b.lifx_location.as_ref().unwrap();
            let lid = chars_of(l.id.as_str());
            keep = contains_exec(lid.as_slice(), location_key.as_slice());
        }
        assert(keep == (passes_group(bv, sel@) && passes_location(bv, sel@)));
        if keep && by_id && !by_group && !by_location {
            let id = chars_of(b.id.as_str());
            keep = contains_exec(id.as_slice(), id_key.as_slice());
        }
        assert(keep == selected(bv, sel@));
        assert(targets@.take(i + 1).drop_last() =~= targets@.take(i as int));
        if keep {
            r.push(t);
        }
        i = i + 1;
    }
    assert(targets@.take(targets@.len() as int) =~= targets@);
    r
}

/// One message a `SetState` request sends to a bulb.
#[derive(Clone, Copy, Debug, PartialEq, Eq, Structural)]
pub enum Command {
    Power(PowerLevel),
    /// A color change, with its transition time in milliseconds.
    Color(ColorStep, u32),
    Infrared(u16),
}

/// What a `SetState` request holds, its fractions already scaled to the
/// `u16` range and its duration to whole milliseconds.
pub struct StateRequest {
    pub power: Option<String>,
    pub color: Option<ColorRequest>,
    /// Brightness on the full `u16` scale.
    pub brightness: Option<u16>,
    /// Transition time in milliseconds.
    pub duration: Option<u32>,
    /// Infrared brightness on the full `u16` scale.
    pub infrared: Option<u16>,
}

pub open spec fn for_each(ts: Seq<u64>, c: Command) -> Seq<(u64, Command)> {
    ts.map_values(|t: u64| (t, c))
}

pub open spec fn power_commands(ts: Seq<u64>, power: Option<Seq<char>>) -> Seq<(u64, Command)> {
    match power {
        Some(p) => if p == seq!['o', 'n'] {
            for_each(ts, Command::Power(PowerLevel::Enabled))
        } else if p == seq!['o', 'f', 'f'] {
            for_each(ts, Command::Power(PowerLevel::Standby))
        } else {
            Seq::empty()
        },
        None => Seq::empty(),
    }
}

pub open spec fn color_commands(
    table: Map<u64, BulbView>,
    ts: Seq<u64>,
    req: ColorRequest,
    duration: u32,
) -> Seq<(u64, Command)>
    decreases ts.len(),
{
    if ts.len() == 0 {
        Seq::empty()
    } else {
        let t = ts.last();
        color_commands(table, ts.drop_last(), req, duration) + spec_color_steps(
            req,
            spec_base_color(table[t].lifx_color),
        ).map_values(|s: ColorStep| (t, Command::Color(s, duration)))
    }
}

pub open spec fn brightness_commands(
    table: Map<u64, BulbView>,
    ts: Seq<u64>,
    brightness: u16,
    duration: u32,
) -> Seq<(u64, Command)> {
    ts.map_values(
        |t: u64|
            (
                t,
                Command::Color(
                    ColorStep::Exact(
                        Hsbk { brightness, ..spec_base_color(table[t].lifx_color) },
                    ),
                    duration,
                ),
            ),
    )
}

/// The messages a `SetState` request sends, in order: power to every
/// selected bulb, then each bulb's color changes, then brightness to every
/// bulb, then infrared to every bulb.
pub open spec fn spec_plan(
    table: Map<u64, BulbView>,
    ts: Seq<u64>,
    power: Option<Seq<char>>,
    color: Option<ColorRequest>,
    brightness: Option<u16>,
    duration: Option<u32>,
    infrared: Option<u16>,
) -> Seq<(u64, Command)> {
    let d = match duration {
        Some(d) => d,
        None => 0,
    };
    power_commands(ts, power) + match color {
        Some(req) => color_commands(table, ts, req, d),
        None => Seq::empty(),
    } + match brightness {
        Some(b) => brightness_commands(table, ts, b, d),
        None => Seq::empty(),
    } + match infrared {
        Some(v) => for_each(ts, Command::Infrared(v)),
        None => Seq::empty(),
    }
}

/// Every message a `SetState` request sends goes to a selected bulb.
pub proof fn lemma_plan_targets_selected(
    table: Map<u64, BulbView>,
    ts: Seq<u64>,
    power: Option<Seq<char>>,
    color: Option<ColorRequest>,
    brightness: Option<u16>,
    duration: Option<u32>,
    infrared: Option<u16>,
)
    ensures
        forall|i: int|
            0 <= i < spec_plan(table, ts, power, color, brightness, duration, infrared).len()
                ==> ts.contains(
                (#[trigger] spec_plan(table, ts, power, color, brightness, duration, infrared)[i]).0,
            ),
{
    let d = match duration {
        Some(d) => d,
        None => 0,
    };
    let plan = spec_plan(table, ts, power, color, brightness, duration, infrared);
    let p0 = power_commands(ts, power);
    let p1 = match color {
        Some(req) => color_commands(table, ts, req, d),
        None => Seq::empty(),
    };
    let p2 = match brightness {
        Some(b) => brightness_commands(table, ts, b, d),
        None => Seq::empty(),
    };
    let p3 = match infrared {
        Some(v) => for_each(ts, Command::Infrared(v)),
        None => Seq::empty(),
    };
    if let Some(req) = color {
        lemma_color_commands_targets(table, ts, req, d);
    }
    assert forall|i: int| 0 <= i < plan.len() implies ts.contains((#[trigger] plan[i]).0) by {
        assert(plan == p0 + p1 + p2 + p3);
        if i < p0.len() {
            assert(ts[i] == plan[i].0);
        } else if i < p0.len() + p1.len() {
            assert(plan[i] == p1[i - p0.len()]);
        } else if i < p0.len() + p1.len() + p2.len() {
            assert(ts[i - p0.len() - p1.len()] == plan[i].0);
        } else {
            assert(ts[i - p0.len() - p1.len() - p2.len()] == plan[i].0);
        }
    }
}

/// A request that only sets the power to `on` (or `off`) sends each
/// selected bulb exactly one power message, in selection order.
pub proof fn lemma_power_only_plan(table: Map<u64, BulbView>, ts: Seq<u64>, on: bool)
    ensures
        spec_plan(
            table,
            ts,
            Some(
                if on {
                    seq!['o', 'n']
                } else {
                    seq!['o', 'f', 'f']
                },
            ),
            None,
            None,
            None,
            None,
        ) == ts.map_values(
            |t: u64|
                (
                    t,
                    Command::Power(
                        if on {
                            PowerLevel::Enabled
                        } else {
                            PowerLevel::Standby
                        },
                    ),
                ),
        ),
{
    let p = spec_plan(
        table,
        ts,
        Some(
            if on {
                seq!['o', 'n']
            } else {
                seq!['o', 'f', 'f']
            },
        ),
        None,
        None,
        None,
        None,
    );
    assert(seq!['o', 'f', 'f'] != seq!['o', 'n']) by {
        assert(seq!['o', 'f', 'f'].len() != seq!['o', 'n'].len());
    }
    assert(p =~= ts.map_values(
        |t: u64|
            (
                t,
                Command::Power(
                    if on {
                        PowerLevel::Enabled
                    } else {
                        PowerLevel::Standby
                    },
                ),
            ),
    ));
}

proof fn lemma_color_commands_targets(table: Map<u64, BulbView>, ts: Seq<u64>, req: ColorRequest, d: u32)
    ensures
        forall|i: int|
            0 <= i < color_commands(table, ts, req, d).len() ==> ts.contains(
                (#[trigger] color_commands(table, ts, req, d)[i]).0,
            ),
    decreases ts.len(),
{
    if ts.len() > 0 {
        lemma_color_commands_targets(table, ts.drop_last(), req, d);
        let rest = color_commands(table, ts.drop_last(), req, d);
        let all = color_commands(table, ts, req, d);
        assert forall|i: int| 0 <= i < all.len() implies ts.contains((#[trigger] all[i]).0) by {
            if i < rest.len() {
                let j = choose|j: int| 0 <= j < ts.drop_last().len() && ts.drop_last()[j] == rest[i].0;
                assert(ts[j] == all[i].0);
            } else {
                assert(all[i].0 == ts.last());
                assert(ts[ts.len() - 1] == ts.last());
            }
        }
    }
}

fn push_for_each(ts: &Vec<u64>, c: Command, out: &mut Vec<(u64, Command)>)
    ensures
        final(out)@ == old(out)@ + for_each(ts@, c),
{
    let ghost start = out@;
    let mut i: usize = 0;
    while i < ts.len()
        invariant
            i <= ts@.len(),
            out@ == start + for_each(ts@.take(i as int), c),
        decreases ts.len() - i,
    {
        out.push((ts[i], c));
        i = i + 1;
        assert(out@ =~= start + for_each(ts@.take(i as int), c));
    }
    assert(ts@.take(ts@.len() as int) =~= ts@);
}

/// The messages a `SetState` request sends to the bulbs `selected`.
pub fn plan_set_state(mgr: &Manager, selected: &Vec<u64>, req: &StateRequest) -> (r: Vec<(u64, Command)>)
    requires
        forall|i: int| 0 <= i < selected@.len() ==> mgr.table().contains_key(#[trigger] selected@[i]),
    ensures
        r@ == spec_plan(
            mgr.table(),
            selected@,
            opt_string_view(req.power),
            req.color,
            req.brightness,
            req.duration,
            req.infrared,
        ),
{
    plan_parts(
        mgr,
        selected,
        req.power.as_ref(),
        req.color.as_ref(),
        req.brightness,
        req.duration,
        req.infrared,
    )
}

fn plan_parts(
    mgr: &Manager,
    selected: &Vec<u64>,
    power: Option<&String>,
    color: Option<&ColorRequest>,
    brightness: Option<u16>,
    duration: Option<u32>,
    infrared: Option<u16>,
) -> (r: Vec<(u64, Command)>)
    requires
        forall|i: int| 0 <= i < selected@.len() ==> mgr.table().contains_key(#[trigger] selected@[i]),
    ensures
        r@ == spec_plan(
            mgr.table(),
            selected@,
            match power {
                Some(p) => Some(p@),
                None => None,
            },
            match color {
                Some(c) => Some(*c),
                None => None,
            },
            brightness,
            duration,
            infrared,
        ),
{
    let d: u32 = match duration {
        Some(d) => d,
        None => 0,
    };
    let mut out: Vec<(u64, Command)> = Vec::new();
    if let Some(p) = power {
        let pc = chars_of(p.as_str());
        let on: Vec<char> = vec!['o', 'n'];
        let off: Vec<char> = vec!['o', 'f', 'f'];
        assert(on@ =~= seq!['o', 'n']);
        assert(off@ =~= seq!['o', 'f', 'f']);
        if chars_equal(pc.as_slice(), on.as_slice()) {
            push_for_each(selected, Command::Power(PowerLevel::Enabled), &mut out);
        } else if chars_equal(pc.as_slice(), off.as_slice()) {
            push_for_each(selected, Command::Power(PowerLevel::Standby), &mut out);
        }
    }
    let ghost after_power = out@;
    if let Some(creq) = color {
        let mut i: usize = 0;
        while i < selected.len()
            invariant
                i <= selected@.len(),
                forall|k: int| 0 <= k < selected@.len() ==> mgr.table().contains_key(#[trigger] selected@[k]),
                out@ == after_power + color_commands(mgr.table(), selected@.take(i as int), *creq, d),
            decreases selected.len() - i,
        {
            let t = selected[i];
            let b = mgr.bulbs.get(&t).unwrap();
            let base = base_color(b.lifx_color);
            let mut steps: Vec<ColorStep> = Vec::new();
            push_color_steps(creq, base, &mut steps);
            let ghost before = out@;
            let mut j: usize = 0;
            while j < steps.len()
                invariant
                    j <= steps@.len(),
                    out@ == before + steps@.take(j as int).map_values(
                        |s: ColorStep| (t, Command::Color(s, d)),
                    ),
                decreases steps.len() - j,
            {
                out.push((t, Command::Color(steps[j], d)));
                j = j + 1;
                assert(out@ =~= before + steps@.take(j as int).map_values(
                    |s: ColorStep| (t, Command::Color(s, d)),
                ));
            }
            assert(steps@.take(steps@.len() as int) =~= steps@);
            assert(selected@.take(i + 1).drop_last() =~= selected@.take(i as int));
            assert(mgr.table()[t].lifx_color == b.lifx_color);
            i = i + 1;
            assert(out@ =~= after_power + color_commands(mgr.table(), selected@.take(i as int), *creq, d));
        }
        assert(selected@.take(selected@.len() as int) =~= selected@);
    }
    let ghost after_color = out@;
    if let Some(v) = brightness {
        let mut i: usize = 0;
        while i < selected.len()
            invariant
                i <= selected@.len(),
                forall|k: int| 0 <= k < selected@.len() ==> mgr.table().contains_key(#[trigger] selected@[k]),
                out@ == after_color + brightness_commands(mgr.table(), selected@.take(i as int), v, d),
            decreases selected.len() - i,
        {
            let t = selected[i];
            let b = mgr.bulbs.get(&t).unwrap();
            let base = base_color(b.lifx_color);
            out.push((t, Command::Color(ColorStep::Exact(Hsbk { brightness: v, ..base }), d)));
            i = i + 1;
            assert(out@ =~= after_color + brightness_commands(mgr.table(), selected@.take(i as int), v, d));
        }
        assert(selected@.take(selected@.len() as int) =~= selected@);
    }
    if let Some(v) = infrared {
        push_for_each(selected, Command::Infrared(v), &mut out);
    }
    assert(out@ =~= spec_plan(
        mgr.table(),
        selected@,
        match power {
            Some(p) => Some(p@),
            None => None,
        },
        match color {
            Some(c) => Some(*c),
            None => None,
        },
        brightness,
        duration,
        infrared,
    ));
    out
}

/// One entry of a `SetStates` request: a selector, and the state to give
/// the bulbs it picks.
pub struct SelectorState {
    pub selector: String,
    pub state: StateRequest,
}

/// A field of a state, or, where the state leaves it out, the default's.
pub open spec fn or_default<T>(field: Option<T>, default: Option<T>) -> Option<T> {
    match field {
        Some(_) => field,
        None => default,
    }
}

/// The messages one entry of a `SetStates` request sends: those of a
/// `SetState` request with the entry's fields (each missing one taken from
/// `defaults`) to the bulbs among `ts` that the entry's selector picks.
pub open spec fn spec_entry_plan(
    table: Map<u64, BulbView>,
    ts: Seq<u64>,
    entry: SelectorState,
    defaults: StateRequest,
) -> Seq<(u64, Command)> {
    spec_plan(
        table,
        spec_select(table, ts, entry.selector@),
        or_default(opt_string_view(entry.state.power), opt_string_view(defaults.power)),
        or_default(entry.state.color, defaults.color),
        or_default(entry.state.brightness, defaults.brightness),
        or_default(entry.state.duration, defaults.duration),
        or_default(entry.state.infrared, defaults.infrared),
    )
}

/// Each entry of a `SetStates` request sends messages only to bulbs among
/// `ts` that its own selector picks.
pub proof fn lemma_entry_plan_targets(
    table: Map<u64, BulbView>,
    ts: Seq<u64>,
    entry: SelectorState,
    defaults: StateRequest,
)
    ensures
        forall|i: int|
            0 <= i < spec_entry_plan(table, ts, entry, defaults).len() ==> {
                let t = (#[trigger] spec_entry_plan(table, ts, entry, defaults)[i]).0;
                ts.contains(t) && selected(table[t], entry.selector@)
            },
{
    let sel = spec_select(table, ts, entry.selector@);
    let plan = spec_entry_plan(table, ts, entry, defaults);
    lemma_select(table, ts, entry.selector@);
    lemma_plan_targets_selected(
        table,
        sel,
        or_default(opt_string_view(entry.state.power), opt_string_view(defaults.power)),
        or_default(entry.state.color, defaults.color),
        or_default(entry.state.brightness, defaults.brightness),
        or_default(entry.state.duration, defaults.duration),
        or_default(entry.state.infrared, defaults.infrared),
    );
    assert forall|i: int| 0 <= i < plan.len() implies {
        let t = (#[trigger] plan[i]).0;
        ts.contains(t) && selected(table[t], entry.selector@)
    } by {
        let t = plan[i].0;
        assert(sel.contains(t));
        let j = choose|j: int| 0 <= j < sel.len() && sel[j] == t;
        assert(ts.contains(sel[j]) && selected(table[sel[j]], entry.selector@));
    }
}

/// An entry of a `SetStates` request that only sets the power to `on` (or
/// `off`), with no defaults, sends exactly one power message to each bulb
/// its selector picks, and to no other.
pub proof fn lemma_power_only_entry(
    table: Map<u64, BulbView>,
    ts: Seq<u64>,
    entry: SelectorState,
    defaults: StateRequest,
    on: bool,
)
    requires
        opt_string_view(entry.state.power) == Some(
            if on {
                seq!['o', 'n']
            } else {
                seq!['o', 'f', 'f']
            },
        ),
        entry.state.color is None,
        entry.state.brightness is None,
        entry.state.duration is None,
        entry.state.infrared is None,
        defaults.color is None,
        defaults.brightness is None,
        defaults.infrared is None,
    ensures
        spec_entry_plan(table, ts, entry, defaults) == spec_select(table, ts, entry.selector@).map_values(
            |t: u64|
                (
                    t,
                    Command::Power(
                        if on {
                            PowerLevel::Enabled
                        } else {
                            PowerLevel::Standby
                        },
                    ),
                ),
        ),
{
    lemma_power_only_plan(table, spec_select(table, ts, entry.selector@), on);
}

/// The color request a state applies: its own, or else the default's.
pub fn state_color<'a>(state: &'a StateRequest, defaults: &'a StateRequest) -> (r: Option<&'a ColorRequest>)
    ensures
        match r {
            Some(c) => or_default(state.color, defaults.color) == Some(*c),
            None => or_default(state.color, defaults.color) is None,
        },
{
    match &state.color {
        Some(c) => Some(c),
        None => defaults.color.as_ref(),
    }
}

/// The messages a `SetStates` request sends, entry by entry: for each
/// entry, those of [`spec_entry_plan`], in order.
pub fn plan_set_states(
    mgr: &Manager,
    targets: &Vec<u64>,
    states: &Vec<SelectorState>,
    defaults: &StateRequest,
) -> (r: Vec<Vec<(u64, Command)>>)
    requires
        forall|i: int|
            0 <= i < states@.len() ==> selection_defined(
                mgr.table(),
                targets@,
                (#[trigger] states@[i]).selector@,
            ),
    ensures
        r@.len() == states@.len(),
        forall|i: int|
            0 <= i < states@.len() ==> (#[trigger] r@[i])@ == spec_entry_plan(
                mgr.table(),
                targets@,
                states@[i],
                *defaults,
            ),
{
    let mut out: Vec<Vec<(u64, Command)>> = Vec::new();
    let mut i: usize = 0;
    while i < states.len()
        invariant
            i <= states@.len(),
            out@.len() == i,
            forall|k: int|
                0 <= k < states@.len() ==> selection_defined(
                    mgr.table(),
                    targets@,
                    (#[trigger] states@[k]).selector@,
                ),
            forall|k: int|
                0 <= k < i ==> (#[trigger] out@[k])@ == spec_entry_plan(
                    mgr.table(),
                    targets@,
                    states@[k],
                    *defaults,
                ),
        decreases states.len() - i,
    {
        let entry = &states[i];
        assert(selection_defined(mgr.table(), targets@, states@[i as int].selector@));
        let selected = select(mgr, targets, entry.selector.as_str());
        proof {
            lemma_select(mgr.table(), targets@, entry.selector@);
            assert forall|k: int| 0 <= k < selected@.len() implies mgr.table().contains_key(
                #[trigger] selected@[k],
            ) by {
                let j = choose|j: int| 0 <= j < targets@.len() && targets@[j] == selected@[k];
                assert(mgr.table().contains_key(targets@[j]));
            }
        }
        let s = &entry.state;
        let power = match &s.power {
            Some(p) => Some(p),
            None => defaults.power.as_ref(),
        };
        let color = state_color(s, defaults);
        let brightness = match s.brightness {
            Some(b) => Some(b),
            None => defaults.brightness,
        };
        let duration = match s.duration {
            Some(d) => Some(d),
            None => defaults.duration,
        };
        let infrared = match s.infrared {
            Some(v) => Some(v),
            None => defaults.infrared,
        };
        let plan = plan_parts(mgr, &selected, power, color, brightness, duration, infrared);
        proof {
            assert(match power {
                Some(p) => Some(p@),
                None => None,
            } == or_default(opt_string_view(s.power), opt_string_view(defaults.power)));
            assert(match color {
                Some(c) => Some(*c),
                None => None,
            } == or_default(s.color, defaults.color));
        }
        out.push(plan);
        i = i + 1;
    }
    out
}

} // verus!
