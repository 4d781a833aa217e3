//! Colors: the HSBK representation bulbs use, the color last reported by a
//! bulb, and the reading of a `color` request string into color changes.
use vstd::prelude::*;

use crate::text::{
    chars_of, contains, contains_exec, field, field_exec, parse_i64, parse_u16, piece_after,
    piece_after_exec, spec_parse_i64, spec_parse_u16, string_from_chars, opt_string_view,
};

verus! {

/// A color as hue, saturation, brightness and kelvin, each on the full
/// `u16` scale.
#[derive(Clone, Copy, Debug, PartialEq, Eq, Structural)]
pub struct Hsbk {
    pub hue: u16,
    pub saturation: u16,
    pub brightness: u16,
    pub kelvin: u16,
}

/// Represents an LIFX Color
#[derive(Clone, Copy, Debug, PartialEq, Eq, Structural)]
pub struct LifxColor {
    pub hue: u16,
    pub saturation: u16,
    pub kelvin: u16,
    pub brightness: u16,
}

impl Hsbk {
    pub fn new(hue: u16, saturation: u16, brightness: u16, kelvin: u16) -> (r: Hsbk)
        ensures
            r == (Hsbk { hue, saturation, brightness, kelvin }),
    {
        Hsbk { hue, saturation, brightness, kelvin }
    }

    /// The same color as a [`LifxColor`].
    pub fn to_lifx_color(&self) -> (r: LifxColor)
        ensures
            r == self.spec_lifx_color(),
    {
        LifxColor {
            hue: self.hue,
            saturation: self.saturation,
            kelvin: self.kelvin,
            brightness: self.brightness,
        }
    }

    pub open spec fn spec_lifx_color(self) -> LifxColor {
        LifxColor {
            hue: self.hue,
            saturation: self.saturation,
            kelvin: self.kelvin,
            brightness: self.brightness,
        }
    }
}

/// The color that a request starts from for a bulb: the bulb's last
/// reported color, or hue 0, saturation 0, full brightness and 6500 K when
/// the bulb has reported none.
pub open spec fn spec_base_color(reported: Option<LifxColor>) -> Hsbk {
    match reported {
        Some(c) => Hsbk {
            hue: c.hue,
            saturation: c.saturation,
            brightness: c.brightness,
            kelvin: c.kelvin,
        },
        None => Hsbk { hue: 0, saturation: 0, brightness: 65535, kelvin: 6500 },
    }
}

pub fn base_color(reported: Option<LifxColor>) -> (r: Hsbk)
    ensures
        r == spec_base_color(reported),
{
    match reported {
        Some(c) => Hsbk {
            hue: c.hue,
            saturation: c.saturation,
            brightness: c.brightness,
            kelvin: c.kelvin,
        },
        None => Hsbk { hue: 0, saturation: 0, brightness: 65535, kelvin: 6500 },
    }
}

/// The color names a request may hold, in the order in which they are
/// applied, with the hue and saturation each one sets.
pub open spec fn named_colors() -> Seq<(Seq<char>, u16, u16)> {
    seq![
        (seq!['w', 'h', 'i', 't', 'e'], 0u16, 0u16),
        (seq!['r', 'e', 'd'], 0u16, 65535u16),
        (seq!['o', 'r', 'a', 'n', 'g', 'e'], 7098u16, 65535u16),
        (seq!['y', 'e', 'l', 'l', 'o', 'w'], 10920u16, 65535u16),
        (seq!['c', 'y', 'a', 'n'], 32760u16, 65535u16),
        (seq!['g', 'r', 'e', 'e', 'n'], 21840u16, 65535u16),
        (seq!['b', 'l', 'u', 'e'], 43680u16, 65535u16),
        (seq!['p', 'u', 'r', 'p', 'l', 'e'], 50050u16, 65535u16),
        (seq!['p', 'i', 'n', 'k'], 63700u16, 25000u16),
    ]
}

fn named_colors_exec() -> (r: Vec<(Vec<char>, u16, u16)>)
    ensures
        r@.len() == named_colors().len(),
        forall|i: int|
            0 <= i < r@.len() ==> (#[trigger] r@[i]).0@ == named_colors()[i].0 && r@[i].1
                == named_colors()[i].1 && r@[i].2 == named_colors()[i].2,
{
    let mut r: Vec<(Vec<char>, u16, u16)> = Vec::new();
    r.push((vec!['w', 'h', 'i', 't', 'e'], 0, 0));
    r.push((vec!['r', 'e', 'd'], 0, 65535));
    r.push((vec!['o', 'r', 'a', 'n', 'g', 'e'], 7098, 65535));
    r.push((vec!['y', 'e', 'l', 'l', 'o', 'w'], 10920, 65535));
    r.push((vec!['c', 'y', 'a', 'n'], 32760, 65535));
    r.push((vec!['g', 'r', 'e', 'e', 'n'], 21840, 65535));
    r.push((vec!['b', 'l', 'u', 'e'], 43680, 65535));
    r.push((vec!['p', 'u', 'r', 'p', 'l', 'e'], 50050, 65535));
    r.push((vec!['p', 'i', 'n', 'k'], 63700, 25000));
    assert forall|i: int| 0 <= i < r@.len() implies (#[trigger] r@[i]).0@ == named_colors()[i].0
        by {
        assert(r@[0].0@ =~= named_colors()[0].0);
        assert(r@[1].0@ =~= named_colors()[1].0);
        assert(r@[2].0@ =~= named_colors()[2].0);
        assert(r@[3].0@ =~= named_colors()[3].0);
        assert(r@[4].0@ =~= named_colors()[4].0);
        assert(r@[5].0@ =~= named_colors()[5].0);
        assert(r@[6].0@ =~= named_colors()[6].0);
        assert(r@[7].0@ =~= named_colors()[7].0);
        assert(r@[8].0@ =~= named_colors()[8].0);
    }
    r
}

/// The (hue, saturation) pairs of the first `n` named colors that occur in
/// `cc`, in table order.
pub open spec fn named_in(cc: Seq<char>, n: nat) -> Seq<(u16, u16)>
    decreases n,
{
    if n == 0 {
        Seq::empty()
    } else {
        let e = named_colors()[n - 1];
        let before = named_in(cc, (n - 1) as nat);
        if contains(cc, e.0) {
            before.push((e.1, e.2))
        } else {
            before
        }
    }
}

pub open spec fn pat_hue() -> Seq<char> {
    seq!['h', 'u', 'e', ':']
}

pub open spec fn pat_saturation() -> Seq<char> {
    seq!['s', 'a', 't', 'u', 'r', 'a', 't', 'i', 'o', 'n', ':']
}

pub open spec fn pat_brightness() -> Seq<char> {
    seq!['b', 'r', 'i', 'g', 'h', 't', 'n', 'e', 's', 's', ':']
}

pub open spec fn pat_kelvin() -> Seq<char> {
    seq!['k', 'e', 'l', 'v', 'i', 'n', ':']
}

pub open spec fn pat_rgb() -> Seq<char> {
    seq!['r', 'g', 'b', ':']
}

pub open spec fn pat_hex() -> Seq<char> {
    seq!['#']
}

/// Red, green and blue components as written in a request.
#[derive(Clone, Copy, Debug, PartialEq, Eq, Structural)]
pub struct Rgb {
    pub red: i64,
    pub green: i64,
    pub blue: i64,
}

/// A `color` request string, read: what each of its parts asks for.
///
/// Fractions (`saturation:`, `brightness:`) and hexadecimal colors are kept
/// as text, since they are read as floating-point numbers.
pub struct ColorRequest {
    /// (hue, saturation) of each named color the string holds, in the order
    /// in which they are applied.
    pub named: Vec<(u16, u16)>,
    /// The hue after `hue:`.
    pub hue: Option<u16>,
    /// The text after `saturation:`.
    pub saturation: Option<String>,
    /// The text after `brightness:`.
    pub brightness: Option<String>,
    /// The color temperature after `kelvin:`.
    pub kelvin: Option<u16>,
    /// Red, green and blue after `rgb:`.
    pub rgb: Option<Rgb>,
    /// The text after `#`.
    pub hex: Option<String>,
}

/// The integer that the piece after `pat` spells as a `u16`, where `pat`
/// occurs; `None` inside when it does not spell one.
pub open spec fn spec_u16_after(cc: Seq<char>, pat: Seq<char>) -> Option<Option<u16>> {
    match piece_after(cc, pat) {
        Some(p) => Some(spec_parse_u16(p)),
        None => None,
    }
}

/// The three comma-separated integers after `rgb:`, where `rgb:` occurs;
/// `None` inside when there are fewer than three or one is not an `i64`.
pub open spec fn spec_rgb_after(cc: Seq<char>) -> Option<Option<Rgb>> {
    match piece_after(cc, pat_rgb()) {
        None => None,
        Some(p) => Some(
            match (field(p, ',', 0), field(p, ',', 1), field(p, ',', 2)) {
                (Some(r), Some(g), Some(b)) => match (
                    spec_parse_i64(r),
                    spec_parse_i64(g),
                    spec_parse_i64(b),
                ) {
                    (Some(red), Some(green), Some(blue)) => Some(Rgb { red, green, blue }),
                    _ => None,
                },
                _ => None,
            },
        ),
    }
}

/// Whether every integer part of `cc` reads: the hue and kelvin pieces as
/// `u16`, the `rgb:` piece as three `i64`.
pub open spec fn color_integers_read(cc: Seq<char>) -> bool {
    &&& !(spec_u16_after(cc, pat_hue()) matches Some(None))
    &&& !(spec_u16_after(cc, pat_kelvin()) matches Some(None))
    &&& !(spec_rgb_after(cc) matches Some(None))
}

pub open spec fn flatten_u16(o: Option<Option<u16>>) -> Option<u16> {
    match o {
        Some(Some(v)) => Some(v),
        _ => None,
    }
}

/// `r` is the reading of the color string `cc`.
pub open spec fn is_reading_of(r: ColorRequest, cc: Seq<char>) -> bool {
    &&& r.named@ == named_in(cc, 9)
    &&& r.hue == flatten_u16(spec_u16_after(cc, pat_hue()))
    &&& opt_string_view(r.saturation) == piece_after(cc, pat_saturation())
    &&& opt_string_view(r.brightness) == piece_after(cc, pat_brightness())
    &&& r.kelvin == flatten_u16(spec_u16_after(cc, pat_kelvin()))
    &&& r.rgb == match spec_rgb_after(cc) {
        Some(Some(t)) => Some(t),
        _ => None,
    }
    &&& opt_string_view(r.hex) == piece_after(cc, pat_hex())
}

fn piece_text(cc: &[char], pat: &[char]) -> (r: Option<String>)
    ensures
        opt_string_view(r) == piece_after(cc@, pat@),
{
    match piece_after_exec(cc, pat) {
        Some(p) => Some(string_from_chars(p.as_slice())),
        None => None,
    }
}

fn u16_after(cc: &[char], pat: &[char]) -> (r: Option<Option<u16>>)
    ensures
        r == spec_u16_after(cc@, pat@),
{
    match piece_after_exec(cc, pat) {
        Some(p) => Some(parse_u16(p.as_slice())),
        None => None,
    }
}

fn rgb_after(cc: &[char]) -> (r: Option<Option<Rgb>>)
    ensures
        r == spec_rgb_after(cc@),
{
    let pat: Vec<char> = vec!['r', 'g', 'b', ':'];
    assert(pat@ =~= pat_rgb());
    match piece_after_exec(cc, pat.as_slice()) {
        None => None,
        Some(p) => {
            let r = field_exec(p.as_slice(), ',', 0);
            let g = field_exec(p.as_slice(), ',', 1);
            let b = field_exec(p.as_slice(), ',', 2);
            match (r, g, b) {
                (Some(r), Some(g), Some(b)) => match (
                    parse_i64(r.as_slice()),
                    parse_i64(g.as_slice()),
                    parse_i64(b.as_slice()),
                ) {
                    (Some(red), Some(green), Some(blue)) => Some(Some(Rgb { red, green, blue })),
                    _ => Some(None),
                },
                _ => Some(None),
            }
        },
    }
}

/// Reads a `color` request string. `None` exactly when one of its integer
/// parts (after `hue:`, `kelvin:` or `rgb:`) does not read as an integer of
/// its type.
pub fn parse_color(cc: &str) -> (r: Option<ColorRequest>)
    ensures
        r is Some <==> color_integers_read(cc@),
        r matches Some(req) ==> is_reading_of(req, cc@),
{
    let s = chars_of(cc);
    let table = named_colors_exec();
    let mut named: Vec<(u16, u16)> = Vec::new();
    let mut i: usize = 0;
    while i < table.len()
        invariant
            i <= table@.len(),
            table@.len() == named_colors().len(),
            forall|k: int|
                0 <= k < table@.len() ==> (#[trigger] table@[k]).0@ == named_colors()[k].0
                    && table@[k].1 == named_colors()[k].1 && table@[k].2 == named_colors()[k].2,
            named@ == named_in(s@, i as nat),
        decreases table.len() - i,
    {
        if contains_exec(s.as_slice(), table[i].0.as_slice()) {
            named.push((table[i].1, table[i].2));
        }
        i = i + 1;
    }
    let p_hue: Vec<char> = vec!['h', 'u', 'e', ':'];
    let p_sat: Vec<char> = vec!['s', 'a', 't', 'u', 'r', 'a', 't', 'i', 'o', 'n', ':'];
    let p_bri: Vec<char> = vec!['b', 'r', 'i', 'g', 'h', 't', 'n', 'e', 's', 's', ':'];
    let p_kel: Vec<char> = vec!['k', 'e', 'l', 'v', 'i', 'n', ':'];
    let p_hex: Vec<char> = vec!['#'];
    assert(p_hue@ =~= pat_hue());
    assert(p_sat@ =~= pat_saturation());
    assert(p_bri@ =~= pat_brightness());
    assert(p_kel@ =~= pat_kelvin());
    assert(p_hex@ =~= pat_hex());
    let hue = u16_after(s.as_slice(), p_hue.as_slice());
    let kelvin = u16_after(s.as_slice(), p_kel.as_slice());
    let rgb = rgb_after(s.as_slice());
    let hue = match hue {
        Some(None) => {
            return None;
        },
        Some(Some(v)) => Some(v),
        None => None,
    };
    let kelvin = match kelvin {
        Some(None) => {
            return None;
        },
        Some(Some(v)) => Some(v),
        None => None,
    };
    let rgb = match rgb {
        Some(None) => {
            return None;
        },
        Some(Some(t)) => Some(t),
        None => None,
    };
    Some(
        ColorRequest {
            named,
            hue,
            saturation: piece_text(s.as_slice(), p_sat.as_slice()),
            brightness: piece_text(s.as_slice(), p_bri.as_slice()),
            kelvin,
            rgb,
            hex: piece_text(s.as_slice(), p_hex.as_slice()),
        },
    )
}

/// One color change that a request makes on a bulb.
///
/// The variants other than `Exact` finish the color from a part of the
/// request that is read as floating point: the saturation or brightness
/// fraction, the `rgb:` triple converted to hue and saturation, or the
/// hexadecimal color converted likewise. Each carries the color that the
/// change starts from.
#[derive(Clone, Copy, Debug, PartialEq, Eq, Structural)]
pub enum ColorStep {
    Exact(Hsbk),
    Saturation(Hsbk),
    Brightness(Hsbk),
    Rgb(Hsbk, Rgb),
    Hex(Hsbk),
}

pub open spec fn named_steps(named: Seq<(u16, u16)>, base: Hsbk) -> Seq<ColorStep> {
    named.map_values(
        |e: (u16, u16)|
            ColorStep::Exact(
                Hsbk { hue: e.0, saturation: e.1, brightness: base.brightness, kelvin: base.kelvin },
            ),
    )
}

pub open spec fn opt_step(present: bool, step: ColorStep) -> Seq<ColorStep> {
    if present {
        seq![step]
    } else {
        Seq::empty()
    }
}

/// The color changes that the request `r` makes on a bulb whose color
/// starts as `base`, in the order in which they are sent.
pub open spec fn spec_color_steps(r: ColorRequest, base: Hsbk) -> Seq<ColorStep> {
    named_steps(r.named@, base) + opt_step(
        r.hue is Some,
        ColorStep::Exact(Hsbk { hue: r.hue->0, ..base }),
    ) + opt_step(r.saturation is Some, ColorStep::Saturation(base)) + opt_step(
        r.brightness is Some,
        ColorStep::Brightness(base),
    ) + opt_step(
        r.kelvin is Some,
        ColorStep::Exact(Hsbk { saturation: 0, kelvin: r.kelvin->0, ..base }),
    ) + opt_step(
        r.rgb is Some,
        ColorStep::Rgb(base, r.rgb->0),
    ) + opt_step(r.hex is Some, ColorStep::Hex(base))
}

/// Each named color in a request sets that color's hue and saturation and
/// keeps the bulb's brightness and color temperature; the named colors come
/// first, in table order.
pub proof fn lemma_named_colors_keep_brightness(r: ColorRequest, base: Hsbk)
    ensures
        forall|i: int|
            0 <= i < r.named@.len() ==> #[trigger] spec_color_steps(r, base)[i] == ColorStep::Exact(
                Hsbk {
                    hue: r.named@[i].0,
                    saturation: r.named@[i].1,
                    brightness: base.brightness,
                    kelvin: base.kelvin,
                },
            ),
{
    let n = named_steps(r.named@, base);
    let c1 = n + opt_step(r.hue is Some, ColorStep::Exact(Hsbk { hue: r.hue->0, ..base }));
    let c2 = c1 + opt_step(r.saturation is Some, ColorStep::Saturation(base));
    let c3 = c2 + opt_step(r.brightness is Some, ColorStep::Brightness(base));
    let c4 = c3 + opt_step(
        r.kelvin is Some,
        ColorStep::Exact(Hsbk { saturation: 0, kelvin: r.kelvin->0, ..base }),
    );
    let c5 = c4 + opt_step(r.rgb is Some, ColorStep::Rgb(base, r.rgb->0));
    let c6 = c5 + opt_step(r.hex is Some, ColorStep::Hex(base));
    assert(spec_color_steps(r, base) == c6);
    assert forall|i: int| 0 <= i < r.named@.len() implies #[trigger] spec_color_steps(r, base)[i]
        == n[i] by {
        assert(c6[i] == c5[i]);
        assert(c5[i] == c4[i]);
        assert(c4[i] == c3[i]);
        assert(c3[i] == c2[i]);
        assert(c2[i] == c1[i]);
        assert(c1[i] == n[i]);
    }
}

/// A request's saturation fraction becomes a saturation change, and its
/// brightness fraction a brightness change, each starting from the bulb's
/// color: the changes hold a `Saturation` step exactly when the request has
/// a saturation part, and a `Brightness` step exactly when it has a
/// brightness part. A request whose only part is one of these fractions
/// makes that one change and nothing else.
pub proof fn lemma_fraction_steps(r: ColorRequest, base: Hsbk)
    ensures
        spec_color_steps(r, base).contains(ColorStep::Saturation(base)) <==> r.saturation is Some,
        spec_color_steps(r, base).contains(ColorStep::Brightness(base)) <==> r.brightness is Some,
        r.named@.len() == 0 && r.hue is None && r.brightness is None && r.kelvin is None && r.rgb is None
            && r.hex is None && r.saturation is Some ==> spec_color_steps(r, base) == seq![
            ColorStep::Saturation(base),
        ],
        r.named@.len() == 0 && r.hue is None && r.saturation is None && r.kelvin is None && r.rgb is None
            && r.hex is None && r.brightness is Some ==> spec_color_steps(r, base) == seq![
            ColorStep::Brightness(base),
        ],
{
    let n = named_steps(r.named@, base);
    let p1 = opt_step(r.hue is Some, ColorStep::Exact(Hsbk { hue: r.hue->0, ..base }));
    let p2 = opt_step(r.saturation is Some, ColorStep::Saturation(base));
    let p3 = opt_step(r.brightness is Some, ColorStep::Brightness(base));
    let p4 = opt_step(
        r.kelvin is Some,
        ColorStep::Exact(Hsbk { saturation: 0, kelvin: r.kelvin->0, ..base }),
    );
    let p5 = opt_step(r.rgb is Some, ColorStep::Rgb(base, r.rgb->0));
    let p6 = opt_step(r.hex is Some, ColorStep::Hex(base));
    let all = spec_color_steps(r, base);
    assert(all == n + p1 + p2 + p3 + p4 + p5 + p6);
    let o2: int = (n.len() + p1.len()) as int;
    let o3: int = o2 + p2.len();
    assert forall|i: int| 0 <= i < all.len() implies (all[i] is Saturation <==> (p2.len() == 1
        && i == o2)) && (all[i] is Brightness <==> (p3.len() == 1 && i == o3)) by {
        if i < n.len() {
            assert(all[i] == n[i]);
        } else if i < o2 {
            assert(all[i] == p1[i - n.len()]);
        } else if i < o3 {
            assert(all[i] == p2[i - o2]);
        } else if i < o3 + p3.len() {
            assert(all[i] == p3[i - o3]);
        } else if i < o3 + p3.len() + p4.len() {
            assert(all[i] == p4[i - o3 - p3.len()]);
        } else if i < o3 + p3.len() + p4.len() + p5.len() {
            assert(all[i] == p5[i - o3 - p3.len() - p4.len()]);
        } else {
            assert(all[i] == p6[i - o3 - p3.len() - p4.len() - p5.len()]);
        }
    }
    if r.saturation is Some {
        assert(all[o2] == ColorStep::Saturation(base));
    }
    if r.brightness is Some {
        assert(all[o3] == ColorStep::Brightness(base));
    }
    if r.named@.len() == 0 {
        assert(n =~= Seq::<ColorStep>::empty());
    }
}

/// `cc` holds the color name `name` and no other name of the table.
pub open spec fn names_only(cc: Seq<char>, name: Seq<char>) -> bool {
    &&& contains(cc, name)
    &&& forall|j: int|
        0 <= j < named_colors().len() && named_colors()[j].0 != name ==> !contains(
            cc,
            #[trigger] named_colors()[j].0,
        )
}

proof fn lemma_names_distinct()
    ensures
        forall|i: int, j: int|
            0 <= i < 9 && 0 <= j < 9 && i != j ==> #[trigger] named_colors()[i].0
                != #[trigger] named_colors()[j].0,
{
    let n = named_colors();
    assert(n[0].0.len() == 5 && n[0].0[0] == 'w');
    assert(n[1].0.len() == 3 && n[1].0[0] == 'r');
    assert(n[2].0.len() == 6 && n[2].0[0] == 'o');
    assert(n[3].0.len() == 6 && n[3].0[0] == 'y');
    assert(n[4].0.len() == 4 && n[4].0[0] == 'c');
    assert(n[5].0.len() == 5 && n[5].0[0] == 'g');
    assert(n[6].0.len() == 4 && n[6].0[0] == 'b');
    assert(n[7].0.len() == 6 && n[7].0[0] == 'p');
    assert(n[8].0.len() == 4 && n[8].0[0] == 'p');
    assert forall|i: int, j: int| 0 <= i < 9 && 0 <= j < 9 && i != j implies #[trigger] n[i].0
        != #[trigger] n[j].0 by {
        if n[i].0 == n[j].0 {
            assert(n[i].0.len() == n[j].0.len());
            assert(n[i].0[0] == n[j].0[0]);
            assert(i == 0 || i == 1 || i == 2 || i == 3 || i == 4 || i == 5 || i == 6 || i == 7
                || i == 8);
            assert(j == 0 || j == 1 || j == 2 || j == 3 || j == 4 || j == 5 || j == 6 || j == 7
                || j == 8);
            if i == 7 || j == 7 {
                assert(n[7].0[1] == 'u' && n[8].0[1] == 'i');
                assert(n[i].0[1] == n[j].0[1]);
            }
        }
    }
}

proof fn lemma_single_name(cc: Seq<char>, k: int)
    requires
        0 <= k < 9,
        names_only(cc, named_colors()[k].0),
    ensures
        named_in(cc, 9) == seq![(named_colors()[k].1, named_colors()[k].2)],
{
    lemma_names_distinct();
    let n = named_colors();
    assert forall|j: int| 0 <= j < 9 && j != k implies !contains(cc, #[trigger] n[j].0) by {
        assert(n[j].0 != n[k].0);
    }
    reveal_with_fuel(named_in, 10);
    assert(named_in(cc, 9) =~= seq![(n[k].1, n[k].2)]);
}

/// A color string that names exactly one color of the table reads as that
/// color's hue and saturation: white (0, 0), red (0, 65535), orange (7098,
/// 65535), yellow (10920, 65535), cyan (32760, 65535), green (21840,
/// 65535), blue (43680, 65535), purple (50050, 65535), pink (63700, 25000).
pub proof fn lemma_single_named_colors(r: ColorRequest, cc: Seq<char>)
    requires
        is_reading_of(r, cc),
    ensures
        names_only(cc, seq!['w', 'h', 'i', 't', 'e']) ==> r.named@ == seq![(0u16, 0u16)],
        names_only(cc, seq!['r', 'e', 'd']) ==> r.named@ == seq![(0u16, 65535u16)],
        names_only(cc, seq!['o', 'r', 'a', 'n', 'g', 'e']) ==> r.named@ == seq![(7098u16, 65535u16)],
        names_only(cc, seq!['y', 'e', 'l', 'l', 'o', 'w']) ==> r.named@ == seq![(10920u16, 65535u16)],
        names_only(cc, seq!['c', 'y', 'a', 'n']) ==> r.named@ == seq![(32760u16, 65535u16)],
        names_only(cc, seq!['g', 'r', 'e', 'e', 'n']) ==> r.named@ == seq![(21840u16, 65535u16)],
        names_only(cc, seq!['b', 'l', 'u', 'e']) ==> r.named@ == seq![(43680u16, 65535u16)],
        names_only(cc, seq!['p', 'u', 'r', 'p', 'l', 'e']) ==> r.named@ == seq![(50050u16, 65535u16)],
        names_only(cc, seq!['p', 'i', 'n', 'k']) ==> r.named@ == seq![(63700u16, 25000u16)],
{
    let n = named_colors();
    assert(n[0].0 =~= seq!['w', 'h', 'i', 't', 'e']);
    assert(n[1].0 =~= seq!['r', 'e', 'd']);
    assert(n[2].0 =~= seq!['o', 'r', 'a', 'n', 'g', 'e']);
    assert(n[3].0 =~= seq!['y', 'e', 'l', 'l', 'o', 'w']);
    assert(n[4].0 =~= seq!['c', 'y', 'a', 'n']);
    assert(n[5].0 =~= seq!['g', 'r', 'e', 'e', 'n']);
    assert(n[6].0 =~= seq!['b', 'l', 'u', 'e']);
    assert(n[7].0 =~= seq!['p', 'u', 'r', 'p', 'l', 'e']);
    assert(n[8].0 =~= seq!['p', 'i', 'n', 'k']);
    if names_only(cc, n[0].0) { lemma_single_name(cc, 0); }
    if names_only(cc, n[1].0) { lemma_single_name(cc, 1); }
    if names_only(cc, n[2].0) { lemma_single_name(cc, 2); }
    if names_only(cc, n[3].0) { lemma_single_name(cc, 3); }
    if names_only(cc, n[4].0) { lemma_single_name(cc, 4); }
    if names_only(cc, n[5].0) { lemma_single_name(cc, 5); }
    if names_only(cc, n[6].0) { lemma_single_name(cc, 6); }
    if names_only(cc, n[7].0) { lemma_single_name(cc, 7); }
    if names_only(cc, n[8].0) { lemma_single_name(cc, 8); }
}

/// Appends the color changes of `r` for a bulb whose color starts as `base`.
pub fn push_color_steps(r: &ColorRequest, base: Hsbk, out: &mut Vec<ColorStep>)
    ensures
        final(out)@ == old(out)@ + spec_color_steps(*r, base),
{
    let ghost start = out@;
    let mut i: usize = 0;
    while i < r.named.len()
        invariant
            i <= r.named@.len(),
            out@ == start + named_steps(r.named@.take(i as int), base),
        decreases r.named.len() - i,
    {
        let (h, s) = r.named[i];
        out.push(ColorStep::Exact(Hsbk { hue: h, saturation: s, brightness: base.brightness, kelvin: base.kelvin }));
        proof {
            assert(r.named@.take(i + 1) =~= r.named@.take(i as int).push((h, s)));
            assert(named_steps(r.named@.take(i + 1), base) =~= named_steps(
                r.named@.take(i as int),
                base,
            ).push(ColorStep::Exact(Hsbk { hue: h, saturation: s, ..base })));
        }
        i = i + 1;
    }
    assert(r.named@.take(r.named@.len() as int) =~= r.named@);
    let ghost s0 = out@;
    if let Some(h) = r.hue {
        out.push(ColorStep::Exact(Hsbk { hue: h, ..base }));
    }
    let ghost s1 = out@;
    if r.saturation.is_some() {
        out.push(ColorStep::Saturation(base));
    }
    let ghost s2 = out@;
    if r.brightness.is_some() {
        out.push(ColorStep::Brightness(base));
    }
    let ghost s3 = out@;
    if let Some(k) = r.kelvin {
        out.push(ColorStep::Exact(Hsbk { saturation: 0, kelvin: k, ..base }));
    }
    let ghost s4 = out@;
    if let Some(t) = r.rgb {
        out.push(ColorStep::Rgb(base, t));
    }
    let ghost s5 = out@;
    if r.hex.is_some() {
        out.push(ColorStep::Hex(base));
    }
    assert(out@ =~= old(out)@ + spec_color_steps(*r, base));
}

} // verus!
