use lifx_api_server::color::{
    base_color, parse_color, push_color_steps, ColorStep, Hsbk, LifxColor, Rgb,
};

#[test]
fn kelvin_request_reads() {
    let r = parse_color("kelvin:9000").unwrap();
    assert!(r.named.is_empty());
    assert_eq!(r.kelvin, Some(9000));
    assert_eq!(r.hue, None);
    assert_eq!(r.rgb, None);
    assert!(r.saturation.is_none() && r.brightness.is_none() && r.hex.is_none());
}

#[test]
fn named_colors_in_table_order() {
    let r = parse_color("blue and white").unwrap();
    assert_eq!(r.named, vec![(0, 0), (43680, 65535)]);
    let r = parse_color("pink").unwrap();
    assert_eq!(r.named, vec![(63700, 25000)]);
    let r = parse_color("orange").unwrap();
    assert_eq!(r.named, vec![(7098, 65535)]);
}

#[test]
fn integer_parts_that_do_not_read() {
    assert!(parse_color("hue:abc").is_none());
    assert!(parse_color("hue:120 saturation:0.5").is_none());
    assert!(parse_color("kelvin:70000").is_none());
    assert!(parse_color("rgb:1,2").is_none());
    assert!(parse_color("rgb:1,x,3").is_none());
}

#[test]
fn rgb_and_text_parts() {
    let r = parse_color("rgb:255,-3,+7,9").unwrap();
    assert_eq!(r.rgb, Some(Rgb { red: 255, green: -3, blue: 7 }));
    let r = parse_color("saturation:0.5").unwrap();
    assert_eq!(r.saturation.as_deref(), Some("0.5"));
    let r = parse_color("brightness:1").unwrap();
    assert_eq!(r.brightness.as_deref(), Some("1"));
    let r = parse_color("#ffcc00").unwrap();
    assert_eq!(r.hex.as_deref(), Some("ffcc00"));
    let r = parse_color("hue:300").unwrap();
    assert_eq!(r.hue, Some(300));
}

#[test]
fn base_color_defaults() {
    assert_eq!(base_color(None), Hsbk { hue: 0, saturation: 0, brightness: 65535, kelvin: 6500 });
    let c = LifxColor { hue: 1, saturation: 2, kelvin: 3, brightness: 4 };
    assert_eq!(base_color(Some(c)), Hsbk { hue: 1, saturation: 2, brightness: 4, kelvin: 3 });
}

#[test]
fn steps_in_order() {
    let base = Hsbk { hue: 10, saturation: 20, brightness: 30, kelvin: 4000 };
    let r = parse_color("red kelvin:9000").unwrap();
    let mut steps = Vec::new();
    push_color_steps(&r, base, &mut steps);
    assert_eq!(
        steps,
        vec![
            ColorStep::Exact(Hsbk { hue: 0, saturation: 65535, brightness: 30, kelvin: 4000 }),
            ColorStep::Exact(Hsbk { hue: 10, saturation: 0, brightness: 30, kelvin: 9000 }),
        ]
    );
    let r = parse_color("hue:5").unwrap();
    let mut steps = Vec::new();
    push_color_steps(&r, base, &mut steps);
    assert_eq!(steps, vec![ColorStep::Exact(Hsbk { hue: 5, ..base })]);
    let r = parse_color("#00ff00 rgb:1,2,3").unwrap();
    let mut steps = Vec::new();
    push_color_steps(&r, base, &mut steps);
    assert_eq!(
        steps,
        vec![ColorStep::Rgb(base, Rgb { red: 1, green: 2, blue: 3 }), ColorStep::Hex(base)]
    );
}

#[test]
fn lifx_color_keeps_fields() {
    let h = Hsbk { hue: 1, saturation: 2, brightness: 3, kelvin: 4 };
    assert_eq!(h.to_lifx_color(), LifxColor { hue: 1, saturation: 2, kelvin: 4, brightness: 3 });
}
