use lifx_api_server::text::{
    chars_equal, contains_exec, field_exec, find_exec, parse_i64, parse_u16, piece_after_exec,
    push_decimal, remove_all_exec,
};

fn cs(s: &str) -> Vec<char> {
    s.chars().collect()
}

#[test]
fn parse_u16_reads_like_std() {
    for s in ["0", "123", "+5", "65535", "65536", "", "+", "-", "-1", "12a", " 1", "007"] {
        assert_eq!(parse_u16(&cs(s)), s.parse::<u16>().ok(), "input {:?}", s);
    }
}

#[test]
fn parse_i64_reads_like_std() {
    for s in [
        "0",
        "-0",
        "+42",
        "-42",
        "9223372036854775807",
        "9223372036854775808",
        "-9223372036854775808",
        "-9223372036854775809",
        "",
        "-",
        "+",
        "1.5",
        "255",
    ] {
        assert_eq!(parse_i64(&cs(s)), s.parse::<i64>().ok(), "input {:?}", s);
    }
}

#[test]
fn remove_all_matches_std_replace() {
    for (s, p) in [
        ("group_id:abc", "group_id:"),
        ("idid::", "id:"),
        ("aaaa", "aa"),
        ("id:x id:y", "id:"),
        ("nothing", "id:"),
        ("", "id:"),
    ] {
        let r = remove_all_exec(&cs(s), &cs(p));
        assert_eq!(r.into_iter().collect::<String>(), s.replace(p, ""), "input {:?} {:?}", s, p);
    }
}

#[test]
fn contains_and_find() {
    assert!(contains_exec(&cs("color=kelvin:9000"), &cs("kelvin:")));
    assert!(!contains_exec(&cs("kelvin"), &cs("kelvin:")));
    assert!(contains_exec(&cs("abc"), &cs("")));
    assert_eq!(find_exec(&cs("abcabc"), &cs("ca")), Some(2));
    assert_eq!(find_exec(&cs("abc"), &cs("x")), None);
}

#[test]
fn piece_after_is_second_split_piece() {
    for (s, p) in [("hue:120", "hue:"), ("hue:120 hue:5", "hue:"), ("xhue:", "hue:"), ("abc", "hue:")] {
        let ours = piece_after_exec(&cs(s), &cs(p)).map(|v| v.into_iter().collect::<String>());
        let std = s.split(p).nth(1).map(|x| x.to_string());
        assert_eq!(ours, std, "input {:?} {:?}", s, p);
    }
}

#[test]
fn fields_are_split_pieces() {
    for s in ["/v1/lights/all/state", "/v1/lights", "/", "a,b,c", ""] {
        for sep in ['/', ','] {
            for k in 0..6 {
                let ours = field_exec(&cs(s), sep, k).map(|v| v.into_iter().collect::<String>());
                let std = s.split(sep).nth(k).map(|x| x.to_string());
                assert_eq!(ours, std, "input {:?} {:?} {}", s, sep, k);
            }
        }
    }
}

#[test]
fn decimal_of_bytes() {
    for b in [0u8, 7, 10, 99, 100, 255] {
        let mut out = vec!['x'];
        push_decimal(&mut out, b);
        assert_eq!(out.into_iter().collect::<String>(), format!("x{}", b));
    }
}

#[test]
fn equality_and_building() {
    assert!(chars_equal(&cs("on"), &cs("on")));
    assert!(!chars_equal(&cs("on"), &cs("off")));
}
