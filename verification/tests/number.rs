use fy_classifier::number::{digit_of, parse_u16, push_decimal};

#[test]
fn digits_and_their_values() {
    let digits = ['0', '1', '2', '3', '4', '5', '6', '7', '8', '9'];
    for (value, c) in digits.iter().enumerate() {
        assert_eq!(digit_of(*c), Some(value as u16));
    }
    for c in ['/', ':', 'a', 'F', '+', '-', ' ', '٣', '３', '\0'] {
        assert_eq!(digit_of(c), None);
    }
}

#[test]
fn parse_exact_values() {
    assert_eq!(parse_u16("0"), Some(0));
    assert_eq!(parse_u16("7"), Some(7));
    assert_eq!(parse_u16("21"), Some(21));
    assert_eq!(parse_u16("2022"), Some(2022));
    assert_eq!(parse_u16("0007"), Some(7));
    assert_eq!(parse_u16("+42"), Some(42));
    assert_eq!(parse_u16("65535"), Some(65535));
    assert_eq!(parse_u16("0000065535"), Some(65535));
}

#[test]
fn parse_refuses_what_is_no_number() {
    for s in ["", "+", "-", "-1", "--1", "++1", "+-1", "1+", " 1", "1 ", "1_0", "0x10", "1e3", "abcd", "１２"] {
        assert_eq!(parse_u16(s), None);
    }
}

#[test]
fn parse_refuses_what_does_not_fit() {
    for s in ["65536", "65540", "70000", "99999", "100000", "+65536", "18446744073709551616"] {
        assert_eq!(parse_u16(s), None);
    }
}

#[test]
fn parse_agrees_with_the_standard_library_on_every_value() {
    for n in 0u32..=70000 {
        let plain = n.to_string();
        assert_eq!(parse_u16(&plain), plain.parse::<u16>().ok());
        let signed = format!("+{}", n);
        assert_eq!(parse_u16(&signed), signed.parse::<u16>().ok());
        let padded = format!("{:07}", n);
        assert_eq!(parse_u16(&padded), padded.parse::<u16>().ok());
    }
}

#[test]
fn parse_agrees_with_the_standard_library_on_short_strings() {
    let alphabet = ['0', '1', '6', '9', '+', '-', ' ', 'a', '_', '٣'];
    let mut strings: Vec<String> = vec![String::new()];
    let mut from = 0;
    for _ in 0..5 {
        let to = strings.len();
        for i in from..to {
            for c in alphabet {
                let mut s = strings[i].clone();
                s.push(c);
                strings.push(s);
            }
        }
        from = to;
    }
    assert_eq!(strings.len(), 111_111);
    for s in &strings {
        assert_eq!(parse_u16(s), s.parse::<u16>().ok());
    }
}

#[test]
fn push_decimal_writes_behind_what_is_there() {
    let mut out = String::from("FY");
    push_decimal(0, &mut out);
    assert_eq!(out, "FY0");
    push_decimal(2021, &mut out);
    assert_eq!(out, "FY02021");
    push_decimal(65535, &mut out);
    assert_eq!(out, "FY0202165535");
}

#[test]
fn push_decimal_agrees_with_formatting() {
    for n in 0u16..=u16::MAX {
        let mut out = String::new();
        push_decimal(n, &mut out);
        assert_eq!(out, n.to_string());
        assert_eq!(parse_u16(&out), Some(n));
    }
}
