use upscale_pipeline::number::{parse_i32, parse_u32, push_decimal, push_signed_decimal};

fn chars(s: &str) -> Vec<char> {
    s.chars().collect()
}

fn dec(n: u64) -> String {
    let mut v = Vec::new();
    push_decimal(&mut v, n);
    v.into_iter().collect()
}

#[test]
fn decimal_rendering() {
    assert_eq!(dec(0), "0");
    assert_eq!(dec(7), "7");
    assert_eq!(dec(1234), "1234");
    assert_eq!(dec(u64::MAX), u64::MAX.to_string());
    let mut v = vec!['x'];
    push_decimal(&mut v, 10);
    assert_eq!(v, vec!['x', '1', '0']);
}

#[test]
fn signed_decimal_rendering() {
    for n in [0, -45, 45, i32::MIN, i32::MAX, -1] {
        let mut v = Vec::new();
        push_signed_decimal(&mut v, n);
        assert_eq!(v.into_iter().collect::<String>(), n.to_string());
    }
}

#[test]
fn parse_u32_as_std() {
    for s in ["0", "+7", "4294967295", "4294967296", "-1", "", "+", "0004", "12a", " 1", "99999999999999999999", "+-1", "١٢"] {
        assert_eq!(parse_u32(&chars(s)), s.parse::<u32>().ok(), "{:?}", s);
    }
}

#[test]
fn parse_i32_as_std() {
    for s in ["-2147483648", "2147483647", "2147483648", "-2147483649", "-0", "-", "+5", "", "--1", "7 ", "00012"] {
        assert_eq!(parse_i32(&chars(s)), s.parse::<i32>().ok(), "{:?}", s);
    }
}

#[test]
fn decimal_reads_back() {
    for n in [0u32, 9, 10, 480, 1920, u32::MAX] {
        assert_eq!(parse_u32(&chars(&dec(n as u64))), Some(n));
    }
}

#[test]
fn distinct_numbers_render_distinctly() {
    assert_ne!(dec(1), dec(10));
    assert_ne!(dec(12), dec(21));
}
