use hbb_common::numeric::{byte_to_g, i32_to_decimal, kb_to_g, parse_i32};

fn float_bytes(byte: u64) -> i32 {
    let calc = 1024.0f64.powi(3);
    (byte as f64 / calc) as i32
}

fn float_kb(kb: u64) -> i32 {
    (kb as f64 / 1048576.0) as i32
}

fn samples() -> Vec<u64> {
    let mut v = vec![
        0,
        1,
        1023,
        1 << 20,
        (1 << 30) - 1,
        1 << 30,
        (1 << 30) + 1,
        3 * (1 << 30) - 1,
        500_000_000_000,
        (1 << 53) - 1,
        1 << 53,
        (1 << 53) + 1,
        (1 << 53) + 3,
        (1 << 54) + 2,
        (1 << 54) + 6,
        (1u64 << 60) - 1,
        (1u64 << 61) - 1,
        (1u64 << 61) + (1 << 30),
        u64::MAX - 1,
        u64::MAX,
    ];
    let mut x: u64 = 0x9e37_79b9_7f4a_7c15;
    for _ in 0..2000 {
        x = x.wrapping_mul(6364136223846793005).wrapping_add(1442695040888963407);
        v.push(x >> (x % 64));
        v.push(((x >> 20) << 30) - 1);
    }
    v
}

#[test]
fn byte_to_g_matches_float_division() {
    for x in samples() {
        assert_eq!(byte_to_g(x), float_bytes(x), "bytes {}", x);
    }
}

#[test]
fn kb_to_g_matches_float_division() {
    for x in samples() {
        assert_eq!(kb_to_g(x), float_kb(x), "kilobytes {}", x);
    }
}

#[test]
fn gigabyte_examples() {
    assert_eq!(byte_to_g(0), 0);
    assert_eq!(byte_to_g(1 << 30), 1);
    assert_eq!(byte_to_g(3 * (1 << 30) - 1), 2);
    assert_eq!(byte_to_g((1u64 << 62) - 1), i32::MAX);
    assert_eq!(kb_to_g(16 * 1048576), 16);
    assert_eq!(kb_to_g(u64::MAX), i32::MAX);
}

#[test]
fn byte_to_g_rounds_like_f64_near_a_gigabyte_boundary() {
    // 2^58 - 1 is not an f64; it rounds up to 2^58, a whole number of gigabytes.
    let x: u64 = (1 << 58) - 1;
    assert_eq!(byte_to_g(x), 1 << 28);
    assert_eq!(byte_to_g(x), float_bytes(x));
}

#[test]
fn decimal_text_matches_to_string() {
    let values = [0, 1, -1, 9, 10, 99, 100, -100, 9999, 12345, i32::MAX, i32::MIN, i32::MIN + 1];
    for v in values {
        assert_eq!(i32_to_decimal(v), v.to_string());
    }
    for v in (-5000..5000).step_by(7) {
        assert_eq!(i32_to_decimal(v), v.to_string());
    }
}

#[test]
fn parse_matches_std() {
    let texts = [
        "", "0", "-0", "+0", "+", "-", "42", "-42", "+42", "007", "2147483647", "2147483648",
        "-2147483648", "-2147483649", "99999999999", "1 ", " 1", "1a", "a1", "--1", "+-1", "null",
        "80", "３", "1.5",
    ];
    for t in texts {
        assert_eq!(parse_i32(t), t.parse::<i32>().ok(), "text {:?}", t);
    }
}

#[test]
fn decimal_round_trip() {
    for v in [0, 5, -5, 1000, i32::MAX, i32::MIN] {
        assert_eq!(parse_i32(&i32_to_decimal(v)), Some(v));
    }
}
