use xhttp_tunnel::number::{to_decimal, to_hex};

#[test]
fn decimal_numbers() {
    for n in [0u64, 7, 9, 10, 42, 99, 100, 65535, 8000, u64::MAX] {
        assert_eq!(to_decimal(n), n.to_string());
        assert_eq!(to_decimal(n).parse::<u64>(), Ok(n));
    }
}

#[test]
fn hexadecimal_numbers() {
    for n in [0u64, 1, 9, 10, 15, 16, 255, 256, 4096, 16384, 0xdeadbeef, u64::MAX] {
        assert_eq!(to_hex(n), format!("{:x}", n).into_bytes());
    }
}
