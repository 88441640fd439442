use mp4_parser::fixed::{Fixed1616, Fixed88};

#[test]
fn fixed_16_16_one() {
    let x = Fixed1616::new(0x0001_0000);
    assert_eq!(x.integer_part(), 1);
    assert_eq!(x.fraction(), 0);
    let value = x.raw as f64 / 65536.0;
    assert!((value - 1.0).abs() < 1e-9);
}

#[test]
fn fixed_16_16_one_and_a_half() {
    let x = Fixed1616::new(0x0001_8000);
    assert_eq!(x.integer_part(), 1);
    assert_eq!(x.fraction(), 0x8000);
    let value = x.raw as f64 / 65536.0;
    assert!((value - 1.5).abs() < 1e-9);
}

#[test]
fn fixed_8_8_one_and_a_half() {
    let x = Fixed88::new(0x0180);
    assert_eq!(x.integer_part(), 1);
    assert_eq!(x.fraction(), 0x80);
    let value = x.raw as f64 / 256.0;
    assert!((value - 1.5).abs() < 1e-9);
}

#[test]
fn fixed_16_16_round_trip_concrete() {
    for raw in [0u32, 1, 0xFFFF, 0x0001_0000, 0x1234_5678, u32::MAX] {
        let x = Fixed1616::new(raw);
        let back = Fixed1616::from_parts(x.integer_part(), x.fraction());
        assert_eq!(back, x);
        let value = raw as f64 / 65536.0;
        let re = (back.integer_part() as f64) + (back.fraction() as f64) / 65536.0;
        assert!((value - re).abs() < 1e-9);
    }
}

#[test]
fn fixed_8_8_round_trip_concrete() {
    for raw in [0u16, 1, 0xFF, 0x0100, 0x1234, u16::MAX] {
        let x = Fixed88::new(raw);
        let back = Fixed88::from_parts(x.integer_part(), x.fraction());
        assert_eq!(back, x);
    }
}

#[test]
fn fixed_16_16_encode_then_decode() {
    let x = Fixed1616::from_parts(44100, 0);
    assert_eq!(x.integer_part(), 44100);
    assert_eq!(x.fraction(), 0);
    assert_eq!(x.raw, 44100 << 16);
}
