use lc3::sign_extend;

#[test]
fn sign_extend_positive() {
    let x: u16 = 3;
    let value = sign_extend(x, 5);
    assert_eq!(3, value);
}

#[test]
fn sign_extend_negative() {
    let x: i16 = -5;
    let value = sign_extend(x as u16, 5);
    assert_eq!(0xFFFB, value);
}

#[test]
fn sign_extend_all_ones_in_five_bits() {
    assert_eq!(0xFFFF, sign_extend(0b11111, 5));
}

#[test]
fn sign_extend_each_field_width() {
    assert_eq!(0x000F, sign_extend(0x0F, 5));
    assert_eq!(0xFFF0, sign_extend(0x10, 5));
    assert_eq!(0x001F, sign_extend(0x1F, 6));
    assert_eq!(0xFFE0, sign_extend(0x20, 6));
    assert_eq!(0x00FF, sign_extend(0xFF, 9));
    assert_eq!(0xFF00, sign_extend(0x100, 9));
    assert_eq!(0x03FF, sign_extend(0x3FF, 11));
    assert_eq!(0xFC00, sign_extend(0x400, 11));
}
