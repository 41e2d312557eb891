use dvb_bch::config::{Framesize, Modcod, RolloffFactor, VlsnrHeader};
use dvb_bch::poly::{poly_mult, poly_pack};
use dvb_bch::shift_reg::ShiftReg;

#[test]
fn mult_small_products() {
    // (1 + x)^2 = 1 + x^2 over GF(2)
    assert_eq!(poly_mult(&[1, 1], &[1, 1]), vec![1, 0, 1]);
    // (1 + x)(1 + x + x^2) = 1 + x^3
    assert_eq!(poly_mult(&[1, 1], &[1, 1, 1]), vec![1, 0, 0, 1]);
    // x * x^2 = x^3
    assert_eq!(poly_mult(&[0, 1], &[0, 0, 1]), vec![0, 0, 0, 1]);
}

#[test]
fn mult_trims_trailing_zeros() {
    assert_eq!(poly_mult(&[1, 0, 0], &[1, 0]), vec![1]);
    assert_eq!(poly_mult(&[0, 0], &[1, 1]), Vec::<u8>::new());
    assert_eq!(poly_mult(&[], &[1, 1]), Vec::<u8>::new());
}

#[test]
fn pack_msb_first() {
    let mut c = vec![0u8; 33];
    c[0] = 1;
    c[31] = 1;
    c[32] = 1;
    assert_eq!(poly_pack(c), vec![0x8000_0001, 0x8000_0000]);
    assert_eq!(poly_pack(vec![1, 1, 0, 1]), vec![0xD000_0000]);
    assert_eq!(poly_pack(vec![]), Vec::<u32>::new());
    assert_eq!(poly_pack(vec![0; 64]), vec![0, 0]);
}

#[test]
fn shift_reg_operations() {
    let mut reg = ShiftReg::new(2);
    assert_eq!(reg.peek(), 0);
    reg.xor(&[0x0000_0001, 0x8000_0001]);
    assert_eq!(reg.peek(), 0x8000_0001);
    reg.shift();
    // bit 31 of word 0 moves into bit 0 of word 1
    assert_eq!(reg.peek(), 0xC000_0000);
    reg.xor(&[0x0000_0000]);
    assert_eq!(reg.peek(), 0xC000_0000);
    for _ in 0..31 {
        reg.shift();
    }
    assert_eq!(reg.peek(), 1);
    reg.shift();
    assert_eq!(reg.peek(), 0);
}

#[test]
fn frame_sizes() {
    assert_eq!(Framesize::Normal.frame_size(), 64800);
    assert_eq!(Framesize::Short.frame_size(), 16200);
    assert_eq!(Framesize::Medium.frame_size(), 32400);
}

#[test]
fn signalling_values() {
    assert_eq!(Modcod::McDummy.value(), 0);
    assert_eq!(Modcod::Mc32apsk9_10S.value(), 57);
    assert_eq!(Modcod::McVlsnrSet1.value(), 0x40);
    assert_eq!(Modcod::McQpsk13_45.value(), 0x42);
    assert_eq!(Modcod::McQpsk9_20.value(), 0x43);
    assert_eq!(VlsnrHeader::ShortBpskSf2_11_45.value(), 5);
    assert_eq!(VlsnrHeader::ShortBpsk1_5.value(), 9);
    assert_eq!(VlsnrHeader::Dummy.value(), 12);
    assert_eq!(RolloffFactor::Ro0_15.value(), 4);
}
