//! Frame sizes, code rates and the other signalling enumerations of the
//! second-generation satellite broadcast physical layer.
use vstd::prelude::*;

verus! {

/// The three frame-size classes.
#[derive(Clone, Copy, PartialEq, Eq, Debug, Structural)]
pub enum Framesize {
    Normal,
    Short,
    Medium,
}

pub const FRAME_SIZE_NORMAL: usize = 64800;

pub const FRAME_SIZE_SHORT: usize = 16200;

pub const FRAME_SIZE_MEDIUM: usize = 32400;

/// Number of coded bits in a frame of the given class.
pub open spec fn frame_bits(f: Framesize) -> nat {
    match f {
        Framesize::Normal => 64800,
        Framesize::Short => 16200,
        Framesize::Medium => 32400,
    }
}

impl Framesize {
    /// Total codeword length of this frame-size class, in bits.
    pub fn frame_size(&self) -> (r: usize)
        ensures
            r == frame_bits(*self),
    {
        match self {
            Framesize::Normal => FRAME_SIZE_NORMAL,
            Framesize::Short => FRAME_SIZE_SHORT,
            Framesize::Medium => FRAME_SIZE_MEDIUM,
        }
    }
}

/// Code-rate labels; not every label exists for every frame size.
#[derive(Clone, Copy, PartialEq, Eq, Debug, Structural)]
pub enum CodeRate {
    C1_4,
    C1_3,
    C2_5,
    C1_2,
    C3_5,
    C2_3,
    C3_4,
    C4_5,
    C5_6,
    C8_9,
    C9_10,
    C13_45,
    C9_20,
    C90_180,
    C96_180,
    C11_20,
    C100_180,
    C104_180,
    C26_45,
    C18_30,
    C28_45,
    C23_36,
    C116_180,
    C20_30,
    C124_180,
    C25_36,
    C128_180,
    C13_18,
    C132_180,
    C22_30,
    C135_180,
    C140_180,
    C7_9,
    C154_180,
    C11_45,
    C4_15,
    C14_45,
    C7_15,
    C8_15,
    C32_45,
    C2_9Vlsnr,
    C1_5Medium,
    C11_45Medium,
    C1_3Medium,
    C1_5VlsnrSf2,
    C11_45VlsnrSf2,
    C1_5Vlsnr,
    C4_15Vlsnr,
    C1_3Vlsnr,
    COther,
}

/// Constellations.
#[derive(Clone, Copy, PartialEq, Eq, Debug, Structural)]
pub enum Constellation {
    ModQpsk,
    Mod8psk,
    Mod8apsk,
    Mod16apsk,
    Mod8_8apsk,
    Mod32apsk,
    Mod4_12_16apsk,
    Mod4_8_4_16apsk,
    ModBpsk,
    ModBpskSf2,
    ModOther,
}

/// Roll-off factors, in the order of their two-bit signalling field
/// (the reserved value sits between 0.20 and 0.15).
#[derive(Clone, Copy, PartialEq, Eq, Debug, Structural)]
pub enum RolloffFactor {
    Ro0_35,
    Ro0_25,
    Ro0_20,
    RoReserved,
    Ro0_15,
    Ro0_10,
    Ro0_05,
}

impl RolloffFactor {
    /// Value of the two- or three-bit roll-off signalling field.
    pub fn value(&self) -> u8 {
        match self {
            RolloffFactor::Ro0_35 => 0,
            RolloffFactor::Ro0_25 => 1,
            RolloffFactor::Ro0_20 => 2,
            RolloffFactor::RoReserved => 3,
            RolloffFactor::Ro0_15 => 4,
            RolloffFactor::Ro0_10 => 5,
            RolloffFactor::Ro0_05 => 6,
        }
    }
}

/// Modulation-and-coding identifiers of the physical-layer header.
#[derive(Clone, Copy, PartialEq, Eq, Debug, Structural)]
pub enum Modcod {
    McDummy,
    McDummyS,
    McQpsk1_4,
    McQpsk1_4S,
    McQpsk1_3,
    McQpsk1_3S,
    McQpsk2_5,
    McQpsk2_5S,
    McQpsk1_2,
    McQpsk1_2S,
    McQpsk3_5,
    McQpsk3_5S,
    McQpsk2_3,
    McQpsk2_3S,
    McQpsk3_4,
    McQpsk3_4S,
    McQpsk4_5,
    McQpsk4_5S,
    McQpsk5_6,
    McQpsk5_6S,
    McQpsk8_9,
    McQpsk8_9S,
    McQpsk9_10,
    McQpsk9_10S,
    Mc8psk3_5,
    Mc8psk3_5S,
    Mc8psk2_3,
    Mc8psk2_3S,
    Mc8psk3_4,
    Mc8psk3_4S,
    Mc8psk5_6,
    Mc8psk5_6S,
    Mc8psk8_9,
    Mc8psk8_9S,
    Mc8psk9_10,
    Mc8psk9_10S,
    Mc16apsk2_3,
    Mc16apsk2_3S,
    Mc16apsk3_4,
    Mc16apsk3_4S,
    Mc16apsk4_5,
    Mc16apsk4_5S,
    Mc16apsk5_6,
    Mc16apsk5_6S,
    Mc16apsk8_9,
    Mc16apsk8_9S,
    Mc16apsk9_10,
    Mc16apsk9_10S,
    Mc32apsk3_4,
    Mc32apsk3_4S,
    Mc32apsk4_5,
    Mc32apsk4_5S,
    Mc32apsk5_6,
    Mc32apsk5_6S,
    Mc32apsk8_9,
    Mc32apsk8_9S,
    Mc32apsk9_10,
    Mc32apsk9_10S,
    McVlsnrSet1,
    McVlsnrSet2,
    McQpsk13_45,
    McQpsk9_20,
    McQpsk11_20,
    Mc8apsk5_9L,
    Mc8apsk26_45L,
    Mc8psk23_36,
    Mc8psk25_36,
    Mc8psk13_18,
    Mc16apsk1_2L,
    Mc16apsk8_15L,
    Mc16apsk5_9L,
    Mc16apsk26_45,
    Mc16apsk3_5,
    Mc16apsk3_5L,
    Mc16apsk28_45,
    Mc16apsk23_36,
    Mc16apsk2_3L,
    Mc16apsk25_36,
    Mc16apsk13_18,
    Mc16apsk7_9,
    Mc16apsk77_90,
    Mc32apsk2_3L,
    Mc32apsk32_45,
    Mc32apsk11_15,
    Mc32apsk7_9,
    Mc64apsk32_45L,
    Mc64apsk11_15,
    Mc64apsk7_9,
    Mc64apsk4_5,
    Mc64apsk5_6,
    Mc128apsk3_4,
    Mc128apsk7_9,
    Mc256apsk29_45L,
    Mc256apsk2_3L,
    Mc256apsk31_45L,
    Mc256apsk32_45,
    Mc256apsk11_15L,
    Mc256apsk3_4,
    McQpsk11_45S,
    McQpsk4_15S,
    McQpsk14_45S,
    McQpsk7_15S,
    McQpsk8_15S,
    McQpsk32_45S,
    Mc8psk7_15S,
    Mc8psk8_15S,
    Mc8psk26_45S,
    Mc8psk32_45S,
    Mc16apsk7_15S,
    Mc16apsk8_15S,
    Mc16apsk26_45S,
    Mc16apsk3_5S,
    Mc16apsk32_45S,
    Mc32apsk2_3S,
    Mc32apsk32_45S,
}

impl Modcod {
    /// Numeric identifier carried in the physical-layer header.
    pub fn value(&self) -> u8 {
        match self {
            Modcod::McDummy => 0,
            Modcod::McDummyS => 1,
            Modcod::McQpsk1_4 => 2,
            Modcod::McQpsk1_4S => 3,
            Modcod::McQpsk1_3 => 4,
            Modcod::McQpsk1_3S => 5,
            Modcod::McQpsk2_5 => 6,
            Modcod::McQpsk2_5S => 7,
            Modcod::McQpsk1_2 => 8,
            Modcod::McQpsk1_2S => 9,
            Modcod::McQpsk3_5 => 10,
            Modcod::McQpsk3_5S => 11,
            Modcod::McQpsk2_3 => 12,
            Modcod::McQpsk2_3S => 13,
            Modcod::McQpsk3_4 => 14,
            Modcod::McQpsk3_4S => 15,
            Modcod::McQpsk4_5 => 16,
            Modcod::McQpsk4_5S => 17,
            Modcod::McQpsk5_6 => 18,
            Modcod::McQpsk5_6S => 19,
            Modcod::McQpsk8_9 => 20,
            Modcod::McQpsk8_9S => 21,
            Modcod::McQpsk9_10 => 22,
            Modcod::McQpsk9_10S => 23,
            Modcod::Mc8psk3_5 => 24,
            Modcod::Mc8psk3_5S => 25,
            Modcod::Mc8psk2_3 => 26,
            Modcod::Mc8psk2_3S => 27,
            Modcod::Mc8psk3_4 => 28,
            Modcod::Mc8psk3_4S => 29,
            Modcod::Mc8psk5_6 => 30,
            Modcod::Mc8psk5_6S => 31,
            Modcod::Mc8psk8_9 => 32,
            Modcod::Mc8psk8_9S => 33,
            Modcod::Mc8psk9_10 => 34,
            Modcod::Mc8psk9_10S => 35,
            Modcod::Mc16apsk2_3 => 36,
            Modcod::Mc16apsk2_3S => 37,
            Modcod::Mc16apsk3_4 => 38,
            Modcod::Mc16apsk3_4S => 39,
            Modcod::Mc16apsk4_5 => 40,
            Modcod::Mc16apsk4_5S => 41,
            Modcod::Mc16apsk5_6 => 42,
            Modcod::Mc16apsk5_6S => 43,
            Modcod::Mc16apsk8_9 => 44,
            Modcod::Mc16apsk8_9S => 45,
            Modcod::Mc16apsk9_10 => 46,
            Modcod::Mc16apsk9_10S => 47,
            Modcod::Mc32apsk3_4 => 48,
            Modcod::Mc32apsk3_4S => 49,
            Modcod::Mc32apsk4_5 => 50,
            Modcod::Mc32apsk4_5S => 51,
            Modcod::Mc32apsk5_6 => 52,
            Modcod::Mc32apsk5_6S => 53,
            Modcod::Mc32apsk8_9 => 54,
            Modcod::Mc32apsk8_9S => 55,
            Modcod::Mc32apsk9_10 => 56,
            Modcod::Mc32apsk9_10S => 57,
            Modcod::McVlsnrSet1 => 64,
            Modcod::McVlsnrSet2 => 65,
            Modcod::McQpsk13_45 => 66,
            Modcod::McQpsk9_20 => 67,
            Modcod::McQpsk11_20 => 68,
            Modcod::Mc8apsk5_9L => 69,
            Modcod::Mc8apsk26_45L => 70,
            Modcod::Mc8psk23_36 => 71,
            Modcod::Mc8psk25_36 => 72,
            Modcod::Mc8psk13_18 => 73,
            Modcod::Mc16apsk1_2L => 74,
            Modcod::Mc16apsk8_15L => 75,
            Modcod::Mc16apsk5_9L => 76,
            Modcod::Mc16apsk26_45 => 77,
            Modcod::Mc16apsk3_5 => 78,
            Modcod::Mc16apsk3_5L => 79,
            Modcod::Mc16apsk28_45 => 80,
            Modcod::Mc16apsk23_36 => 81,
            Modcod::Mc16apsk2_3L => 82,
            Modcod::Mc16apsk25_36 => 83,
            Modcod::Mc16apsk13_18 => 84,
            Modcod::Mc16apsk7_9 => 85,
            Modcod::Mc16apsk77_90 => 86,
            Modcod::Mc32apsk2_3L => 87,
            Modcod::Mc32apsk32_45 => 88,
            Modcod::Mc32apsk11_15 => 89,
            Modcod::Mc32apsk7_9 => 90,
            Modcod::Mc64apsk32_45L => 91,
            Modcod::Mc64apsk11_15 => 92,
            Modcod::Mc64apsk7_9 => 93,
            Modcod::Mc64apsk4_5 => 94,
            Modcod::Mc64apsk5_6 => 95,
            Modcod::Mc128apsk3_4 => 96,
            Modcod::Mc128apsk7_9 => 97,
            Modcod::Mc256apsk29_45L => 98,
            Modcod::Mc256apsk2_3L => 99,
            Modcod::Mc256apsk31_45L => 100,
            Modcod::Mc256apsk32_45 => 101,
            Modcod::Mc256apsk11_15L => 102,
            Modcod::Mc256apsk3_4 => 103,
            Modcod::McQpsk11_45S => 104,
            Modcod::McQpsk4_15S => 105,
            Modcod::McQpsk14_45S => 106,
            Modcod::McQpsk7_15S => 107,
            Modcod::McQpsk8_15S => 108,
            Modcod::McQpsk32_45S => 109,
            Modcod::Mc8psk7_15S => 110,
            Modcod::Mc8psk8_15S => 111,
            Modcod::Mc8psk26_45S => 112,
            Modcod::Mc8psk32_45S => 113,
            Modcod::Mc16apsk7_15S => 114,
            Modcod::Mc16apsk8_15S => 115,
            Modcod::Mc16apsk26_45S => 116,
            Modcod::Mc16apsk3_5S => 117,
            Modcod::Mc16apsk32_45S => 118,
            Modcod::Mc32apsk2_3S => 119,
            Modcod::Mc32apsk32_45S => 120,
        }
    }
}

/// Very-low-SNR header variants.
#[derive(Clone, Copy, PartialEq, Eq, Debug, Structural)]
pub enum VlsnrHeader {
    NormalQpsk2_9,
    MediumBpsk1_5,
    MediumBpsk11_45,
    MediumBpsk1_3,
    ShortBpskSf2_1_5,
    ShortBpskSf2_11_45,
    ShortBpsk1_5,
    ShortBpsk4_15,
    ShortBpsk1_3,
    Dummy,
}

impl VlsnrHeader {
    /// Index of the very-low-SNR header variant.
    pub fn value(&self) -> u8 {
        match self {
            VlsnrHeader::NormalQpsk2_9 => 0,
            VlsnrHeader::MediumBpsk1_5 => 1,
            VlsnrHeader::MediumBpsk11_45 => 2,
            VlsnrHeader::MediumBpsk1_3 => 3,
            VlsnrHeader::ShortBpskSf2_1_5 => 4,
            VlsnrHeader::ShortBpskSf2_11_45 => 5,
            VlsnrHeader::ShortBpsk1_5 => 9,
            VlsnrHeader::ShortBpsk4_15 => 10,
            VlsnrHeader::ShortBpsk1_3 => 11,
            VlsnrHeader::Dummy => 12,
        }
    }
}

pub const NORMAL_PUNCTURING: usize = 3240;

pub const MEDIUM_PUNCTURING: usize = 1620;

pub const SHORT_PUNCTURING_SET1: usize = 810;

pub const SHORT_PUNCTURING_SET2: usize = 1224;

pub const EXTRA_PILOT_SYMBOLS_SET1: usize = (18 * 34) + (3 * 36);

pub const EXTRA_PILOT_SYMBOLS_SET2: usize = (9 * 32) + 36;

} // verus!
