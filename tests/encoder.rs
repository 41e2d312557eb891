use dvb_bch::bch_code::{BchCode, BchFamily, MEDIUM_FACTORS, NORMAL_FACTORS, SHORT_FACTORS};
use dvb_bch::bch_encoder::BchEncoder;
use dvb_bch::config::{CodeRate, Framesize};
use dvb_bch::poly::poly_mult;

fn generator(family: BchFamily) -> Vec<u8> {
    let factors: Vec<Vec<u8>> = match family {
        BchFamily::Normal12 => NORMAL_FACTORS.iter().map(|f| f.to_vec()).collect(),
        BchFamily::Normal10 => NORMAL_FACTORS[..10].iter().map(|f| f.to_vec()).collect(),
        BchFamily::Normal8 => NORMAL_FACTORS[..8].iter().map(|f| f.to_vec()).collect(),
        BchFamily::Short12 => SHORT_FACTORS.iter().map(|f| f.to_vec()).collect(),
        BchFamily::Medium12 => MEDIUM_FACTORS.iter().map(|f| f.to_vec()).collect(),
    };
    let mut g = factors[0].clone();
    for f in &factors[1..] {
        g = poly_mult(&g, f);
    }
    g
}

/// Remainder of `word` (highest degree first) divided by `g` over GF(2),
/// by plain long division.
fn remainder(g: &[u8], word: &[u8]) -> Vec<u8> {
    let r = g.len() - 1;
    let mut rem = vec![0u8; r];
    for &b in word {
        let top = rem[r - 1];
        for d in (1..r).rev() {
            rem[d] = rem[d - 1];
        }
        rem[0] = (b != 0) as u8;
        if top == 1 {
            for d in 0..r {
                rem[d] ^= g[d];
            }
        }
    }
    rem
}

fn pseudo_random_bits(len: usize, seed: u64) -> Vec<u8> {
    let mut x = seed;
    (0..len)
        .map(|_| {
            x = x.wrapping_mul(6364136223846793005).wrapping_add(1442695040888963407);
            ((x >> 33) & 1) as u8
        })
        .collect()
}

fn encode_one(enc: &BchEncoder, info: &[u8]) -> Vec<u8> {
    let mut out = vec![7u8; enc.n()];
    let (consumed, produced, done) = enc.work(info, &mut out, true);
    assert_eq!(consumed, enc.k());
    assert_eq!(produced, enc.n());
    assert!(done);
    out
}

#[test]
fn redundancy_matches_family() {
    let cases = [
        (Framesize::Normal, CodeRate::C1_4, 16200, 192),
        (Framesize::Normal, CodeRate::C2_3, 43200, 160),
        (Framesize::Normal, CodeRate::C5_6, 54000, 160),
        (Framesize::Normal, CodeRate::C8_9, 57600, 128),
        (Framesize::Normal, CodeRate::C9_10, 58320, 128),
        (Framesize::Normal, CodeRate::C2_9Vlsnr, 14400, 192),
        (Framesize::Short, CodeRate::C1_2, 7200, 168),
        (Framesize::Short, CodeRate::C1_5VlsnrSf2, 2680, 168),
        (Framesize::Medium, CodeRate::C1_3Medium, 10800, 180),
    ];
    for (fs, rate, n, r) in cases {
        let enc = BchEncoder::new(fs, rate).unwrap();
        assert_eq!(enc.n(), n);
        assert_eq!(enc.n() - enc.k(), r);
    }
}

#[test]
fn reserved_rate_gives_no_encoder() {
    assert!(BchEncoder::new(Framesize::Normal, CodeRate::COther).is_none());
    assert!(BchEncoder::new(Framesize::Short, CodeRate::C9_10).is_none());
    assert!(BchEncoder::new(Framesize::Medium, CodeRate::C1_2).is_none());
    assert!(BchEncoder::new(Framesize::Normal, CodeRate::C1_5Medium).is_none());
    assert!(BchCode::dvb(Framesize::Short, CodeRate::COther).is_none());
}

#[test]
fn generator_degrees() {
    for (family, r) in [
        (BchFamily::Normal12, 192),
        (BchFamily::Normal10, 160),
        (BchFamily::Normal8, 128),
        (BchFamily::Short12, 168),
        (BchFamily::Medium12, 180),
    ] {
        let g = generator(family);
        assert_eq!(g.len(), r + 1);
        assert_eq!(g[0], 1);
        assert_eq!(g[r], 1);
        assert_eq!(family.parity_bits(), r);
    }
}

#[test]
fn packed_generator_is_right_aligned() {
    let code = BchCode::new_s_12(16200);
    let g = generator(BchFamily::Short12);
    let words = code.poly();
    assert_eq!(words.len(), 6);
    // 192 register bits, 168 parity bits: 24 leading zero bits, then g_0 .. g_167
    assert_eq!(words[0] >> 8, 0);
    assert_eq!((words[0] >> 7) & 1, g[0] as u32);
    for d in 0..168 {
        let p = 24 + d;
        assert_eq!((words[p / 32] >> (31 - p % 32)) & 1, g[d] as u32);
    }
}

#[test]
fn codewords_are_multiples_of_the_generator() {
    let cases = [
        (Framesize::Normal, CodeRate::C1_4, BchFamily::Normal12),
        (Framesize::Normal, CodeRate::C2_3, BchFamily::Normal10),
        (Framesize::Normal, CodeRate::C9_10, BchFamily::Normal8),
        (Framesize::Short, CodeRate::C1_4, BchFamily::Short12),
        (Framesize::Medium, CodeRate::C1_5Medium, BchFamily::Medium12),
    ];
    for (i, (fs, rate, family)) in cases.into_iter().enumerate() {
        let enc = BchEncoder::new(fs, rate).unwrap();
        let g = generator(family);
        let r = g.len() - 1;
        let patterns = [
            vec![0u8; enc.k()],
            vec![1u8; enc.k()],
            pseudo_random_bits(enc.k(), 17 + i as u64),
        ];
        for info in patterns {
            let out = encode_one(&enc, &info);
            assert!(remainder(&g, &out).iter().all(|&b| b == 0));
            assert!(out[enc.k()..].iter().all(|&b| b <= 1));
            assert_eq!(out.len() - enc.k(), r);
        }
    }
}

#[test]
fn single_one_gives_nonzero_parity() {
    let enc = BchEncoder::new(Framesize::Short, CodeRate::C1_2).unwrap();
    let mut info = vec![0u8; enc.k()];
    info[enc.k() - 1] = 1;
    let out = encode_one(&enc, &info);
    let g = generator(BchFamily::Short12);
    // x^168 mod g is the generator's low part, written highest degree first
    let expected: Vec<u8> = (0..168).map(|j| g[167 - j]).collect();
    assert_eq!(&out[enc.k()..], &expected[..]);
}

#[test]
fn systematic_prefix() {
    let enc = BchEncoder::new(Framesize::Medium, CodeRate::C11_45Medium).unwrap();
    let info = pseudo_random_bits(enc.k(), 3);
    let out = encode_one(&enc, &info);
    assert_eq!(&out[..enc.k()], &info[..]);
}

#[test]
fn deterministic_output() {
    let a = BchEncoder::new(Framesize::Normal, CodeRate::C3_5).unwrap();
    let b = BchEncoder::new(Framesize::Normal, CodeRate::C3_5).unwrap();
    let info = pseudo_random_bits(2 * a.k(), 5);
    let mut out_a = vec![0u8; 2 * a.n()];
    let mut out_b = vec![0u8; 2 * a.n()];
    assert_eq!(a.work(&info, &mut out_a, false), b.work(&info, &mut out_b, false));
    let mut out_c = vec![0u8; 2 * a.n()];
    a.work(&info, &mut out_c, false);
    assert_eq!(out_a, out_b);
    assert_eq!(out_a, out_c);
}

#[test]
fn chunking_whole_frames() {
    let enc = BchEncoder::new(Framesize::Short, CodeRate::C1_4).unwrap();
    let (k, n) = (enc.k(), enc.n());
    assert_eq!((k, n), (3072, 3240));
    let m = 3;
    let info = pseudo_random_bits(m * k, 11);
    let mut out = vec![5u8; m * n];
    assert_eq!(enc.work(&info, &mut out, true), (m * k, m * n, true));
    for f in 0..m {
        let single = encode_one(&enc, &info[f * k..(f + 1) * k]);
        assert_eq!(&out[f * n..(f + 1) * n], &single[..]);
    }
}

#[test]
fn chunking_leaves_partial_frame() {
    let enc = BchEncoder::new(Framesize::Short, CodeRate::C1_4).unwrap();
    let (k, n) = (enc.k(), enc.n());
    let m = 2;
    let j = 100;
    let info = pseudo_random_bits(m * k + j, 13);
    let mut out = vec![5u8; m * n];
    assert_eq!(enc.work(&info, &mut out, true), (m * k, m * n, false));
    assert_eq!(enc.work(&info, &mut out, false), (m * k, m * n, false));
}

#[test]
fn chunking_limited_by_output_space() {
    let enc = BchEncoder::new(Framesize::Short, CodeRate::C1_4).unwrap();
    let (k, n) = (enc.k(), enc.n());
    let info = vec![1u8; 3 * k];
    let mut out = vec![5u8; 2 * n + 10];
    assert_eq!(enc.work(&info, &mut out, true), (2 * k, 2 * n, false));
    assert!(out[2 * n..].iter().all(|&b| b == 5));
}

#[test]
fn no_whole_frame_is_a_no_op() {
    let enc = BchEncoder::new(Framesize::Normal, CodeRate::C1_2).unwrap();
    let info = vec![1u8; enc.k() - 1];
    let mut out = vec![9u8; enc.n()];
    assert_eq!(enc.work(&info, &mut out, true), (0, 0, false));
    assert!(out.iter().all(|&b| b == 9));
    let mut small = vec![9u8; enc.n() - 1];
    assert_eq!(enc.work(&vec![0u8; enc.k()], &mut small, true), (0, 0, false));
    assert!(small.iter().all(|&b| b == 9));
}

#[test]
fn empty_finished_input_is_done() {
    let enc = BchEncoder::new(Framesize::Normal, CodeRate::C1_2).unwrap();
    let mut out = vec![0u8; enc.n()];
    assert_eq!(enc.work(&[], &mut out, true), (0, 0, true));
    assert_eq!(enc.work(&[], &mut out, false), (0, 0, false));
}

#[test]
fn zero_frame_of_64800_bits() {
    let enc = BchEncoder(BchCode::new_n_12(64800));
    assert_eq!(enc.k(), 64608);
    let info = vec![0u8; 64608];
    let mut out = vec![1u8; 64800];
    assert_eq!(enc.work(&info, &mut out, true), (64608, 64800, true));
    assert!(out.iter().all(|&b| b == 0));
}

#[test]
fn zero_frame_normal_quarter_rate() {
    let enc = BchEncoder::new(Framesize::Normal, CodeRate::C1_4).unwrap();
    assert_eq!((enc.k(), enc.n()), (16008, 16200));
    let out = encode_one(&enc, &vec![0u8; 16008]);
    assert!(out[16008..].iter().all(|&b| b == 0));
    assert_eq!(out.len() - 16008, 192);
}

#[test]
fn code_constructors() {
    let c = BchCode::new_n_10(43200);
    assert_eq!((c.k(), c.n(), c.family()), (43040, 43200, BchFamily::Normal10));
    assert_eq!(c.poly().len(), 5);
    let c = BchCode::new_n_8(57600);
    assert_eq!((c.k(), c.n(), c.family()), (57472, 57600, BchFamily::Normal8));
    assert_eq!(c.poly().len(), 4);
    let c = BchCode::new_m_12(5840);
    assert_eq!((c.k(), c.n(), c.family()), (5660, 5840, BchFamily::Medium12));
    assert_eq!(c.poly().len(), 6);
    let c = BchCode::dvb(Framesize::Normal, CodeRate::C104_180).unwrap();
    assert_eq!((c.k(), c.n(), c.family()), (37248, 37440, BchFamily::Normal12));
}
