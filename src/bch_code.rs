//! The standardised BCH outer codes: their families, generator polynomials
//! and the (frame size, code rate) table that selects them.
use vstd::prelude::*;
use crate::config::{CodeRate, Framesize};
use crate::poly::{coef, is_packing, lemma_product_bits, lemma_product_degree, packed_bit, poly_mult, poly_pack, poly_product};

verus! {

/// Minimal polynomials (coefficient of x^0 first) whose product generates
/// the codes of the normal frame size; the first 10 or 8 of them give the
/// codes that correct 10 or 8 errors.
pub const NORMAL_FACTORS: [[u8; 17]; 12] = [
    [1, 0, 1, 1, 0, 1, 0, 0, 0, 0, 0, 0, 0, 0, 0, 0, 1],
    [1, 1, 0, 0, 1, 1, 1, 0, 1, 0, 0, 0, 0, 0, 0, 0, 1],
    [1, 0, 1, 1, 1, 1, 0, 1, 1, 1, 1, 1, 0, 0, 0, 0, 1],
    [1, 0, 1, 0, 1, 0, 1, 0, 0, 1, 0, 1, 1, 0, 1, 0, 1],
    [1, 1, 1, 1, 0, 1, 0, 0, 1, 1, 1, 1, 1, 0, 0, 0, 1],
    [1, 0, 1, 0, 1, 1, 0, 1, 1, 1, 1, 0, 1, 1, 1, 1, 1],
    [1, 0, 1, 0, 0, 1, 1, 0, 1, 1, 1, 1, 0, 1, 0, 1, 1],
    [1, 1, 1, 0, 0, 1, 1, 0, 1, 1, 0, 0, 1, 1, 1, 0, 1],
    [1, 0, 0, 0, 0, 1, 0, 1, 0, 1, 1, 1, 0, 0, 0, 0, 1],
    [1, 1, 1, 0, 0, 1, 0, 1, 1, 0, 1, 0, 1, 1, 1, 0, 1],
    [1, 0, 1, 1, 0, 1, 0, 0, 0, 1, 0, 1, 1, 1, 0, 0, 1],
    [1, 1, 0, 0, 0, 1, 1, 1, 0, 1, 0, 1, 1, 0, 0, 0, 1],
];

/// Minimal polynomials whose product generates the codes of the short frame size.
pub const SHORT_FACTORS: [[u8; 15]; 12] = [
    [1, 1, 0, 1, 0, 1, 0, 0, 0, 0, 0, 0, 0, 0, 1],
    [1, 0, 0, 0, 0, 0, 1, 0, 1, 0, 0, 1, 0, 0, 1],
    [1, 1, 1, 0, 0, 0, 1, 0, 0, 1, 1, 0, 0, 0, 1],
    [1, 0, 0, 0, 1, 0, 0, 1, 1, 0, 1, 0, 1, 0, 1],
    [1, 0, 1, 0, 1, 0, 1, 0, 1, 1, 0, 1, 0, 1, 1],
    [1, 0, 0, 1, 0, 0, 0, 1, 1, 1, 0, 0, 0, 1, 1],
    [1, 0, 1, 0, 0, 1, 1, 1, 0, 0, 1, 1, 0, 1, 1],
    [1, 0, 0, 0, 0, 1, 0, 0, 1, 1, 1, 1, 0, 0, 1],
    [1, 1, 1, 1, 0, 0, 0, 0, 0, 1, 1, 0, 0, 0, 1],
    [1, 0, 0, 1, 0, 0, 1, 0, 0, 1, 0, 1, 1, 0, 1],
    [1, 0, 0, 0, 1, 0, 0, 0, 0, 0, 0, 1, 1, 0, 1],
    [1, 1, 1, 1, 0, 1, 1, 1, 1, 0, 1, 0, 0, 1, 1],
];

/// Minimal polynomials whose product generates the codes of the medium frame size.
pub const MEDIUM_FACTORS: [[u8; 16]; 12] = [
    [1, 0, 1, 1, 0, 1, 0, 0, 0, 0, 0, 0, 0, 0, 0, 1],
    [1, 1, 0, 0, 1, 0, 0, 1, 0, 0, 1, 1, 0, 0, 0, 1],
    [1, 0, 1, 0, 1, 0, 1, 0, 1, 0, 1, 0, 1, 1, 0, 1],
    [1, 0, 1, 1, 0, 1, 1, 0, 1, 0, 1, 1, 0, 0, 0, 1],
    [1, 1, 1, 0, 1, 0, 1, 1, 0, 0, 1, 0, 1, 0, 0, 1],
    [1, 0, 0, 0, 1, 0, 1, 1, 0, 0, 0, 0, 1, 1, 0, 1],
    [1, 0, 1, 0, 1, 1, 0, 1, 0, 0, 0, 1, 1, 0, 1, 1],
    [1, 0, 1, 0, 1, 0, 1, 0, 1, 1, 0, 1, 0, 0, 1, 1],
    [1, 1, 1, 0, 1, 1, 0, 1, 0, 1, 0, 1, 1, 1, 0, 1],
    [1, 1, 1, 1, 1, 0, 0, 1, 0, 0, 1, 1, 1, 1, 0, 1],
    [1, 1, 1, 0, 1, 0, 0, 0, 0, 1, 0, 1, 0, 0, 0, 1],
    [1, 0, 1, 0, 1, 0, 0, 0, 1, 0, 1, 1, 0, 1, 1, 1],
];

/// The five code families; each has its own generator polynomial and
/// number of parity bits.
#[derive(Clone, Copy, PartialEq, Eq, Debug, Structural)]
pub enum BchFamily {
    /// Normal frames, 12 correctable errors.
    Normal12,
    /// Normal frames, 10 correctable errors.
    Normal10,
    /// Normal frames, 8 correctable errors.
    Normal8,
    /// Short frames, 12 correctable errors.
    Short12,
    /// Medium frames, 12 correctable errors.
    Medium12,
}

/// Number of parity bits `r = n - k`, which is the generator's degree.
pub open spec fn parity_len(f: BchFamily) -> nat {
    match f {
        BchFamily::Normal12 => 192,
        BchFamily::Normal10 => 160,
        BchFamily::Normal8 => 128,
        BchFamily::Short12 => 168,
        BchFamily::Medium12 => 180,
    }
}

/// Width of the packed generator and of the register, in 32-bit words.
pub open spec fn word_count(f: BchFamily) -> nat {
    (parity_len(f) + 31) / 32
}

/// How many minimal polynomials are multiplied into the generator.
pub open spec fn factor_count(f: BchFamily) -> nat {
    match f {
        BchFamily::Normal10 => 10,
        BchFamily::Normal8 => 8,
        _ => 12,
    }
}

pub open spec fn factors(f: BchFamily) -> Seq<Seq<u8>> {
    match f {
        BchFamily::Short12 => SHORT_FACTORS@.map_values(|a: [u8; 15]| a@),
        BchFamily::Medium12 => MEDIUM_FACTORS@.map_values(|a: [u8; 16]| a@),
        _ => NORMAL_FACTORS@.map_values(|a: [u8; 17]| a@),
    }
}

/// The product of the first `c` polynomials of `fs`, taken in order.
pub open spec fn chain(fs: Seq<Seq<u8>>, c: nat) -> Seq<u8>
    decreases c,
{
    if c <= 1 {
        fs[0]
    } else {
        poly_product(chain(fs, (c - 1) as nat), fs[c - 1])
    }
}

/// The generator polynomial of a family, coefficient of x^0 first.
pub open spec fn generator(f: BchFamily) -> Seq<u8> {
    chain(factors(f), factor_count(f))
}

/// The `r` low-order coefficients of the generator (which is
/// `x^r + generator_low(x)`).
pub open spec fn generator_low(f: BchFamily) -> Seq<bool> {
    Seq::new(parity_len(f), |d: int| coef(generator(f), d))
}

/// The configuration table: for each supported pair, the code family and
/// the codeword length `n`.
pub open spec fn code_table(framesize: Framesize, rate: CodeRate) -> Option<(BchFamily, nat)> {
    match framesize {
        Framesize::Normal => match rate {
            CodeRate::C1_4 => Some((BchFamily::Normal12, 16200nat)),
            CodeRate::C1_3 => Some((BchFamily::Normal12, 21600nat)),
            CodeRate::C2_5 => Some((BchFamily::Normal12, 25920nat)),
            CodeRate::C1_2 => Some((BchFamily::Normal12, 32400nat)),
            CodeRate::C3_5 => Some((BchFamily::Normal12, 38880nat)),
            CodeRate::C2_3 => Some((BchFamily::Normal10, 43200nat)),
            CodeRate::C3_4 => Some((BchFamily::Normal12, 48600nat)),
            CodeRate::C4_5 => Some((BchFamily::Normal12, 51840nat)),
            CodeRate::C5_6 => Some((BchFamily::Normal10, 54000nat)),
            CodeRate::C8_9 => Some((BchFamily::Normal8, 57600nat)),
            CodeRate::C9_10 => Some((BchFamily::Normal8, 58320nat)),
            CodeRate::C13_45 => Some((BchFamily::Normal12, 18720nat)),
            CodeRate::C9_20 => Some((BchFamily::Normal12, 29160nat)),
            CodeRate::C90_180 => Some((BchFamily::Normal12, 32400nat)),
            CodeRate::C96_180 => Some((BchFamily::Normal12, 34560nat)),
            CodeRate::C11_20 => Some((BchFamily::Normal12, 35640nat)),
            CodeRate::C100_180 => Some((BchFamily::Normal12, 36000nat)),
            CodeRate::C104_180 => Some((BchFamily::Normal12, 37440nat)),
            CodeRate::C26_45 => Some((BchFamily::Normal12, 37440nat)),
            CodeRate::C18_30 => Some((BchFamily::Normal12, 38880nat)),
            CodeRate::C28_45 => Some((BchFamily::Normal12, 40320nat)),
            CodeRate::C23_36 => Some((BchFamily::Normal12, 41400nat)),
            CodeRate::C116_180 => Some((BchFamily::Normal12, 41760nat)),
            CodeRate::C20_30 => Some((BchFamily::Normal12, 43200nat)),
            CodeRate::C124_180 => Some((BchFamily::Normal12, 44640nat)),
            CodeRate::C25_36 => Some((BchFamily::Normal12, 45000nat)),
            CodeRate::C128_180 => Some((BchFamily::Normal12, 46080nat)),
            CodeRate::C13_18 => Some((BchFamily::Normal12, 46800nat)),
            CodeRate::C132_180 => Some((BchFamily::Normal12, 47520nat)),
            CodeRate::C22_30 => Some((BchFamily::Normal12, 47520nat)),
            CodeRate::C135_180 => Some((BchFamily::Normal12, 48600nat)),
            CodeRate::C140_180 => Some((BchFamily::Normal12, 50400nat)),
            CodeRate::C7_9 => Some((BchFamily::Normal12, 50400nat)),
            CodeRate::C154_180 => Some((BchFamily::Normal12, 55440nat)),
            CodeRate::C2_9Vlsnr => Some((BchFamily::Normal12, 14400nat)),
            _ => None,
        },
        Framesize::Short => match rate {
            CodeRate::C1_4 => Some((BchFamily::Short12, 3240nat)),
            CodeRate::C1_3 => Some((BchFamily::Short12, 5400nat)),
            CodeRate::C2_5 => Some((BchFamily::Short12, 6480nat)),
            CodeRate::C1_2 => Some((BchFamily::Short12, 7200nat)),
            CodeRate::C3_5 => Some((BchFamily::Short12, 9720nat)),
            CodeRate::C2_3 => Some((BchFamily::Short12, 10800nat)),
            CodeRate::C3_4 => Some((BchFamily::Short12, 11880nat)),
            CodeRate::C4_5 => Some((BchFamily::Short12, 12600nat)),
            CodeRate::C5_6 => Some((BchFamily::Short12, 13320nat)),
            CodeRate::C8_9 => Some((BchFamily::Short12, 14400nat)),
            CodeRate::C11_45 => Some((BchFamily::Short12, 3960nat)),
            CodeRate::C4_15 => Some((BchFamily::Short12, 4320nat)),
            CodeRate::C14_45 => Some((BchFamily::Short12, 5040nat)),
            CodeRate::C7_15 => Some((BchFamily::Short12, 7560nat)),
            CodeRate::C8_15 => Some((BchFamily::Short12, 8640nat)),
            CodeRate::C26_45 => Some((BchFamily::Short12, 9360nat)),
            CodeRate::C32_45 => Some((BchFamily::Short12, 11520nat)),
            CodeRate::C1_5VlsnrSf2 => Some((BchFamily::Short12, 2680nat)),
            CodeRate::C11_45VlsnrSf2 => Some((BchFamily::Short12, 3960nat)),
            CodeRate::C1_5Vlsnr => Some((BchFamily::Short12, 3240nat)),
            CodeRate::C4_15Vlsnr => Some((BchFamily::Short12, 4320nat)),
            CodeRate::C1_3Vlsnr => Some((BchFamily::Short12, 5400nat)),
            _ => None,
        },
        Framesize::Medium => match rate {
            CodeRate::C1_5Medium => Some((BchFamily::Medium12, 5840nat)),
            CodeRate::C11_45Medium => Some((BchFamily::Medium12, 7920nat)),
            CodeRate::C1_3Medium => Some((BchFamily::Medium12, 10800nat)),
            _ => None,
        },
    }
}

/// What a resolved code is: its family, information length and codeword
/// length.
pub struct CodeParams {
    pub family: BchFamily,
    pub k: nat,
    pub n: nat,
}

/// Coefficients of the generator's low part, right-aligned in `32 * W` bits:
/// coefficient `d` sits at bit `32 * W - r + d`.
pub open spec fn aligned_bit(f: BchFamily, p: int) -> bool {
    let pad = 32 * word_count(f) - parity_len(f);
    p >= pad && generator_low(f)[p - pad]
}

/// A BCH code of one family: `k` information bits, `n` codeword bits and
/// the packed generator.
pub struct BchCode {
    family: BchFamily,
    k: usize,
    n: usize,
    poly: Vec<u32>,
}

/// Multiplies the first `count` factors of `fs` together, in order.
fn multiply_factors<const W: usize>(fs: &[[u8; W]; 12], count: usize) -> (g: Vec<u8>)
    requires
        2 <= count <= 12,
        2 <= W <= 17,
        forall|i: int| 0 <= i < 12 ==> (#[trigger] fs@[i])@[W - 1] != 0,
    ensures
        g@ == chain(fs@.map_values(|a: [u8; W]| a@), count as nat),
        g@.len() == count * (W - 1) + 1,
        g@.last() == 1,
{
    let ghost fsv = fs@.map_values(|a: [u8; W]| a@);
    let f0: &[u8] = &fs[0];
    let f1: &[u8] = &fs[1];
    let mut g = poly_mult(f0, f1);
    proof {
        assert(fs@[0]@[W - 1] != 0);
        assert(fs@[1]@[W - 1] != 0);
        lemma_product_degree(f0@, f1@);
        assert(chain(fsv, 1) == f0@);
        assert(chain(fsv, 2) == poly_product(f0@, f1@));
    }
    let mut c: usize = 2;
    while c < count
        invariant
            2 <= c <= count <= 12,
            2 <= W <= 17,
            forall|i: int| 0 <= i < 12 ==> (#[trigger] fs@[i])@[W - 1] != 0,
            fsv == fs@.map_values(|a: [u8; W]| a@),
            g@ == chain(fsv, c as nat),
            g@.len() == c * (W - 1) + 1,
            g@.last() == 1,
        decreases count - c,
    {
        let f: &[u8] = &fs[c];
        proof {
            assert(fs@[c as int]@[W - 1] != 0);
            lemma_product_degree(g@, f@);
            assert(fsv[c as int] == f@);
            assert(c * (W - 1) <= 12 * 16) by (nonlinear_arith)
                requires
                    c <= 12,
                    W <= 17,
            ;
        }
        g = poly_mult(g.as_slice(), f);
        proof {
            assert((c + 1) * (W - 1) + 1 == c * (W - 1) + 1 + W - 1) by (nonlinear_arith);
        }
        c = c + 1;
    }
    g
}

impl BchFamily {
    /// Number of parity bits of the family's codes.
    pub fn parity_bits(&self) -> (r: usize)
        ensures
            r == parity_len(*self),
    {
        match self {
            BchFamily::Normal12 => 192,
            BchFamily::Normal10 => 160,
            BchFamily::Normal8 => 128,
            BchFamily::Short12 => 168,
            BchFamily::Medium12 => 180,
        }
    }
}

/// The generator polynomial of a family, built by multiplying its minimal
/// polynomials in the standard's order.
fn generator_of(family: BchFamily) -> (g: Vec<u8>)
    ensures
        g@ == generator(family),
        g@.len() == parity_len(family) + 1,
        g@.last() == 1,
{
    match family {
        BchFamily::Short12 => {
            assert(forall|i: int| 0 <= i < 12 ==> (#[trigger] SHORT_FACTORS@[i])@[14] != 0);
            multiply_factors(&SHORT_FACTORS, 12)
        },
        BchFamily::Medium12 => {
            assert(forall|i: int| 0 <= i < 12 ==> (#[trigger] MEDIUM_FACTORS@[i])@[15] != 0);
            multiply_factors(&MEDIUM_FACTORS, 12)
        },
        _ => {
            assert(forall|i: int| 0 <= i < 12 ==> (#[trigger] NORMAL_FACTORS@[i])@[16] != 0);
            let count: usize = match family {
                BchFamily::Normal10 => 10,
                BchFamily::Normal8 => 8,
                _ => 12,
            };
            multiply_factors(&NORMAL_FACTORS, count)
        },
    }
}

impl View for BchCode {
    type V = CodeParams;

    closed spec fn view(&self) -> CodeParams {
        CodeParams { family: self.family, k: self.k as nat, n: self.n as nat }
    }
}

impl BchCode {
    #[verifier::type_invariant]
    spec fn inv(&self) -> bool {
        let r = parity_len(self.family);
        &&& r < self.n <= 64800
        &&& self.k == self.n - r
        &&& generator(self.family).len() == r + 1
        &&& generator(self.family).last() == 1
        &&& self.poly@.len() == word_count(self.family)
        &&& forall|p: int|
            0 <= p < 32 * word_count(self.family) ==> #[trigger] packed_bit(self.poly@, p)
                == aligned_bit(self.family, p)
    }

    /// The code of `family` with `n`-bit codewords.
    fn build(family: BchFamily, n: usize) -> (r: Self)
        requires
            parity_len(family) < n <= 64800,
        ensures
            r@ == (CodeParams { family, k: (n - parity_len(family)) as nat, n: n as nat }),
    {
        let g = generator_of(family);
        let rl = family.parity_bits();
        let words = (rl + 31) / 32;
        let pad = 32 * words - rl;
        let mut aligned: Vec<u8> = Vec::new();
        let mut i: usize = 0;
        while i < pad
            invariant
                i <= pad,
                aligned@.len() == i,
                forall|t: int| 0 <= t < i ==> #[trigger] aligned@[t] == 0,
            decreases pad - i,
        {
            aligned.push(0);
            i = i + 1;
        }
        let mut d: usize = 0;
        while d < rl
            invariant
                rl == parity_len(family),
                g@ == generator(family),
                g@.len() == rl + 1,
                d <= rl,
                aligned@.len() == pad + d,
                forall|t: int| 0 <= t < pad ==> #[trigger] aligned@[t] == 0,
                forall|t: int| pad <= t < pad + d ==> #[trigger] aligned@[t] == g@[t - pad],
            decreases rl - d,
        {
            aligned.push(g[d]);
            d = d + 1;
        }
        let ghost al = aligned@;
        let poly = poly_pack(aligned);
        let r = BchCode { family, k: n - rl, n, poly };
        proof {
            assert(is_packing(al, poly@));
            assert forall|p: int| 0 <= p < 32 * word_count(family) implies #[trigger] packed_bit(poly@, p)
                == aligned_bit(family, p) by {
                assert(packed_bit(poly@, p) == coef(al, p));
            }
        }
        r
    }

    pub fn new_n_12(n: usize) -> (r: Self)
        requires
            192 < n <= 64800,
        ensures
            r@ == (CodeParams { family: BchFamily::Normal12, k: (n - 192) as nat, n: n as nat }),
    {
        Self::build(BchFamily::Normal12, n)
    }

    pub fn new_n_10(n: usize) -> (r: Self)
        requires
            160 < n <= 64800,
        ensures
            r@ == (CodeParams { family: BchFamily::Normal10, k: (n - 160) as nat, n: n as nat }),
    {
        Self::build(BchFamily::Normal10, n)
    }

    pub fn new_n_8(n: usize) -> (r: Self)
        requires
            128 < n <= 64800,
        ensures
            r@ == (CodeParams { family: BchFamily::Normal8, k: (n - 128) as nat, n: n as nat }),
    {
        Self::build(BchFamily::Normal8, n)
    }

    pub fn new_s_12(n: usize) -> (r: Self)
        requires
            168 < n <= 64800,
        ensures
            r@ == (CodeParams { family: BchFamily::Short12, k: (n - 168) as nat, n: n as nat }),
    {
        Self::build(BchFamily::Short12, n)
    }

    pub fn new_m_12(n: usize) -> (r: Self)
        requires
            180 < n <= 64800,
        ensures
            r@ == (CodeParams { family: BchFamily::Medium12, k: (n - 180) as nat, n: n as nat }),
    {
        Self::build(BchFamily::Medium12, n)
    }

    /// The code for a frame size and code rate; `None` for a pair that the
    /// standard does not define.
    pub fn dvb(framesize: Framesize, rate: CodeRate) -> (r: Option<Self>)
        ensures
            match code_table(framesize, rate) {
                None => r.is_none(),
                Some((family, n)) => r.is_some() && r.unwrap()@ == (CodeParams {
                    family,
                    k: (n - parity_len(family)) as nat,
                    n,
                }),
            },
    {
        match framesize {
            Framesize::Normal => match rate {
                CodeRate::C1_4 => Some(Self::new_n_12(16200)),
                CodeRate::C1_3 => Some(Self::new_n_12(21600)),
                CodeRate::C2_5 => Some(Self::new_n_12(25920)),
                CodeRate::C1_2 => Some(Self::new_n_12(32400)),
                CodeRate::C3_5 => Some(Self::new_n_12(38880)),
                CodeRate::C2_3 => Some(Self::new_n_10(43200)),
                CodeRate::C3_4 => Some(Self::new_n_12(48600)),
                CodeRate::C4_5 => Some(Self::new_n_12(51840)),
                CodeRate::C5_6 => Some(Self::new_n_10(54000)),
                CodeRate::C8_9 => Some(Self::new_n_8(57600)),
                CodeRate::C9_10 => Some(Self::new_n_8(58320)),
                CodeRate::C13_45 => Some(Self::new_n_12(18720)),
                CodeRate::C9_20 => Some(Self::new_n_12(29160)),
                CodeRate::C90_180 => Some(Self::new_n_12(32400)),
                CodeRate::C96_180 => Some(Self::new_n_12(34560)),
                CodeRate::C11_20 => Some(Self::new_n_12(35640)),
                CodeRate::C100_180 => Some(Self::new_n_12(36000)),
                CodeRate::C104_180 => Some(Self::new_n_12(37440)),
                CodeRate::C26_45 => Some(Self::new_n_12(37440)),
                CodeRate::C18_30 => Some(Self::new_n_12(38880)),
                CodeRate::C28_45 => Some(Self::new_n_12(40320)),
                CodeRate::C23_36 => Some(Self::new_n_12(41400)),
                CodeRate::C116_180 => Some(Self::new_n_12(41760)),
                CodeRate::C20_30 => Some(Self::new_n_12(43200)),
                CodeRate::C124_180 => Some(Self::new_n_12(44640)),
                CodeRate::C25_36 => Some(Self::new_n_12(45000)),
                CodeRate::C128_180 => Some(Self::new_n_12(46080)),
                CodeRate::C13_18 => Some(Self::new_n_12(46800)),
                CodeRate::C132_180 => Some(Self::new_n_12(47520)),
                CodeRate::C22_30 => Some(Self::new_n_12(47520)),
                CodeRate::C135_180 => Some(Self::new_n_12(48600)),
                CodeRate::C140_180 => Some(Self::new_n_12(50400)),
                CodeRate::C7_9 => Some(Self::new_n_12(50400)),
                CodeRate::C154_180 => Some(Self::new_n_12(55440)),
                CodeRate::C2_9Vlsnr => Some(Self::new_n_12(14400)),
                _ => None,
            },
            Framesize::Short => match rate {
                CodeRate::C1_4 => Some(Self::new_s_12(3240)),
                CodeRate::C1_3 => Some(Self::new_s_12(5400)),
                CodeRate::C2_5 => Some(Self::new_s_12(6480)),
                CodeRate::C1_2 => Some(Self::new_s_12(7200)),
                CodeRate::C3_5 => Some(Self::new_s_12(9720)),
                CodeRate::C2_3 => Some(Self::new_s_12(10800)),
                CodeRate::C3_4 => Some(Self::new_s_12(11880)),
                CodeRate::C4_5 => Some(Self::new_s_12(12600)),
                CodeRate::C5_6 => Some(Self::new_s_12(13320)),
                CodeRate::C8_9 => Some(Self::new_s_12(14400)),
                CodeRate::C11_45 => Some(Self::new_s_12(3960)),
                CodeRate::C4_15 => Some(Self::new_s_12(4320)),
                CodeRate::C14_45 => Some(Self::new_s_12(5040)),
                CodeRate::C7_15 => Some(Self::new_s_12(7560)),
                CodeRate::C8_15 => Some(Self::new_s_12(8640)),
                CodeRate::C26_45 => Some(Self::new_s_12(9360)),
                CodeRate::C32_45 => Some(Self::new_s_12(11520)),
                CodeRate::C1_5VlsnrSf2 => Some(Self::new_s_12(2680)),
                CodeRate::C11_45VlsnrSf2 => Some(Self::new_s_12(3960)),
                CodeRate::C1_5Vlsnr => Some(Self::new_s_12(3240)),
                CodeRate::C4_15Vlsnr => Some(Self::new_s_12(4320)),
                CodeRate::C1_3Vlsnr => Some(Self::new_s_12(5400)),
                _ => None,
            },
            Framesize::Medium => match rate {
                CodeRate::C1_5Medium => Some(Self::new_m_12(5840)),
                CodeRate::C11_45Medium => Some(Self::new_m_12(7920)),
                CodeRate::C1_3Medium => Some(Self::new_m_12(10800)),
                _ => None,
            },
        }
    }

    pub fn family(&self) -> (r: BchFamily)
        ensures
            r == self@.family,
    {
        self.family
    }

    /// Information length; a code always has at least one information bit.
    pub fn k(&self) -> (r: usize)
        ensures
            r == self@.k,
            r == self@.n - parity_len(self@.family),
            parity_len(self@.family) < self@.n <= 64800,
    {
        proof {
            use_type_invariant(self);
        }
        self.k
    }

    pub fn n(&self) -> (r: usize)
        ensures
            r == self@.n,
            r == self@.k + parity_len(self@.family),
            parity_len(self@.family) < self@.n <= 64800,
    {
        proof {
            use_type_invariant(self);
        }
        self.n
    }

    /// The packed generator: its low part right-aligned in `word_count`
    /// words.
    pub fn poly(&self) -> (r: &Vec<u32>)
        ensures
            r@.len() == word_count(self@.family),
            forall|p: int|
                0 <= p < 32 * word_count(self@.family) ==> #[trigger] packed_bit(r@, p)
                    == aligned_bit(self@.family, p),
            generator(self@.family).len() == parity_len(self@.family) + 1,
            generator(self@.family).last() == 1,
    {
        proof {
            use_type_invariant(self);
        }
        &self.poly
    }
}

/// Every configuration of the table has a redundancy `n - k` of one of the
/// five standard lengths, and leaves at least one information bit.
pub proof fn lemma_table_redundancy(framesize: Framesize, rate: CodeRate)
    ensures
        match code_table(framesize, rate) {
            None => true,
            Some((family, n)) => {
                let r = parity_len(family);
                &&& r < n <= 64800
                &&& (r == 128 || r == 160 || r == 168 || r == 180 || r == 192)
            },
        },
{
}

proof fn lemma_chain_degree(fs: Seq<Seq<u8>>, w: nat, c: nat)
    requires
        1 <= c <= fs.len(),
        w >= 2,
        forall|i: int| 0 <= i < fs.len() ==> (#[trigger] fs[i]).len() == w && fs[i].last() != 0,
    ensures
        chain(fs, c).len() == c * (w - 1) + 1,
        chain(fs, c).last() != 0,
    decreases c,
{
    if c > 1 {
        lemma_chain_degree(fs, w, (c - 1) as nat);
        assert(fs[c - 1].len() == w);
        lemma_product_degree(chain(fs, (c - 1) as nat), fs[c - 1]);
        assert((c - 1) * (w - 1) + 1 + w - 1 == c * (w - 1) + 1) by (nonlinear_arith);
    } else {
        assert(fs[0].len() == w);
    }
}

proof fn lemma_chain_values(fs: Seq<Seq<u8>>, c: nat)
    requires
        c >= 2,
    ensures
        forall|d: int| 0 <= d < chain(fs, c).len() ==> #[trigger] chain(fs, c)[d] <= 1,
{
    lemma_product_bits(chain(fs, (c - 1) as nat), fs[c - 1]);
}

/// The generator of every family has degree `r` and leading coefficient
/// one, so it is `x^r + generator_low(x)`.
pub proof fn lemma_generator_degree(f: BchFamily)
    ensures
        generator(f).len() == parity_len(f) + 1,
        generator(f).last() == 1,
        forall|d: int| 0 <= d < generator(f).len() ==> #[trigger] generator(f)[d] <= 1,
{
    let fs = factors(f);
    match f {
        BchFamily::Short12 => {
            assert(forall|i: int| 0 <= i < 12 ==> (#[trigger] SHORT_FACTORS@[i])@[14] != 0);
            lemma_chain_degree(fs, 15, 12);
        },
        BchFamily::Medium12 => {
            assert(forall|i: int| 0 <= i < 12 ==> (#[trigger] MEDIUM_FACTORS@[i])@[15] != 0);
            lemma_chain_degree(fs, 16, 12);
        },
        _ => {
            assert(forall|i: int| 0 <= i < 12 ==> (#[trigger] NORMAL_FACTORS@[i])@[16] != 0);
            lemma_chain_degree(fs, 17, factor_count(f));
        },
    }
    lemma_chain_values(fs, factor_count(f));
}

} // verus!
