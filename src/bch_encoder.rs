//! Systematic BCH encoding of bit streams, one byte per bit, in whole
//! frames.
use vstd::prelude::*;
use crate::bch_code::{aligned_bit, generator_low, parity_len, word_count, BchCode, CodeParams};
use crate::config::{CodeRate, Framesize};
use crate::division::{lemma_codeword_divisible, lemma_lfsr_step, lemma_run_zero_state, lfsr_step, parity, remainder, zeros};
use crate::poly::packed_bit;
use crate::shift_reg::ShiftReg;

verus! {

/// The bits carried by a run of symbols: a nonzero byte is a one.
pub open spec fn sym_bits(s: Seq<u8>) -> Seq<bool> {
    s.map_values(|b: u8| b != 0)
}

/// Bits written as symbols 0 and 1.
pub open spec fn bit_syms(b: Seq<bool>) -> Seq<u8> {
    b.map_values(|x: bool| if x { 1u8 } else { 0u8 })
}

/// The codeword of a run of information symbols: the symbols themselves,
/// then the parity bits.
pub open spec fn codeword(c: CodeParams, info: Seq<u8>) -> Seq<u8> {
    info + bit_syms(parity(generator_low(c.family), sym_bits(info)))
}

/// The first `m` frames of `input`, each `k` symbols long, encoded one
/// after the other.
pub open spec fn encode_frames(c: CodeParams, input: Seq<u8>, m: nat) -> Seq<u8>
    decreases m,
{
    if m == 0 {
        Seq::empty()
    } else {
        encode_frames(c, input, (m - 1) as nat) + codeword(
            c,
            input.subrange((m - 1) * c.k, (m * c.k) as int),
        )
    }
}

/// How many whole frames fit both the available input and output space.
pub open spec fn frames_available(c: CodeParams, in_len: nat, out_len: nat) -> nat {
    let a = in_len / c.k;
    let b = out_len / c.n;
    if a <= b {
        a
    } else {
        b
    }
}

/// Encodes the `k` symbols of `input` from `ib` into the `n` symbols of
/// `output` from `ob`, leaving the rest of `output` as it was.
fn encode_frame(code: &BchCode, input: &[u8], ib: usize, output: &mut [u8], ob: usize)
    requires
        ib + code@.k <= input@.len(),
        ob + code@.n <= old(output)@.len(),
    ensures
        final(output)@ == old(output)@.subrange(0, ob as int) + codeword(
            code@,
            input@.subrange(ib as int, ib + code@.k),
        ) + old(output)@.subrange(ob + code@.n, old(output)@.len() as int),
{
    let k = code.k();
    let n = code.n();
    let poly = code.poly();
    let w = poly.len();
    let ghost fam = code@.family;
    let ghost low = generator_low(fam);
    let ghost r = parity_len(fam);
    let ghost pad = 32 * w - r;
    let ghost info = input@.subrange(ib as int, ib + k);
    let ghost bits = sym_bits(info);
    let ghost out0 = output@;
    let ilen = input.len();
    let olen = output.len();
    let mut reg = ShiftReg::new(w);
    proof {
        reg.lemma_view_len();
        assert(bits.take(0) + zeros(r) =~= zeros(r));
        lemma_run_zero_state(low, r);
    }
    let mut i: usize = 0;
    while i < k
        invariant
            k == code@.k,
            n == code@.n,
            k + r == n,
            r == low.len(),
            128 <= r,
            w == word_count(fam),
            pad + r == 32 * w,
            0 <= pad,
            poly@.len() == w,
            forall|p: int| 0 <= p < 32 * w ==> #[trigger] packed_bit(poly@, p) == aligned_bit(fam, p),
            low == generator_low(fam),
            fam == code@.family,
            ilen == input@.len(),
            olen == out0.len(),
            ib + k <= input@.len(),
            ob + n <= out0.len(),
            info == input@.subrange(ib as int, ib + k),
            bits == sym_bits(info),
            i <= k,
            reg.size() == w,
            reg@.len() == 32 * w,
            forall|p: int|
                0 <= p < 32 * w ==> #[trigger] reg@[p] == (p >= pad && remainder(
                    low,
                    bits.take(i as int) + zeros(r),
                )[p - pad]),
            output@.len() == out0.len(),
            forall|t: int|
                0 <= t < output@.len() ==> #[trigger] output@[t] == if ob <= t < ob + i {
                    info[t - ob]
                } else {
                    out0[t]
                },
        decreases k - i,
    {
        let v = input[ib + i];
        output[ob + i] = v;
        let top = reg.peek() & 1;
        let fb = (v != 0) != (top == 1);
        let ghost s = remainder(low, bits.take(i as int) + zeros(r));
        let ghost before = reg@;
        reg.shift();
        if fb {
            reg.xor(poly.as_slice());
        }
        proof {
            reg.lemma_view_len();
            lemma_lfsr_step(low, bits.take(i as int), bits[i as int]);
            assert(bits.take(i as int).push(bits[i as int]) =~= bits.take(i + 1));
            assert(bits[i as int] == (v != 0));
            let s2 = lfsr_step(low, s, bits[i as int]);
            assert forall|p: int| 0 <= p < 32 * w implies #[trigger] reg@[p] == (p >= pad && s2[p - pad]) by {
                if p > 0 {
                    assert(before[p - 1] == (p - 1 >= pad && s[p - 1 - pad]));
                }
                assert(before[32 * w - 1] == s[r - 1]);
            }
        }
        i = i + 1;
    }
    let ghost s = remainder(low, bits + zeros(r));
    let ghost par = parity(low, bits);
    proof {
        assert(bits.take(k as int) =~= bits);
    }
    let mut j: usize = 0;
    while j < n - k
        invariant
            k == code@.k,
            n == code@.n,
            k + r == n,
            r == low.len(),
            128 <= r,
            pad + r == 32 * w,
            0 <= pad,
            w == word_count(fam),
            fam == code@.family,
            ilen == input@.len(),
            olen == out0.len(),
            ib + k <= input@.len(),
            ob + n <= out0.len(),
            info == input@.subrange(ib as int, ib + k),
            bits == sym_bits(info),
            s == remainder(low, bits + zeros(r)),
            par == parity(low, bits),
            j <= r,
            reg.size() == w,
            reg@.len() == 32 * w,
            forall|p: int| 0 <= p < 32 * w ==> #[trigger] reg@[p] == (p - j >= pad && s[p - j - pad]),
            output@.len() == out0.len(),
            forall|t: int|
                0 <= t < output@.len() ==> #[trigger] output@[t] == if ob <= t < ob + k {
                    info[t - ob]
                } else if ob + k <= t < ob + k + j {
                    if par[t - ob - k] {
                        1u8
                    } else {
                        0u8
                    }
                } else {
                    out0[t]
                },
        decreases n - k - j,
    {
        let b = reg.peek() & 1;
        proof {
            assert(reg@[32 * w - 1] == s[r - 1 - j]);
        }
        output[ob + k + j] = b as u8;
        let ghost before = reg@;
        reg.shift();
        proof {
            reg.lemma_view_len();
            assert forall|p: int| 0 <= p < 32 * w implies #[trigger] reg@[p] == (p - (j + 1) >= pad
                && s[p - (j + 1) - pad]) by {
                assert(reg@[p] == (p > 0 && before[p - 1]));
                if p > 0 {
                    assert(before[p - 1] == (p - 1 - j >= pad && s[p - 1 - j - pad]));
                    assert(p - 1 - j == p - (j + 1));
                    assert(reg@[p] == (p - (j + 1) >= pad && s[p - (j + 1) - pad]));
                } else {
                    assert(!(p - (j + 1) >= pad));
                }
            }
        }
        j = j + 1;
    }
    proof {
        let cw = codeword(code@, info);
        assert(output@ =~= out0.subrange(0, ob as int) + cw + out0.subrange(ob + n, out0.len() as int));
    }
}

proof fn lemma_fit(m: int, f: int, size: int, len: int)
    requires
        0 < size,
        0 <= f < m,
        m <= len / size,
    ensures
        f * size + size <= m * size,
        (f + 1) * size == f * size + size,
        m * size <= len,
{
    assert(m * size <= (len / size) * size) by (nonlinear_arith)
        requires
            0 < size,
            m <= len / size,
    ;
    assert((len / size) * size <= len) by (nonlinear_arith)
        requires
            0 < size,
    ;
    assert(f * size + size <= m * size) by (nonlinear_arith)
        requires
            0 < size,
            f < m,
    ;
    assert((f + 1) * size == f * size + size) by (nonlinear_arith);
}

proof fn lemma_encode_frames_len(c: CodeParams, input: Seq<u8>, m: nat)
    requires
        c.n == c.k + parity_len(c.family),
        m * c.k <= input.len(),
    ensures
        encode_frames(c, input, m).len() == m * c.n,
    decreases m,
{
    if m > 0 {
        let mm = (m - 1) as nat;
        assert(mm * c.k + c.k == m * c.k && mm * c.n + c.n == m * c.n) by (nonlinear_arith)
            requires
                mm + 1 == m,
        ;
        lemma_encode_frames_len(c, input, mm);
        let info = input.subrange((mm * c.k) as int, (m * c.k) as int);
        assert(info.len() == c.k);
        assert(parity(generator_low(c.family), sym_bits(info)).len() == parity_len(c.family));
        assert(codeword(c, info).len() == c.n);
        assert(encode_frames(c, input, m) == encode_frames(c, input, mm) + codeword(c, info));
        assert(encode_frames(c, input, m).len() == mm * c.n + c.n);
    } else {
        assert(m * c.n == 0) by (nonlinear_arith)
            requires
                m == 0,
        ;
    }
}

/// The encoder of one code configuration.
pub struct BchEncoder(pub BchCode);

impl View for BchEncoder {
    type V = CodeParams;

    closed spec fn view(&self) -> CodeParams {
        self.0@
    }
}

impl BchEncoder {
    /// The encoder for a frame size and code rate; `None` for a pair that
    /// the standard does not define.
    pub fn new(framesize: Framesize, rate: CodeRate) -> (r: Option<Self>)
        ensures
            match crate::bch_code::code_table(framesize, rate) {
                None => r.is_none(),
                Some((family, n)) => r.is_some() && r.unwrap()@ == (CodeParams {
                    family,
                    k: (n - parity_len(family)) as nat,
                    n,
                }),
            },
    {
        match BchCode::dvb(framesize, rate) {
            Some(code) => Some(BchEncoder(code)),
            None => None,
        }
    }

    /// Information bits per frame.
    pub fn k(&self) -> (r: usize)
        ensures
            r == self@.k,
    {
        self.0.k()
    }

    /// Codeword bits per frame.
    pub fn n(&self) -> (r: usize)
        ensures
            r == self@.n,
    {
        self.0.n()
    }

    /// Encodes as many whole frames as both `input` and `output` hold, and
    /// returns the symbols consumed, the symbols produced, and whether the
    /// stream is done: `input_finished` and every input symbol consumed.
    /// A trailing run shorter than `k` is never consumed, so a stream whose
    /// length is not a multiple of `k` is never reported done; no frame is
    /// ever started or written in part.
    pub fn work(&self, input: &[u8], output: &mut [u8], input_finished: bool) -> (r: (
        usize,
        usize,
        bool,
    ))
        ensures
            r.0 == self@.k * frames_available(self@, input@.len(), old(output)@.len()),
            r.1 == self@.n * frames_available(self@, input@.len(), old(output)@.len()),
            r.2 == (input_finished && r.0 == input@.len()),
            final(output)@ == encode_frames(
                self@,
                input@,
                frames_available(self@, input@.len(), old(output)@.len()),
            ) + old(output)@.subrange(r.1 as int, old(output)@.len() as int),
    {
        let k = self.0.k();
        let n = self.0.n();
        let ilen = input.len();
        let olen = output.len();
        let a = ilen / k;
        let b = olen / n;
        let m = if a <= b {
            a
        } else {
            b
        };
        let ghost c = self@;
        let ghost out0 = output@;
        proof {
            if m > 0 {
                lemma_fit(m as int, 0, k as int, ilen as int);
                lemma_fit(m as int, 0, n as int, olen as int);
            }
            assert(encode_frames(c, input@, 0) + out0.subrange(0, olen as int) =~= out0);
        }
        let mut f: usize = 0;
        while f < m
            invariant
                c == self@,
                k == c.k,
                n == c.n,
                n == k + parity_len(c.family),
                0 < k,
                ilen == input@.len(),
                olen == out0.len(),
                m == frames_available(c, ilen as nat, olen as nat),
                m <= ilen / k,
                m <= olen / n,
                m * k <= ilen,
                m * n <= olen,
                f <= m,
                output@.len() == olen,
                output@ == encode_frames(c, input@, f as nat) + out0.subrange(f * n, olen as int),
            decreases m - f,
        {
            proof {
                lemma_fit(m as int, f as int, k as int, ilen as int);
                lemma_fit(m as int, f as int, n as int, olen as int);
                lemma_encode_frames_len(c, input@, f as nat);
            }
            let ghost before = output@;
            encode_frame(&self.0, input, f * k, output, f * n);
            proof {
                let cw = codeword(c, input@.subrange(f * k, f * k + k));
                assert(before.subrange(0, f * n) =~= encode_frames(c, input@, f as nat));
                assert(before.subrange(f * n + n, olen as int) =~= out0.subrange(f * n + n, olen as int));
                assert(encode_frames(c, input@, (f + 1) as nat) == encode_frames(c, input@, f as nat) + cw);
                assert(output@ =~= encode_frames(c, input@, (f + 1) as nat) + out0.subrange((f + 1) * n, olen as int));
            }
            f = f + 1;
        }
        proof {
            assert(k * m == m * k && n * m == m * n) by (nonlinear_arith);
        }
        (k * m, n * m, input_finished && k * m == ilen)
    }
}

/// Frame `fr` of an encoded stream is the codeword of the `fr`-th run of
/// `k` input symbols.
pub proof fn lemma_frame_at(c: CodeParams, input: Seq<u8>, m: nat, fr: int)
    requires
        c.n == c.k + parity_len(c.family),
        m * c.k <= input.len(),
        0 <= fr < m,
    ensures
        fr * c.n + c.n <= encode_frames(c, input, m).len(),
        fr * c.k + c.k <= input.len(),
        encode_frames(c, input, m).subrange(fr * c.n, fr * c.n + c.n) == codeword(
            c,
            input.subrange(fr * c.k, fr * c.k + c.k),
        ),
    decreases m,
{
    let mm = (m - 1) as nat;
    assert(mm * c.k + c.k == m * c.k && mm * c.n + c.n == m * c.n) by (nonlinear_arith)
        requires
            mm + 1 == m,
    ;
    lemma_encode_frames_len(c, input, m);
    lemma_encode_frames_len(c, input, mm);
    let prev = encode_frames(c, input, mm);
    let cw = codeword(c, input.subrange((mm * c.k) as int, (m * c.k) as int));
    assert(encode_frames(c, input, m) == prev + cw);
    if fr < mm as int {
        assert(fr * c.k + c.k <= mm * c.k && fr * c.n + c.n <= mm * c.n) by (nonlinear_arith)
            requires
                fr < mm,
        ;
        lemma_frame_at(c, input, mm, fr);
        assert((prev + cw).subrange(fr * c.n, fr * c.n + c.n) =~= prev.subrange(
            fr * c.n,
            fr * c.n + c.n,
        ));
    } else {
        assert((prev + cw).subrange(fr * c.n, fr * c.n + c.n) =~= cw);
    }
}

/// Every encoded frame, read as a polynomial highest degree first, is a
/// multiple of the code's generator `x^r + generator_low(x)`.
pub proof fn lemma_frames_divisible(c: CodeParams, input: Seq<u8>, m: nat, fr: int)
    requires
        c.n == c.k + parity_len(c.family),
        m * c.k <= input.len(),
        0 <= fr < m,
    ensures
        remainder(
            generator_low(c.family),
            sym_bits(encode_frames(c, input, m).subrange(fr * c.n, fr * c.n + c.n)),
        ) == zeros(parity_len(c.family)),
{
    lemma_frame_at(c, input, m, fr);
    let info = input.subrange(fr * c.k, fr * c.k + c.k);
    let low = generator_low(c.family);
    let p = parity(low, sym_bits(info));
    assert(sym_bits(codeword(c, info)) =~= sym_bits(info) + p);
    lemma_codeword_divisible(low, sym_bits(info));
}

/// Each encoded frame starts with its `k` information symbols, unchanged
/// and in order.
pub proof fn lemma_systematic(c: CodeParams, input: Seq<u8>, m: nat, fr: int)
    requires
        c.n == c.k + parity_len(c.family),
        m * c.k <= input.len(),
        0 <= fr < m,
    ensures
        encode_frames(c, input, m).subrange(fr * c.n, fr * c.n + c.k) == input.subrange(
            fr * c.k,
            fr * c.k + c.k,
        ),
{
    lemma_frame_at(c, input, m, fr);
    let e = encode_frames(c, input, m);
    let info = input.subrange(fr * c.k, fr * c.k + c.k);
    assert(e.subrange(fr * c.n, fr * c.n + c.k) =~= e.subrange(fr * c.n, fr * c.n + c.n).subrange(
        0,
        c.k as int,
    ));
    assert(codeword(c, info).subrange(0, c.k as int) =~= info);
}

/// Two encoders of the same configuration, given the same input and the
/// same output space, take the same number of frames and write the same
/// symbols.
pub proof fn lemma_deterministic(
    a: CodeParams,
    b: CodeParams,
    input_a: Seq<u8>,
    input_b: Seq<u8>,
    out_len: nat,
)
    requires
        a == b,
        input_a == input_b,
    ensures
        frames_available(a, input_a.len(), out_len) == frames_available(b, input_b.len(), out_len),
        encode_frames(a, input_a, frames_available(a, input_a.len(), out_len)) == encode_frames(
            b,
            input_b,
            frames_available(b, input_b.len(), out_len),
        ),
{
}

/// With `m * k + j` input symbols (`j < k`) and room for exactly `m`
/// codewords, exactly `m` frames are encoded: `m * k` symbols are consumed
/// and the last `j` are left.
pub proof fn lemma_whole_frames(c: CodeParams, m: nat, j: nat)
    requires
        c.n == c.k + parity_len(c.family),
        0 < c.k,
        j < c.k,
    ensures
        frames_available(c, m * c.k + j, m * c.n) == m,
        (m * c.k + j) - c.k * m == j,
{
    assert((m * c.k + j) / c.k == m) by (nonlinear_arith)
        requires
            0 < c.k,
            j < c.k,
    ;
    assert((m * c.n) / c.n == m) by (nonlinear_arith)
        requires
            0 < c.n,
    ;
    assert(c.k * m == m * c.k) by (nonlinear_arith);
}

} // verus!
