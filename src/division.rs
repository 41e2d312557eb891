//! Division by a generator polynomial over GF(2).
//!
//! A remainder is a coefficient sequence of length `r` (index = degree).
//! The divisor is `g(x) = x^r + low(x)`, given by the sequence `low` of its
//! `r` low-order coefficients. Bit strings are read highest degree first.
use vstd::prelude::*;

verus! {

pub open spec fn zeros(n: nat) -> Seq<bool> {
    Seq::new(n, |i: int| false)
}

/// Coefficient-wise sum over GF(2).
pub open spec fn xor_seq(a: Seq<bool>, b: Seq<bool>) -> Seq<bool> {
    Seq::new(a.len(), |i: int| a[i] != b[i])
}

/// One step of long division: `(x * s(x) + c) mod g(x)` for `deg s < r`.
pub open spec fn div_step(low: Seq<bool>, s: Seq<bool>, c: bool) -> Seq<bool> {
    Seq::new(
        low.len(),
        |d: int| (if d == 0 { c } else { s[d - 1] }) != (s[low.len() - 1] && low[d]),
    )
}

/// Long division continued from the partial remainder `s` over `bits`.
pub open spec fn div_run(low: Seq<bool>, s: Seq<bool>, bits: Seq<bool>) -> Seq<bool>
    decreases bits.len(),
{
    if bits.len() == 0 {
        s
    } else {
        div_step(low, div_run(low, s, bits.drop_last()), bits.last())
    }
}

/// Remainder of the polynomial whose coefficients, highest degree first,
/// are `bits`, on division by `x^r + low(x)`.
pub open spec fn remainder(low: Seq<bool>, bits: Seq<bool>) -> Seq<bool> {
    div_run(low, zeros(low.len()), bits)
}

/// The parity bits of a systematic codeword: the remainder of
/// `info(x) * x^r`, written highest degree first.
pub open spec fn parity(low: Seq<bool>, info: Seq<bool>) -> Seq<bool> {
    let r = low.len();
    let s = remainder(low, info + zeros(r));
    Seq::new(r, |j: int| s[r - 1 - j])
}

/// One clock of the division register fed with an information bit: the
/// feedback is the bit plus the register's top coefficient; the register
/// moves up one degree and, on feedback, takes `low` in.
pub open spec fn lfsr_step(low: Seq<bool>, s: Seq<bool>, b: bool) -> Seq<bool> {
    let r = low.len();
    let f = b != s[r - 1];
    Seq::new(r, |d: int| (d > 0 && s[d - 1]) != (f && low[d]))
}

/// The low part of a bit string `w` of at most `r` bits, as a polynomial of
/// degree below `r`.
pub open spec fn low_part(r: nat, w: Seq<bool>) -> Seq<bool> {
    Seq::new(r, |d: int| d < w.len() && w[w.len() - 1 - d])
}

pub open spec fn unit(r: nat, j: int) -> Seq<bool> {
    Seq::new(r, |d: int| d == j)
}

proof fn lemma_run_len(low: Seq<bool>, s: Seq<bool>, bits: Seq<bool>)
    requires
        s.len() == low.len(),
    ensures
        div_run(low, s, bits).len() == low.len(),
    decreases bits.len(),
{
    if bits.len() > 0 {
        lemma_run_len(low, s, bits.drop_last());
    }
}

proof fn lemma_run_append(low: Seq<bool>, s: Seq<bool>, a: Seq<bool>, c: Seq<bool>)
    ensures
        div_run(low, s, a + c) == div_run(low, div_run(low, s, a), c),
    decreases c.len(),
{
    if c.len() == 0 {
        assert(a + c =~= a);
    } else {
        assert((a + c).drop_last() =~= a + c.drop_last());
        assert((a + c).last() == c.last());
        lemma_run_append(low, s, a, c.drop_last());
    }
}

proof fn lemma_zeros_last(j: nat)
    ensures
        zeros(j + 1).drop_last() == zeros(j),
        zeros(j + 1).last() == false,
        seq![false] + zeros(j) == zeros(j + 1),
{
    assert(zeros(j + 1).drop_last() =~= zeros(j));
    assert(seq![false] + zeros(j) =~= zeros(j + 1));
}

proof fn lemma_run_zeros_xor(low: Seq<bool>, s: Seq<bool>, t: Seq<bool>, j: nat)
    requires
        low.len() >= 1,
        s.len() == low.len(),
        t.len() == low.len(),
    ensures
        div_run(low, xor_seq(s, t), zeros(j)) == xor_seq(
            div_run(low, s, zeros(j)),
            div_run(low, t, zeros(j)),
        ),
    decreases j,
{
    if j == 0 {
    } else {
        let jm = (j - 1) as nat;
        lemma_zeros_last(jm);
        lemma_run_zeros_xor(low, s, t, jm);
        lemma_run_len(low, s, zeros(jm));
        lemma_run_len(low, t, zeros(jm));
        let a = div_run(low, s, zeros(jm));
        let b = div_run(low, t, zeros(jm));
        assert(div_step(low, xor_seq(a, b), false) =~= xor_seq(
            div_step(low, a, false),
            div_step(low, b, false),
        ));
    }
}

proof fn lemma_run_unit(low: Seq<bool>, j: nat)
    requires
        1 <= low.len(),
        j <= low.len(),
    ensures
        j < low.len() ==> div_run(low, unit(low.len(), 0), zeros(j)) == unit(low.len(), j as int),
        j == low.len() ==> div_run(low, unit(low.len(), 0), zeros(j)) == low,
    decreases j,
{
    let r = low.len();
    if j == 0 {
    } else {
        let jm = (j - 1) as nat;
        lemma_zeros_last(jm);
        lemma_run_unit(low, jm);
        if j < r {
            assert(div_step(low, unit(r, jm as int), false) =~= unit(r, j as int));
        } else {
            assert(div_step(low, unit(r, jm as int), false) =~= low);
        }
    }
}

/// Dividing zero, continued over zero coefficients, stays zero.
pub proof fn lemma_run_zero_state(low: Seq<bool>, j: nat)
    requires
        1 <= low.len(),
    ensures
        div_run(low, zeros(low.len()), zeros(j)) == zeros(low.len()),
    decreases j,
{
    if j > 0 {
        lemma_zeros_last((j - 1) as nat);
        lemma_run_zero_state(low, (j - 1) as nat);
        assert(div_step(low, zeros(low.len()), false) =~= zeros(low.len()));
    }
}

proof fn lemma_step_commutes(low: Seq<bool>, s: Seq<bool>, j: nat)
    ensures
        div_run(low, div_step(low, s, false), zeros(j)) == div_step(
            low,
            div_run(low, s, zeros(j)),
            false,
        ),
{
    lemma_zeros_last(j);
    lemma_run_append(low, s, seq![false], zeros(j));
    assert(seq![false].drop_last() =~= Seq::<bool>::empty());
    assert(seq![false].last() == false);
    assert(div_run(low, s, Seq::<bool>::empty()) == s);
    assert(div_run(low, s, seq![false]) == div_step(low, s, false));
}

/// Feeding one more information bit to the division register moves it from
/// the remainder of `u(x) * x^r` to that of `(x * u(x) + b) * x^r`.
pub proof fn lemma_lfsr_step(low: Seq<bool>, u: Seq<bool>, b: bool)
    requires
        low.len() >= 1,
    ensures
        remainder(low, u.push(b) + zeros(low.len())) == lfsr_step(
            low,
            remainder(low, u + zeros(low.len())),
            b,
        ),
{
    let r = low.len();
    let z = zeros(r);
    let ru = remainder(low, u);
    lemma_run_len(low, z, u);
    lemma_run_append(low, z, u.push(b), zeros(r));
    assert(u.push(b).drop_last() =~= u);
    let stepped = div_step(low, ru, b);
    let e0 = if b {
        unit(r, 0)
    } else {
        z
    };
    assert(stepped =~= xor_seq(div_step(low, ru, false), e0));
    lemma_run_zeros_xor(low, div_step(low, ru, false), e0, r);
    lemma_step_commutes(low, ru, r);
    lemma_run_append(low, z, u, zeros(r));
    let s = remainder(low, u + zeros(r));
    lemma_run_len(low, ru, zeros(r));
    if b {
        lemma_run_unit(low, r);
        assert(xor_seq(div_step(low, s, false), low) =~= lfsr_step(low, s, b));
    } else {
        lemma_run_zero_state(low, r);
        assert(xor_seq(div_step(low, s, false), z) =~= lfsr_step(low, s, b));
    }
}

proof fn lemma_run_low_part(low: Seq<bool>, s: Seq<bool>, w: Seq<bool>)
    requires
        low.len() >= 1,
        s.len() == low.len(),
        w.len() <= low.len(),
    ensures
        div_run(low, s, w) == xor_seq(div_run(low, s, zeros(w.len())), low_part(low.len(), w)),
    decreases w.len(),
{
    let r = low.len();
    if w.len() == 0 {
        assert(div_run(low, s, w) == s);
        assert(div_run(low, s, zeros(0)) == s);
        assert(xor_seq(s, low_part(r, w)) =~= s);
    } else {
        let j = (w.len() - 1) as nat;
        let wp = w.drop_last();
        lemma_run_low_part(low, s, wp);
        lemma_zeros_last(j);
        lemma_run_len(low, s, zeros(j));
        let x = div_run(low, s, zeros(j));
        assert(div_run(low, s, wp) == xor_seq(x, low_part(r, wp)));
        assert(div_run(low, s, w) == div_step(low, div_run(low, s, wp), w.last()));
        assert(div_run(low, s, zeros(j + 1)) == div_step(low, x, false));
        lemma_step_low_part(low, x, wp, w.last());
        assert(wp.push(w.last()) =~= w);
    }
}

proof fn lemma_step_low_part(low: Seq<bool>, x: Seq<bool>, wp: Seq<bool>, c: bool)
    requires
        x.len() == low.len(),
        wp.len() < low.len(),
    ensures
        div_step(low, xor_seq(x, low_part(low.len(), wp)), c) == xor_seq(
            div_step(low, x, false),
            low_part(low.len(), wp.push(c)),
        ),
{
    let r = low.len();
    let y = low_part(r, wp);
    let w = wp.push(c);
    let lhs = div_step(low, xor_seq(x, y), c);
    let rhs = xor_seq(div_step(low, x, false), low_part(r, w));
    assert(!y[r - 1]);
    assert forall|d: int| 0 <= d < r implies #[trigger] lhs[d] == rhs[d] by {
        if 0 < d < w.len() {
            assert(w[w.len() - 1 - d] == wp[wp.len() - 1 - (d - 1)]);
        }
    }
    assert(lhs =~= rhs);
}

/// A systematic codeword, the information bits followed by their parity,
/// leaves no remainder on division by the generator.
pub proof fn lemma_codeword_divisible(low: Seq<bool>, info: Seq<bool>)
    requires
        low.len() >= 1,
    ensures
        remainder(low, info + parity(low, info)) == zeros(low.len()),
{
    let r = low.len();
    let z = zeros(r);
    let p = parity(low, info);
    let ru = remainder(low, info);
    lemma_run_len(low, z, info);
    lemma_run_append(low, z, info, p);
    lemma_run_low_part(low, ru, p);
    lemma_run_append(low, z, info, zeros(r));
    let s = remainder(low, info + zeros(r));
    lemma_run_len(low, ru, zeros(r));
    assert(xor_seq(s, low_part(r, p)) =~= z);
}

} // verus!
