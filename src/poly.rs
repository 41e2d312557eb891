//! Polynomials over GF(2), held as coefficient vectors (index = degree,
//! any nonzero byte counts as a one), and their packing into 32-bit words.
use vstd::prelude::*;

verus! {

/// Coefficient `i` of `a` as a field element; zero outside the vector.
pub open spec fn coef(a: Seq<u8>, i: int) -> bool {
    0 <= i < a.len() && a[i] != 0
}

/// Sum over GF(2) of `a_i * b_(m-i)` for `i < rows`.
pub open spec fn conv(a: Seq<u8>, b: Seq<u8>, m: int, rows: nat) -> bool
    decreases rows,
{
    if rows == 0 {
        false
    } else {
        conv(a, b, m, (rows - 1) as nat) != (coef(a, rows - 1) && coef(b, m - (rows - 1)))
    }
}

/// Coefficient `m` of the product `a * b`.
pub open spec fn product_coef(a: Seq<u8>, b: Seq<u8>, m: int) -> bool {
    conv(a, b, m, a.len())
}

/// The product `a * b` with all its `a.len() + b.len()` coefficient slots.
pub open spec fn raw_product(a: Seq<u8>, b: Seq<u8>) -> Seq<u8> {
    Seq::new(a.len() + b.len(), |m: int| if product_coef(a, b, m) { 1u8 } else { 0u8 })
}

/// `p` without its trailing zero coefficients.
pub open spec fn trim(p: Seq<u8>) -> Seq<u8>
    decreases p.len(),
{
    if p.len() > 0 && p.last() == 0 {
        trim(p.drop_last())
    } else {
        p
    }
}

/// The GF(2) product `a * b` as a coefficient vector with no trailing zero.
pub open spec fn poly_product(a: Seq<u8>, b: Seq<u8>) -> Seq<u8> {
    trim(raw_product(a, b))
}

proof fn lemma_trim(p: Seq<u8>, len: int)
    requires
        0 <= len <= p.len(),
        forall|m: int| len <= m < p.len() ==> p[m] == 0,
        len == 0 || p[len - 1] != 0,
    ensures
        trim(p) == p.subrange(0, len),
    decreases p.len(),
{
    if p.len() > len {
        lemma_trim(p.drop_last(), len);
        assert(p.drop_last().subrange(0, len) =~= p.subrange(0, len));
    } else {
        assert(p.subrange(0, len) =~= p);
    }
}

proof fn lemma_trim_prefix(p: Seq<u8>)
    ensures
        trim(p).len() <= p.len(),
        forall|i: int| 0 <= i < trim(p).len() ==> #[trigger] trim(p)[i] == p[i],
    decreases p.len(),
{
    if p.len() > 0 && p.last() == 0 {
        lemma_trim_prefix(p.drop_last());
    }
}

/// Every coefficient of a product is 0 or 1.
pub proof fn lemma_product_bits(a: Seq<u8>, b: Seq<u8>)
    ensures
        forall|d: int| 0 <= d < poly_product(a, b).len() ==> #[trigger] poly_product(a, b)[d] <= 1,
{
    lemma_trim_prefix(raw_product(a, b));
}

proof fn lemma_conv_below(a: Seq<u8>, b: Seq<u8>, m: int, rows: nat)
    requires
        rows <= a.len(),
        m - rows >= b.len() - 1,
    ensures
        !conv(a, b, m, rows),
    decreases rows,
{
    if rows > 0 {
        lemma_conv_below(a, b, m, (rows - 1) as nat);
    }
}

/// The product of two polynomials whose leading coefficients are nonzero
/// has degree `deg a + deg b`, and its leading coefficient is one.
pub proof fn lemma_product_degree(a: Seq<u8>, b: Seq<u8>)
    requires
        a.len() >= 1,
        b.len() >= 1,
        a.last() != 0,
        b.last() != 0,
    ensures
        poly_product(a, b).len() == a.len() + b.len() - 1,
        poly_product(a, b).last() == 1,
{
    let raw = raw_product(a, b);
    let top = a.len() + b.len() - 2;
    lemma_conv_below(a, b, top, (a.len() - 1) as nat);
    assert(product_coef(a, b, top));
    lemma_conv_outside(a, b, top + 1, a.len());
    lemma_trim(raw, top + 1);
}

proof fn lemma_conv_outside(a: Seq<u8>, b: Seq<u8>, m: int, rows: nat)
    requires
        m < 0 || m >= rows + b.len() - 1,
    ensures
        !conv(a, b, m, rows),
    decreases rows,
{
    if rows > 0 {
        lemma_conv_outside(a, b, m, (rows - 1) as nat);
    }
}

/// GF(2) product of two coefficient vectors, without trailing zeros.
pub fn poly_mult(ina: &[u8], inb: &[u8]) -> (r: Vec<u8>)
    requires
        ina@.len() + inb@.len() <= usize::MAX,
    ensures
        r@ == poly_product(ina@, inb@),
{
    let la = ina.len();
    let lb = inb.len();
    let total = la + lb;
    let mut out: Vec<u8> = Vec::new();
    let mut t: usize = 0;
    while t < total
        invariant
            t <= total,
            out@.len() == t,
            forall|m: int| 0 <= m < t ==> #[trigger] out@[m] == 0,
        decreases total - t,
    {
        out.push(0);
        t = t + 1;
    }
    let mut i: usize = 0;
    while i < la
        invariant
            la == ina@.len(),
            lb == inb@.len(),
            total == la + lb,
            i <= la,
            out@.len() == total,
            forall|m: int|
                0 <= m < total ==> #[trigger] out@[m] == (if conv(ina@, inb@, m, i as nat) {
                    1u8
                } else {
                    0u8
                }),
        decreases la - i,
    {
        let mut j: usize = 0;
        while j < lb
            invariant
                la == ina@.len(),
                lb == inb@.len(),
                total == la + lb,
                i < la,
                j <= lb,
                out@.len() == total,
                forall|m: int|
                    0 <= m < total ==> #[trigger] out@[m] == (if (if i <= m < i + j {
                        conv(ina@, inb@, m, (i + 1) as nat)
                    } else {
                        conv(ina@, inb@, m, i as nat)
                    }) {
                        1u8
                    } else {
                        0u8
                    }),
            decreases lb - j,
        {
            if ina[i] != 0 && inb[j] != 0 {
                let v = out[i + j];
                out.set(i + j, if v == 0 { 1 } else { 0 });
            }
            j = j + 1;
        }
        proof {
            assert forall|m: int| 0 <= m < total && !(i <= m < i + lb) implies conv(
                ina@,
                inb@,
                m,
                (i + 1) as nat,
            ) == conv(ina@, inb@, m, i as nat) by {
                assert(!coef(inb@, m - i));
            }
        }
        i = i + 1;
    }
    // drop trailing zero coefficients
    let mut len: usize = total;
    while len > 0 && out[len - 1] == 0
        invariant
            len <= total,
            out@.len() == total,
            forall|m: int| len <= m < total ==> #[trigger] out@[m] == 0,
        decreases len,
    {
        len = len - 1;
    }
    proof {
        assert(out@ =~= raw_product(ina@, inb@));
        lemma_trim(out@, len as int);
    }
    out.truncate(len);
    out
}

/// Bit `q` of a 32-bit word, counting from the most significant bit (q = 0).
pub open spec fn word_bit(w: u32, q: u32) -> bool {
    (w >> ((31 - q) as u32)) & 1u32 == 1u32
}

/// Bit `p` of a word vector read most-significant-bit first: bit `p % 32`
/// of word `p / 32`.
pub open spec fn packed_bit(ws: Seq<u32>, p: int) -> bool {
    word_bit(ws[p / 32], (p % 32) as u32)
}

/// `ws` is the packing of `c`: one word per 32 coefficients (the last chunk
/// padded with zeros at its least significant end), the first coefficient of
/// each chunk in the word's most significant bit.
pub open spec fn is_packing(c: Seq<u8>, ws: Seq<u32>) -> bool {
    &&& ws.len() == (c.len() + 31) / 32
    &&& forall|p: int| 0 <= p < 32 * ws.len() ==> #[trigger] packed_bit(ws, p) == coef(c, p)
}

proof fn lemma_set_bit(w: u32, j: u32, q: u32)
    by (bit_vector)
    requires
        j < 32,
        q < 32,
    ensures
        word_bit(w | (0x8000_0000u32 >> j), q) == (word_bit(w, q) || q == j),
        (0x8000_0000u32 >> j) >> 1u32 == 0x8000_0000u32 >> vstd::prelude::add(j, 1u32),
        !word_bit(0u32, q),
{
}

/// Packs a coefficient vector into 32-bit words, most significant bit first.
pub fn poly_pack(poly: Vec<u8>) -> (r: Vec<u32>)
    requires
        poly@.len() + 32 <= usize::MAX,
    ensures
        is_packing(poly@, r@),
{
    let len = poly.len();
    let nwords = (len + 31) / 32;
    let mut out: Vec<u32> = Vec::new();
    let mut w: usize = 0;
    while w < nwords
        invariant
            len == poly@.len(),
            len + 32 <= usize::MAX,
            nwords == (len + 31) / 32,
            w <= nwords,
            out@.len() == w,
            forall|p: int| 0 <= p < 32 * w ==> #[trigger] packed_bit(out@, p) == coef(poly@, p),
        decreases nwords - w,
    {
        let base = w * 32;
        let mut word: u32 = 0;
        let mut bit: u32 = 0x8000_0000;
        let mut j: u32 = 0;
        proof {
            assert(0x8000_0000u32 == 0x8000_0000u32 >> 0u32) by (bit_vector);
            assert forall|q: u32| q < 32 implies !#[trigger] word_bit(0u32, q) by {
                lemma_set_bit(0u32, 0, q);
            }
        }
        while j < 32
            invariant
                len == poly@.len(),
                base == w * 32,
                w < nwords,
                nwords == (len + 31) / 32,
                j <= 32,
                j < 32 ==> bit == 0x8000_0000u32 >> j,
                forall|q: u32| q < 32 ==> #[trigger] word_bit(word, q) == (q < j && coef(poly@, base + q)),
            decreases 32 - j,
        {
            let idx = base + j as usize;
            if idx < len && poly[idx] != 0 {
                proof {
                    assert forall|q: u32| q < 32 implies #[trigger] word_bit(word | bit, q) == (word_bit(word, q) || q == j) by {
                        lemma_set_bit(word, j, q);
                    }
                }
                word = word | bit;
            }
            proof {
                lemma_set_bit(word, j, 0);
            }
            bit = bit >> 1;
            j = j + 1;
        }
        let ghost prev = out@;
        out.push(word);
        proof {
            assert forall|p: int| 0 <= p < 32 * (w + 1) implies #[trigger] packed_bit(out@, p) == coef(poly@, p) by {
                if p < 32 * w {
                    assert(packed_bit(prev, p) == coef(poly@, p));
                    assert(out@[p / 32] == prev[p / 32]);
                } else {
                    assert(p / 32 == w);
                    let q = (p % 32) as u32;
                    assert(word_bit(word, q) == coef(poly@, base + q));
                }
            }
        }
        w = w + 1;
    }
    out
}

} // verus!
