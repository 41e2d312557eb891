//! A shift register of 32-bit words, read as one long bit string: bit `p`
//! is bit `p % 32` (from the most significant end) of word `p / 32`.
use vstd::prelude::*;
use crate::division::xor_seq;
use crate::poly::{packed_bit, word_bit};

verus! {

pub struct ShiftReg {
    words: Vec<u32>,
}

proof fn lemma_word_shift(hi: u32, lo: u32, q: u32)
    by (bit_vector)
    requires
        q < 32,
    ensures
        q == 0 ==> word_bit((lo >> 1u32) | (hi << 31u32), q) == word_bit(hi, 31),
        q > 0 ==> word_bit((lo >> 1u32) | (hi << 31u32), q) == word_bit(lo, (q - 1) as u32),
        q == 0 ==> !word_bit(lo >> 1u32, q),
        q > 0 ==> word_bit(lo >> 1u32, q) == word_bit(lo, (q - 1) as u32),
{
}

proof fn lemma_word_xor(a: u32, b: u32, q: u32)
    by (bit_vector)
    requires
        q < 32,
    ensures
        word_bit(a ^ b, q) == (word_bit(a, q) != word_bit(b, q)),
        !word_bit(0u32, q),
{
}

proof fn lemma_word_low(w: u32)
    by (bit_vector)
    ensures
        word_bit(w, 31) == (w & 1u32 == 1u32),
        w & 1u32 <= 1u32,
{
}

impl View for ShiftReg {
    type V = Seq<bool>;

    closed spec fn view(&self) -> Seq<bool> {
        Seq::new(32 * self.words@.len(), |p: int| packed_bit(self.words@, p))
    }
}

impl ShiftReg {
    /// Number of words.
    pub closed spec fn size(&self) -> nat {
        self.words@.len()
    }

    pub proof fn lemma_view_len(&self)
        ensures
            self@.len() == 32 * self.size(),
    {
    }

    /// An all-zero register of `size` words.
    pub fn new(size: usize) -> (r: Self)
        requires
            size <= usize::MAX / 32,
        ensures
            r.size() == size,
            r@ == Seq::new(32 * size as nat, |p: int| false),
    {
        let mut words: Vec<u32> = Vec::new();
        let mut i: usize = 0;
        while i < size
            invariant
                i <= size,
                words@.len() == i,
                forall|t: int| 0 <= t < i ==> #[trigger] words@[t] == 0,
            decreases size - i,
        {
            words.push(0);
            i = i + 1;
        }
        let r = ShiftReg { words };
        proof {
            assert forall|p: int| 0 <= p < 32 * size implies !#[trigger] packed_bit(r.words@, p) by {
                lemma_word_xor(0, 0, (p % 32) as u32);
            }
            assert(r@ =~= Seq::new(32 * size as nat, |p: int| false));
        }
        r
    }

    /// Adds (over GF(2)) the first `size()` words of `other` into the
    /// register; a shorter `other` leaves it unchanged.
    pub fn xor(&mut self, other: &[u32])
        ensures
            final(self).size() == old(self).size(),
            other@.len() >= old(self).size() ==> final(self)@ == xor_seq(
                old(self)@,
                Seq::new(old(self)@.len(), |p: int| packed_bit(other@, p)),
            ),
            other@.len() < old(self).size() ==> final(self)@ == old(self)@,
    {
        let n = self.words.len();
        if other.len() >= n {
            let ghost w0 = self.words@;
            let mut i: usize = 0;
            while i < n
                invariant
                    n == self.words@.len(),
                    n == w0.len(),
                    other@.len() >= n,
                    i <= n,
                    forall|t: int| 0 <= t < i ==> #[trigger] self.words@[t] == w0[t] ^ other@[t],
                    forall|t: int| i <= t < n ==> #[trigger] self.words@[t] == w0[t],
                decreases n - i,
            {
                let v = self.words[i] ^ other[i];
                self.words.set(i, v);
                i = i + 1;
            }
            proof {
                assert forall|p: int| 0 <= p < 32 * n implies #[trigger] packed_bit(self.words@, p) == (
                packed_bit(w0, p) != packed_bit(other@, p)) by {
                    lemma_word_xor(w0[p / 32], other@[p / 32], (p % 32) as u32);
                }
                assert(self@ =~= xor_seq(
                    Seq::new(32 * w0.len(), |p: int| packed_bit(w0, p)),
                    Seq::new(32 * w0.len(), |p: int| packed_bit(other@, p)),
                ));
            }
        }
    }

    /// Moves every bit one place towards the end; the first bit becomes zero
    /// and the last one is dropped.
    pub fn shift(&mut self)
        ensures
            final(self).size() == old(self).size(),
            final(self)@ == Seq::new(old(self)@.len(), |p: int| p > 0 && old(self)@[p - 1]),
    {
        let n = self.words.len();
        let ghost w0 = self.words@;
        let mut i: usize = n;
        while i > 1
            invariant
                n == self.words@.len(),
                n == w0.len(),
                i <= n,
                n > 0 ==> 1 <= i,
                forall|t: int| 0 <= t < i && t < n ==> #[trigger] self.words@[t] == w0[t],
                forall|t: int|
                    i <= t < n ==> #[trigger] self.words@[t] == (w0[t] >> 1u32) | (w0[t - 1] << 31u32),
            decreases i,
        {
            let v = (self.words[i - 1] >> 1) | (self.words[i - 2] << 31);
            self.words.set(i - 1, v);
            i = i - 1;
        }
        if n > 0 {
            let v = self.words[0] >> 1;
            self.words.set(0, v);
        }
        proof {
            let old_view = Seq::new(32 * w0.len(), |p: int| packed_bit(w0, p));
            assert forall|p: int| 0 <= p < 32 * n implies #[trigger] packed_bit(self.words@, p) == (p > 0
                && old_view[p - 1]) by {
                let t = p / 32;
                let q = (p % 32) as u32;
                if t == 0 {
                    lemma_word_shift(0, w0[0], q);
                } else {
                    lemma_word_shift(w0[t - 1], w0[t], q);
                }
            }
            assert(self@ =~= Seq::new(old_view.len(), |p: int| p > 0 && old_view[p - 1]));
        }
    }

    /// The last word; its least significant bit is the register's last bit.
    pub fn peek(&self) -> (r: u32)
        requires
            self.size() >= 1,
        ensures
            r & 1 <= 1,
            (r & 1 == 1) == self@[self@.len() - 1],
    {
        let r = self.words[self.words.len() - 1];
        proof {
            lemma_word_low(r);
        }
        r
    }
}

} // verus!
