use vstd::prelude::*;

verus! {

/// The ways a draw from the entropy cursor can fail.
#[derive(Debug, Clone, Copy, PartialEq, Eq, Structural)]
pub enum GenError {
    /// Fewer bytes remain than a draw needs.
    EntropyExhausted,
}

/// `256` raised to the power `n`.
pub open spec fn pow256(n: nat) -> nat
    decreases n,
{
    if n == 0 {
        1
    } else {
        256 * pow256((n - 1) as nat)
    }
}

/// The number that the bytes of `s` spell in big-endian order.
pub open spec fn be_value(s: Seq<u8>) -> nat
    decreases s.len(),
{
    if s.len() == 0 {
        0
    } else {
        be_value(s.drop_last()) * 256 + s.last() as nat
    }
}

/// The number of bytes a range draw with span `d` reads: the fewest bytes
/// whose big-endian value can reach `d`.
pub open spec fn byte_width(d: nat) -> nat
    decreases d,
{
    if d == 0 {
        0
    } else {
        1 + byte_width(d / 256)
    }
}

/// The value a range draw over `[lo, hi]` takes from the bytes `s` it reads.
pub open spec fn in_range_value(lo: nat, hi: nat, s: Seq<u8>) -> nat {
    lo + be_value(s) % ((hi - lo + 1) as nat)
}

pub proof fn lemma_pow256_mono(a: nat, b: nat)
    requires
        a <= b,
    ensures
        pow256(a) <= pow256(b),
    decreases b,
{
    if a < b {
        lemma_pow256_mono(a, (b - 1) as nat);
    }
}

pub proof fn lemma_pow256_sixteen()
    ensures
        pow256(16) == 0x1_0000_0000_0000_0000_0000_0000_0000_0000,
        pow256(8) == 0x1_0000_0000_0000_0000,
        pow256(4) == 0x1_0000_0000,
        pow256(2) == 0x1_0000,
        pow256(1) == 0x100,
{
    reveal_with_fuel(pow256, 17);
}

pub proof fn lemma_be_value_bound(s: Seq<u8>)
    ensures
        be_value(s) < pow256(s.len()),
    decreases s.len(),
{
    if s.len() > 0 {
        let d = s.drop_last();
        lemma_be_value_bound(d);
        let a = be_value(d);
        let p = pow256(d.len());
        let l = s.last() as nat;
        assert(a * 256 + l < 256 * p) by (nonlinear_arith)
            requires
                a < p,
                l < 256,
        ;
    }
}

pub proof fn lemma_be_value_one(s: Seq<u8>)
    requires
        s.len() == 1,
    ensures
        be_value(s) == s[0],
{
    assert(s.drop_last().len() == 0);
    reveal_with_fuel(be_value, 2);
}

pub proof fn lemma_byte_width_bound(d: nat, k: nat)
    requires
        d < pow256(k),
    ensures
        byte_width(d) <= k,
    decreases d,
{
    if d > 0 {
        assert(k > 0);
        let p = pow256((k - 1) as nat);
        assert(d / 256 < p) by (nonlinear_arith)
            requires
                d < 256 * p,
        ;
        lemma_byte_width_bound(d / 256, (k - 1) as nat);
    }
}

/// An ordered, finite source of bytes that generators consume from the front.
#[derive(Debug)]
pub struct Entropy {
    data: Vec<u8>,
    pos: usize,
}

impl View for Entropy {
    type V = Seq<u8>;

    /// The bytes not yet consumed.
    closed spec fn view(&self) -> Seq<u8> {
        self.data@.subrange(self.pos as int, self.data@.len() as int)
    }
}

impl Entropy {
    pub closed spec fn wf(&self) -> bool {
        self.pos <= self.data@.len()
    }

    /// A cursor positioned at the first byte of `data`.
    pub fn new(data: Vec<u8>) -> (r: Entropy)
        ensures
            r.wf(),
            r@ == data@,
    {
        let r = Entropy { data, pos: 0 };
        assert(r@ =~= r.data@);
        r
    }

    /// How many bytes remain.
    pub fn remaining(&self) -> (r: usize)
        requires
            self.wf(),
        ensures
            r == self@.len(),
    {
        self.data.len() - self.pos
    }

    /// Reads the next `n` bytes as a big-endian number, or fails without
    /// moving when fewer than `n` remain.
    pub fn take_be(&mut self, n: usize) -> (r: Result<u128, GenError>)
        requires
            old(self).wf(),
            n <= 16,
        ensures
            final(self).wf(),
            match r {
                Ok(v) => {
                    &&& n <= old(self)@.len()
                    &&& v == be_value(old(self)@.take(n as int))
                    &&& final(self)@ == old(self)@.skip(n as int)
                },
                Err(e) => {
                    &&& old(self)@.len() < n
                    &&& e == GenError::EntropyExhausted
                    &&& final(self)@ == old(self)@
                },
            },
    {
        if self.data.len() - self.pos < n {
            return Err(GenError::EntropyExhausted);
        }
        let ghost start = self.pos as int;
        let mut acc: u128 = 0;
        let mut i: usize = 0;
        while i < n
            invariant
                i <= n,
                n <= 16,
                self.pos == start,
                start + n <= self.data.len(),
                acc == be_value(self.data@.subrange(start, start + i)),
            decreases n - i,
        {
            let ghost prev = self.data@.subrange(start, start + i);
            proof {
                lemma_be_value_bound(prev);
                lemma_pow256_mono(i as nat, 15);
                lemma_pow256_sixteen();
                assert(pow256(16) == 256 * pow256(15));
            }
            let b = self.data[self.pos + i];
            let ghost next = self.data@.subrange(start, start + i + 1);
            assert(next.drop_last() =~= prev);
            acc = acc * 256 + b as u128;
            i = i + 1;
        }
        let ghost before = self@;
        assert(self.data@.subrange(start, start + n) =~= before.take(n as int));
        self.pos = self.pos + n;
        assert(self@ =~= before.skip(n as int));
        Ok(acc)
    }

    /// Reads the next byte.
    pub fn take_u8(&mut self) -> (r: Result<u8, GenError>)
        requires
            old(self).wf(),
        ensures
            final(self).wf(),
            match r {
                Ok(v) => {
                    &&& 1 <= old(self)@.len()
                    &&& v == old(self)@[0]
                    &&& final(self)@ == old(self)@.skip(1)
                },
                Err(e) => {
                    &&& old(self)@.len() < 1
                    &&& e == GenError::EntropyExhausted
                    &&& final(self)@ == old(self)@
                },
            },
    {
        let v = self.take_be(1)?;
        proof {
            lemma_be_value_one(old(self)@.take(1));
        }
        Ok(v as u8)
    }

    /// Draws a number in `[lo, hi]` from the fewest bytes that can reach the
    /// span `hi - lo`, reduced modulo the range's size.
    pub fn int_in_range(&mut self, lo: u64, hi: u64) -> (r: Result<u64, GenError>)
        requires
            old(self).wf(),
            lo <= hi,
        ensures
            final(self).wf(),
            ({
                let w = byte_width((hi - lo) as nat) as int;
                match r {
                    Ok(v) => {
                        &&& w <= old(self)@.len()
                        &&& lo <= v <= hi
                        &&& v == in_range_value(lo as nat, hi as nat, old(self)@.take(w))
                        &&& final(self)@ == old(self)@.skip(w)
                    },
                    Err(e) => {
                        &&& old(self)@.len() < w
                        &&& e == GenError::EntropyExhausted
                        &&& final(self)@ == old(self)@
                    },
                }
            }),
    {
        let delta: u64 = hi - lo;
        let mut d: u64 = delta;
        let mut w: usize = 0;
        proof {
            lemma_pow256_sixteen();
            lemma_byte_width_bound(delta as nat, 8);
        }
        while d > 0
            invariant
                w + byte_width(d as nat) == byte_width(delta as nat),
                byte_width(delta as nat) <= 8,
            decreases d,
        {
            d = d / 256;
            w = w + 1;
        }
        let raw = self.take_be(w)?;
        let span: u128 = delta as u128 + 1;
        let off = raw % span;
        assert(off <= delta);
        Ok(lo + off as u64)
    }
}

} // verus!
