//! Rows of bits: numbers written in binary, and bytes with the stuffing that a
//! JPEG scan needs.

use vstd::arithmetic::power2;
use vstd::prelude::*;

verus! {

/// A number as a row of `n` bits, the most significant first.
pub open spec fn bits_of(v: nat, n: nat) -> Seq<bool>
    decreases n,
{
    if n == 0 {
        Seq::empty()
    } else {
        bits_of(v / 2, (n - 1) as nat).push(v % 2 == 1)
    }
}

/// The number that a row of bits spells.
pub open spec fn value_of(s: Seq<bool>) -> nat
    decreases s.len(),
{
    if s.len() == 0 {
        0
    } else {
        2 * value_of(s.drop_last()) + if s.last() {
            1nat
        } else {
            0
        }
    }
}

/// The bits of a row of bytes.
pub open spec fn bytes_bits(raw: Seq<u8>) -> Seq<bool>
    decreases raw.len(),
{
    if raw.len() == 0 {
        Seq::empty()
    } else {
        bytes_bits(raw.drop_last()) + bits_of(raw.last() as nat, 8)
    }
}

/// The bytes of a row of bits whose length is a multiple of eight.
pub open spec fn packed(s: Seq<bool>) -> Seq<u8> {
    Seq::new(s.len() / 8, |i: int| value_of(s.subrange(8 * i, 8 * i + 8)) as u8)
}

/// A row of bits filled up with ones to a multiple of eight.
pub open spec fn padded(s: Seq<bool>) -> Seq<bool> {
    s + Seq::new(((8 - s.len() % 8) % 8) as nat, |i: int| true)
}

/// A row of bytes with a zero behind each `0xff`.
pub open spec fn stuffed(raw: Seq<u8>) -> Seq<u8>
    decreases raw.len(),
{
    if raw.len() == 0 {
        Seq::empty()
    } else if raw.last() == 0xff {
        stuffed(raw.drop_last()).push(0xff).push(0)
    } else {
        stuffed(raw.drop_last()).push(raw.last())
    }
}

/// A number has as many bits as it is written with.
pub proof fn lemma_bits_len(v: nat, n: nat)
    ensures
        bits_of(v, n).len() == n,
    decreases n,
{
    if n > 0 {
        lemma_bits_len(v / 2, (n - 1) as nat);
    }
}

/// Reading a number back from its bits gives the number.
pub proof fn lemma_value_of_bits(v: nat, n: nat)
    requires
        v < power2::pow2(n),
    ensures
        value_of(bits_of(v, n)) == v,
    decreases n,
{
    power2::lemma2_to64();
    if n > 0 {
        power2::lemma_pow2_unfold(n);
        lemma_value_of_bits(v / 2, (n - 1) as nat);
        assert(bits_of(v, n).drop_last() =~= bits_of(v / 2, (n - 1) as nat));
    }
}

/// The bits of two numbers side by side.
pub proof fn lemma_bits_split(a: nat, b: nat, m: nat, n: nat)
    requires
        b < power2::pow2(n),
    ensures
        bits_of(a * power2::pow2(n) + b, m + n) == bits_of(a, m) + bits_of(b, n),
    decreases n,
{
    power2::lemma2_to64();
    if n == 0 {
        assert(a * power2::pow2(0) + b == a) by (nonlinear_arith)
            requires
                power2::pow2(0) == 1,
                b == 0,
        ;
        assert(bits_of(a, m) + bits_of(b, 0) =~= bits_of(a, m));
    } else {
        power2::lemma_pow2_unfold(n);
        let p = power2::pow2((n - 1) as nat);
        let whole = a * power2::pow2(n) + b;
        assert(whole == 2 * (a * p) + b) by (nonlinear_arith)
            requires
                whole == a * power2::pow2(n) + b,
                power2::pow2(n) == 2 * p,
        ;
        assert(whole / 2 == a * p + b / 2);
        assert(whole % 2 == b % 2);
        lemma_bits_split(a, b / 2, m, (n - 1) as nat);
        assert(bits_of(whole, m + n) =~= bits_of(a, m) + bits_of(b, n));
    }
}

/// A byte has eight bits.
pub proof fn lemma_bytes_bits_len(raw: Seq<u8>)
    ensures
        bytes_bits(raw).len() == 8 * raw.len(),
    decreases raw.len(),
{
    if raw.len() > 0 {
        lemma_bytes_bits_len(raw.drop_last());
        lemma_bits_len(raw.last() as nat, 8);
    }
}

/// Packing the bits of bytes gives the bytes.
pub proof fn lemma_packed(raw: Seq<u8>)
    ensures
        packed(bytes_bits(raw)) == raw,
    decreases raw.len(),
{
    lemma_bytes_bits_len(raw);
    if raw.len() == 0 {
        assert(packed(bytes_bits(raw)) =~= raw);
    } else {
        let front = raw.drop_last();
        let n = front.len() as int;
        lemma_packed(front);
        lemma_bytes_bits_len(front);
        lemma_bits_len(raw.last() as nat, 8);
        power2::lemma2_to64();
        lemma_value_of_bits(raw.last() as nat, 8);
        let all = bytes_bits(raw);
        assert forall|i: int| 0 <= i < raw.len() implies packed(all)[i] == raw[i] by {
            if i < n {
                assert(all.subrange(8 * i, 8 * i + 8) =~= bytes_bits(front).subrange(
                    8 * i,
                    8 * i + 8,
                ));
                assert(packed(bytes_bits(front))[i] == front[i]);
            } else {
                assert(all.subrange(8 * i, 8 * i + 8) =~= bits_of(raw.last() as nat, 8));
            }
        }
        assert(packed(all) =~= raw);
    }
}

/// In stuffed bytes a zero follows each `0xff`, so that no marker can be read
/// in them.
pub proof fn law_no_marker_in_stuffed(raw: Seq<u8>)
    ensures
        forall|i: int|
            0 <= i < stuffed(raw).len() && #[trigger] stuffed(raw)[i] == 0xff ==> i + 1 < stuffed(
                raw,
            ).len() && stuffed(raw)[i + 1] == 0,
    decreases raw.len(),
{
    if raw.len() > 0 {
        law_no_marker_in_stuffed(raw.drop_last());
        let front = stuffed(raw.drop_last());
        let all = stuffed(raw);
        assert forall|i: int| 0 <= i < all.len() && #[trigger] all[i] == 0xff implies i + 1
            < all.len() && all[i + 1] == 0 by {
            if i < front.len() {
                assert(front[i] == 0xff);
                assert(front[i + 1] == 0);
            }
        }
    }
}

/// A row of bytes without the zero behind each `0xff`.
pub open spec fn unstuffed(s: Seq<u8>) -> Seq<u8>
    decreases s.len(),
{
    if s.len() == 0 {
        Seq::empty()
    } else if s.len() >= 2 && s[s.len() - 2] == 0xff && s.last() == 0 {
        unstuffed(s.drop_last().drop_last()).push(0xff)
    } else {
        unstuffed(s.drop_last()).push(s.last())
    }
}

/// Taking the stuffing out again gives the bytes that were stuffed.
pub proof fn law_unstuffed(raw: Seq<u8>)
    ensures
        unstuffed(stuffed(raw)) == raw,
    decreases raw.len(),
{
    let s = stuffed(raw);
    if raw.len() == 0 {
        assert(unstuffed(s) =~= raw);
    } else {
        law_unstuffed(raw.drop_last());
        let front = stuffed(raw.drop_last());
        if raw.last() == 0xff {
            assert(s.drop_last().drop_last() =~= front);
            assert(unstuffed(s) =~= raw);
        } else {
            assert(s.drop_last() =~= front);
            if s.len() >= 2 && s[s.len() - 2] == 0xff {
                law_no_marker_in_stuffed(raw.drop_last());
                assert(front[front.len() - 1] == 0xff);
            }
            assert(unstuffed(s) =~= raw);
        }
    }
}

/// Writes bits into bytes, with the stuffing.
pub struct BitWriter {
    buf: Vec<u8>,
    acc: u32,
    bits: u8,
    raw: Ghost<Seq<u8>>,
}

impl View for BitWriter {
    type V = Seq<bool>;

    /// The bits written so far.
    closed spec fn view(&self) -> Seq<bool> {
        bytes_bits(self.raw@) + bits_of(self.acc as nat, self.bits as nat)
    }
}

impl BitWriter {
    /// The bytes that are complete.
    pub closed spec fn bytes(&self) -> Seq<u8> {
        self.buf@
    }

    /// Fewer than eight bits wait, and the bytes are those of the rest.
    pub closed spec fn wf(&self) -> bool {
        &&& self.bits < 8
        &&& self.acc < power2::pow2(self.bits as nat)
        &&& self.buf@ == stuffed(self.raw@)
    }

    /// A writer that has written nothing.
    pub fn new() -> (r: BitWriter)
        ensures
            r.wf(),
            r@ == Seq::<bool>::empty(),
    {
        proof {
            power2::lemma2_to64();
        }
        let r = BitWriter { buf: Vec::new(), acc: 0, bits: 0, raw: Ghost(Seq::empty()) };
        assert(r@ =~= Seq::<bool>::empty());
        r
    }

    /// Writes the lowest `n` bits of `val`.
    pub fn put(&mut self, val: u16, n: u8)
        requires
            old(self).wf(),
            n <= 16,
            val < power2::pow2(n as nat),
        ensures
            final(self).wf(),
            final(self)@ == old(self)@ + bits_of(val as nat, n as nat),
    {
        let ghost before = self@;
        let ghost b0 = self.bits as nat;
        let ghost a0 = self.acc as nat;
        proof {
            power2::lemma2_to64();
            power2::lemma_pow2_adds(b0, n as nat);
            lemma_pow2_monotonic(b0 + n as nat, 23);
            lemma_pow2_monotonic(n as nat, 16);
            assert(a0 * power2::pow2(n as nat) + val < power2::pow2(b0) * power2::pow2(n as nat)) by (nonlinear_arith)
                requires
                    a0 + 1 <= power2::pow2(b0),
                    val < power2::pow2(n as nat),
            ;
            assert(a0 * power2::pow2(n as nat) <= u32::MAX);
            vstd::bits::lemma_u32_shl_is_mul(self.acc, n as u32);
            lemma_bits_split(a0, val as nat, b0, n as nat);
        }
        self.acc = (self.acc << (n as u32)) + val as u32;
        self.bits = self.bits + n;
        proof {
            assert(bytes_bits(self.raw@) + bits_of(self.acc as nat, self.bits as nat) =~= before
                + bits_of(val as nat, n as nat));
        }
        while self.bits >= 8
            invariant
                self.bits < 24,
                self.acc < power2::pow2(self.bits as nat),
                self.buf@ == stuffed(self.raw@),
                bytes_bits(self.raw@) + bits_of(self.acc as nat, self.bits as nat) == before
                    + bits_of(val as nat, n as nat),
            decreases self.bits,
        {
            let ghost acc = self.acc as nat;
            let ghost raw = self.raw@;
            self.bits = self.bits - 8;
            let ghost k = self.bits as nat;
            proof {
                power2::lemma2_to64();
                power2::lemma_pow2_adds(k, 8);
                lemma_pow2_monotonic(k, 16);
                vstd::bits::lemma_u32_shr_is_div(self.acc, self.bits as u32);
                lemma_quotient(acc, power2::pow2(k));
            }
            let q: u32 = self.acc >> (self.bits as u32);
            proof {
                vstd::bits::lemma_u32_shl_is_mul(q, self.bits as u32);
                lemma_bits_split(q as nat, (acc % power2::pow2(k)) as nat, 8, k);
            }
            self.acc = self.acc - (q << (self.bits as u32));
            let b = q as u8;
            self.buf.push(b);
            if b == 0xff {
                self.buf.push(0);
            }
            proof {
                self.raw@ = raw.push(b);
                assert(raw.push(b).drop_last() =~= raw);
                assert(bytes_bits(self.raw@) + bits_of(self.acc as nat, k) =~= bytes_bits(raw)
                    + bits_of(acc, k + 8));
            }
        }
    }

    /// Fills the last byte up with ones.
    pub fn flush(&mut self)
        requires
            old(self).wf(),
        ensures
            final(self).wf(),
            final(self)@ == padded(old(self)@),
            final(self).bytes() == stuffed(packed(padded(old(self)@))),
    {
        let ghost before = self@;
        proof {
            lemma_bytes_bits_len(self.raw@);
            lemma_bits_len(self.acc as nat, self.bits as nat);
            power2::lemma2_to64();
        }
        if self.bits > 0 {
            let pad: u8 = 8 - self.bits;
            proof {
                vstd::bits::lemma_u16_shl_is_mul(1, pad as u16);
                lemma_pow2_monotonic(pad as nat, 8);
                power2::lemma_pow2_pos(pad as nat);
                lemma_ones(pad as nat);
            }
            let ones: u16 = (1u16 << (pad as u16)) - 1;
            self.put(ones, pad);
            assert(self@ =~= padded(before));
        } else {
            assert(self@ =~= padded(before));
        }
        proof {
            lemma_bytes_bits_len(self.raw@);
            lemma_bits_len(self.acc as nat, self.bits as nat);
            assert(self.bits == 0);
            assert(self@ =~= bytes_bits(self.raw@));
            lemma_packed(self.raw@);
        }
    }

    /// Gives the complete bytes out.
    pub fn into_bytes(self) -> (r: Vec<u8>)
        ensures
            r@ == self.bytes(),
    {
        self.buf
    }
}

/// The complete bytes of a writer are those of the bits written so far, but for
/// the last ones, which fill no byte yet.
pub proof fn law_bytes_are_of_the_bits(w: BitWriter)
    requires
        w.wf(),
    ensures
        w.bytes() == stuffed(packed(w@.take((w@.len() / 8 * 8) as int))),
{
    lemma_bytes_bits_len(w.raw@);
    lemma_bits_len(w.acc as nat, w.bits as nat);
    assert(w@.take((w@.len() / 8 * 8) as int) =~= bytes_bits(w.raw@));
    lemma_packed(w.raw@);
}

/// Powers of two grow with the exponent.
pub proof fn lemma_pow2_monotonic(a: nat, b: nat)
    requires
        a <= b,
    ensures
        power2::pow2(a) <= power2::pow2(b),
{
    if a < b {
        power2::lemma_pow2_strictly_increases(a, b);
    }
}

/// Quotient and remainder of a number below 256 times the divisor.
pub proof fn lemma_quotient(a: nat, p: nat)
    requires
        p > 0,
        a < p * 256,
    ensures
        a / p < 256,
        a == (a / p) * p + a % p,
        a % p < p,
{
    vstd::arithmetic::div_mod::lemma_fundamental_div_mod(a as int, p as int);
    assert(a / p < 256 && a == (a / p) * p + a % p && a % p < p) by (nonlinear_arith)
        requires
            p > 0,
            a < p * 256,
            a == p * (a / p) + a % p,
            0 <= a % p < p,
    ;
}

proof fn lemma_ones(n: nat)
    ensures
        power2::pow2(n) >= 1,
        bits_of((power2::pow2(n) - 1) as nat, n) == Seq::new(n, |i: int| true),
    decreases n,
{
    power2::lemma2_to64();
    power2::lemma_pow2_pos(n);
    if n == 0 {
        assert(bits_of(0, 0) =~= Seq::new(0, |i: int| true));
    } else {
        power2::lemma_pow2_unfold(n);
        lemma_ones((n - 1) as nat);
        assert(bits_of((power2::pow2(n) - 1) as nat, n) =~= Seq::new(n, |i: int| true));
    }
}

} // verus!
