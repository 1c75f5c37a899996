//! MSB-first bit writer and Exp-Golomb coding for H.264 parameter sets.
use vstd::prelude::*;

verus! {

/// Numeric value of a bit string read most significant bit first.
pub open spec fn bits_value(s: Seq<bool>) -> int
    decreases s.len(),
{
    if s.len() == 0 {
        0
    } else {
        2 * bits_value(s.drop_last()) + (if s.last() { 1int } else { 0int })
    }
}

/// The bytes of a bit string: one byte per complete group of eight bits,
/// most significant bit first. A trailing partial group is not included.
pub open spec fn pack_bits(s: Seq<bool>) -> Seq<u8> {
    Seq::new(s.len() / 8, |i: int| bits_value(s.subrange(8 * i, 8 * i + 8)) as u8)
}

/// The low `n` bits of `c`, most significant first.
pub open spec fn bin_bits(c: nat, n: nat) -> Seq<bool>
    decreases n,
{
    if n == 0 {
        seq![]
    } else {
        bin_bits(c / 2, (n - 1) as nat).push(c % 2 == 1)
    }
}

/// `n` zero bits.
pub open spec fn zero_bits(n: nat) -> Seq<bool> {
    Seq::new(n, |i: int| false)
}

/// Position of the highest set bit of `c` (0 for `c <= 1`).
pub open spec fn bit_len(c: nat) -> nat
    decreases c,
{
    if c <= 1 {
        0
    } else {
        1 + bit_len(c / 2)
    }
}

/// Unsigned Exp-Golomb code of `v`: `L` zero bits followed by the `L + 1`
/// bit binary form of `v + 1`, where `L` is the position of its highest bit.
pub open spec fn ue_bits(v: nat) -> Seq<bool> {
    let c = v + 1;
    zero_bits(bit_len(c)) + bin_bits(c, bit_len(c) + 1)
}

/// RBSP trailing bits after `written` bits: a one bit, then zero bits up to
/// the next byte boundary.
pub open spec fn trailing_bits(written: nat) -> Seq<bool> {
    seq![true] + zero_bits(((8 - (written + 1) % 8) % 8) as nat)
}

proof fn lemma_bits_value_bound(s: Seq<bool>)
    ensures
        0 <= bits_value(s) < pow2(s.len()),
    decreases s.len(),
{
    if s.len() > 0 {
        lemma_bits_value_bound(s.drop_last());
    }
}

/// `2^n`.
pub open spec fn pow2(n: nat) -> int
    decreases n,
{
    if n == 0 {
        1
    } else {
        2 * pow2((n - 1) as nat)
    }
}

/// Bit writer state: complete bytes in `buf`, and the `bit` most recent bits
/// (fewer than eight) in the low bits of `byte`.
pub struct BitWriter {
    pub buf: Vec<u8>,
    pub byte: u8,
    pub bit: u8,
}

impl BitWriter {
    /// The writer holds exactly the bit string `w`.
    pub open spec fn holds(&self, w: Seq<bool>) -> bool {
        &&& self.bit < 8
        &&& w.len() == 8 * self.buf@.len() + self.bit
        &&& self.buf@ == pack_bits(w)
        &&& self.byte as int == bits_value(w.subrange(8 * (self.buf@.len() as int), w.len() as int))
    }

    /// An empty writer.
    pub fn new() -> (r: Self)
        ensures
            r.holds(seq![]),
    {
        let r = BitWriter { buf: Vec::new(), byte: 0, bit: 0 };
        assert(r.buf@ =~= pack_bits(seq![]));
        assert(seq![].subrange(0, 0) =~= Seq::<bool>::empty());
        r
    }

    /// Append one bit.
    pub fn write_bit(&mut self, b: bool, Ghost(w): Ghost<Seq<bool>>)
        requires
            old(self).holds(w),
            old(self).buf@.len() < usize::MAX,
        ensures
            final(self).holds(w.push(b)),
            final(self).buf@.len() == old(self).buf@.len() + (if old(self).bit == 7 { 1int } else { 0int }),
    {
        let ghost n: int = self.buf@.len() as int;
        let ghost tail = w.subrange(8 * n, w.len() as int);
        assert(w.push(b).subrange(8 * n, w.len() as int + 1) =~= tail.push(b));
        proof {
            lemma_bits_value_bound(tail);
            lemma_pow2_small(tail.len());
        }
        let v: u8 = if b { 1 } else { 0 };
        let next = self.byte * 2 + v;
        self.bit = self.bit + 1;
        if self.bit == 8 {
            self.buf.push(next);
            self.byte = 0;
            self.bit = 0;
            assert(tail.push(b).drop_last() =~= tail);
            assert(bits_value(tail.push(b)) == next as int);
            assert(self.buf@ =~= pack_bits(w.push(b))) by {
                assert forall|i: int| 0 <= i < n implies #[trigger] w.push(b).subrange(8 * i, 8 * i + 8)
                    =~= w.subrange(8 * i, 8 * i + 8) by {}
                assert(w.push(b).subrange(8 * n, 8 * n + 8) =~= tail.push(b));
            }
            assert(w.push(b).subrange(8 * (n + 1), w.len() as int + 1) =~= Seq::<bool>::empty());
        } else {
            self.byte = next;
            assert(tail.push(b).drop_last() =~= tail);
            assert(self.buf@ =~= pack_bits(w.push(b))) by {
                assert forall|i: int| 0 <= i < n implies #[trigger] w.push(b).subrange(8 * i, 8 * i + 8)
                    =~= w.subrange(8 * i, 8 * i + 8) by {}
            }
        }
    }

    /// Append `n` zero bits.
    pub fn write_zeros(&mut self, n: u32, Ghost(w): Ghost<Seq<bool>>)
        requires
            old(self).holds(w),
            old(self).buf@.len() + n <= usize::MAX,
        ensures
            final(self).holds(w + zero_bits(n as nat)),
            final(self).buf@.len() <= old(self).buf@.len() + n,
    {
        let mut i: u32 = 0;
        while i < n
            invariant
                i <= n,
                self.holds(w + zero_bits(i as nat)),
                self.buf@.len() <= old(self).buf@.len() + i,
                old(self).buf@.len() + n <= usize::MAX,
            decreases n - i,
        {
            self.write_bit(false, Ghost(w + zero_bits(i as nat)));
            assert((w + zero_bits(i as nat)).push(false) =~= w + zero_bits((i + 1) as nat));
            i += 1;
        }
    }

    /// Append the low `n` bits of `c`, most significant first.
    pub fn write_bin(&mut self, c: u64, n: u32, Ghost(w): Ghost<Seq<bool>>)
        requires
            old(self).holds(w),
            old(self).buf@.len() + n <= usize::MAX,
        ensures
            final(self).holds(w + bin_bits(c as nat, n as nat)),
            final(self).buf@.len() <= old(self).buf@.len() + n,
        decreases n,
    {
        if n == 0 {
            assert(w + bin_bits(c as nat, 0) =~= w);
            return;
        }
        self.write_bin(c / 2, n - 1, Ghost(w));
        self.write_bit(c % 2 == 1, Ghost(w + bin_bits((c / 2) as nat, (n - 1) as nat)));
        assert((w + bin_bits((c / 2) as nat, (n - 1) as nat)).push(c % 2 == 1) =~= w + bin_bits(
            c as nat,
            n as nat,
        ));
    }

    /// Append the unsigned Exp-Golomb code of `v`.
    pub fn write_ue(&mut self, v: u32, Ghost(w): Ghost<Seq<bool>>)
        requires
            old(self).holds(w),
            v < u32::MAX,
            old(self).buf@.len() + 66 <= usize::MAX,
        ensures
            final(self).holds(w + ue_bits(v as nat)),
            final(self).buf@.len() <= old(self).buf@.len() + 66,
    {
        let c: u64 = v as u64 + 1;
        let mut tmp = c;
        let mut leading: u32 = 0;
        while tmp > 1
            invariant
                leading + bit_len(tmp as nat) == bit_len(c as nat),
                leading <= 32,
                tmp <= c,
                c <= u32::MAX,
                tmp >= 1,
                pow2(leading as nat) * tmp <= c,
            decreases tmp,
        {
            proof {
                lemma_pow2_small(leading as nat);
                assert(pow2((leading + 1) as nat) * (tmp / 2) <= c) by (nonlinear_arith)
                    requires
                        pow2((leading + 1) as nat) == 2 * pow2(leading as nat),
                        pow2(leading as nat) * tmp <= c,
                        tmp >= 2,
                ;
                if leading + 1 > 32 {
                    lemma_pow2_mono(33, (leading + 1) as nat);
                    reveal_with_fuel(pow2, 34);
                    assert(pow2(33) == 8589934592);
                    assert(false) by (nonlinear_arith)
                        requires
                            pow2((leading + 1) as nat) >= 8589934592,
                            pow2((leading + 1) as nat) * (tmp / 2) <= c,
                            tmp >= 2,
                            c <= 4294967295,
                    ;
                }
            }
            tmp = tmp / 2;
            leading += 1;
        }
        self.write_zeros(leading, Ghost(w));
        self.write_bin(c, leading + 1, Ghost(w + zero_bits(leading as nat)));
        assert(w + zero_bits(leading as nat) + bin_bits(c as nat, (leading + 1) as nat) =~= w + ue_bits(
            v as nat,
        ));
    }

    /// Append RBSP trailing bits (a one bit, then zeros to the byte boundary).
    pub fn write_trailing(&mut self, Ghost(w): Ghost<Seq<bool>>)
        requires
            old(self).holds(w),
            old(self).buf@.len() + 8 <= usize::MAX,
        ensures
            final(self).holds(w + trailing_bits(w.len())),
            (w + trailing_bits(w.len())).len() % 8 == 0,
            final(self).buf@.len() <= old(self).buf@.len() + 8,
    {
        self.write_bit(true, Ghost(w));
        let mut i: u32 = 0;
        while self.bit != 0
            invariant
                self.holds(w.push(true) + zero_bits(i as nat)),
                self.bit as int == (w.len() + 1 + i) % 8,
                i <= 7,
                i > 0 ==> (w.len() + 1) % 8 != 0,
                (w.len() + 1) % 8 + i <= 8,
                w.len() == 8 * old(self).buf@.len() + old(self).bit,
                old(self).bit < 8,
                old(self).buf@.len() + 8 <= usize::MAX,
            decreases 8 - i,
        {
            self.write_bit(false, Ghost(w.push(true) + zero_bits(i as nat)));
            assert((w.push(true) + zero_bits(i as nat)).push(false) =~= w.push(true) + zero_bits(
                (i + 1) as nat,
            ));
            i += 1;
        }
        assert(i == ((8 - (w.len() + 1) % 8) % 8));
        assert(w.push(true) + zero_bits(i as nat) =~= w + trailing_bits(w.len()));
    }
}

proof fn lemma_pow2_small(n: nat)
    ensures
        pow2(n) >= 1,
        n < 8 ==> pow2(n) <= 128,
    decreases n,
{
    if n > 0 {
        lemma_pow2_small((n - 1) as nat);
    }
    if n < 8 {
        lemma_pow2_mono(n, 7);
        reveal_with_fuel(pow2, 8);
    }
}

proof fn lemma_pow2_mono(a: nat, b: nat)
    requires
        a <= b,
    ensures
        pow2(a) <= pow2(b),
    decreases b,
{
    if b > a {
        lemma_pow2_mono(a, (b - 1) as nat);
        lemma_pow2_pos((b - 1) as nat);
    }
}

proof fn lemma_pow2_pos(n: nat)
    ensures
        pow2(n) >= 1,
    decreases n,
{
    if n > 0 {
        lemma_pow2_pos((n - 1) as nat);
    }
}

/// `bin_bits(c, n)` has `n` bits.
pub proof fn lemma_bin_bits_len(c: nat, n: nat)
    ensures
        bin_bits(c, n).len() == n,
    decreases n,
{
    if n > 0 {
        lemma_bin_bits_len(c / 2, (n - 1) as nat);
    }
}

/// Reading back the `n` low bits of `c` gives `c` modulo `2^n`.
pub proof fn lemma_bits_value_of_bin_bits(c: nat, n: nat)
    ensures
        bits_value(bin_bits(c, n)) == (c as int) % pow2(n),
    decreases n,
{
    if n == 0 {
        assert(bin_bits(c, 0) =~= Seq::<bool>::empty());
    } else {
        let m = pow2((n - 1) as nat);
        lemma_pow2_pos((n - 1) as nat);
        lemma_bits_value_of_bin_bits(c / 2, (n - 1) as nat);
        let prev = bin_bits(c / 2, (n - 1) as nat);
        assert(bin_bits(c, n).drop_last() =~= prev);
        let q = (c / 2) as int;
        let r = (c % 2) as int;
        let t = q / m;
        let u = q % m;
        vstd::arithmetic::div_mod::lemma_fundamental_div_mod(c as int, 2);
        vstd::arithmetic::div_mod::lemma_fundamental_div_mod(q, m);
        assert(c == 2 * m * t + (2 * u + r)) by (nonlinear_arith)
            requires
                c == 2 * q + r,
                q == m * t + u,
        ;
        assert(0 <= 2 * u + r < 2 * m);
        vstd::arithmetic::div_mod::lemma_fundamental_div_mod_converse(c as int, 2 * m, t, 2 * u + r);
    }
}

/// The highest bit position of `c` is at most `c`.
pub proof fn lemma_bit_len_le(c: nat)
    ensures
        bit_len(c) <= c,
    decreases c,
{
    if c > 1 {
        lemma_bit_len_le(c / 2);
    }
}

/// An Exp-Golomb code of `v` has `2 L + 1` bits, `L` the highest bit
/// position of `v + 1`, so at most `2 v + 3`.
pub proof fn lemma_ue_bits_len(v: nat)
    ensures
        ue_bits(v).len() == 2 * bit_len(v + 1) + 1,
        ue_bits(v).len() <= 2 * v + 3,
{
    lemma_bin_bits_len(v + 1, bit_len(v + 1) + 1);
    lemma_bit_len_le(v + 1);
}

/// The value of eight bits, most significant first.
pub proof fn lemma_bits_value_byte(b: Seq<bool>)
    requires
        b.len() == 8,
    ensures
        bits_value(b) == 128 * (if b[0] { 1int } else { 0int }) + 64 * (if b[1] { 1int } else { 0int }) + 32 * (if b[2] {
            1int
        } else {
            0int
        }) + 16 * (if b[3] { 1int } else { 0int }) + 8 * (if b[4] { 1int } else { 0int }) + 4 * (if b[5] {
            1int
        } else {
            0int
        }) + 2 * (if b[6] { 1int } else { 0int }) + (if b[7] { 1int } else { 0int }),
{
    assert(b.subrange(0, 0) =~= Seq::<bool>::empty());
    assert forall|j: int| 0 <= j < 8 implies #[trigger] b.subrange(0, j + 1).drop_last() == b.subrange(0, j)
        && b.subrange(0, j + 1).last() == b[j] by {
        assert(b.subrange(0, j + 1).drop_last() =~= b.subrange(0, j));
    }
    assert(b.subrange(0, 8) =~= b);
    reveal_with_fuel(bits_value, 9);
    assert(bits_value(b.subrange(0, 1)) == (if b[0] { 1int } else { 0int }));
    assert(bits_value(b.subrange(0, 2)) == 2 * bits_value(b.subrange(0, 1)) + (if b[1] { 1int } else { 0int }));
    assert(bits_value(b.subrange(0, 3)) == 2 * bits_value(b.subrange(0, 2)) + (if b[2] { 1int } else { 0int }));
    assert(bits_value(b.subrange(0, 4)) == 2 * bits_value(b.subrange(0, 3)) + (if b[3] { 1int } else { 0int }));
    assert(bits_value(b.subrange(0, 5)) == 2 * bits_value(b.subrange(0, 4)) + (if b[4] { 1int } else { 0int }));
    assert(bits_value(b.subrange(0, 6)) == 2 * bits_value(b.subrange(0, 5)) + (if b[5] { 1int } else { 0int }));
    assert(bits_value(b.subrange(0, 7)) == 2 * bits_value(b.subrange(0, 6)) + (if b[6] { 1int } else { 0int }));
    assert(bits_value(b.subrange(0, 8)) == 2 * bits_value(b.subrange(0, 7)) + (if b[7] { 1int } else { 0int }));
}

} // verus!
