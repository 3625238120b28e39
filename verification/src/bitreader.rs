//! MSB-first bit reader over a byte slice, with an optional read limit.
//!
//! Every read either succeeds completely and advances the cursor, or fails
//! without moving it.

use vstd::arithmetic::power2::*;
use vstd::prelude::*;

verus! {

/// Largest byte length whose bit count still fits in a `usize`.
pub const MAX_READER_BYTES: usize = 0x1FFF_FFFF;

/// Bit `i` of `data`, counting from the most significant bit of byte 0.
pub open spec fn bit_at(data: Seq<u8>, i: int) -> bool {
    ((data[i / 8] >> ((7 - i % 8) as u8)) & 1u8) == 1u8
}

/// Unsigned big-endian value of the `n` bits of `data` starting at bit `start`.
pub open spec fn bits_value(data: Seq<u8>, start: int, n: nat) -> nat
    decreases n,
{
    if n == 0 {
        0
    } else {
        2 * bits_value(data, start, (n - 1) as nat) + if bit_at(data, start + n - 1) {
            1nat
        } else {
            0nat
        }
    }
}

/// `n` bits hold a value below `2^n`.
pub proof fn lemma_bits_value_bound(data: Seq<u8>, start: int, n: nat)
    ensures
        bits_value(data, start, n) < pow2(n),
    decreases n,
{
    if n == 0 {
        lemma2_to64();
    } else {
        lemma_bits_value_bound(data, start, (n - 1) as nat);
        lemma_pow2_unfold(n);
    }
}

/// Reading `a + b` bits is reading `a` bits, then `b` more.
pub proof fn lemma_bits_value_split(data: Seq<u8>, start: int, a: nat, b: nat)
    ensures
        bits_value(data, start, a + b) == bits_value(data, start, a) * pow2(b) + bits_value(
            data,
            start + a,
            b,
        ),
    decreases b,
{
    if b == 0 {
        lemma2_to64();
        assert(a + b == a);
    } else {
        lemma_bits_value_split(data, start, a, (b - 1) as nat);
        lemma_pow2_unfold(b);
        assert((a + b - 1) as nat == a + (b - 1) as nat);
        let x = bits_value(data, start, a);
        let p = pow2((b - 1) as nat);
        assert(2 * (x * p) == x * (2 * p)) by (nonlinear_arith);
    }
}

/// Abstract state of a [`BitReader`]: the bytes, the cursor and the read limit (in bits).
pub struct BitCursor {
    pub data: Seq<u8>,
    pub pos: int,
    pub limit: int,
}

impl BitCursor {
    /// `n` more bits lie between the cursor and the limit.
    pub open spec fn can_read(self, n: int) -> bool {
        0 <= n && 0 <= self.pos && self.pos + n <= self.limit
    }

    /// Value of the next `n` bits.
    pub open spec fn peek(self, n: nat) -> nat {
        bits_value(self.data, self.pos, n)
    }

    /// The same cursor moved `n` bits forward.
    pub open spec fn advance(self, n: int) -> BitCursor {
        BitCursor { data: self.data, pos: self.pos + n, limit: self.limit }
    }

    /// The same cursor placed at bit `pos`.
    pub open spec fn at(self, pos: int) -> BitCursor {
        BitCursor { data: self.data, pos, limit: self.limit }
    }

    /// Reads `n` bits: their value and the cursor after them.
    pub open spec fn read(self, n: nat) -> Option<(nat, BitCursor)> {
        if self.can_read(n as int) {
            Some((self.peek(n), self.advance(n as int)))
        } else {
            None
        }
    }

    /// Reads one bit as a flag.
    pub open spec fn read_flag(self) -> Option<(bool, BitCursor)> {
        match self.read(1) {
            Some((v, c)) => Some((v == 1, c)),
            None => None,
        }
    }

    /// Skips `n` bits.
    pub open spec fn skip(self, n: int) -> Option<BitCursor> {
        if self.can_read(n) {
            Some(self.advance(n))
        } else {
            None
        }
    }

    /// The `n` bytes (each eight bits, at any alignment) at the cursor.
    pub open spec fn bytes_at(self, n: nat) -> Seq<u8> {
        Seq::new(n, |i: int| bits_value(self.data, self.pos + 8 * i, 8) as u8)
    }

    /// Reads `n` whole bytes.
    pub open spec fn read_bytes(self, n: nat) -> Option<(Seq<u8>, BitCursor)> {
        if self.can_read(8 * n as int) {
            Some((self.bytes_at(n), self.advance(8 * n as int)))
        } else {
            None
        }
    }

    /// Reads an EMDF `variable_bits(n)` field, continuing from the partial value `acc`.
    /// The value must stay within `u32`.
    pub open spec fn read_variable_from(self, n: nat, acc: int) -> Option<(int, BitCursor)>
        decreases self.limit - self.pos,
    {
        match self.read(n) {
            None => None,
            Some((v, c1)) => {
                let sum = acc + v;
                match c1.read_flag() {
                    None => None,
                    Some((more, c2)) => {
                        if sum > u32::MAX as int {
                            None
                        } else if !more {
                            Some((sum, c2))
                        } else {
                            let next = sum * pow2(n) + pow2(n);
                            if next > u32::MAX as int {
                                None
                            } else {
                                c2.read_variable_from(n, next)
                            }
                        }
                    }
                }
            }
        }
    }

    /// Reads an EMDF `variable_bits(n)` field.
    pub open spec fn read_variable(self, n: nat) -> Option<(int, BitCursor)> {
        self.read_variable_from(n, 0)
    }
}

/// A successful `variable_bits` read moves forward within the limit, keeps the data, and
/// yields a value that fits in `u32`.
pub proof fn lemma_read_variable_advances(c: BitCursor, n: nat, acc: int)
    requires
        acc >= 0,
    ensures
        c.read_variable_from(n, acc) matches Some((v, c1)) ==> c1.data == c.data && c1.limit
            == c.limit && c1.pos > c.pos && c1.pos <= c1.limit && 0 <= v <= u32::MAX,
    decreases c.limit - c.pos,
{
    if let Some((v, c1)) = c.read(n) {
        if let Some((more, c2)) = c1.read_flag() {
            let sum = acc + v;
            if sum <= u32::MAX as int && more {
                let next = sum * pow2(n) + pow2(n);
                if next <= u32::MAX as int {
                    assert(sum * pow2(n) >= 0) by (nonlinear_arith)
                        requires
                            sum >= 0,
                            pow2(n) >= 0,
                    ;
                    lemma_read_variable_advances(c2, n, next);
                }
            }
        }
    }
}

/// Cursor over a byte slice that reads bits most-significant first.
pub struct BitReader<'a> {
    data: &'a [u8],
    pos: usize,
    limit: usize,
}

impl<'a> View for BitReader<'a> {
    type V = BitCursor;

    closed spec fn view(&self) -> BitCursor {
        BitCursor { data: self.data@, pos: self.pos as int, limit: self.limit as int }
    }
}

impl<'a> BitReader<'a> {
    /// The reader's fields are consistent: the limit lies inside the data.
    pub closed spec fn wf(&self) -> bool {
        &&& self.data@.len() <= MAX_READER_BYTES
        &&& self.limit as int <= self.data@.len() * 8
    }

    /// A well-formed reader's limit fits the size bound on its data.
    pub proof fn lemma_limit_bound(&self)
        requires
            self.wf(),
        ensures
            self@.data.len() <= MAX_READER_BYTES,
            self@.limit <= self@.data.len() * 8,
    {
    }

    /// Reader at bit 0, limited to the end of `data`.
    pub fn new(data: &'a [u8]) -> (r: Self)
        requires
            data@.len() <= MAX_READER_BYTES,
        ensures
            r.wf(),
            r@ == (BitCursor { data: data@, pos: 0, limit: (data@.len() * 8) as int }),
    {
        BitReader { data, pos: 0, limit: data.len() * 8 }
    }

    /// Reader at bit `bit_offset`, limited to the end of `data`.
    pub fn with_offset(data: &'a [u8], bit_offset: usize) -> (r: Self)
        requires
            data@.len() <= MAX_READER_BYTES,
        ensures
            r.wf(),
            r@ == (BitCursor { data: data@, pos: bit_offset as int, limit: (data@.len() * 8) as int }),
    {
        BitReader { data, pos: bit_offset, limit: data.len() * 8 }
    }

    /// Current bit position.
    pub fn position(&self) -> (p: usize)
        ensures
            p as int == self@.pos,
    {
        self.pos
    }

    /// Current read limit in bits.
    pub fn limit_bits(&self) -> (l: usize)
        ensures
            l as int == self@.limit,
    {
        self.limit
    }

    /// Restricts reads to the bits before `limit` (never beyond the end of the data).
    pub fn set_limit_bits(&mut self, limit: usize)
        requires
            old(self).wf(),
        ensures
            final(self).wf(),
            final(self)@ == (BitCursor {
                data: old(self)@.data,
                pos: old(self)@.pos,
                limit: if limit as int <= old(self)@.data.len() * 8 {
                    limit as int
                } else {
                    (old(self)@.data.len() * 8) as int
                },
            }),
    {
        let data_bits = self.data.len() * 8;
        self.limit = if limit <= data_bits {
            limit
        } else {
            data_bits
        };
    }

    /// Whether `n` more bits can be read.
    fn has_bits(&self, n: usize) -> (b: bool)
        ensures
            b == self@.can_read(n as int),
    {
        n <= self.limit && self.pos <= self.limit - n
    }

    /// The bit at absolute position `i` (no cursor movement).
    fn bit(&self, i: usize) -> (b: u64)
        requires
            self.wf(),
            (i as int) < self.limit,
        ensures
            b == (if bit_at(self@.data, i as int) {
                1u64
            } else {
                0u64
            }),
    {
        let byte = self.data[i / 8];
        let shift = (7 - i % 8) as u8;
        if (byte >> shift) & 1u8 == 1u8 {
            1
        } else {
            0
        }
    }

    /// Value of the `n` bits at absolute position `start` (no cursor movement).
    fn value_at(&self, start: usize, n: usize) -> (v: u64)
        requires
            self.wf(),
            n <= 32,
            start as int + n as int <= self@.limit,
        ensures
            v as int == bits_value(self@.data, start as int, n as nat),
            (v as int) < pow2(n as nat),
    {
        let mut v: u64 = 0;
        let mut k: usize = 0;
        while k < n
            invariant
                self.wf(),
                n <= 32,
                start as int + n as int <= self@.limit,
                k <= n,
                v as int == bits_value(self@.data, start as int, k as nat),
            decreases n - k,
        {
            proof {
                lemma_bits_value_bound(self@.data, start as int, k as nat);
                lemma_pow2_strictly_increases(k as nat, 32);
                lemma2_to64();
            }
            let b = self.bit(start + k);
            v = 2 * v + b;
            k = k + 1;
            assert(bits_value(self@.data, start as int, k as nat) == 2 * bits_value(
                self@.data,
                start as int,
                (k - 1) as nat,
            ) + if bit_at(self@.data, start as int + k - 1) {
                1nat
            } else {
                0nat
            });
        }
        proof {
            lemma_bits_value_bound(self@.data, start as int, n as nat);
        }
        v
    }

    /// Reads `n <= 32` bits as an unsigned big-endian value.
    pub fn read_bits(&mut self, n: usize) -> (r: Option<u32>)
        requires
            old(self).wf(),
            n <= 32,
        ensures
            final(self).wf(),
            match old(self)@.read(n as nat) {
                Some((v, c)) => r == Some(v as u32) && final(self)@ == c,
                None => r.is_none() && final(self)@ == old(self)@,
            },
            r matches Some(v) ==> (v as int) < pow2(n as nat),
    {
        if !self.has_bits(n) {
            return None;
        }
        let v = self.value_at(self.pos, n);
        proof {
            lemma_bits_value_bound(self@.data, self@.pos, n as nat);
            if n < 32 {
                lemma_pow2_strictly_increases(n as nat, 32);
            }
            lemma2_to64();
            lemma2_to64_rest();
        }
        self.pos = self.pos + n;
        Some(v as u32)
    }

    /// Returns the next `n <= 32` bits without moving the cursor.
    pub fn show_bits(&self, n: usize) -> (r: Option<u32>)
        requires
            self.wf(),
            n <= 32,
        ensures
            match self@.read(n as nat) {
                Some((v, _)) => r == Some(v as u32),
                None => r.is_none(),
            },
            r matches Some(v) ==> (v as int) < pow2(n as nat),
    {
        if !self.has_bits(n) {
            return None;
        }
        let v = self.value_at(self.pos, n);
        proof {
            lemma_bits_value_bound(self@.data, self@.pos, n as nat);
            if n < 32 {
                lemma_pow2_strictly_increases(n as nat, 32);
            }
            lemma2_to64();
            lemma2_to64_rest();
        }
        Some(v as u32)
    }

    /// Reads one bit as a flag.
    pub fn read_bit(&mut self) -> (r: Option<bool>)
        requires
            old(self).wf(),
        ensures
            final(self).wf(),
            match old(self)@.read_flag() {
                Some((b, c)) => r == Some(b) && final(self)@ == c,
                None => r.is_none() && final(self)@ == old(self)@,
            },
    {
        proof {
            lemma_bits_value_bound(self@.data, self@.pos, 1);
            lemma2_to64();
        }
        match self.read_bits(1) {
            Some(v) => Some(v == 1),
            None => None,
        }
    }

    /// Skips `n` bits.
    pub fn skip_bits(&mut self, n: usize) -> (r: Option<()>)
        requires
            old(self).wf(),
        ensures
            final(self).wf(),
            match old(self)@.skip(n as int) {
                Some(c) => r.is_some() && final(self)@ == c,
                None => r.is_none() && final(self)@ == old(self)@,
            },
    {
        if !self.has_bits(n) {
            return None;
        }
        self.pos = self.pos + n;
        Some(())
    }

    /// Reads `n` bytes, each taken as eight consecutive bits at the current alignment.
    pub fn read_bytes(&mut self, n: usize) -> (r: Option<Vec<u8>>)
        requires
            old(self).wf(),
        ensures
            final(self).wf(),
            match old(self)@.read_bytes(n as nat) {
                Some((bytes, c)) => r matches Some(v) && v@ == bytes && final(self)@ == c,
                None => r.is_none() && final(self)@ == old(self)@,
            },
    {
        if n > self.limit / 8 || !self.has_bits(n * 8) {
            return None;
        }
        let ghost c0 = self@;
        let mut out: Vec<u8> = Vec::with_capacity(n);
        let mut k: usize = 0;
        while k < n
            invariant
                self.wf(),
                self@ == c0,
                c0.can_read(8 * n),
                k <= n,
                out@.len() == k,
                forall|i: int| 0 <= i < k ==> out@[i] == c0.bytes_at(n as nat)[i],
            decreases n - k,
        {
            let v = self.value_at(self.pos + 8 * k, 8);
            proof {
                lemma2_to64();
            }
            out.push(v as u8);
            k = k + 1;
        }
        assert(out@ =~= c0.bytes_at(n as nat));
        self.pos = self.pos + 8 * n;
        Some(out)
    }

    /// Reads an EMDF `variable_bits(n)` field (`1 <= n <= 16`); fails if the value leaves `u32`.
    pub fn read_variable_bits(&mut self, n: usize) -> (r: Option<u32>)
        requires
            old(self).wf(),
            1 <= n <= 16,
        ensures
            final(self).wf(),
            match old(self)@.read_variable(n as nat) {
                Some((v, c)) => r == Some(v as u32) && final(self)@ == c,
                None => r.is_none(),
            },
    {
        let mut acc: u64 = 0;
        proof {
            lemma2_to64();
            lemma_pow2_strictly_increases(n as nat, 32);
        }
        loop
            invariant
                self.wf(),
                1 <= n <= 16,
                acc <= u32::MAX,
                pow2(n as nat) <= 0x10000,
                old(self)@.read_variable(n as nat) == self@.read_variable_from(n as nat, acc as int),
            decreases self@.limit - self@.pos,
        {
            let ghost c = self@;
            proof {
                lemma_bits_value_bound(c.data, c.pos, n as nat);
                lemma_bits_value_bound(c.data, c.pos + n, 1);
            }
            let v = match self.read_bits(n) {
                Some(v) => v,
                None => return None,
            };
            let sum = acc + v as u64;
            let more = match self.read_bit() {
                Some(b) => b,
                None => return None,
            };
            if sum > 0xFFFF_FFFF {
                return None;
            }
            if !more {
                return Some(sum as u32);
            }
            let p: u64 = 1u64 << (n as u64);
            assert(p == pow2(n as nat)) by {
                vstd::bits::lemma_u64_shl_is_mul(1u64, n as u64);
                vstd::arithmetic::power2::lemma_pow2(n as nat);
            }
            assert(sum * p <= 0xFFFF_FFFF * 0x10000) by (nonlinear_arith)
                requires
                    sum <= 0xFFFF_FFFF,
                    p <= 0x10000,
            ;
            let next = sum * p + p;
            if next > 0xFFFF_FFFF {
                return None;
            }
            acc = next;
        }
    }

    /// Skips an EMDF `variable_bits(n)` field.
    pub fn skip_variable_bits(&mut self, n: usize) -> (r: Option<()>)
        requires
            old(self).wf(),
            1 <= n <= 16,
        ensures
            final(self).wf(),
            match old(self)@.read_variable(n as nat) {
                Some((_, c)) => r.is_some() && final(self)@ == c,
                None => r.is_none(),
            },
    {
        match self.read_variable_bits(n) {
            Some(_) => Some(()),
            None => None,
        }
    }
}

} // verus!
