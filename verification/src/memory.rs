//! Byte-addressable little-endian main memory with bus counters and a
//! count of the bits that stores destroy.
use vstd::prelude::*;
use vstd::arithmetic::div_mod::*;
use crate::isa::{popcount64, wrap64, two64, count_ones_u64};
use crate::text::{hex_chars, dec_chars, push_hex, push_dec};

verus! {

/// Little-endian value of a byte sequence.
pub open spec fn le_num(s: Seq<u8>) -> nat
    decreases s.len(),
{
    if s.len() == 0 {
        0
    } else {
        s[0] as nat + 256 * le_num(s.drop_first())
    }
}

/// The `n` low bytes of `v`, least significant first.
pub open spec fn le_encode(v: nat, n: nat) -> Seq<u8>
    decreases n,
{
    if n == 0 {
        Seq::empty()
    } else {
        seq![(v % 256) as u8] + le_encode(v / 256, (n - 1) as nat)
    }
}

/// 256 to the power `n`.
pub open spec fn pow256(n: nat) -> nat
    decreases n,
{
    if n == 0 {
        1
    } else {
        256 * pow256((n - 1) as nat)
    }
}

/// Number of bits in which `a[i]` and `b[i]` differ, summed over the first
/// `n` positions.
pub open spec fn flips(a: Seq<u8>, b: Seq<u8>, n: nat) -> nat
    decreases n,
{
    if n == 0 {
        0
    } else {
        flips(a, b, (n - 1) as nat) + popcount64((a[n - 1] ^ b[n - 1]) as u64)
    }
}

/// `s` with the bytes at `at..at + b.len()` replaced by `b`.
pub open spec fn splice(s: Seq<u8>, at: int, b: Seq<u8>) -> Seq<u8> {
    s.subrange(0, at) + b + s.subrange(at + b.len(), s.len() as int)
}

/// `b` is `a` after one successful counted read.
pub open spec fn loaded(a: Memory, b: Memory) -> bool {
    &&& b.wf()
    &&& b.contents() == a.contents()
    &&& b.size == a.size
    &&& b.writes == a.writes
    &&& b.bit_erasures == a.bit_erasures
    &&& b.reads == wrap64(a.reads + 1)
}

/// `b` holds the same bytes and counters as `a`.
pub open spec fn same_mem(a: Memory, b: Memory) -> bool {
    &&& b.wf()
    &&& b.contents() == a.contents()
    &&& b.size == a.size
    &&& b.writes == a.writes
    &&& b.bit_erasures == a.bit_erasures
    &&& b.reads == a.reads
}

/// `b` is `a` after one counted store of `bytes` at `addr`.
pub open spec fn stored(a: Memory, b: Memory, addr: int, bytes: Seq<u8>) -> bool {
    &&& b.wf()
    &&& b.size == a.size
    &&& b.reads == a.reads
    &&& b.contents() == splice(a.contents(), addr, bytes)
    &&& b.writes == wrap64(a.writes + 1)
    &&& b.bit_erasures == wrap64(
        a.bit_erasures + flips(a.contents().subrange(addr, addr + bytes.len()), bytes, bytes.len()),
    )
}

/// The message of an out-of-range access.
pub open spec fn oob_msg(addr: u64, width: usize, size: usize) -> Seq<char> {
    "memory access out of bounds: addr=0x"@ + hex_chars(addr as nat) + ", width="@ + dec_chars(
        width as nat,
    ) + ", mem_size=0x"@ + hex_chars(size as nat)
}

/// The message of a string read that starts outside memory.
pub open spec fn cstr_oob_msg(addr: u64) -> Seq<char> {
    "read_cstr out of bounds: addr=0x"@ + hex_chars(addr as nat)
}

/// The message of a string read that finds no terminator.
pub open spec fn cstr_unterminated_msg(addr: u64) -> Seq<char> {
    "read_cstr: unterminated string at 0x"@ + hex_chars(addr as nat)
}

/// A little-endian value of `n` bytes is below 256^n.
pub proof fn lemma_le_num_bound(s: Seq<u8>)
    ensures
        le_num(s) < pow256(s.len()),
    decreases s.len(),
{
    if s.len() > 0 {
        lemma_le_num_bound(s.drop_first());
    }
}

/// Decoding the `n`-byte little-endian encoding of `v` gives `v` back, for
/// every `v` below 256^n.
pub proof fn law_le_roundtrip(v: nat, n: nat)
    requires
        v < pow256(n),
    ensures
        le_encode(v, n).len() == n,
        le_num(le_encode(v, n)) == v,
    decreases n,
{
    if n > 0 {
        assert(v / 256 < pow256((n - 1) as nat)) by (nonlinear_arith)
            requires
                v < 256 * pow256((n - 1) as nat),
        ;
        law_le_roundtrip(v / 256, (n - 1) as nat);
        let e = le_encode(v, n);
        assert(e.drop_first() =~= le_encode(v / 256, (n - 1) as nat));
        lemma_fundamental_div_mod(v as int, 256);
    }
}

/// Reads the little-endian value of `n` bytes of `data` starting at `at`.
pub(crate) fn read_le(data: &[u8], at: usize, n: usize) -> (r: u64)
    requires
        n <= 8,
        at + n <= data@.len(),
    ensures
        r == le_num(data@.subrange(at as int, at + n)),
{
    let mut v: u64 = 0;
    let mut k: usize = n;
    let dl = data.len();
    proof {
        reveal_with_fuel(pow256, 9);
    }
    while k > 0
        invariant
            dl == data@.len(),
            n <= 8,
            at + n <= data@.len(),
            k <= n,
            v == le_num(data@.subrange(at + k, at + n)),
            v < pow256((n - k) as nat),
            pow256(8) == 0x1_0000_0000_0000_0000,
        decreases k,
    {
        let ghost s = data@.subrange(at + k - 1, at + n as int);
        assert(s.drop_first() =~= data@.subrange(at + k, at + n as int));
        proof {
            lemma_pow256_mono((n - k) as nat, 7);
        }
        assert(v * 256 + data[at + k - 1] < 256 * pow256((n - k) as nat)) by (nonlinear_arith)
            requires
                v < pow256((n - k) as nat),
                data[at + k - 1] < 256,
        ;
        v = data[at + k - 1] as u64 + 256 * v;
        k = k - 1;
    }
    assert(data@.subrange(at as int, at + n) =~= data@.subrange(at + 0, at + n));
    v
}

proof fn lemma_pow256_mono(a: nat, b: nat)
    requires
        a <= b,
    ensures
        pow256(a) <= pow256(b),
    decreases b,
{
    if a < b {
        lemma_pow256_mono(a, (b - 1) as nat);
    }
}

/// The `n` low bytes of `v`, least significant first.
pub(crate) fn encode_le(v: u64, n: usize) -> (r: Vec<u8>)
    ensures
        r@ == le_encode(v as nat, n as nat),
{
    let mut out: Vec<u8> = Vec::new();
    let mut x = v;
    let mut i: usize = 0;
    while i < n
        invariant
            i <= n,
            out@ + le_encode(x as nat, (n - i) as nat) == le_encode(v as nat, n as nat),
        decreases n - i,
    {
        let ghost before = out@;
        out.push((x % 256) as u8);
        assert(before + le_encode(x as nat, (n - i) as nat) =~= out@ + le_encode(
            (x / 256) as nat,
            (n - i - 1) as nat,
        ));
        x = x / 256;
        i = i + 1;
    }
    assert(le_encode(x as nat, 0) =~= Seq::<u8>::empty());
    assert(out@ + Seq::<u8>::empty() =~= out@);
    out
}

/// Main memory: a flat byte array with bus and erasure counters. Counters
/// wrap around modulo 2^64.
pub struct Memory {
    /// The bytes; its length is `size` (see `wf`).
    pub data: Vec<u8>,
    pub size: usize,
    pub reads: u64,
    pub writes: u64,
    /// Bits destroyed by stores. Loading program data through `write_bytes`
    /// is not counted.
    pub bit_erasures: u64,
}

impl Memory {
    /// The bytes of memory.
    pub open spec fn contents(&self) -> Seq<u8> {
        self.data@
    }

    /// The byte array matches the declared size.
    pub open spec fn wf(&self) -> bool {
        self.contents().len() == self.size
    }

    /// `width` bytes at `addr` lie inside memory.
    pub open spec fn in_range(&self, addr: u64, width: nat) -> bool {
        addr + width <= self.size
    }

    /// A zero-filled memory of `size` bytes.
    pub fn new(size: usize) -> (m: Memory)
        ensures
            m.wf(),
            m.size == size,
            m.contents() == Seq::new(size as nat, |i: int| 0u8),
            m.reads == 0 && m.writes == 0 && m.bit_erasures == 0,
    {
        let data = vec![0u8; size];
        Memory { data, size, reads: 0, writes: 0, bit_erasures: 0 }
    }

    fn check(&self, addr: u64, width: usize) -> (r: Result<usize, String>)
        requires
            self.wf(),
        ensures
            match r {
                Ok(a) => self.in_range(addr, width as nat) && a == addr,
                Err(e) => !self.in_range(addr, width as nat) && e@ == oob_msg(
                    addr,
                    width,
                    self.size,
                ),
            },
    {
        if (addr as u128) + (width as u128) > self.size as u128 {
            let mut e = String::from_str("memory access out of bounds: addr=0x");
            push_hex(&mut e, addr);
            e.append(", width=");
            push_dec(&mut e, width as u64);
            e.append(", mem_size=0x");
            push_hex(&mut e, self.size as u64);
            Err(e)
        } else {
            Ok(addr as usize)
        }
    }

    /// Reads `n` bytes at `addr` as a little-endian value and counts one
    /// bus read.
    fn load_n(&mut self, addr: u64, n: usize) -> (r: Result<u64, String>)
        requires
            old(self).wf(),
            n <= 8,
        ensures
            final(self).wf(),
            final(self).contents() == old(self).contents(),
            final(self).size == old(self).size,
            final(self).writes == old(self).writes,
            final(self).bit_erasures == old(self).bit_erasures,
            match r {
                Ok(v) => old(self).in_range(addr, n as nat) && v == le_num(
                    old(self).contents().subrange(addr as int, addr + n),
                ) && final(self).reads == wrap64(old(self).reads + 1),
                Err(e) => !old(self).in_range(addr, n as nat) && e@ == oob_msg(
                    addr,
                    n,
                    old(self).size,
                ) && final(self).reads == old(self).reads,
            },
    {
        let a = match self.check(addr, n) {
            Ok(a) => a,
            Err(e) => return Err(e),
        };
        self.reads = self.reads.wrapping_add(1);
        proof {
            lemma_wrap_inc(old(self).reads);
        }
        Ok(read_le(self.data.as_slice(), a, n))
    }

    /// Reads one byte.
    pub fn load_u8(&mut self, addr: u64) -> (r: Result<u8, String>)
        requires
            old(self).wf(),
        ensures
            final(self).wf(),
            final(self).contents() == old(self).contents(),
            final(self).size == old(self).size,
            final(self).writes == old(self).writes,
            final(self).bit_erasures == old(self).bit_erasures,
            match r {
                Ok(v) => old(self).in_range(addr, 1) && v == old(self).contents()[addr as int]
                    && final(self).reads == wrap64(old(self).reads + 1),
                Err(e) => !old(self).in_range(addr, 1) && e@ == oob_msg(addr, 1, old(self).size)
                    && final(self).reads == old(self).reads,
            },
    {
        match self.load_n(addr, 1) {
            Ok(v) => {
                proof {
                    let s = old(self).contents().subrange(addr as int, addr + 1);
                    assert(s.drop_first() =~= Seq::<u8>::empty());
                    reveal_with_fuel(le_num, 2);
                }
                Ok(v as u8)
            },
            Err(e) => Err(e),
        }
    }

    /// Reads one byte as a signed value.
    pub fn load_i8(&mut self, addr: u64) -> (r: Result<i8, String>)
        requires
            old(self).wf(),
        ensures
            final(self).wf(),
            final(self).contents() == old(self).contents(),
            final(self).size == old(self).size,
            final(self).writes == old(self).writes,
            final(self).bit_erasures == old(self).bit_erasures,
            match r {
                Ok(v) => old(self).in_range(addr, 1) && v == old(self).contents()[addr as int] as i8
                    && final(self).reads == wrap64(old(self).reads + 1),
                Err(e) => !old(self).in_range(addr, 1) && e@ == oob_msg(addr, 1, old(self).size)
                    && final(self).reads == old(self).reads,
            },
    {
        match self.load_u8(addr) {
            Ok(v) => Ok(v as i8),
            Err(e) => Err(e),
        }
    }

    /// Reads a little-endian 16-bit value.
    pub fn load_u16(&mut self, addr: u64) -> (r: Result<u16, String>)
        requires
            old(self).wf(),
        ensures
            final(self).wf(),
            final(self).contents() == old(self).contents(),
            final(self).size == old(self).size,
            final(self).writes == old(self).writes,
            final(self).bit_erasures == old(self).bit_erasures,
            match r {
                Ok(v) => old(self).in_range(addr, 2) && v == le_num(
                    old(self).contents().subrange(addr as int, addr + 2),
                ) && final(self).reads == wrap64(old(self).reads + 1),
                Err(e) => !old(self).in_range(addr, 2) && e@ == oob_msg(addr, 2, old(self).size)
                    && final(self).reads == old(self).reads,
            },
    {
        match self.load_n(addr, 2) {
            Ok(v) => {
                proof {
                    lemma_le_num_bound(old(self).contents().subrange(addr as int, addr + 2));
                    reveal_with_fuel(pow256, 3);
                }
                Ok(v as u16)
            },
            Err(e) => Err(e),
        }
    }

    /// Reads a little-endian 16-bit value as signed.
    pub fn load_i16(&mut self, addr: u64) -> (r: Result<i16, String>)
        requires
            old(self).wf(),
        ensures
            final(self).wf(),
            final(self).contents() == old(self).contents(),
            final(self).size == old(self).size,
            final(self).writes == old(self).writes,
            final(self).bit_erasures == old(self).bit_erasures,
            match r {
                Ok(v) => old(self).in_range(addr, 2) && v == (le_num(
                    old(self).contents().subrange(addr as int, addr + 2),
                ) as u16) as i16 && final(self).reads == wrap64(old(self).reads + 1),
                Err(e) => !old(self).in_range(addr, 2) && e@ == oob_msg(addr, 2, old(self).size)
                    && final(self).reads == old(self).reads,
            },
    {
        match self.load_u16(addr) {
            Ok(v) => Ok(v as i16),
            Err(e) => Err(e),
        }
    }

    /// Reads a little-endian 32-bit value.
    pub fn load_u32(&mut self, addr: u64) -> (r: Result<u32, String>)
        requires
            old(self).wf(),
        ensures
            final(self).wf(),
            final(self).contents() == old(self).contents(),
            final(self).size == old(self).size,
            final(self).writes == old(self).writes,
            final(self).bit_erasures == old(self).bit_erasures,
            match r {
                Ok(v) => old(self).in_range(addr, 4) && v == le_num(
                    old(self).contents().subrange(addr as int, addr + 4),
                ) && final(self).reads == wrap64(old(self).reads + 1),
                Err(e) => !old(self).in_range(addr, 4) && e@ == oob_msg(addr, 4, old(self).size)
                    && final(self).reads == old(self).reads,
            },
    {
        match self.load_n(addr, 4) {
            Ok(v) => {
                proof {
                    lemma_le_num_bound(old(self).contents().subrange(addr as int, addr + 4));
                    reveal_with_fuel(pow256, 5);
                }
                Ok(v as u32)
            },
            Err(e) => Err(e),
        }
    }

    /// Reads a little-endian 32-bit value as signed.
    pub fn load_i32(&mut self, addr: u64) -> (r: Result<i32, String>)
        requires
            old(self).wf(),
        ensures
            final(self).wf(),
            final(self).contents() == old(self).contents(),
            final(self).size == old(self).size,
            final(self).writes == old(self).writes,
            final(self).bit_erasures == old(self).bit_erasures,
            match r {
                Ok(v) => old(self).in_range(addr, 4) && v == (le_num(
                    old(self).contents().subrange(addr as int, addr + 4),
                ) as u32) as i32 && final(self).reads == wrap64(old(self).reads + 1),
                Err(e) => !old(self).in_range(addr, 4) && e@ == oob_msg(addr, 4, old(self).size)
                    && final(self).reads == old(self).reads,
            },
    {
        match self.load_u32(addr) {
            Ok(v) => Ok(v as i32),
            Err(e) => Err(e),
        }
    }

    /// Reads a little-endian 64-bit value.
    pub fn load_u64(&mut self, addr: u64) -> (r: Result<u64, String>)
        requires
            old(self).wf(),
        ensures
            final(self).wf(),
            final(self).contents() == old(self).contents(),
            final(self).size == old(self).size,
            final(self).writes == old(self).writes,
            final(self).bit_erasures == old(self).bit_erasures,
            match r {
                Ok(v) => old(self).in_range(addr, 8) && v == le_num(
                    old(self).contents().subrange(addr as int, addr + 8),
                ) && final(self).reads == wrap64(old(self).reads + 1),
                Err(e) => !old(self).in_range(addr, 8) && e@ == oob_msg(addr, 8, old(self).size)
                    && final(self).reads == old(self).reads,
            },
    {
        self.load_n(addr, 8)
    }

    /// Reads four little-endian 64-bit lanes, lane 0 first, as one bus read.
    pub fn load_256(&mut self, addr: u64) -> (r: Result<[u64; 4], String>)
        requires
            old(self).wf(),
        ensures
            final(self).wf(),
            final(self).contents() == old(self).contents(),
            final(self).size == old(self).size,
            final(self).writes == old(self).writes,
            final(self).bit_erasures == old(self).bit_erasures,
            match r {
                Ok(v) => old(self).in_range(addr, 32) && (forall|i: int|
                    0 <= i < 4 ==> #[trigger] v[i] == le_num(
                        old(self).contents().subrange(addr + 8 * i, addr + 8 * i + 8),
                    )) && final(self).reads == wrap64(old(self).reads + 1),
                Err(e) => !old(self).in_range(addr, 32) && e@ == oob_msg(
                    addr,
                    32,
                    old(self).size,
                ) && final(self).reads == old(self).reads,
            },
    {
        let a = match self.check(addr, 32) {
            Ok(a) => a,
            Err(e) => return Err(e),
        };
        self.reads = self.reads.wrapping_add(1);
        proof {
            lemma_wrap_inc(old(self).reads);
        }
        let mut lanes = [0u64; 4];
        for i in 0..4
            invariant
                self.data@.len() == self.size,
                a + 32 <= self.data@.len(),
                a == addr,
                forall|j: int|
                    0 <= j < i ==> #[trigger] lanes[j] == le_num(
                        self.data@.subrange(addr + 8 * j, addr + 8 * j + 8),
                    ),
        {
            lanes[i] = read_le(self.data.as_slice(), a + i * 8, 8);
        }
        Ok(lanes)
    }

    /// The single counted write path: one bus write, and every bit that
    /// changes is counted as erased.
    fn overwrite(&mut self, at: usize, bytes: &[u8])
        requires
            old(self).wf(),
            at + bytes@.len() <= old(self).size,
        ensures
            final(self).wf(),
            final(self).size == old(self).size,
            final(self).reads == old(self).reads,
            final(self).writes == wrap64(old(self).writes + 1),
            final(self).contents() == splice(old(self).contents(), at as int, bytes@),
            final(self).bit_erasures == wrap64(
                old(self).bit_erasures + flips(
                    old(self).contents().subrange(at as int, at + bytes@.len()),
                    bytes@,
                    bytes@.len(),
                ),
            ),
    {
        self.writes = self.writes.wrapping_add(1);
        proof {
            lemma_wrap_inc(old(self).writes);
        }
        let ghost orig = self.data@;
        let ghost start = self.bit_erasures;
        let n = bytes.len();
        for i in 0..n
            invariant
                n == bytes@.len(),
                at + n <= orig.len(),
                self.reads == old(self).reads,
                self.writes == wrap64(old(self).writes + 1),
                self.data@.len() == orig.len(),
                self.size == orig.len(),
                self.data@ == splice(orig, at as int, bytes@.subrange(0, i as int)),
                self.bit_erasures == wrap64(
                    start + flips(orig.subrange(at as int, at + n), bytes@, i as nat),
                ),
        {
            let old_byte = self.data[at + i];
            let new_byte = bytes[i];
            let c = count_ones_u64((old_byte ^ new_byte) as u64);
            assert(old_byte == orig.subrange(at as int, at + n)[i as int]);
            let ghost prev = self.bit_erasures;
            self.bit_erasures = self.bit_erasures.wrapping_add(c as u64);
            proof {
                lemma_wrap_add(
                    start + flips(orig.subrange(at as int, at + n), bytes@, i as nat),
                    c as int,
                );
            }
            self.data.set(at + i, new_byte);
            assert(self.data@ =~= splice(orig, at as int, bytes@.subrange(0, i + 1)));
        }
        assert(bytes@.subrange(0, n as int) =~= bytes@);
    }

    /// Stores one byte.
    pub fn store_u8(&mut self, addr: u64, val: u8) -> (r: Result<(), String>)
        requires
            old(self).wf(),
        ensures
            final(self).wf(),
            final(self).size == old(self).size,
            final(self).reads == old(self).reads,
            match r {
                Ok(_) => old(self).in_range(addr, 1) && final(self).contents() == splice(
                    old(self).contents(),
                    addr as int,
                    seq![val],
                ) && final(self).writes == wrap64(old(self).writes + 1)
                    && final(self).bit_erasures == wrap64(
                    old(self).bit_erasures + flips(
                        old(self).contents().subrange(addr as int, addr + 1),
                        seq![val],
                        1,
                    ),
                ),
                Err(e) => !old(self).in_range(addr, 1) && e@ == oob_msg(addr, 1, old(self).size)
                    && *final(self) == *old(self),
            },
    {
        let a = match self.check(addr, 1) {
            Ok(a) => a,
            Err(e) => return Err(e),
        };
        let buf = [val];
        assert(buf@ =~= seq![val]);
        self.overwrite(a, &buf);
        Ok(())
    }

    /// Stores the `n` low bytes of `val`, little-endian.
    fn store_n(&mut self, addr: u64, val: u64, n: usize) -> (r: Result<(), String>)
        requires
            old(self).wf(),
        ensures
            final(self).wf(),
            final(self).size == old(self).size,
            final(self).reads == old(self).reads,
            match r {
                Ok(_) => old(self).in_range(addr, n as nat) && final(self).contents() == splice(
                    old(self).contents(),
                    addr as int,
                    le_encode(val as nat, n as nat),
                ) && final(self).writes == wrap64(old(self).writes + 1)
                    && final(self).bit_erasures == wrap64(
                    old(self).bit_erasures + flips(
                        old(self).contents().subrange(addr as int, addr + n),
                        le_encode(val as nat, n as nat),
                        n as nat,
                    ),
                ),
                Err(e) => !old(self).in_range(addr, n as nat) && e@ == oob_msg(
                    addr,
                    n,
                    old(self).size,
                ) && *final(self) == *old(self),
            },
    {
        let a = match self.check(addr, n) {
            Ok(a) => a,
            Err(e) => return Err(e),
        };
        let bytes = encode_le(val, n);
        proof {
            lemma_le_encode_len(val as nat, n as nat);
        }
        self.overwrite(a, bytes.as_slice());
        Ok(())
    }

    /// Stores a 16-bit value, little-endian.
    pub fn store_u16(&mut self, addr: u64, val: u16) -> (r: Result<(), String>)
        requires
            old(self).wf(),
        ensures
            final(self).wf(),
            final(self).size == old(self).size,
            final(self).reads == old(self).reads,
            match r {
                Ok(_) => old(self).in_range(addr, 2) && final(self).contents() == splice(
                    old(self).contents(),
                    addr as int,
                    le_encode(val as nat, 2),
                ) && final(self).writes == wrap64(old(self).writes + 1)
                    && final(self).bit_erasures == wrap64(
                    old(self).bit_erasures + flips(
                        old(self).contents().subrange(addr as int, addr + 2),
                        le_encode(val as nat, 2),
                        2,
                    ),
                ),
                Err(e) => !old(self).in_range(addr, 2) && e@ == oob_msg(addr, 2, old(self).size)
                    && *final(self) == *old(self),
            },
    {
        self.store_n(addr, val as u64, 2)
    }

    /// Stores a 32-bit value, little-endian.
    pub fn store_u32(&mut self, addr: u64, val: u32) -> (r: Result<(), String>)
        requires
            old(self).wf(),
        ensures
            final(self).wf(),
            final(self).size == old(self).size,
            final(self).reads == old(self).reads,
            match r {
                Ok(_) => old(self).in_range(addr, 4) && final(self).contents() == splice(
                    old(self).contents(),
                    addr as int,
                    le_encode(val as nat, 4),
                ) && final(self).writes == wrap64(old(self).writes + 1)
                    && final(self).bit_erasures == wrap64(
                    old(self).bit_erasures + flips(
                        old(self).contents().subrange(addr as int, addr + 4),
                        le_encode(val as nat, 4),
                        4,
                    ),
                ),
                Err(e) => !old(self).in_range(addr, 4) && e@ == oob_msg(addr, 4, old(self).size)
                    && *final(self) == *old(self),
            },
    {
        self.store_n(addr, val as u64, 4)
    }

    /// Stores a 64-bit value, little-endian.
    pub fn store_u64(&mut self, addr: u64, val: u64) -> (r: Result<(), String>)
        requires
            old(self).wf(),
        ensures
            final(self).wf(),
            final(self).size == old(self).size,
            final(self).reads == old(self).reads,
            match r {
                Ok(_) => old(self).in_range(addr, 8) && final(self).contents() == splice(
                    old(self).contents(),
                    addr as int,
                    le_encode(val as nat, 8),
                ) && final(self).writes == wrap64(old(self).writes + 1)
                    && final(self).bit_erasures == wrap64(
                    old(self).bit_erasures + flips(
                        old(self).contents().subrange(addr as int, addr + 8),
                        le_encode(val as nat, 8),
                        8,
                    ),
                ),
                Err(e) => !old(self).in_range(addr, 8) && e@ == oob_msg(addr, 8, old(self).size)
                    && *final(self) == *old(self),
            },
    {
        self.store_n(addr, val, 8)
    }

    /// Stores four 64-bit lanes, lane 0 first, as one bus write.
    pub fn store_256(&mut self, addr: u64, lanes: &[u64; 4]) -> (r: Result<(), String>)
        requires
            old(self).wf(),
        ensures
            final(self).wf(),
            final(self).size == old(self).size,
            final(self).reads == old(self).reads,
            match r {
                Ok(_) => old(self).in_range(addr, 32) && final(self).contents() == splice(
                    old(self).contents(),
                    addr as int,
                    lanes_bytes(*lanes),
                ) && final(self).writes == wrap64(old(self).writes + 1)
                    && final(self).bit_erasures == wrap64(
                    old(self).bit_erasures + flips(
                        old(self).contents().subrange(addr as int, addr + 32),
                        lanes_bytes(*lanes),
                        32,
                    ),
                ),
                Err(e) => !old(self).in_range(addr, 32) && e@ == oob_msg(
                    addr,
                    32,
                    old(self).size,
                ) && *final(self) == *old(self),
            },
    {
        let a = match self.check(addr, 32) {
            Ok(a) => a,
            Err(e) => return Err(e),
        };
        let mut bytes: Vec<u8> = Vec::new();
        for i in 0..4
            invariant
                bytes@ == lanes_prefix(*lanes, i as nat),
        {
            let part = encode_le(lanes[i], 8);
            let ghost before = bytes@;
            let mut k: usize = 0;
            while k < 8
                invariant
                    part@ == le_encode(lanes[i as int] as nat, 8),
                    k <= 8,
                    bytes@ == before + part@.subrange(0, k as int),
                decreases 8 - k,
            {
                proof {
                    lemma_le_encode_len(lanes[i as int] as nat, 8);
                }
                bytes.push(part[k]);
                assert(bytes@ =~= before + part@.subrange(0, k + 1));
                k = k + 1;
            }
            proof {
                lemma_le_encode_len(lanes[i as int] as nat, 8);
                assert(part@.subrange(0, 8) =~= part@);
            }
        }
        proof {
            lemma_lanes_prefix_len(*lanes, 4);
        }
        self.overwrite(a, bytes.as_slice());
        Ok(())
    }

    /// Copies `bytes` into memory at `addr`, for loading program data. Not
    /// counted on the bus and not counted as erasure.
    pub fn write_bytes(&mut self, addr: u64, bytes: &[u8]) -> (r: Result<(), String>)
        requires
            old(self).wf(),
        ensures
            final(self).wf(),
            final(self).size == old(self).size,
            final(self).reads == old(self).reads,
            final(self).writes == old(self).writes,
            final(self).bit_erasures == old(self).bit_erasures,
            match r {
                Ok(_) => old(self).in_range(addr, bytes@.len()) && final(self).contents()
                    == splice(old(self).contents(), addr as int, bytes@),
                Err(e) => !old(self).in_range(addr, bytes@.len()) && e@ == oob_msg(
                    addr,
                    bytes@.len() as usize,
                    old(self).size,
                ) && final(self).contents() == old(self).contents(),
            },
    {
        let a = match self.check(addr, bytes.len()) {
            Ok(a) => a,
            Err(e) => return Err(e),
        };
        let ghost orig = self.data@;
        let n = bytes.len();
        for i in 0..n
            invariant
                n == bytes@.len(),
                a + n <= orig.len(),
                self.data@.len() == orig.len(),
                self.size == old(self).size,
                self.size == orig.len(),
                self.reads == old(self).reads,
                self.writes == old(self).writes,
                self.bit_erasures == old(self).bit_erasures,
                self.data@ == splice(orig, a as int, bytes@.subrange(0, i as int)),
        {
            self.data.set(a + i, bytes[i]);
            assert(self.data@ =~= splice(orig, a as int, bytes@.subrange(0, i + 1)));
        }
        assert(bytes@.subrange(0, n as int) =~= bytes@);
        Ok(())
    }

    /// The `len` bytes at `addr`, counted as one bus read.
    pub fn read_bytes(&mut self, addr: u64, len: usize) -> (r: Result<&[u8], String>)
        requires
            old(self).wf(),
        ensures
            final(self).wf(),
            final(self).contents() == old(self).contents(),
            final(self).size == old(self).size,
            final(self).writes == old(self).writes,
            final(self).bit_erasures == old(self).bit_erasures,
            match r {
                Ok(s) => old(self).in_range(addr, len as nat) && s@ == old(self).contents().subrange(
                    addr as int,
                    addr + len,
                ) && final(self).reads == wrap64(old(self).reads + 1),
                Err(e) => !old(self).in_range(addr, len as nat) && e@ == oob_msg(
                    addr,
                    len,
                    old(self).size,
                ) && final(self).reads == old(self).reads,
            },
    {
        let a = match self.check(addr, len) {
            Ok(a) => a,
            Err(e) => return Err(e),
        };
        self.reads = self.reads.wrapping_add(1);
        proof {
            lemma_wrap_inc(old(self).reads);
        }
        Ok(vstd::slice::slice_subrange(self.data.as_slice(), a, a + len))
    }

    /// The bytes from `addr` up to (not including) the first zero byte,
    /// counted as one bus read.
    pub fn read_cstr(&mut self, addr: u64) -> (r: Result<&[u8], String>)
        requires
            old(self).wf(),
        ensures
            final(self).wf(),
            final(self).contents() == old(self).contents(),
            final(self).size == old(self).size,
            final(self).writes == old(self).writes,
            final(self).bit_erasures == old(self).bit_erasures,
            match r {
                Ok(s) => addr < old(self).size && exists|end: int|
                    addr <= end < old(self).size && old(self).contents()[end] == 0 && (forall|
                        i: int,
                    | addr <= i < end ==> #[trigger] old(self).contents()[i] != 0) && s@
                        == old(self).contents().subrange(addr as int, end)
                        && final(self).reads == wrap64(old(self).reads + 1),
                Err(e) => final(self).reads == old(self).reads && if addr >= old(self).size {
                    e@ == cstr_oob_msg(addr)
                } else {
                    (forall|i: int|
                        addr <= i < old(self).size ==> #[trigger] old(self).contents()[i] != 0)
                        && e@ == cstr_unterminated_msg(addr)
                },
            },
    {
        if addr >= self.size as u64 {
            let mut e = String::from_str("read_cstr out of bounds: addr=0x");
            push_hex(&mut e, addr);
            return Err(e);
        }
        let start = addr as usize;
        let mut end = start;
        while end < self.size
            invariant
                self.wf(),
                self.data@ == old(self).data@,
                self.size == old(self).size,
                self.reads == old(self).reads,
                self.writes == old(self).writes,
                self.bit_erasures == old(self).bit_erasures,
                start == addr,
                start <= end <= self.size,
                forall|i: int| start <= i < end ==> #[trigger] self.data@[i] != 0,
            decreases self.size - end,
        {
            if self.data[end] == 0 {
                self.reads = self.reads.wrapping_add(1);
                proof {
                    lemma_wrap_inc(old(self).reads);
                }
                return Ok(vstd::slice::slice_subrange(self.data.as_slice(), start, end));
            }
            end = end + 1;
        }
        let mut e = String::from_str("read_cstr: unterminated string at 0x");
        push_hex(&mut e, addr);
        Err(e)
    }
}

/// The 32 bytes of four 64-bit lanes, lane 0 first, each little-endian.
pub open spec fn lanes_bytes(lanes: [u64; 4]) -> Seq<u8> {
    lanes_prefix(lanes, 4)
}

/// The bytes of the first `n` lanes.
pub open spec fn lanes_prefix(lanes: [u64; 4], n: nat) -> Seq<u8>
    decreases n,
{
    if n == 0 {
        Seq::empty()
    } else {
        lanes_prefix(lanes, (n - 1) as nat) + le_encode(lanes[n - 1] as nat, 8)
    }
}

pub proof fn lemma_lanes_prefix_len(lanes: [u64; 4], n: nat)
    requires
        n <= 4,
    ensures
        lanes_prefix(lanes, n).len() == 8 * n,
    decreases n,
{
    if n > 0 {
        lemma_lanes_prefix_len(lanes, (n - 1) as nat);
        lemma_le_encode_len(lanes[n - 1] as nat, 8);
    }
}

pub proof fn lemma_le_encode_len(v: nat, n: nat)
    ensures
        le_encode(v, n).len() == n,
    decreases n,
{
    if n > 0 {
        lemma_le_encode_len(v / 256, (n - 1) as nat);
    }
}

proof fn lemma_wrap_inc(x: u64)
    ensures
        (x as int + 1) % two64() == wrap64(x + 1) as int,
        (if x == u64::MAX { 0u64 } else { (x + 1) as u64 }) == wrap64(x + 1),
{
    if x == u64::MAX {
        lemma_mod_self_0(two64());
    } else {
        lemma_small_mod((x + 1) as nat, two64() as nat);
    }
}

proof fn lemma_wrap_add(a: int, c: int)
    requires
        0 <= c <= 64,
    ensures
        wrap64(wrap64(a) + c) == wrap64(a + c),
{
    lemma_mod_bound(a, two64());
    lemma_add_mod_noop(a, c, two64());
    lemma_small_mod(c as nat, two64() as nat);
    lemma_mod_twice(a, two64());
}


/// A store followed by a load of the same width at the same address reads
/// back the stored value, and the store leaves every other byte as it was:
/// for every in-range address and every value that fits the width.
pub proof fn law_store_then_load(m: Seq<u8>, addr: int, v: nat, n: nat)
    requires
        0 <= addr,
        addr + n <= m.len(),
        v < pow256(n),
    ensures
        splice(m, addr, le_encode(v, n)).len() == m.len(),
        le_num(splice(m, addr, le_encode(v, n)).subrange(addr, addr + n)) == v,
        forall|i: int|
            0 <= i < m.len() && !(addr <= i < addr + n) ==> #[trigger] splice(
                m,
                addr,
                le_encode(v, n),
            )[i] == m[i],
{
    law_le_roundtrip(v, n);
    let b = le_encode(v, n);
    let r = splice(m, addr, b);
    assert(r.subrange(addr, addr + n) =~= b);
    assert forall|i: int| 0 <= i < m.len() && !(addr <= i < addr + n) implies #[trigger] r[i] == m[i] by {
        if i < addr {
            assert(r[i] == m.subrange(0, addr)[i]);
        } else {
            assert(r[i] == m.subrange(addr + n, m.len() as int)[i - addr - n]);
        }
    }
}

/// The eight bytes of lane `i` in the bytes of four lanes are that lane's
/// little-endian encoding, so a 256-bit store followed by a 256-bit load at
/// the same address gives the four lanes back.
pub proof fn law_lanes_round_trip(lanes: [u64; 4], i: int)
    requires
        0 <= i < 4,
    ensures
        lanes_bytes(lanes).len() == 32,
        lanes_bytes(lanes).subrange(8 * i, 8 * i + 8) == le_encode(lanes[i] as nat, 8),
        le_num(lanes_bytes(lanes).subrange(8 * i, 8 * i + 8)) == lanes[i],
{
    lemma_lanes_prefix_len(lanes, 4);
    lemma_lanes_slot(lanes, 4, i);
    reveal_with_fuel(pow256, 9);
    law_le_roundtrip(lanes[i] as nat, 8);
}

proof fn lemma_lanes_slot(lanes: [u64; 4], n: nat, i: int)
    requires
        0 <= i < n <= 4,
    ensures
        lanes_prefix(lanes, n).subrange(8 * i, 8 * i + 8) == le_encode(lanes[i] as nat, 8),
    decreases n,
{
    lemma_lanes_prefix_len(lanes, n);
    lemma_lanes_prefix_len(lanes, (n - 1) as nat);
    lemma_le_encode_len(lanes[n - 1] as nat, 8);
    let p = lanes_prefix(lanes, n);
    if i < n - 1 {
        lemma_lanes_slot(lanes, (n - 1) as nat, i);
        assert(p.subrange(8 * i, 8 * i + 8) =~= lanes_prefix(lanes, (n - 1) as nat).subrange(
            8 * i,
            8 * i + 8,
        ));
    } else {
        assert(p.subrange(8 * i, 8 * i + 8) =~= le_encode(lanes[n - 1] as nat, 8));
    }
}

} // verus!
