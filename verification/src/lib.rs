//! A deterministic "random" number generator that replays a fixed byte
//! buffer: draws consume the buffer front to back, and once it is exhausted
//! every further draw yields zero. Intended for driving structure-aware
//! test-case generators from raw fuzzer input, not for randomness of any
//! quality.

use vstd::prelude::*;
use vstd::pervasive::VecAdditionalExecFns;
use vstd::slice::slice_index_get;

verus! {

/// The byte a single-byte read yields when the cursor stands at `i`:
/// the buffer byte while `i` is inside the buffer, and zero past the end.
pub open spec fn byte_at(buf: Seq<u8>, i: int) -> u8 {
    if 0 <= i < buf.len() {
        buf[i]
    } else {
        0
    }
}

/// Big-endian packing of four bytes into a 32-bit word: the first byte
/// read becomes the most significant byte.
pub open spec fn pack_u32(a: u8, b: u8, c: u8, d: u8) -> u32 {
    ((a as u32) << 24) | ((b as u32) << 16) | ((c as u32) << 8) | (d as u32)
}

/// The 32-bit word drawn when the cursor stands at `p`.
pub open spec fn u32_at(buf: Seq<u8>, p: int) -> u32 {
    pack_u32(byte_at(buf, p), byte_at(buf, p + 1), byte_at(buf, p + 2), byte_at(buf, p + 3))
}

/// A 64-bit word from two 32-bit draws: high word from the first draw,
/// low word from the second.
pub open spec fn pack_u64(hi: u32, lo: u32) -> u64 {
    ((hi as u64) << 32) | (lo as u64)
}

/// The 64-bit word drawn when the cursor stands at `p`.
pub open spec fn u64_at(buf: Seq<u8>, p: int) -> u64 {
    pack_u64(u32_at(buf, p), u32_at(buf, p + 4))
}

/// Where the cursor stands after consuming `k` bytes from position `p`:
/// it advances byte by byte but never past the end of the buffer.
pub open spec fn cursor_after(p: int, k: int, len: int) -> int {
    if p + k <= len {
        p + k
    } else {
        len
    }
}

/// The `j`-th byte, big-endian, of a 32-bit word: byte 0 is the most
/// significant byte, byte 3 the least.
pub open spec fn byte_of_u32(w: u32, j: int) -> u8 {
    if j == 0 {
        ((w >> 24) & 0xFF) as u8
    } else if j == 1 {
        ((w >> 16) & 0xFF) as u8
    } else if j == 2 {
        ((w >> 8) & 0xFF) as u8
    } else {
        (w & 0xFF) as u8
    }
}

/// Shifting and masking a big-endian packed word recovers the four
/// packed bytes, and each masked value fits in a byte.
proof fn lemma_unpack_pack(a: u8, b: u8, c: u8, d: u8)
    by (bit_vector)
    ensures
        ((((a as u32) << 24) | ((b as u32) << 16) | ((c as u32) << 8) | (d as u32)) >> 24) & 0xFF
            == a as u32,
        ((((a as u32) << 24) | ((b as u32) << 16) | ((c as u32) << 8) | (d as u32)) >> 16) & 0xFF
            == b as u32,
        ((((a as u32) << 24) | ((b as u32) << 16) | ((c as u32) << 8) | (d as u32)) >> 8) & 0xFF
            == c as u32,
        (((a as u32) << 24) | ((b as u32) << 16) | ((c as u32) << 8) | (d as u32)) & 0xFF
            == d as u32,
{
}

/// The error type of the fallible fill. No operation of the generator
/// ever produces one: buffer exhaustion is a defined zero-yielding state,
/// not a failure. The type exists only so the fallible interface can be
/// offered.
#[derive(Clone, Copy, Debug, PartialEq, Eq)]
pub struct Error;

/// A generator that yields values copied from a borrowed buffer, and
/// zeros after the buffer is exhausted. It never mutates the buffer and
/// its cursor only moves forward.
pub struct BufRng<'a> {
    data: &'a [u8],
    pos: usize,
}

impl<'a> BufRng<'a> {
    /// The whole source buffer.
    pub closed spec fn buf(&self) -> Seq<u8> {
        self.data@
    }

    /// The cursor: index of the next unread byte.
    pub closed spec fn pos(&self) -> int {
        self.pos as int
    }

    /// The cursor never stands past the end of the buffer.
    pub open spec fn wf(&self) -> bool {
        0 <= self.pos() <= self.buf().len()
    }

    /// Construct a generator that yields from the given `data` buffer,
    /// positioned at its start. `data` may be empty; construction cannot
    /// fail.
    pub fn new(data: &'a [u8]) -> (rng: BufRng<'a>)
        ensures
            rng.wf(),
            rng.buf() == data@,
            rng.pos() == 0,
    {
        BufRng { data, pos: 0 }
    }

    /// Retrieve the next byte, widened to a `u32`, advancing the cursor by
    /// one; once the cursor has reached the end of the buffer it stays
    /// there and every further call returns zero.
    pub fn next(&mut self) -> (r: u32)
        requires
            old(self).wf(),
        ensures
            final(self).wf(),
            final(self).buf() == old(self).buf(),
            final(self).pos() == cursor_after(
                old(self).pos(),
                1,
                old(self).buf().len() as int,
            ),
            final(self).pos() >= old(self).pos(),
            r == byte_at(old(self).buf(), old(self).pos()) as u32,
            r < 256,
    {
        if self.pos < self.data.len() {
            let b: u8 = *slice_index_get(self.data, self.pos);
            self.pos = self.pos + 1;
            b as u32
        } else {
            0
        }
    }

    /// Draw a 32-bit word from four consecutive single-byte reads, packed
    /// big-endian: the first byte read is the most significant.
    pub fn next_u32(&mut self) -> (r: u32)
        requires
            old(self).wf(),
        ensures
            final(self).wf(),
            final(self).buf() == old(self).buf(),
            final(self).pos() == cursor_after(
                old(self).pos(),
                4,
                old(self).buf().len() as int,
            ),
            final(self).pos() >= old(self).pos(),
            r == u32_at(old(self).buf(), old(self).pos()),
    {
        let a = self.next();
        let b = self.next();
        let c = self.next();
        let d = self.next();
        (a << 24) | (b << 16) | (c << 8) | d
    }

    /// Draw a 64-bit word from two consecutive 32-bit draws: the first
    /// draw gives the high word, the second the low word.
    pub fn next_u64(&mut self) -> (r: u64)
        requires
            old(self).wf(),
        ensures
            final(self).wf(),
            final(self).buf() == old(self).buf(),
            final(self).pos() == cursor_after(
                old(self).pos(),
                8,
                old(self).buf().len() as int,
            ),
            final(self).pos() >= old(self).pos(),
            r == u64_at(old(self).buf(), old(self).pos()),
    {
        let hi = self.next_u32();
        let lo = self.next_u32();
        ((hi as u64) << 32) | (lo as u64)
    }

    /// Fill `dest` with bytes from repeated 32-bit draws: each draw is
    /// decomposed big-endian into its four bytes, written in order, and a
    /// final partial draw is truncated to the remaining space. One draw is
    /// made for every four destination bytes begun, so the cursor advances
    /// by four buffer bytes per draw, never past the end.
    pub fn fill_bytes(&mut self, dest: &mut Vec<u8>)
        requires
            old(self).wf(),
        ensures
            final(self).wf(),
            final(self).buf() == old(self).buf(),
            final(dest).len() == old(dest).len(),
            final(self).pos() == cursor_after(
                old(self).pos(),
                4 * ((old(dest).len() + 3) as int / 4),
                old(self).buf().len() as int,
            ),
            final(self).pos() >= old(self).pos(),
            forall|k: int|
                0 <= k < old(dest).len() ==> final(dest)@[k] == byte_at(
                    old(self).buf(),
                    old(self).pos() + k,
                ),
    {
        let ghost buf0: Seq<u8> = self.buf();
        let ghost p0: int = self.pos();
        let n: usize = dest.len();
        let mut i: usize = 0;
        while n - i >= 4
            invariant
                self.wf(),
                self.buf() == buf0,
                0 <= p0 <= buf0.len(),
                dest.len() == n,
                i <= n,
                i % 4 == 0,
                self.pos() == cursor_after(p0, i as int, buf0.len() as int),
                forall|k: int| 0 <= k < i ==> dest@[k] == byte_at(buf0, p0 + k),
            decreases n - i,
        {
            let w = self.next_u32();
            proof {
                lemma_unpack_pack(
                    byte_at(buf0, p0 + i),
                    byte_at(buf0, p0 + i + 1),
                    byte_at(buf0, p0 + i + 2),
                    byte_at(buf0, p0 + i + 3),
                );
            }
            dest.set(i, ((w >> 24) & 0xFF) as u8);
            dest.set(i + 1, ((w >> 16) & 0xFF) as u8);
            dest.set(i + 2, ((w >> 8) & 0xFF) as u8);
            dest.set(i + 3, (w & 0xFF) as u8);
            i = i + 4;
        }
        if i < n {
            let w = self.next_u32();
            proof {
                lemma_unpack_pack(
                    byte_at(buf0, p0 + i),
                    byte_at(buf0, p0 + i + 1),
                    byte_at(buf0, p0 + i + 2),
                    byte_at(buf0, p0 + i + 3),
                );
            }
            dest.set(i, ((w >> 24) & 0xFF) as u8);
            if i + 1 < n {
                dest.set(i + 1, ((w >> 16) & 0xFF) as u8);
                if i + 2 < n {
                    dest.set(i + 2, ((w >> 8) & 0xFF) as u8);
                }
            }
        }
    }

    /// The fallible variant of the bulk fill. It always succeeds, since
    /// the underlying draws cannot fail, and fills `dest` exactly as
    /// `fill_bytes` does.
    pub fn try_fill_bytes(&mut self, dest: &mut Vec<u8>) -> (r: Result<(), Error>)
        requires
            old(self).wf(),
        ensures
            r is Ok,
            final(self).wf(),
            final(self).buf() == old(self).buf(),
            final(dest).len() == old(dest).len(),
            final(self).pos() == cursor_after(
                old(self).pos(),
                4 * ((old(dest).len() + 3) as int / 4),
                old(self).buf().len() as int,
            ),
            final(self).pos() >= old(self).pos(),
            forall|k: int|
                0 <= k < old(dest).len() ==> final(dest)@[k] == byte_at(
                    old(self).buf(),
                    old(self).pos() + k,
                ),
    {
        self.fill_bytes(dest);
        Ok(())
    }
}

/// For every buffer holding at least four bytes, the first 32-bit draw
/// packs the four leading bytes big-endian: the first byte read becomes
/// the most significant byte of the result.
pub proof fn lemma_first_draw_packs_big_endian(buf: Seq<u8>)
    requires
        buf.len() >= 4,
    ensures
        u32_at(buf, 0) == pack_u32(buf[0], buf[1], buf[2], buf[3]),
{
}

/// For a buffer shorter than four bytes, the first 32-bit draw reads the
/// bytes that exist and treats the missing trailing bytes as zero.
pub proof fn lemma_short_buffer_first_draw(buf: Seq<u8>)
    requires
        buf.len() < 4,
    ensures
        u32_at(buf, 0) == pack_u32(
            if buf.len() > 0 { buf[0] } else { 0 },
            if buf.len() > 1 { buf[1] } else { 0 },
            if buf.len() > 2 { buf[2] } else { 0 },
            0,
        ),
{
}

/// For an empty buffer, every 32-bit draw returns zero and the cursor
/// never moves, so any number of repeated draws all return zero.
pub proof fn lemma_empty_buffer_draws_zero(buf: Seq<u8>, p: int)
    requires
        buf.len() == 0,
        0 <= p <= buf.len(),
    ensures
        u32_at(buf, p) == 0,
        cursor_after(p, 4, buf.len() as int) == p,
{
    assert(pack_u32(0, 0, 0, 0) == 0) by (bit_vector);
}

/// Exhaustion is permanent: once the cursor stands at the end of the
/// buffer, it stays there for every further draw, and every further
/// draw — single byte, 32-bit, 64-bit, and every byte a bulk fill
/// writes — yields zero, however many calls follow.
pub proof fn lemma_exhaustion_permanent(buf: Seq<u8>, p: int, k: int)
    requires
        p == buf.len(),
        0 <= k,
    ensures
        byte_at(buf, p + k) == 0,
        u32_at(buf, p + k) == 0,
        u64_at(buf, p + k) == 0,
        cursor_after(p, k, buf.len() as int) == p,
{
    assert(pack_u32(0, 0, 0, 0) == 0) by (bit_vector);
    assert(pack_u64(0, 0) == 0) by (bit_vector);
}

/// Bulk fill agrees with decomposing consecutive 32-bit draws: the byte a
/// fill writes at offset `k` is byte `k % 4`, big-endian, of the 32-bit
/// word drawn once the cursor has passed `4 * (k / 4)` earlier fill bytes.
pub proof fn lemma_fill_matches_draw_decomposition(buf: Seq<u8>, p: int, k: int)
    requires
        0 <= p,
        0 <= k,
    ensures
        byte_at(buf, p + k) == byte_of_u32(u32_at(buf, p + 4 * (k / 4)), k % 4),
{
    let q: int = p + 4 * (k / 4);
    vstd::arithmetic::div_mod::lemma_fundamental_div_mod(k, 4);
    lemma_unpack_pack(
        byte_at(buf, q),
        byte_at(buf, q + 1),
        byte_at(buf, q + 2),
        byte_at(buf, q + 3),
    );
}

} // verus!
