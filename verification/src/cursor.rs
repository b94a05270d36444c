//! Forward-only reads over a byte buffer: single bytes, owned sub-buffers,
//! and LEB128 variable-length integers.  Each executable read is proved to
//! return exactly what the specification-level reading functions say.

use vstd::prelude::*;

use crate::error::Error;

verus! {

/// 128 raised to `i`: the place value of the `i`-th byte of a LEB128 encoding.
pub open spec fn pow128(i: int) -> int
    decreases i,
{
    if i <= 0 {
        1
    } else {
        128 * pow128(i - 1)
    }
}

pub proof fn lemma_pow128_values()
    ensures
        pow128(0) == 1,
        pow128(1) == 0x80,
        pow128(2) == 0x4000,
        pow128(3) == 0x20_0000,
        pow128(4) == 0x1000_0000,
        pow128(5) == 0x8_0000_0000,
        pow128(6) == 0x400_0000_0000,
        pow128(7) == 0x2_0000_0000_0000,
        pow128(8) == 0x100_0000_0000_0000,
        pow128(9) == 0x8000_0000_0000_0000,
{
    assert(pow128(0) == 1);
    assert(pow128(1) == 0x80);
    assert(pow128(2) == 0x4000);
    assert(pow128(3) == 0x20_0000);
    assert(pow128(4) == 0x1000_0000);
    assert(pow128(5) == 0x8_0000_0000);
    assert(pow128(6) == 0x400_0000_0000);
    assert(pow128(7) == 0x2_0000_0000_0000);
    assert(pow128(8) == 0x100_0000_0000_0000);
    assert(pow128(9) == 0x8000_0000_0000_0000);
}

pub proof fn lemma_pow128_pos(i: int)
    ensures
        pow128(i) >= 1,
    decreases i,
{
    if i > 0 {
        lemma_pow128_pos(i - 1);
        assert(pow128(i) == 128 * pow128(i - 1));
    }
}

pub proof fn lemma_pow128_mono(a: int, b: int)
    requires
        0 <= a <= b,
    ensures
        1 <= pow128(a) <= pow128(b),
    decreases b,
{
    lemma_pow128_pos(a);
    if a < b {
        lemma_pow128_mono(a, b - 1);
        assert(pow128(b) == 128 * pow128(b - 1));
    }
}

/// Unsigned LEB128, one byte at a time.  `acc` is the value of the bytes
/// already consumed, `mult == pow128(i)` their place value, `i` their count.
/// An encoding of more than ten bytes, or a tenth byte contributing more
/// than the one bit a `u64` has left, does not fit 64 bits.
pub open spec fn spec_uleb_rec(s: Seq<u8>, pos: int, acc: int, mult: int, i: int) -> Result<(int, int), Error>
    decreases 10 - i,
{
    if pos < 0 || pos >= s.len() {
        Err(Error::UnexpectedEof)
    } else {
        let b = s[pos];
        let low = (b % 128) as int;
        if i >= 9 && (b >= 128 || low > 1) {
            Err(Error::IntegerTooLarge)
        } else if b < 128 {
            Ok((acc + low * mult, pos + 1))
        } else {
            spec_uleb_rec(s, pos + 1, acc + low * mult, mult * 128, i + 1)
        }
    }
}

/// The unsigned LEB128 integer at `pos`, with the position after it.
pub open spec fn spec_uleb(s: Seq<u8>, pos: int) -> Result<(int, int), Error> {
    spec_uleb_rec(s, pos, 0, 1, 0)
}

/// Unsigned LEB128 read at 32-bit width: a value above `u32::MAX` is refused,
/// never truncated.
pub open spec fn spec_uleb32(s: Seq<u8>, pos: int) -> Result<(u32, int), Error> {
    match spec_uleb(s, pos) {
        Ok((v, p)) => if v <= 0xFFFF_FFFF {
            Ok((v as u32, p))
        } else {
            Err(Error::IntegerTooLarge)
        },
        Err(e) => Err(e),
    }
}

/// Signed LEB128, one byte at a time, two's complement.  The final byte's
/// bit 6 is the sign; a tenth byte must be exactly `0x00` or `0x7f`.
pub open spec fn spec_sleb_rec(s: Seq<u8>, pos: int, acc: int, mult: int, i: int) -> Result<(int, int), Error>
    decreases 10 - i,
{
    if pos < 0 || pos >= s.len() {
        Err(Error::UnexpectedEof)
    } else {
        let b = s[pos];
        let low = (b % 128) as int;
        if i >= 9 && !(b == 0 || b == 0x7f) {
            Err(Error::IntegerTooLarge)
        } else if b < 128 {
            let raw = acc + low * mult;
            if low >= 64 {
                Ok((raw - 128 * mult, pos + 1))
            } else {
                Ok((raw, pos + 1))
            }
        } else {
            spec_sleb_rec(s, pos + 1, acc + low * mult, mult * 128, i + 1)
        }
    }
}

/// The signed LEB128 integer at `pos`, with the position after it.
pub open spec fn spec_sleb(s: Seq<u8>, pos: int) -> Result<(int, int), Error> {
    spec_sleb_rec(s, pos, 0, 1, 0)
}

/// Signed LEB128 read at 32-bit width: a value outside `i32` is refused,
/// never truncated.
pub open spec fn spec_sleb32(s: Seq<u8>, pos: int) -> Result<(i32, int), Error> {
    match spec_sleb(s, pos) {
        Ok((v, p)) => if -0x8000_0000 <= v <= 0x7FFF_FFFF {
            Ok((v as i32, p))
        } else {
            Err(Error::IntegerTooLarge)
        },
        Err(e) => Err(e),
    }
}

/// A successful unsigned read lands strictly past `pos` and inside `s`.
pub proof fn lemma_uleb_rec_advance(s: Seq<u8>, pos: int, acc: int, mult: int, i: int)
    ensures
        spec_uleb_rec(s, pos, acc, mult, i) matches Ok(r) ==> pos < r.1 <= s.len(),
    decreases 10 - i,
{
    if 0 <= pos < s.len() {
        let b = s[pos];
        let low = (b % 128) as int;
        if !(i >= 9 && (b >= 128 || low > 1)) && b >= 128 {
            lemma_uleb_rec_advance(s, pos + 1, acc + low * mult, mult * 128, i + 1);
        }
    }
}

pub proof fn lemma_uleb_advance(s: Seq<u8>, pos: int)
    ensures
        spec_uleb(s, pos) matches Ok(r) ==> pos < r.1 <= s.len(),
        spec_uleb32(s, pos) matches Ok(r) ==> pos < r.1 <= s.len(),
{
    lemma_uleb_rec_advance(s, pos, 0, 1, 0);
}

/// A successful signed read lands strictly past `pos` and inside `s`.
pub proof fn lemma_sleb_rec_advance(s: Seq<u8>, pos: int, acc: int, mult: int, i: int)
    ensures
        spec_sleb_rec(s, pos, acc, mult, i) matches Ok(r) ==> pos < r.1 <= s.len(),
    decreases 10 - i,
{
    if 0 <= pos < s.len() {
        let b = s[pos];
        let low = (b % 128) as int;
        if !(i >= 9 && !(b == 0 || b == 0x7f)) && b >= 128 {
            lemma_sleb_rec_advance(s, pos + 1, acc + low * mult, mult * 128, i + 1);
        }
    }
}

pub proof fn lemma_sleb_advance(s: Seq<u8>, pos: int)
    ensures
        spec_sleb(s, pos) matches Ok(r) ==> pos < r.1 <= s.len(),
        spec_sleb32(s, pos) matches Ok(r) ==> pos < r.1 <= s.len(),
{
    lemma_sleb_rec_advance(s, pos, 0, 1, 0);
}

/// Read one byte and advance.
pub fn read_u8(s: &[u8], pos: &mut usize) -> (r: Result<u8, Error>)
    requires
        *old(pos) <= s@.len(),
    ensures
        match r {
            Ok(b) => *old(pos) < s@.len() && b == s@[*old(pos) as int] && *final(pos) == *old(pos) + 1,
            Err(e) => *old(pos) == s@.len() && e == Error::UnexpectedEof && *final(pos) == *old(pos),
        },
{
    if *pos < s.len() {
        let b: u8 = s[*pos];
        *pos = *pos + 1;
        Ok(b)
    } else {
        Err(Error::UnexpectedEof)
    }
}

/// Read `n` bytes into an owned buffer and advance past them.
#[verifier::loop_isolation(false)]
pub fn take_bytes(s: &[u8], pos: &mut usize, n: usize) -> (r: Result<Vec<u8>, Error>)
    requires
        *old(pos) <= s@.len(),
    ensures
        match r {
            Ok(v) => *old(pos) + n <= s@.len() && v@ == s@.subrange(
                *old(pos) as int,
                *old(pos) + n,
            ) && *final(pos) == *old(pos) + n,
            Err(e) => *old(pos) + n > s@.len() && e == Error::UnexpectedEof && *final(pos) == *old(
                pos,
            ),
        },
{
    if n > s.len() - *pos {
        return Err(Error::UnexpectedEof);
    }
    let start: usize = *pos;
    let mut out: Vec<u8> = Vec::new();
    let mut j: usize = 0;
    while j < n
        invariant
            start + n <= s@.len(),
            0 <= j <= n,
            out@ == s@.subrange(start as int, start + j),
        decreases n - j,
    {
        out.push(s[start + j]);
        proof {
            assert(out@ =~= s@.subrange(start as int, start + j + 1));
        }
        j = j + 1;
    }
    *pos = start + n;
    Ok(out)
}

/// Read an unsigned LEB128 integer into a `u64` and advance past it.
#[verifier::loop_isolation(false)]
pub fn read_uleb(s: &[u8], pos: &mut usize) -> (r: Result<u64, Error>)
    requires
        *old(pos) <= s@.len(),
    ensures
        match r {
            Ok(v) => spec_uleb(s@, *old(pos) as int) == Ok::<(int, int), Error>(
                (v as int, *final(pos) as int),
            ) && *old(pos) < *final(pos) <= s@.len(),
            Err(e) => spec_uleb(s@, *old(pos) as int) == Err::<(int, int), Error>(e),
        },
{
    let ghost pos0: int = *pos as int;
    let mut p: usize = *pos;
    let mut acc: u64 = 0;
    let mut mult: u64 = 1;
    let mut i: u32 = 0;
    proof {
        lemma_pow128_values();
    }
    loop
        invariant
            pos0 <= p as int,
            p <= s@.len(),
            0 <= i <= 9,
            mult as int == pow128(i as int),
            acc < mult,
            spec_uleb(s@, pos0) == spec_uleb_rec(s@, p as int, acc as int, mult as int, i as int),
        decreases 10 - i,
    {
        proof {
            lemma_pow128_values();
            lemma_pow128_mono(i as int, 9);
            if i <= 8 {
                lemma_pow128_mono(i as int, 8);
            }
        }
        if p == s.len() {
            return Err(Error::UnexpectedEof);
        }
        let b: u8 = s[p];
        let low: u64 = (b % 128) as u64;
        if i >= 9 && (b >= 128 || low > 1) {
            return Err(Error::IntegerTooLarge);
        }
        proof {
            if i <= 8 {
                assert(acc + low * mult < 128 * mult) by (nonlinear_arith)
                    requires
                        acc < mult,
                        low < 128,
                        mult >= 1,
                ;
                assert(128 * mult == pow128(i + 1));
            } else {
                assert(mult == 0x8000_0000_0000_0000);
                assert(low <= 1);
                assert(low * mult <= 0x8000_0000_0000_0000) by (nonlinear_arith)
                    requires
                        low <= 1,
                        mult == 0x8000_0000_0000_0000,
                ;
            }
        }
        let v: u64 = acc + low * mult;
        if b < 128 {
            *pos = p + 1;
            return Ok(v);
        }
        acc = v;
        mult = mult * 128;
        i = i + 1;
        p = p + 1;
    }
}

/// Read an unsigned LEB128 integer at 32-bit width and advance past it.
pub fn read_uleb32(s: &[u8], pos: &mut usize) -> (r: Result<u32, Error>)
    requires
        *old(pos) <= s@.len(),
    ensures
        match r {
            Ok(v) => spec_uleb32(s@, *old(pos) as int) == Ok::<(u32, int), Error>(
                (v, *final(pos) as int),
            ) && *old(pos) < *final(pos) <= s@.len(),
            Err(e) => spec_uleb32(s@, *old(pos) as int) == Err::<(u32, int), Error>(e),
        },
{
    match read_uleb(s, pos) {
        Ok(v) => if v <= 0xFFFF_FFFFu64 {
            Ok(v as u32)
        } else {
            Err(Error::IntegerTooLarge)
        },
        Err(e) => Err(e),
    }
}

/// Read a signed LEB128 integer at 32-bit width and advance past it.
#[verifier::loop_isolation(false)]
pub fn read_sleb32(s: &[u8], pos: &mut usize) -> (r: Result<i32, Error>)
    requires
        *old(pos) <= s@.len(),
    ensures
        match r {
            Ok(v) => spec_sleb32(s@, *old(pos) as int) == Ok::<(i32, int), Error>(
                (v, *final(pos) as int),
            ) && *old(pos) < *final(pos) <= s@.len(),
            Err(e) => spec_sleb32(s@, *old(pos) as int) == Err::<(i32, int), Error>(e),
        },
{
    let ghost pos0: int = *pos as int;
    let mut p: usize = *pos;
    let mut acc: u64 = 0;
    let mut mult: u64 = 1;
    let mut i: u32 = 0;
    proof {
        lemma_pow128_values();
    }
    loop
        invariant
            pos0 <= p as int,
            p <= s@.len(),
            0 <= i <= 9,
            mult as int == pow128(i as int),
            acc < mult,
            spec_sleb(s@, pos0) == spec_sleb_rec(s@, p as int, acc as int, mult as int, i as int),
        decreases 10 - i,
    {
        proof {
            lemma_pow128_values();
            lemma_pow128_mono(i as int, 9);
            if i <= 8 {
                lemma_pow128_mono(i as int, 8);
            }
        }
        if p == s.len() {
            return Err(Error::UnexpectedEof);
        }
        let b: u8 = s[p];
        let low: u64 = (b % 128) as u64;
        if i >= 9 && !(b == 0 || b == 0x7f) {
            return Err(Error::IntegerTooLarge);
        }
        proof {
            if i <= 8 {
                assert(acc + low * mult < 128 * mult) by (nonlinear_arith)
                    requires
                        acc < mult,
                        low < 128,
                        mult >= 1,
                ;
                assert(128 * mult == pow128(i + 1));
                if low >= 64 {
                    assert(low * mult >= 64 * mult) by (nonlinear_arith)
                        requires
                            low >= 64,
                            mult >= 0,
                    ;
                    assert(64 * mult <= 0x4000_0000_0000_0000);
                }
            } else {
                assert(mult == 0x8000_0000_0000_0000);
                assert(low == 0 || low == 0x7f);
            }
        }
        if b < 128 {
            // final byte: combine and sign-extend
            let ghost raw_spec: int = acc as int + low as int * mult as int;
            let ghost v_spec: int = if low >= 64 {
                raw_spec - 128 * (mult as int)
            } else {
                raw_spec
            };
            let sv: i64;
            if i >= 9 {
                // only `0x00` and `0x7f` reach here; the tenth byte carries
                // bit 63 alone, the sign fills everything above it
                if b == 0 {
                    proof {
                        assert(low as int * mult as int == 0) by (nonlinear_arith)
                            requires
                                low == 0,
                        ;
                    }
                    sv = acc as i64;
                } else {
                    proof {
                        assert(low as int * mult as int == 0x7f * 0x8000_0000_0000_0000int)
                            by (nonlinear_arith)
                            requires
                                low == 0x7f,
                                mult == 0x8000_0000_0000_0000,
                        ;
                    }
                    sv = (acc as i64) + i64::MIN;
                }
            } else {
                proof {
                    lemma_pow128_mono(i as int + 1, 9);
                    assert(128 * (mult as int) == pow128(i as int + 1));
                }
                let raw: u64 = acc + low * mult;
                if low >= 64 {
                    let m128: u64 = mult * 128;
                    let diff: u64 = m128 - raw;
                    sv = -(diff as i64);
                } else {
                    sv = raw as i64;
                }
            }
            proof {
                assert(sv as int == v_spec);
                assert(spec_sleb_rec(s@, p as int, acc as int, mult as int, i as int)
                    == Ok::<(int, int), Error>((v_spec, p as int + 1)));
            }
            *pos = p + 1;
            if -0x8000_0000i64 <= sv && sv <= 0x7FFF_FFFFi64 {
                return Ok(sv as i32);
            } else {
                return Err(Error::IntegerTooLarge);
            }
        }
        acc = acc + low * mult;
        mult = mult * 128;
        i = i + 1;
        p = p + 1;
    }
}

} // verus!
