//! LEB128 variable-length integers: the unsigned and signed decoders used
//! throughout the container format, a canonical encoder, and the round-trip
//! law connecting the two.

use vstd::arithmetic::div_mod::{lemma_fundamental_div_mod, lemma_mod_multiples_vanish,
    lemma_small_mod};
use vstd::arithmetic::mul::lemma_mul_is_associative;
use vstd::prelude::*;

use crate::error::AbcError;

verus! {

/// 2^64, the modulus of a `u64`.
pub open spec fn u64_modulus() -> nat {
    0x1_0000_0000_0000_0000
}

/// 128^n: the weight of the n-th seven-bit group of a LEB128 encoding.
pub open spec fn pow128(n: nat) -> nat
    decreases n,
{
    if n == 0 {
        1
    } else {
        128 * pow128((n - 1) as nat)
    }
}

/// The unsigned value of a LEB128 byte sequence: each byte contributes its
/// low seven bits, least significant group first.
pub open spec fn uleb_sum(s: Seq<u8>) -> nat
    decreases s.len(),
{
    if s.len() == 0 {
        0
    } else {
        (s[0] % 0x80) as nat + 128 * uleb_sum(s.drop_first())
    }
}

/// A well-formed LEB128 byte sequence: every byte but the last has the
/// continuation bit set, and the last one does not.
pub open spec fn uleb_wf(s: Seq<u8>) -> bool {
    &&& s.len() >= 1
    &&& forall|i: int| 0 <= i < s.len() - 1 ==> s[i] >= 0x80
    &&& s[s.len() - 1] < 0x80
}

/// The canonical LEB128 encoding of an unsigned value: low seven bits first,
/// continuation bit on every byte except the last.
pub open spec fn uleb_encode(v: nat) -> Seq<u8>
    decreases v,
{
    if v < 128 {
        seq![v as u8]
    } else {
        seq![(v % 128 + 128) as u8] + uleb_encode(v / 128)
    }
}

/// There is a well-formed LEB128 sequence of at most ten bytes at `off`.
pub open spec fn has_uleb_at(buf: Seq<u8>, off: int) -> bool {
    exists|end: int|
        off < end <= off + 10 && end <= buf.len() && uleb_wf(#[trigger] buf.subrange(off, end))
}

/// The end offset (exclusive) of the LEB128 sequence at `off`; meaningful
/// only when `has_uleb_at` holds, and then unique.
pub open spec fn uleb_end_at(buf: Seq<u8>, off: int) -> int {
    choose|end: int|
        off < end <= off + 10 && end <= buf.len() && uleb_wf(#[trigger] buf.subrange(off, end))
}

/// The value (low 64 bits) of the LEB128 sequence at `off`.
pub open spec fn uleb_val_at(buf: Seq<u8>, off: int) -> nat {
    uleb_sum(buf.subrange(off, uleb_end_at(buf, off))) % u64_modulus()
}

/// Any well-formed sequence at `off` ends exactly at `uleb_end_at`.
pub proof fn lemma_uleb_at_is(buf: Seq<u8>, off: int, end: int)
    requires
        0 <= off < end <= off + 10,
        end <= buf.len(),
        uleb_wf(buf.subrange(off, end)),
    ensures
        has_uleb_at(buf, off),
        uleb_end_at(buf, off) == end,
        uleb_val_at(buf, off) == uleb_sum(buf.subrange(off, end)) % u64_modulus(),
{
    assert(has_uleb_at(buf, off));
    let end2 = uleb_end_at(buf, off);
    lemma_uleb_wf_prefix_unique(buf, off, end - off, end2 - off);
}

/// The error a LEB128 read at `off` reports when no well-formed sequence is
/// there: `InvalidLeb128` when ten continuation bytes are in bounds,
/// `OutOfBounds` when the buffer ends first.
pub open spec fn uleb_err_at(buf: Seq<u8>, off: int) -> AbcError {
    if off + 10 <= buf.len() {
        AbcError::InvalidLeb128
    } else {
        AbcError::OutOfBounds
    }
}

/// The value of a well-formed signed LEB128 sequence: the unsigned sum,
/// shifted down by one whole weight when the top bit of the last group is
/// set.
pub open spec fn sleb_val(s: Seq<u8>) -> int {
    if 2 * uleb_sum(s) >= pow128(s.len()) {
        uleb_sum(s) - pow128(s.len())
    } else {
        uleb_sum(s) as int
    }
}

proof fn lemma_pow128_mono(a: nat, b: nat)
    requires
        a <= b,
    ensures
        pow128(a) <= pow128(b),
    decreases b,
{
    if a < b {
        lemma_pow128_mono(a, (b - 1) as nat);
    }
}

proof fn lemma_pow128_vals()
    ensures
        pow128(8) == 0x100_0000_0000_0000,
        pow128(9) == 0x8000_0000_0000_0000,
        pow128(10) == 0x40_0000_0000_0000_0000,
{
    reveal_with_fuel(pow128, 11);
}

/// Appending one byte to a LEB128 sequence adds its group at the next weight.
pub proof fn lemma_uleb_sum_snoc(s: Seq<u8>, b: u8)
    ensures
        uleb_sum(s.push(b)) == uleb_sum(s) + pow128(s.len()) * ((b % 0x80) as nat),
    decreases s.len(),
{
    if s.len() == 0 {
        assert(s.push(b).drop_first() =~= Seq::<u8>::empty());
        assert(s.push(b)[0] == b);
        assert(uleb_sum(Seq::<u8>::empty()) == 0);
        assert(uleb_sum(s.push(b)) == (b % 0x80) as nat);
        assert(pow128(0) == 1);
    } else {
        assert(s.push(b).drop_first() =~= s.drop_first().push(b));
        lemma_uleb_sum_snoc(s.drop_first(), b);
        let p = pow128((s.len() - 1) as nat);
        let g = (b % 0x80) as nat;
        assert(uleb_sum(s.push(b)) == (s[0] % 0x80) as nat + 128 * (uleb_sum(s.drop_first()) + p
            * g));
        lemma_mul_is_associative(128, p as int, g as int);
        assert(128 * (p * g) == (128 * p) * g);
        assert(pow128(s.len()) == 128 * p);
    }
}

/// The unsigned sum of n groups is below 128^n.
pub proof fn lemma_uleb_sum_bound(s: Seq<u8>)
    ensures
        uleb_sum(s) < pow128(s.len()),
    decreases s.len(),
{
    if s.len() > 0 {
        lemma_uleb_sum_bound(s.drop_first());
    }
}

/// Inside one buffer, at one offset, only one prefix length can be
/// well-formed LEB128: the terminator byte decides it.
pub proof fn lemma_uleb_wf_prefix_unique(b: Seq<u8>, off: int, n1: int, n2: int)
    requires
        0 <= off,
        1 <= n1,
        1 <= n2,
        off + n1 <= b.len(),
        off + n2 <= b.len(),
        uleb_wf(b.subrange(off, off + n1)),
        uleb_wf(b.subrange(off, off + n2)),
    ensures
        n1 == n2,
{
    if n1 < n2 {
        assert(b.subrange(off, off + n2)[n1 - 1] == b[off + n1 - 1]);
        assert(b.subrange(off, off + n1)[n1 - 1] == b[off + n1 - 1]);
    } else if n2 < n1 {
        assert(b.subrange(off, off + n1)[n2 - 1] == b[off + n2 - 1]);
        assert(b.subrange(off, off + n2)[n2 - 1] == b[off + n2 - 1]);
    }
}

proof fn lemma_uleb_encode_len(v: nat, n: nat)
    requires
        v < pow128(n),
        n >= 1,
    ensures
        uleb_encode(v).len() <= n,
    decreases v,
{
    if v >= 128 {
        assert(pow128(n) == 128 * pow128((n - 1) as nat));
        lemma_uleb_encode_len(v / 128, (n - 1) as nat);
    }
}

/// The canonical encoding is well formed and sums back to its value.
pub proof fn lemma_uleb_encode_ok(v: nat)
    ensures
        uleb_wf(uleb_encode(v)),
        uleb_sum(uleb_encode(v)) == v,
    decreases v,
{
    if v < 128 {
        let s = uleb_encode(v);
        assert(s.drop_first() =~= Seq::<u8>::empty());
        assert(uleb_sum(Seq::<u8>::empty()) == 0);
        assert(s[0] == v as u8);
    } else {
        lemma_uleb_encode_ok(v / 128);
        let b: u8 = (v % 128 + 128) as u8;
        let s = seq![b] + uleb_encode(v / 128);
        assert(uleb_encode(v) == s);
        assert(s.drop_first() =~= uleb_encode(v / 128));
        assert(s[0] == b);
        assert(b == v % 128 + 128);
        assert(b % 0x80 == v % 128);
        assert(uleb_sum(s) == (b % 0x80) as nat + 128 * (v / 128));
        lemma_fundamental_div_mod(v as int, 128);
    }
}

/// LEB128 round trip: the canonical encoding of any 64-bit value is a
/// well-formed sequence of at most ten bytes whose decoded value is the
/// value itself.  Together with the exact contracts of `read_uleb128` and
/// `encode_uleb128` this pins down that decoding an encoding returns the
/// original value.
pub proof fn lemma_leb128_round_trip(v: u64)
    ensures
        uleb_wf(uleb_encode(v as nat)),
        uleb_encode(v as nat).len() <= 10,
        uleb_sum(uleb_encode(v as nat)) % u64_modulus() == v as nat,
{
    lemma_uleb_encode_ok(v as nat);
    lemma_pow128_vals();
    lemma_uleb_encode_len(v as nat, 10);
    lemma_small_mod(v as nat, u64_modulus());
}

/// The contribution of the tenth group, taken modulo 2^64: only its lowest
/// bit survives.
proof fn lemma_last_group_mod(a: nat, g: nat)
    requires
        a < 0x8000_0000_0000_0000,
        g < 0x80,
    ensures
        (a + pow128(9) * g) % u64_modulus() == a + (g % 2) * 0x8000_0000_0000_0000,
{
    lemma_pow128_vals();
    let q = g / 2;
    let r = g % 2;
    lemma_fundamental_div_mod(g as int, 2);
    assert(pow128(9) * g == q * u64_modulus() + r * 0x8000_0000_0000_0000) by (nonlinear_arith)
        requires
            g == 2 * q + r,
            pow128(9) == 0x8000_0000_0000_0000,
    ;
    lemma_mod_multiples_vanish(q as int, (a + r * 0x8000_0000_0000_0000) as int, u64_modulus() as int);
    lemma_small_mod((a + r * 0x8000_0000_0000_0000) as nat, u64_modulus());
}

/// Reads an unsigned LEB128 integer at `off`.  On success returns the value
/// (low 64 bits) and the number of bytes consumed; fails with
/// `InvalidLeb128` when ten bytes pass without a terminator and with
/// `OutOfBounds` when the buffer ends first.
pub fn read_uleb128(buf: &[u8], off: usize) -> (r: Result<(u64, usize), AbcError>)
    ensures
        r is Ok <==> has_uleb_at(buf@, off as int),
        r matches Ok(p) ==> {
            &&& 1 <= p.1 <= 10
            &&& off + p.1 <= buf@.len()
            &&& uleb_wf(buf@.subrange(off as int, off + p.1))
            &&& off + p.1 == uleb_end_at(buf@, off as int)
            &&& p.0 as nat == uleb_val_at(buf@, off as int)
            &&& p.0 as nat == uleb_sum(buf@.subrange(off as int, off + p.1)) % u64_modulus()
        },
        r == Err::<(u64, usize), AbcError>(AbcError::InvalidLeb128) ==> off + 10 <= buf@.len()
            && (forall|j: int| off <= j < off + 10 ==> buf@[j] >= 0x80),
        r == Err::<(u64, usize), AbcError>(AbcError::OutOfBounds) ==> buf@.len() < off + 10 && (
        forall|j: int| off <= j < buf@.len() ==> buf@[j] >= 0x80),
        r matches Err(e) ==> e == uleb_err_at(buf@, off as int),
{
    let len = buf.len();
    if off >= len {
        assert forall|end: int| off < end <= off + 10 && end <= buf@.len() implies !uleb_wf(
            #[trigger] buf@.subrange(off as int, end),
        ) by {
            assert(buf@.subrange(off as int, end).len() == end - off);
        }
        return Err(AbcError::OutOfBounds);
    }
    let mut result: u64 = 0;
    let mut m: u64 = 1;
    let mut i: usize = 0;
    loop
        invariant
            0 <= i <= 9,
            off < len,
            len == buf@.len(),
            off + i <= len,
            m == pow128(i as nat),
            m <= 0x8000_0000_0000_0000,
            result == uleb_sum(buf@.subrange(off as int, off + i)),
            result < m,
            forall|j: int| off <= j < off + i ==> buf@[j] >= 0x80,
        decreases 10 - i,
    {
        proof {
            lemma_pow128_vals();
            lemma_pow128_mono(i as nat, 9);
        }
        if i >= len - off {
            // The buffer ended while every byte seen had the continuation
            // bit set: no prefix here is well formed.
            assert forall|end: int| off < end <= off + 10 && end <= buf@.len() implies !uleb_wf(
                #[trigger] buf@.subrange(off as int, end),
            ) by {
                assert(buf@.subrange(off as int, end)[end - off - 1] == buf@[end - 1]);
            }
            return Err(AbcError::OutOfBounds);
        }
        let b = buf[off + i];
        assert(b & 0x7f == b % 0x80) by (bit_vector);
        let g: u8 = b & 0x7f;
        proof {
            assert(buf@.subrange(off as int, off + i + 1) =~= buf@.subrange(
                off as int,
                off + i,
            ).push(b));
            lemma_uleb_sum_snoc(buf@.subrange(off as int, off + i), b);
        }
        if i == 9 {
            proof {
                lemma_last_group_mod(result as nat, g as nat);
            }
            let result10: u64 = result + (g as u64 % 2) * 0x8000_0000_0000_0000;
            if b < 0x80 {
                assert(uleb_wf(buf@.subrange(off as int, off + 10)));
                proof {
                    lemma_uleb_at_is(buf@, off as int, off + 10);
                }
                return Ok((result10, 10));
            }
            assert forall|end: int| off < end <= off + 10 && end <= buf@.len() implies !uleb_wf(
                #[trigger] buf@.subrange(off as int, end),
            ) by {
                assert(buf@.subrange(off as int, end)[end - off - 1] == buf@[end - 1]);
            }
            return Err(AbcError::InvalidLeb128);
        }
        proof {
            lemma_pow128_mono(i as nat, 8);
        }
        assert(result + (g as nat) * m < 128 * m) by (nonlinear_arith)
            requires
                result < m,
                g < 0x80,
                m >= 1,
        ;
        assert(128 * m <= 0x8000_0000_0000_0000);
        result = result + (g as u64) * m;
        if b < 0x80 {
            proof {
                lemma_pow128_mono((i + 1) as nat, 9);
                lemma_uleb_sum_bound(buf@.subrange(off as int, off + i + 1));
                lemma_small_mod(result as nat, u64_modulus());
            }
            assert(uleb_wf(buf@.subrange(off as int, off + i + 1)));
            proof {
                lemma_uleb_at_is(buf@, off as int, off + i + 1);
            }
            return Ok((result, i + 1));
        }
        m = m * 128;
        i = i + 1;
    }
}

/// Encodes a value as canonical unsigned LEB128.
pub fn encode_uleb128(v: u64) -> (r: Vec<u8>)
    ensures
        r@ == uleb_encode(v as nat),
{
    let mut out: Vec<u8> = Vec::new();
    let mut x = v;
    assert(out@ + uleb_encode(x as nat) =~= uleb_encode(v as nat));
    loop
        invariant
            uleb_encode(v as nat) == out@ + uleb_encode(x as nat),
        decreases x,
    {
        if x < 128 {
            out.push(x as u8);
            assert(out@ =~= uleb_encode(v as nat));
            return out;
        }
        let b: u8 = (x % 128) as u8 + 128;
        let ghost old_out = out@;
        let ghost old_x = x as nat;
        out.push(b);
        x = x / 128;
        proof {
            assert(uleb_encode(old_x) == seq![b] + uleb_encode(x as nat));
            assert(out@ + uleb_encode(x as nat) =~= old_out + uleb_encode(old_x));
        }
    }
}

/// Reads a signed LEB128 integer at `off`.  Success, failure and byte count
/// are exactly as for `read_uleb128`; for sequences of at most nine bytes
/// the returned value is the sign-extended group sum.
pub fn read_sleb128(buf: &[u8], off: usize) -> (r: Result<(i64, usize), AbcError>)
    ensures
        r is Ok <==> has_uleb_at(buf@, off as int),
        r matches Ok(p) ==> {
            &&& 1 <= p.1 <= 10
            &&& off + p.1 <= buf@.len()
            &&& uleb_wf(buf@.subrange(off as int, off + p.1))
            &&& off + p.1 == uleb_end_at(buf@, off as int)
            &&& p.1 <= 9 ==> p.0 as int == sleb_val(buf@.subrange(off as int, off + p.1))
        },
        r matches Err(e) ==> e == uleb_err_at(buf@, off as int),
{
    let (u, n) = match read_uleb128(buf, off) {
        Ok(p) => p,
        Err(e) => {
            return Err(e);
        },
    };
    if n == 10 {
        // All 64 bits are present; reinterpret them as two's complement.
        return Ok((#[verifier::truncate] (u as i64), n));
    }
    let ghost s = buf@.subrange(off as int, off + n);
    proof {
        assert(s.len() == n);
        lemma_uleb_sum_bound(s);
        lemma_pow128_vals();
        lemma_pow128_mono(n as nat, 9);
        lemma_small_mod(uleb_sum(s), u64_modulus());
    }
    // Compute the weight 128^n of the first absent group.
    let mut w: u64 = 1;
    let mut k: usize = 0;
    while k < n
        invariant
            0 <= k <= n <= 9,
            w == pow128(k as nat),
            w <= 0x8000_0000_0000_0000,
        decreases n - k,
    {
        proof {
            lemma_pow128_vals();
            lemma_pow128_mono((k + 1) as nat, 9);
        }
        w = w * 128;
        k = k + 1;
    }
    if u * 2 >= w {
        // Top bit of the last group is set: sign-extend downwards.
        let v: i64 = -((w - u) as i64);
        return Ok((v, n));
    }
    Ok((u as i64, n))
}

} // verus!
