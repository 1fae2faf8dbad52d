//! Unsigned 64-bit integers in the 7-bit continuation encoding.
use vstd::arithmetic::div_mod::lemma_div_denominator;
use vstd::prelude::*;

use crate::error::ClickHouseClientError;
use crate::parsed::{reports, settled, ParseResult, Parsed};

verus! {

/// Most bytes a 64-bit varint may take.
pub const MAX_VARINT_LEN64: usize = 10;

/// 128 to the power `n`.
pub open spec fn pow128(n: nat) -> nat
    decreases n,
{
    if n == 0 {
        1
    } else {
        128 * pow128((n - 1) as nat)
    }
}

/// The minimal encoding of `v`: seven payload bits per byte, least
/// significant group first, the high bit set on every byte but the last.
pub open spec fn varint_bytes(v: nat) -> Seq<u8>
    decreases v,
{
    if v < 128 {
        seq![v as u8]
    } else {
        seq![(v % 128 + 128) as u8] + varint_bytes(v / 128)
    }
}

/// The number that a run of varint bytes carries in its payload bits.
pub open spec fn varint_value(s: Seq<u8>) -> nat
    decreases s.len(),
{
    if s.len() == 0 {
        0
    } else {
        (s[0] % 128) as nat + 128 * varint_value(s.drop_first())
    }
}

/// Decoding a varint from the front of `s`, having passed `i`
/// continuation bytes: the first byte without the continuation bit ends
/// it; a tenth byte with a payload above 1, or ten continuation bytes,
/// overflow 64 bits, and the ten bytes read are taken with the error.
pub open spec fn varint_scan(s: Seq<u8>, i: nat) -> Parsed<u64>
    decreases 10 - i,
{
    if i >= 10 {
        Parsed::Fail(ClickHouseClientError::VarintOverflow, 10)
    } else if i >= s.len() {
        Parsed::NeedMore
    } else if s[i as int] < 128 {
        if i == 9 && s[i as int] > 1 {
            Parsed::Fail(ClickHouseClientError::VarintOverflow, 10)
        } else {
            Parsed::Done(varint_value(s.take(i + 1 as int)) as u64, i + 1)
        }
    } else {
        varint_scan(s, i + 1)
    }
}

/// Decoding a varint from the front of `s`.
pub open spec fn varint_parse(s: Seq<u8>) -> Parsed<u64> {
    varint_scan(s, 0)
}

proof fn lemma_varint_scan_bounds(s: Seq<u8>, i: nat)
    requires
        i <= s.len(),
        i <= 10,
    ensures
        varint_scan(s, i) matches Parsed::Done(_, n) ==> i < n <= s.len() && n <= 10,
        varint_scan(s, i) matches Parsed::Fail(_, n) ==> n == 10 && n <= s.len(),
    decreases 10 - i,
{
    if i < 10 && i < s.len() && s[i as int] >= 128 {
        lemma_varint_scan_bounds(s, i + 1);
    }
}

/// A decoded varint takes between one and ten of the bytes at hand; an
/// overflow takes ten of them.
pub proof fn lemma_varint_parse_bounds(s: Seq<u8>)
    ensures
        varint_parse(s) matches Parsed::Done(_, n) ==> 1 <= n <= s.len() && n <= 10,
        varint_parse(s) matches Parsed::Fail(_, n) ==> n == 10 && n <= s.len(),
{
    lemma_varint_scan_bounds(s, 0);
}

/// Nine continuation bytes followed by a byte above 1, whether it ends
/// the varint with a payload that does not fit or continues it past ten
/// bytes, are refused as an overflow.
pub proof fn lemma_varint_overflow(s: Seq<u8>)
    requires
        s.len() >= 10,
        forall|j: int| 0 <= j < 9 ==> s[j] >= 128,
        s[9] > 1,
    ensures
        varint_parse(s) == Parsed::<u64>::Fail(ClickHouseClientError::VarintOverflow, 10),
{
    reveal_with_fuel(varint_scan, 11);
}

proof fn lemma_varint_scan_settled(s: Seq<u8>, t: Seq<u8>, i: nat)
    requires
        i <= s.len(),
        i <= 10,
    ensures
        settled(varint_scan(s, i), varint_scan(s + t, i), s.len()),
    decreases 10 - i,
{
    lemma_varint_scan_bounds(s + t, i);
    if i < 10 && i < s.len() {
        assert((s + t)[i as int] == s[i as int]);
        assert((s + t).take(i + 1 as int) =~= s.take(i + 1 as int));
        if s[i as int] >= 128 {
            lemma_varint_scan_settled(s, t, i + 1);
        }
    }
}

/// More bytes after a varint do not change how it decodes.
pub proof fn lemma_varint_settled(s: Seq<u8>, t: Seq<u8>)
    ensures
        settled(varint_parse(s), varint_parse(s + t), s.len()),
{
    lemma_varint_scan_settled(s, t, 0);
}

/// Number of significant bits of `v` (0 for 0).
pub open spec fn bit_length(v: nat) -> nat
    decreases v,
{
    if v == 0 {
        0
    } else {
        1 + bit_length(v / 2)
    }
}

proof fn lemma_pow128_small()
    ensures
        pow128(1) == 128,
        pow128(8) == 0x100000000000000,
        pow128(9) == 0x8000000000000000,
        pow128(10) == 0x400000000000000000,
{
    reveal_with_fuel(pow128, 11);
}

proof fn lemma_pow128_positive(n: nat)
    ensures
        pow128(n) >= 1,
    decreases n,
{
    if n > 0 {
        lemma_pow128_positive((n - 1) as nat);
    }
}

/// Shape of the minimal encoding: at least one byte, the continuation bit
/// on all but the last, `v` as its value, the last byte the top group, and
/// the length the least with `v < 128^len`.
proof fn lemma_varint_bytes_shape(v: nat)
    ensures
        varint_bytes(v).len() >= 1,
        forall|j: int| 0 <= j < varint_bytes(v).len() - 1 ==> varint_bytes(v)[j] >= 128,
        varint_bytes(v)[varint_bytes(v).len() - 1] < 128,
        varint_bytes(v)[varint_bytes(v).len() - 1] as nat == v / pow128((varint_bytes(v).len() - 1) as nat),
        varint_value(varint_bytes(v)) == v,
        v < pow128(varint_bytes(v).len()),
        varint_bytes(v).len() == 1 || pow128((varint_bytes(v).len() - 1) as nat) <= v,
    decreases v,
{
    let e = varint_bytes(v);
    if v < 128 {
        assert(e.drop_first() =~= Seq::<u8>::empty());
        assert(varint_value(e.drop_first()) == 0);
        assert(e[0] as nat == v);
        reveal_with_fuel(pow128, 2);
        assert(pow128(0) == 1);
        assert(v / 1 == v) by (nonlinear_arith);
    } else {
        let t = varint_bytes(v / 128);
        lemma_varint_bytes_shape(v / 128);
        assert(e.drop_first() =~= t);
        assert(e.len() == t.len() + 1);
        assert(e[e.len() - 1] == t[t.len() - 1]);
        let k = (t.len() - 1) as nat;
        lemma_pow128_positive(k);
        assert(pow128(k + 1) == 128 * pow128(k));
        lemma_div_denominator(v as int, 128, pow128(k) as int);
        assert(e[e.len() - 1] as nat == (v / 128) / pow128(k));
        assert((v / 128) / pow128(k) == v / pow128(k + 1));
        assert(forall|j: int| 0 <= j < e.len() - 1 ==> e[j] >= 128) by {
            assert forall|j: int| 0 <= j < e.len() - 1 implies e[j] >= 128 by {
                if j > 0 {
                    assert(e[j] == t[j - 1]);
                }
            }
        }
        assert(e[0] == (v % 128 + 128) as u8);
        assert(((v % 128 + 128) as u8) % 128 == v % 128);
        assert(varint_value(e) == v % 128 + 128 * varint_value(t));
        assert(v % 128 + 128 * (v / 128) == v);
    }
}

/// The minimal encoding of a 64-bit value takes at most ten bytes, and a
/// tenth byte carries at most 1.
proof fn lemma_varint_bytes_u64(v: u64)
    ensures
        varint_bytes(v as nat).len() <= 10,
        varint_bytes(v as nat).len() == 10 ==> varint_bytes(v as nat)[9] <= 1,
{
    let e = varint_bytes(v as nat);
    lemma_varint_bytes_shape(v as nat);
    lemma_pow128_small();
    if e.len() > 10 {
        lemma_pow128_monotone(10, (e.len() - 1) as nat);
    }
    if e.len() == 10 {
        assert(e[9] as nat == (v as nat) / pow128(9));
    }
}

proof fn lemma_pow128_monotone(a: nat, b: nat)
    requires
        a <= b,
    ensures
        pow128(a) <= pow128(b),
    decreases b - a,
{
    if a < b {
        lemma_pow128_monotone(a, (b - 1) as nat);
        lemma_pow128_positive((b - 1) as nat);
    }
}

/// Appending one byte to a run of varint bytes adds its payload at the
/// next group.
proof fn lemma_varint_value_push(s: Seq<u8>, b: u8)
    ensures
        varint_value(s.push(b)) == varint_value(s) + (b % 128) as nat * pow128(s.len()),
    decreases s.len(),
{
    let x = (b % 128) as nat;
    if s.len() == 0 {
        assert(s.push(b).drop_first() =~= Seq::<u8>::empty());
        assert(pow128(0) == 1);
        assert(varint_value(s.push(b)) == x + 128 * varint_value(Seq::<u8>::empty()));
    } else {
        assert(s.push(b).drop_first() =~= s.drop_first().push(b));
        lemma_varint_value_push(s.drop_first(), b);
        let p = pow128((s.len() - 1) as nat);
        assert(pow128(s.len()) == 128 * p);
        assert(s.push(b)[0] == s[0]);
        assert(128 * (x * p) == x * (128 * p)) by (nonlinear_arith);
        assert(varint_value(s.push(b)) == (s[0] % 128) as nat + 128 * varint_value(s.drop_first().push(b)));
    }
}

/// Scanning a sequence that starts with the encoding of `v`.
proof fn lemma_varint_scan_encoded(v: u64, s: Seq<u8>, i: nat)
    requires
        s.len() >= varint_bytes(v as nat).len(),
        s.take(varint_bytes(v as nat).len() as int) == varint_bytes(v as nat),
        i < varint_bytes(v as nat).len(),
    ensures
        varint_scan(s, i) == Parsed::Done(v, varint_bytes(v as nat).len()),
    decreases varint_bytes(v as nat).len() - i,
{
    let e = varint_bytes(v as nat);
    lemma_varint_bytes_shape(v as nat);
    lemma_varint_bytes_u64(v);
    assert(s[i as int] == e[i as int]);
    if i + 1 == e.len() {
        assert(s.take(i + 1 as int) =~= e);
    } else {
        lemma_varint_scan_encoded(v, s, i + 1);
    }
}

/// Decoding the encoding of any 64-bit value, whatever follows it, gives
/// the value back and consumes exactly the encoding.
pub proof fn lemma_varint_round_trip(v: u64, rest: Seq<u8>)
    ensures
        varint_parse(varint_bytes(v as nat) + rest) == Parsed::Done(v, varint_bytes(v as nat).len()),
{
    let e = varint_bytes(v as nat);
    lemma_varint_bytes_shape(v as nat);
    assert((e + rest).take(e.len() as int) =~= e);
    lemma_varint_scan_encoded(v, e + rest, 0);
}

proof fn lemma_bit_length_halves(v: nat, k: nat)
    requires
        v >= pow2_of(k),
    ensures
        bit_length(v) == k + bit_length(v / pow2_of(k)),
    decreases k,
{
    if k > 0 {
        lemma_pow2_of_positive((k - 1) as nat);
        assert(v / 2 >= pow2_of((k - 1) as nat)) by {
            assert(pow2_of(k) == 2 * pow2_of((k - 1) as nat));
        }
        lemma_bit_length_halves(v / 2, (k - 1) as nat);
        lemma_div_denominator(v as int, 2, pow2_of((k - 1) as nat) as int);
    } else {
        assert(v / 1 == v);
    }
}

/// 2 to the power `n`.
spec fn pow2_of(n: nat) -> nat
    decreases n,
{
    if n == 0 {
        1
    } else {
        2 * pow2_of((n - 1) as nat)
    }
}

proof fn lemma_pow2_of_positive(n: nat)
    ensures
        pow2_of(n) >= 1,
    decreases n,
{
    if n > 0 {
        lemma_pow2_of_positive((n - 1) as nat);
    }
}

proof fn lemma_bit_length_bound(v: nat, k: nat)
    requires
        v < pow2_of(k),
    ensures
        bit_length(v) <= k,
    decreases k,
{
    if k > 0 && v > 0 {
        lemma_bit_length_bound(v / 2, (k - 1) as nat);
    }
}

/// The encoding is minimal: it takes one byte for every started group of
/// seven significant bits, and one byte for zero.
pub proof fn lemma_varint_len_minimal(v: u64)
    ensures
        varint_bytes(v as nat).len() == if v == 0 { 1 } else { (bit_length(v as nat) + 6) / 7 },
    decreases v,
{
    reveal_with_fuel(pow2_of, 8);
    if v >= 128 {
        lemma_varint_len_minimal((v / 128) as u64);
        lemma_bit_length_halves(v as nat, 7);
    } else if v > 0 {
        lemma_bit_length_bound(v as nat, 7);
    }
}

/// Appends the encoding of `x` to `out` and returns its length.
pub fn encode_var_uint(out: &mut Vec<u8>, x: u64) -> (n: usize)
    ensures
        final(out)@ == old(out)@ + varint_bytes(x as nat),
        n == varint_bytes(x as nat).len(),
        1 <= n <= MAX_VARINT_LEN64,
{
    proof {
        lemma_varint_bytes_u64(x);
    }
    let mut i: usize = 0;
    let mut v: u64 = x;
    while v >= 0x80
        invariant
            old(out)@ + varint_bytes(x as nat) == out@ + varint_bytes(v as nat),
            varint_bytes(x as nat).len() == i + varint_bytes(v as nat).len(),
            varint_bytes(x as nat).len() <= 10,
        decreases v,
    {
        let b: u8 = (v as u8) | 0x80;
        assert(b == (v % 128 + 128) as u8) by (bit_vector)
            requires
                b == (v as u8) | 0x80,
        ;
        let ghost prev = out@;
        out.push(b);
        assert(varint_bytes(v as nat) == seq![b] + varint_bytes((v / 128) as nat));
        assert(prev + (seq![b] + varint_bytes((v / 128) as nat)) =~= out@ + varint_bytes((v / 128) as nat));
        assert(v >> 7 == v / 128) by (bit_vector);
        v = v >> 7;
        i += 1;
    }
    let ghost prev = out@;
    out.push(v as u8);
    assert(prev + varint_bytes(v as nat) =~= out@);
    i + 1
}

/// Decodes a varint from `s` at `pos`, reporting the outcome of
/// `varint_parse` on the bytes from `pos` on.
pub fn parse_var_uint(s: &[u8], pos: usize) -> (r: ParseResult<u64>)
    requires
        pos <= s@.len(),
    ensures
        reports(r, pos as int, varint_parse(s@.skip(pos as int))),
        r matches Ok(Some((_, q))) ==> pos < q <= s@.len(),
        r matches Err((_, q)) ==> pos < q <= s@.len(),
{
    let ghost t = s@.skip(pos as int);
    let len = s.len();
    let avail = len - pos;
    let mut result: u64 = 0;
    let mut mult: u64 = 1;
    let mut i: usize = 0;
    proof {
        lemma_pow128_small();
        assert(t.take(0) =~= Seq::<u8>::empty());
    }
    loop
        invariant
            i <= 9,
            avail == t.len(),
            avail == len - pos,
            len == s@.len(),
            t == s@.skip(pos as int),
            pos <= s@.len(),
            varint_parse(t) == varint_scan(t, i as nat),
            result == varint_value(t.take(i as int)),
            i < 10 ==> mult == pow128(i as nat),
            result < pow128(i as nat),
            pow128(9) == 0x8000000000000000,
        decreases 10 - i,
    {
        if i >= avail {
            return Ok(None);
        }
        let b = s[pos + i];
        assert(b == t[i as int]);
        proof {
            lemma_varint_value_push(t.take(i as int), b);
            assert(t.take(i as int).push(b) =~= t.take(i + 1));
            assert(pow128((i + 1) as nat) == 128 * pow128(i as nat));
            assert(result + (b % 128) as nat * pow128(i as nat) < pow128((i + 1) as nat)) by (nonlinear_arith)
                requires
                    result < pow128(i as nat),
                    b % 128 < 128,
                    pow128((i + 1) as nat) == 128 * pow128(i as nat),
            ;
        }
        if b < 0x80 {
            if i == 9 && b > 1 {
                return Err((ClickHouseClientError::VarintOverflow, pos + 10));
            }
            if i == 9 {
                assert(result + (b % 128) as nat * pow128(9) < 0x10000000000000000) by (nonlinear_arith)
                    requires
                        result < pow128(9),
                        b <= 1,
                        pow128(9) == 0x8000000000000000,
                ;
            } else {
                proof {
                    lemma_pow128_monotone(i as nat + 1, 9);
                }
            }
            let value = result + (b as u64) * mult;
            return Ok(Some((value, pos + i + 1)));
        }
        if i == 9 {
            assert(varint_scan(t, 10) == Parsed::<u64>::Fail(ClickHouseClientError::VarintOverflow, 10));
            return Err((ClickHouseClientError::VarintOverflow, pos + 10));
        }
        proof {
            lemma_pow128_monotone(i as nat + 1, 9);
        }
        result = result + ((b - 128) as u64) * mult;
        mult = mult * 128;
        i += 1;
    }
}

} // verus!
