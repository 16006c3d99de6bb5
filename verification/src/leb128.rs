//! LEB128 codec: variable-length integer decoding (and encoding, for the
//! round-trip law) at widths 8, 16, 32, 64 and 128, signed and unsigned,
//! plus the signed 33-bit variant used for block types.
//!
//! A width-W encoding consists of group bytes, each contributing its low 7
//! payload bits, little-endian; a byte's high bit says whether another group
//! follows.  At most ceil(W/7) groups are allowed; both minimal and
//! over-long (zero-padded) encodings are accepted within that limit, and the
//! payload is truncated to W bits.  An encoding that needs more groups fails
//! with an encoding error, and an input that ends while groups are still
//! expected yields an incomplete outcome.

use vstd::prelude::*;
use vstd::arithmetic::power2::*;
use vstd::arithmetic::div_mod::*;
use vstd::arithmetic::mul::*;

use crate::error::{DecodeErr, ErrorKind, FailKind, Parsed, Prod, decodes_to, err_matches};

verus! {

/// True when the byte's continuation bit (high bit) is set: another group
/// byte follows it.
pub open spec fn has_cont(b: u8) -> bool {
    b >= 0x80
}

/// The 7 payload bits of a group byte, as an integer.
pub open spec fn group_bits(b: u8) -> int {
    (b % 0x80) as int
}

/// True when bit 6 of the byte is set: the sign bit of the final group of a
/// signed encoding.
pub open spec fn group_sign(b: u8) -> bool {
    (b / 0x40) % 2 == 1
}

/// Greatest number of groups a width-`w` encoding may use: ceil(w/7).
pub open spec fn max_groups(w: nat) -> nat {
    (w + 6) / 7
}

/// Little-endian base-128 value of the payload bits of the group bytes.
pub open spec fn leb_raw(s: Seq<u8>) -> int
    decreases s.len(),
{
    if s.len() == 0 {
        0
    } else {
        group_bits(s[0]) + 128 * leb_raw(s.skip(1))
    }
}

/// Spec-level scan for the end of an encoding that starts at `pos` and may
/// use at most `rem` more group bytes: the position one past the first byte
/// without a continuation bit, an incomplete outcome when the input ends
/// first, or an encoding failure when the group limit is reached first.
pub open spec fn leb_end(s: Seq<u8>, pos: int, rem: nat) -> Parsed<()>
    decreases rem,
{
    if pos >= s.len() {
        Parsed::Incomplete
    } else if !has_cont(s[pos]) {
        Parsed::Found { v: (), end: pos + 1 }
    } else if rem <= 1 {
        Parsed::Fail { kind: FailKind::Encoding }
    } else {
        leb_end(s, pos + 1, (rem - 1) as nat)
    }
}

/// The unsigned width-`w` value decoded at `pos`: the base-128 payload of
/// the groups, truncated to `w` bits.
pub open spec fn spec_leb_unsigned(s: Seq<u8>, pos: int, w: nat) -> Parsed<int> {
    match leb_end(s, pos, max_groups(w)) {
        Parsed::Found { v: _, end } => Parsed::Found {
            v: leb_raw(s.subrange(pos, end)) % pow2(w) as int,
            end,
        },
        Parsed::Incomplete => Parsed::Incomplete,
        Parsed::Fail { kind } => Parsed::Fail { kind },
    }
}

/// Interpret `v` as a two's complement value of `w` bits: the unique integer
/// congruent to `v` modulo 2^w that lies in [-2^(w-1), 2^(w-1)).
pub open spec fn to_signed(v: int, w: nat) -> int
    recommends
        w >= 1,
{
    let m = pow2(w) as int;
    let u = v % m;
    if u >= m / 2 {
        u - m
    } else {
        u
    }
}

/// The signed value denoted by the group bytes `s` at width `w`: the raw
/// payload, sign-extended from its own group count, then truncated to `w`
/// bits as a two's complement value.
pub open spec fn sleb_value(s: Seq<u8>, w: nat) -> int
    recommends
        s.len() >= 1,
        w >= 1,
{
    let raw = leb_raw(s);
    let vs = if group_sign(s.last()) {
        raw - pow2(7 * s.len()) as int
    } else {
        raw
    };
    to_signed(vs, w)
}

/// The signed width-`w` value decoded at `pos`.
pub open spec fn spec_leb_signed(s: Seq<u8>, pos: int, w: nat) -> Parsed<int> {
    match leb_end(s, pos, max_groups(w)) {
        Parsed::Found { v: _, end } => Parsed::Found {
            v: sleb_value(s.subrange(pos, end), w),
            end,
        },
        Parsed::Incomplete => Parsed::Incomplete,
        Parsed::Fail { kind } => Parsed::Fail { kind },
    }
}

/// The payload of `n` groups is below 2^(7n), and never negative.
pub proof fn lemma_leb_raw_bound(s: Seq<u8>)
    ensures
        0 <= leb_raw(s) < pow2(7 * s.len()),
    decreases s.len(),
{
    if s.len() == 0 {
        lemma_pow2_pos(0);
        assert(pow2(0) == 1) by {
            lemma2_to64();
        }
    } else {
        lemma_leb_raw_bound(s.skip(1));
        lemma_pow2_adds(7, 7 * (s.len() - 1) as nat);
        assert(pow2(7) == 128) by {
            lemma2_to64();
        }
        assert(7 * s.len() == 7 + 7 * (s.len() - 1));
        assert(leb_raw(s) == group_bits(s[0]) + 128 * leb_raw(s.skip(1)));
        assert(128 * leb_raw(s.skip(1)) <= 128 * (pow2(7 * (s.len() - 1) as nat) - 1))
            by {
            lemma_mul_inequality(
                leb_raw(s.skip(1)),
                pow2(7 * (s.len() - 1) as nat) - 1,
                128,
            );
        }
    }
}

/// Executable scan for the end of an encoding: mirrors [`leb_end`].
fn leb_scan(input: &[u8], pos: usize, max: usize, prod: Prod) -> (r: Result<
    usize,
    DecodeErr,
>)
    requires
        pos <= input@.len(),
        max >= 1,
    ensures
        ({
            let sh = leb_end(input@, pos as int, max as nat);
            match r {
                Ok(end) => {
                    &&& sh == (Parsed::Found { v: (), end: end as int })
                    &&& pos < end <= input@.len()
                    &&& end - pos <= max
                },
                Err(e) => err_matches::<()>(e, sh, prod, pos),
            }
        }),
{
    let mut i: usize = pos;
    loop
        invariant
            pos <= i <= input@.len(),
            i - pos < max,
            pos <= input@.len(),
            max >= 1,
            leb_end(input@, pos as int, max as nat) == leb_end(
                input@,
                i as int,
                (max - (i - pos)) as nat,
            ),
        decreases input@.len() - i,
    {
        if i >= input.len() {
            return Err(DecodeErr::new(ErrorKind::Incomplete, prod, pos));
        }
        let b = input[i];
        if b < 0x80 {
            return Ok(i + 1);
        }
        if i - pos == max - 1 {
            return Err(DecodeErr::new(ErrorKind::Encoding, prod, pos));
        }
        i = i + 1;
    }
}

/// Executable power of two below 2^128.
fn pow2_exec(e: u32) -> (r: u128)
    requires
        e < 128,
    ensures
        r as int == pow2(e as nat),
{
    let mut r: u128 = 1;
    let mut i: u32 = 0;
    proof {
        lemma_pow2_pos(0);
        assert(pow2(0) == 1) by {
            lemma2_to64();
        }
    }
    while i < e
        invariant
            0 <= i <= e < 128,
            r as int == pow2(i as nat),
        decreases e - i,
    {
        proof {
            lemma_pow2_strictly_increases(i as nat, 128);
            lemma_pow2_adds(i as nat, 1);
            assert(pow2(1) == 2) by {
                lemma2_to64();
            }
            lemma_pow2_u128_fits((i + 1) as nat);
        }
        r = r * 2;
        i = i + 1;
    }
    r
}

/// 2^e fits in a `u128` for e up to 127.
proof fn lemma_pow2_u128_fits(e: nat)
    requires
        e <= 128,
    ensures
        e < 128 ==> pow2(e) <= u128::MAX,
        pow2(128) == 0x100000000000000000000000000000000,
{
    lemma_pow2_adds(64, 64);
    assert(pow2(64) == 0x10000000000000000) by {
        lemma2_to64_rest();
    }
    if e < 128 {
        lemma_pow2_strictly_increases(e, 128);
    }
}

/// Executable base-128 accumulation of the payload bits of the group bytes
/// `input[start..end]`, truncated to 128 bits.
fn leb_value(input: &[u8], start: usize, end: usize) -> (r: u128)
    requires
        start < end <= input@.len(),
        end - start <= 19,
    ensures
        r as int == leb_raw(input@.subrange(start as int, end as int)) % pow2(128) as int,
{
    let ghost s = input@;
    let mut acc: u128 = 0;
    let mut i: usize = end;
    proof {
        lemma_pow2_pos(0);
        assert(pow2(0) == 1) by {
            lemma2_to64();
        }
    }
    while i > start + 1
        invariant
            start + 1 <= i <= end <= input@.len(),
            end - start <= 19,
            acc as int == leb_raw(input@.subrange(i as int, end as int)),
            (acc as int) < pow2(7 * (end - i) as nat),
        decreases i,
    {
        i = i - 1;
        let b = input[i];
        proof {
            lemma_leb_step(input@, i as int, end as int);
            lemma_pow2_adds(7, 7 * (end - i - 1) as nat);
            assert(pow2(7) == 128) by {
                lemma2_to64();
            }
            // the new accumulator stays below 2^(7 * (end - i))
            lemma_mul_inequality(
                leb_raw(input@.subrange(i + 1, end as int)),
                pow2(7 * (end - i - 1) as nat) - 1,
                128,
            );
            lemma_pow2_strictly_increases(7 * (end - i) as nat, 127);
            lemma_pow2_u128_fits(127);
        }
        acc = (b % 0x80) as u128 + 128 * acc;
    }
    // final group: input[start]; combine modulo 2^128
    let b = input[start];
    let g: u128 = (b % 0x80) as u128;
    let p121 = pow2_exec(121);
    proof {
        lemma_pow2_pos(121);
    }
    let accm = acc % p121;
    proof {
        lemma_leb_step(input@, start as int, end as int);
        lemma_final_combine(
            group_bits(b),
            leb_raw(input@.subrange(start as int + 1, end as int)),
            acc as int,
        );
        // the combined value fits: 128 * accm <= 2^128 - 128
        lemma_mod_bound(acc as int, p121 as int);
        lemma_mul_inequality(accm as int, p121 as int - 1, 128);
        lemma_pow2_adds(7, 121);
        assert(pow2(7) == 128) by {
            lemma2_to64();
        }
        lemma_pow2_u128_fits(128);
        assert(128 * (p121 as int - 1) == 128 * p121 as int - 128) by {
            lemma_mul_is_distributive_sub(128, p121 as int, 1);
        }
    }
    g + 128 * accm
}

/// Unfolds `leb_raw` one step on a subrange: the first group plus 128 times
/// the payload of the rest.
proof fn lemma_leb_step(s: Seq<u8>, i: int, end: int)
    requires
        0 <= i < end <= s.len(),
    ensures
        leb_raw(s.subrange(i, end)) == group_bits(s[i]) + 128 * leb_raw(
            s.subrange(i + 1, end),
        ),
{
    assert(s.subrange(i, end).skip(1) =~= s.subrange(i + 1, end));
    assert(s.subrange(i, end)[0] == s[i]);
}

/// Modular arithmetic for the final accumulation step: adding the first
/// group below the rest, with the rest reduced modulo 2^121, equals the
/// whole payload modulo 2^128.
proof fn lemma_final_combine(g: int, rest: int, accr: int)
    requires
        0 <= g < 128,
        0 <= rest,
        accr == rest % pow2(128) as int || accr == rest,
        0 <= accr,
    ensures
        g + 128 * (accr % pow2(121) as int) == (g + 128 * rest) % pow2(128) as int,
{
    lemma_pow2_pos(121);
    lemma_pow2_pos(128);
    lemma_pow2_adds(7, 121);
    assert(pow2(7) == 128) by {
        lemma2_to64();
    }
    let m121 = pow2(121) as int;
    let m128 = pow2(128) as int;
    // reduce accr % 2^121 to rest % 2^121
    if accr != rest {
        // accr == rest % 2^128; (rest % 2^128) % 2^121 == rest % 2^121
        lemma_mod_mod(rest, m121, 128);
        assert(m121 * 128 == m128) by {
            lemma_mul_is_commutative(m121, 128);
        }
    }
    assert(accr % m121 == rest % m121);
    // 128 * (rest % 2^121) == (128 * rest) % 2^128
    lemma_truncate_middle(rest, 128, m121);
    assert(128 * m121 == m128);
    assert(128 * (rest % m121) == (128 * rest) % m128);
    // add g below the multiple of 128
    lemma_mod_bound(128 * rest, m128);
    lemma_add_mod_noop_right(g, 128 * rest, m128);
    assert((g + (128 * rest) % m128) % m128 == (g + 128 * rest) % m128);
    lemma_mod_bound(rest, m121);
    lemma_mul_inequality(rest % m121, m121 - 1, 128);
    lemma_small_mod((g + 128 * (rest % m121)) as nat, m128 as nat);
}

/// Concrete powers of two used by the width instantiations.
proof fn lemma_pow2_values()
    ensures
        pow2(0) == 1,
        pow2(1) == 2,
        pow2(6) == 0x40,
        pow2(7) == 0x80,
        pow2(8) == 0x100,
        pow2(15) == 0x8000,
        pow2(16) == 0x10000,
        pow2(31) == 0x80000000,
        pow2(32) == 0x100000000,
        pow2(33) == 0x200000000,
        pow2(63) == 0x8000000000000000,
        pow2(64) == 0x10000000000000000,
        pow2(127) == 0x80000000000000000000000000000000,
        pow2(128) == 0x100000000000000000000000000000000,
{
    lemma2_to64();
    lemma2_to64_rest();
    lemma_pow2_adds(64, 63);
    lemma_pow2_adds(64, 64);
}

/// Combining one group below a scaled payload: arithmetic used by the
/// terminal steps of the signed encoder's negative branch.
proof fn lemma_group_combine(a: int, b: int, p: int)
    requires
        a + b == 128,
    ensures
        a * p + b * p == 128 * p,
{
    lemma_mul_is_distributive_add_other_way(p, a, b);
}

/// Executable unsigned decoder at width `w`: scans for the end of the
/// encoding, then accumulates the payload, truncated to `w` bits.
fn leb_unsigned(input: &[u8], pos: usize, w: u32, prod: Prod) -> (r: Result<
    (u128, usize),
    DecodeErr,
>)
    requires
        pos <= input@.len(),
        1 <= w <= 128,
    ensures
        ({
            let sp = spec_leb_unsigned(input@, pos as int, w as nat);
            match r {
                Ok((v, end)) => {
                    &&& sp == (Parsed::Found { v: v as int, end: end as int })
                    &&& pos < end <= input@.len()
                },
                Err(e) => err_matches::<int>(e, sp, prod, pos),
            }
        }),
{
    let max: usize = (w as usize + 6) / 7;
    let end = match leb_scan(input, pos, max, prod) {
        Ok(end) => end,
        Err(e) => {
            return Err(e);
        },
    };
    let acc = leb_value(input, pos, end);
    let ghost raw = leb_raw(input@.subrange(pos as int, end as int));
    if w < 128 {
        let p = pow2_exec(w);
        proof {
            lemma_pow2_pos(w as nat);
            lemma_pow2_pos((128 - w) as nat);
            lemma_pow2_adds(w as nat, (128 - w) as nat);
            lemma_leb_raw_bound(input@.subrange(pos as int, end as int));
            lemma_mod_mod(raw, pow2(w as nat) as int, pow2((128 - w) as nat) as int);
        }
        Ok((acc % p, end))
    } else {
        proof {
            lemma_leb_raw_bound(input@.subrange(pos as int, end as int));
        }
        Ok((acc, end))
    }
}

/// Executable signed decoder at width `w`: decodes the payload, sign-extends
/// it from its own group count, and truncates to a `w`-bit two's complement
/// value.
fn leb_signed(input: &[u8], pos: usize, w: u32, prod: Prod) -> (r: Result<
    (i128, usize),
    DecodeErr,
>)
    requires
        pos <= input@.len(),
        2 <= w <= 128,
    ensures
        ({
            let sp = spec_leb_signed(input@, pos as int, w as nat);
            match r {
                Ok((v, end)) => {
                    &&& sp == (Parsed::Found { v: v as int, end: end as int })
                    &&& pos < end <= input@.len()
                },
                Err(e) => err_matches::<int>(e, sp, prod, pos),
            }
        }),
{
    let max: usize = (w as usize + 6) / 7;
    let end = match leb_scan(input, pos, max, prod) {
        Ok(end) => end,
        Err(e) => {
            return Err(e);
        },
    };
    let acc = leb_value(input, pos, end);
    let k: usize = end - pos;
    let last = input[end - 1];
    let ghost groups = input@.subrange(pos as int, end as int);
    let ghost raw = leb_raw(groups);
    let ghost m = pow2(w as nat) as int;
    proof {
        assert(groups.last() == input@[end - 1]);
        lemma_leb_raw_bound(groups);
        lemma_pow2_pos(w as nat);
    }

    // t == raw % 2^w
    let t: u128 = if w < 128 {
        let p = pow2_exec(w);
        proof {
            lemma_pow2_pos((128 - w) as nat);
            lemma_pow2_adds(w as nat, (128 - w) as nat);
            lemma_mod_mod(raw, pow2(w as nat) as int, pow2((128 - w) as nat) as int);
        }
        acc % p
    } else {
        acc
    };
    proof {
        lemma_mod_bound(raw, m);
    }

    // sign-extend when bit 6 of the final group is set and the groups cover
    // fewer than w bits
    let sign = (last / 0x40) % 2 == 1;
    let ghost vs = if group_sign(groups.last()) {
        raw - pow2(7 * groups.len()) as int
    } else {
        raw
    };
    let mut t2: u128 = t;
    if sign && 7 * k < w as usize {
        let p7k = pow2_exec((7 * k) as u32);
        proof {
            assert(7 * k as int == 7 * groups.len());
            lemma_pow2_strictly_increases((7 * k) as nat, w as nat);
            // raw < 2^(7k) < 2^w, so t == raw exactly
            assert(raw < pow2((7 * k) as nat));
            lemma_small_mod(raw as nat, m as nat);
            assert(t as int == raw);
            // vs % 2^w == vs + 2^w == raw + (2^w - 2^(7k))
            lemma_mod_add_multiples_vanish(vs, m);
            lemma_small_mod((vs + m) as nat, m as nat);
            assert(vs % m == raw + m - pow2((7 * k) as nat));
            lemma_pow2_u128_fits(128);
        }
        let ext: u128 = if w < 128 {
            pow2_exec(w) - p7k
        } else {
            (u128::MAX - p7k) + 1
        };
        t2 = t + ext;
        proof {
            assert(t2 as int == vs % m);
        }
    } else {
        proof {
            if sign {
                // 7k >= w: the subtracted 2^(7k) is a multiple of 2^w
                lemma_pow2_adds(w as nat, (7 * k - w) as nat);
                lemma_pow2_pos((7 * k - w) as nat);
                lemma_mod_multiples_vanish(-(pow2((7 * k - w) as nat) as int), raw, m);
                assert(m * (-(pow2((7 * k - w) as nat) as int)) + raw == vs) by {
                    lemma_mul_is_commutative(m, -(pow2((7 * k - w) as nat) as int));
                    lemma_mul_unary_negation(m, pow2((7 * k - w) as nat) as int);
                }
                assert(t2 as int == vs % m);
            } else {
                assert(t2 as int == vs % m);
            }
        }
    }
    proof {
        assert(t2 as int == vs % m);
        lemma_mod_bound(vs, m);
    }

    // convert the w-bit value to two's complement
    let half = pow2_exec(w - 1);
    proof {
        lemma_pow2_adds(1, (w - 1) as nat);
        lemma_pow2_values();
        assert(m / 2 == pow2((w - 1) as nat));
    }
    let v: i128 = if t2 < half {
        t2 as i128
    } else {
        if w < 128 {
            let p = pow2_exec(w);
            -((p - t2) as i128)
        } else {
            let diffm1 = u128::MAX - t2;
            -(diffm1 as i128) - 1
        }
    };
    proof {
        assert(v as int == sleb_value(groups, w as nat));
    }
    Ok((v, end))
}

/// The unsigned spec outcome's value lies below 2^w.
pub proof fn lemma_spec_leb_unsigned_range(s: Seq<u8>, pos: int, w: nat, v: int, end: int)
    requires
        spec_leb_unsigned(s, pos, w) == (Parsed::Found { v, end }),
    ensures
        0 <= v < pow2(w),
{
    lemma_pow2_pos(w);
    match leb_end(s, pos, max_groups(w)) {
        Parsed::Found { v: _, end: e2 } => {
            lemma_mod_bound(leb_raw(s.subrange(pos, e2)), pow2(w) as int);
        },
        _ => {},
    }
}

/// Greatest number of bytes an LEB128 encoding of a `bits`-wide integer may
/// use: ceil(bits/7).
pub fn leb128_size(bits: usize) -> (r: usize)
    requires
        bits + 6 <= usize::MAX,
    ensures
        r == max_groups(bits as nat),
{
    (bits + 6) / 7
}

/// Unsigned 8-bit outcome at `pos`.
pub open spec fn spec_leb_u8(s: Seq<u8>, pos: int) -> Parsed<u8> {
    match spec_leb_unsigned(s, pos, 8) {
        Parsed::Found { v, end } => Parsed::Found { v: v as u8, end },
        Parsed::Incomplete => Parsed::Incomplete,
        Parsed::Fail { kind } => Parsed::Fail { kind },
    }
}

/// Unsigned 16-bit outcome at `pos`.
pub open spec fn spec_leb_u16(s: Seq<u8>, pos: int) -> Parsed<u16> {
    match spec_leb_unsigned(s, pos, 16) {
        Parsed::Found { v, end } => Parsed::Found { v: v as u16, end },
        Parsed::Incomplete => Parsed::Incomplete,
        Parsed::Fail { kind } => Parsed::Fail { kind },
    }
}

/// Unsigned 32-bit outcome at `pos`.
pub open spec fn spec_leb_u32(s: Seq<u8>, pos: int) -> Parsed<u32> {
    match spec_leb_unsigned(s, pos, 32) {
        Parsed::Found { v, end } => Parsed::Found { v: v as u32, end },
        Parsed::Incomplete => Parsed::Incomplete,
        Parsed::Fail { kind } => Parsed::Fail { kind },
    }
}

/// Unsigned 64-bit outcome at `pos`.
pub open spec fn spec_leb_u64(s: Seq<u8>, pos: int) -> Parsed<u64> {
    match spec_leb_unsigned(s, pos, 64) {
        Parsed::Found { v, end } => Parsed::Found { v: v as u64, end },
        Parsed::Incomplete => Parsed::Incomplete,
        Parsed::Fail { kind } => Parsed::Fail { kind },
    }
}

/// Unsigned 128-bit outcome at `pos`.
pub open spec fn spec_leb_u128(s: Seq<u8>, pos: int) -> Parsed<u128> {
    match spec_leb_unsigned(s, pos, 128) {
        Parsed::Found { v, end } => Parsed::Found { v: v as u128, end },
        Parsed::Incomplete => Parsed::Incomplete,
        Parsed::Fail { kind } => Parsed::Fail { kind },
    }
}

/// Signed 8-bit outcome at `pos`.
pub open spec fn spec_leb_i8(s: Seq<u8>, pos: int) -> Parsed<i8> {
    match spec_leb_signed(s, pos, 8) {
        Parsed::Found { v, end } => Parsed::Found { v: v as i8, end },
        Parsed::Incomplete => Parsed::Incomplete,
        Parsed::Fail { kind } => Parsed::Fail { kind },
    }
}

/// Signed 16-bit outcome at `pos`.
pub open spec fn spec_leb_i16(s: Seq<u8>, pos: int) -> Parsed<i16> {
    match spec_leb_signed(s, pos, 16) {
        Parsed::Found { v, end } => Parsed::Found { v: v as i16, end },
        Parsed::Incomplete => Parsed::Incomplete,
        Parsed::Fail { kind } => Parsed::Fail { kind },
    }
}

/// Signed 32-bit outcome at `pos`.
pub open spec fn spec_leb_i32(s: Seq<u8>, pos: int) -> Parsed<i32> {
    match spec_leb_signed(s, pos, 32) {
        Parsed::Found { v, end } => Parsed::Found { v: v as i32, end },
        Parsed::Incomplete => Parsed::Incomplete,
        Parsed::Fail { kind } => Parsed::Fail { kind },
    }
}

/// Signed 64-bit outcome at `pos`.
pub open spec fn spec_leb_i64(s: Seq<u8>, pos: int) -> Parsed<i64> {
    match spec_leb_signed(s, pos, 64) {
        Parsed::Found { v, end } => Parsed::Found { v: v as i64, end },
        Parsed::Incomplete => Parsed::Incomplete,
        Parsed::Fail { kind } => Parsed::Fail { kind },
    }
}

/// Signed 128-bit outcome at `pos`.
pub open spec fn spec_leb_i128(s: Seq<u8>, pos: int) -> Parsed<i128> {
    match spec_leb_signed(s, pos, 128) {
        Parsed::Found { v, end } => Parsed::Found { v: v as i128, end },
        Parsed::Incomplete => Parsed::Incomplete,
        Parsed::Fail { kind } => Parsed::Fail { kind },
    }
}

/// Signed 33-bit outcome at `pos`, carried in an `i64`; used for block-type
/// discrimination.
pub open spec fn spec_leb_i33(s: Seq<u8>, pos: int) -> Parsed<i64> {
    match spec_leb_signed(s, pos, 33) {
        Parsed::Found { v, end } => Parsed::Found { v: v as i64, end },
        Parsed::Incomplete => Parsed::Incomplete,
        Parsed::Fail { kind } => Parsed::Fail { kind },
    }
}

/// Decodes an LEB128-encoded number that fits in a `u8`.
pub fn leb128_u8(input: &[u8], pos: usize) -> (r: Result<(u8, usize), DecodeErr>)
    requires
        pos <= input@.len(),
    ensures
        decodes_to(r, spec_leb_u8(input@, pos as int), Prod::LebU8, pos),
        r matches Ok((v, end)) ==> pos < end <= input@.len(),
{
    match leb_unsigned(input, pos, 8, Prod::LebU8) {
        Ok((v, end)) => {
            proof {
                lemma_spec_leb_unsigned_range(input@, pos as int, 8, v as int, end as int);
                lemma_pow2_values();
            }
            Ok((v as u8, end))
        },
        Err(e) => Err(e),
    }
}

/// Decodes an LEB128-encoded number that fits in a `u16`.
pub fn leb128_u16(input: &[u8], pos: usize) -> (r: Result<(u16, usize), DecodeErr>)
    requires
        pos <= input@.len(),
    ensures
        decodes_to(r, spec_leb_u16(input@, pos as int), Prod::LebU16, pos),
        r matches Ok((v, end)) ==> pos < end <= input@.len(),
{
    match leb_unsigned(input, pos, 16, Prod::LebU16) {
        Ok((v, end)) => {
            proof {
                lemma_spec_leb_unsigned_range(input@, pos as int, 16, v as int, end as int);
                lemma_pow2_values();
            }
            Ok((v as u16, end))
        },
        Err(e) => Err(e),
    }
}

/// Decodes an LEB128-encoded number that fits in a `u32`.
pub fn leb128_u32(input: &[u8], pos: usize) -> (r: Result<(u32, usize), DecodeErr>)
    requires
        pos <= input@.len(),
    ensures
        decodes_to(r, spec_leb_u32(input@, pos as int), Prod::LebU32, pos),
        r matches Ok((v, end)) ==> pos < end <= input@.len(),
{
    match leb_unsigned(input, pos, 32, Prod::LebU32) {
        Ok((v, end)) => {
            proof {
                lemma_spec_leb_unsigned_range(input@, pos as int, 32, v as int, end as int);
                lemma_pow2_values();
            }
            Ok((v as u32, end))
        },
        Err(e) => Err(e),
    }
}

/// Decodes an LEB128-encoded number that fits in a `u64`.
pub fn leb128_u64(input: &[u8], pos: usize) -> (r: Result<(u64, usize), DecodeErr>)
    requires
        pos <= input@.len(),
    ensures
        decodes_to(r, spec_leb_u64(input@, pos as int), Prod::LebU64, pos),
        r matches Ok((v, end)) ==> pos < end <= input@.len(),
{
    match leb_unsigned(input, pos, 64, Prod::LebU64) {
        Ok((v, end)) => {
            proof {
                lemma_spec_leb_unsigned_range(input@, pos as int, 64, v as int, end as int);
                lemma_pow2_values();
            }
            Ok((v as u64, end))
        },
        Err(e) => Err(e),
    }
}

/// Decodes an LEB128-encoded number that fits in a `u128`.
pub fn leb128_u128(input: &[u8], pos: usize) -> (r: Result<(u128, usize), DecodeErr>)
    requires
        pos <= input@.len(),
    ensures
        decodes_to(r, spec_leb_u128(input@, pos as int), Prod::LebU128, pos),
        r matches Ok((v, end)) ==> pos < end <= input@.len(),
{
    match leb_unsigned(input, pos, 128, Prod::LebU128) {
        Ok((v, end)) => {
            proof {
                lemma_spec_leb_unsigned_range(input@, pos as int, 128, v as int, end as int);
                lemma_pow2_values();
            }
            Ok((v, end))
        },
        Err(e) => Err(e),
    }
}

/// Decodes an LEB128-encoded number that fits in an `i8`.
pub fn leb128_i8(input: &[u8], pos: usize) -> (r: Result<(i8, usize), DecodeErr>)
    requires
        pos <= input@.len(),
    ensures
        decodes_to(r, spec_leb_i8(input@, pos as int), Prod::LebI8, pos),
        r matches Ok((v, end)) ==> pos < end <= input@.len(),
{
    match leb_signed(input, pos, 8, Prod::LebI8) {
        Ok((v, end)) => {
            proof {
                lemma_spec_leb_signed_range(input@, pos as int, 8, v as int, end as int);
                lemma_pow2_values();
            }
            Ok((v as i8, end))
        },
        Err(e) => Err(e),
    }
}

/// Decodes an LEB128-encoded number that fits in an `i16`.
pub fn leb128_i16(input: &[u8], pos: usize) -> (r: Result<(i16, usize), DecodeErr>)
    requires
        pos <= input@.len(),
    ensures
        decodes_to(r, spec_leb_i16(input@, pos as int), Prod::LebI16, pos),
        r matches Ok((v, end)) ==> pos < end <= input@.len(),
{
    match leb_signed(input, pos, 16, Prod::LebI16) {
        Ok((v, end)) => {
            proof {
                lemma_spec_leb_signed_range(input@, pos as int, 16, v as int, end as int);
                lemma_pow2_values();
            }
            Ok((v as i16, end))
        },
        Err(e) => Err(e),
    }
}

/// Decodes an LEB128-encoded number that fits in an `i32`.
pub fn leb128_i32(input: &[u8], pos: usize) -> (r: Result<(i32, usize), DecodeErr>)
    requires
        pos <= input@.len(),
    ensures
        decodes_to(r, spec_leb_i32(input@, pos as int), Prod::LebI32, pos),
        r matches Ok((v, end)) ==> pos < end <= input@.len(),
{
    match leb_signed(input, pos, 32, Prod::LebI32) {
        Ok((v, end)) => {
            proof {
                lemma_spec_leb_signed_range(input@, pos as int, 32, v as int, end as int);
                lemma_pow2_values();
            }
            Ok((v as i32, end))
        },
        Err(e) => Err(e),
    }
}

/// Decodes an LEB128-encoded number that fits in an `i64`.
pub fn leb128_i64(input: &[u8], pos: usize) -> (r: Result<(i64, usize), DecodeErr>)
    requires
        pos <= input@.len(),
    ensures
        decodes_to(r, spec_leb_i64(input@, pos as int), Prod::LebI64, pos),
        r matches Ok((v, end)) ==> pos < end <= input@.len(),
{
    match leb_signed(input, pos, 64, Prod::LebI64) {
        Ok((v, end)) => {
            proof {
                lemma_spec_leb_signed_range(input@, pos as int, 64, v as int, end as int);
                lemma_pow2_values();
            }
            Ok((v as i64, end))
        },
        Err(e) => Err(e),
    }
}

/// Decodes an LEB128-encoded number that fits in an `i128`.
pub fn leb128_i128(input: &[u8], pos: usize) -> (r: Result<(i128, usize), DecodeErr>)
    requires
        pos <= input@.len(),
    ensures
        decodes_to(r, spec_leb_i128(input@, pos as int), Prod::LebI128, pos),
        r matches Ok((v, end)) ==> pos < end <= input@.len(),
{
    match leb_signed(input, pos, 128, Prod::LebI128) {
        Ok((v, end)) => {
            proof {
                lemma_spec_leb_signed_range(input@, pos as int, 128, v as int, end as int);
                lemma_pow2_values();
            }
            Ok((v, end))
        },
        Err(e) => Err(e),
    }
}

/// Decodes a signed 33-bit LEB128 number into an `i64`; used for block-type
/// discrimination.
pub fn leb128_i33(input: &[u8], pos: usize) -> (r: Result<(i64, usize), DecodeErr>)
    requires
        pos <= input@.len(),
    ensures
        decodes_to(r, spec_leb_i33(input@, pos as int), Prod::LebI33, pos),
        r matches Ok((v, end)) ==> pos < end <= input@.len(),
{
    match leb_signed(input, pos, 33, Prod::LebI33) {
        Ok((v, end)) => {
            proof {
                lemma_spec_leb_signed_range(input@, pos as int, 33, v as int, end as int);
                lemma_pow2_values();
            }
            Ok((v as i64, end))
        },
        Err(e) => Err(e),
    }
}

/// Appending a group at the end adds its payload at the next position.
proof fn lemma_leb_raw_push(s: Seq<u8>, b: u8)
    ensures
        leb_raw(s.push(b)) == leb_raw(s) + group_bits(b) * pow2(7 * s.len()) as int,
    decreases s.len(),
{
    lemma_pow2_values();
    lemma_mul_basics(group_bits(b));
    let t = s.push(b);
    if s.len() == 0 {
        assert(t.skip(1) =~= Seq::<u8>::empty());
        assert(t[0] == b);
        assert(leb_raw(t.skip(1)) == 0);
        assert(leb_raw(t) == group_bits(b));
    } else {
        let p = pow2(7 * (s.len() - 1) as nat) as int;
        assert(t.skip(1) =~= s.skip(1).push(b));
        assert(t[0] == s[0]);
        lemma_leb_raw_push(s.skip(1), b);
        lemma_pow2_adds(7, 7 * (s.len() - 1) as nat);
        assert(pow2(7 * s.len()) as int == 128 * p);
        assert(leb_raw(t) == group_bits(s[0]) + 128 * (leb_raw(s.skip(1)) + group_bits(b) * p));
        assert(128 * (leb_raw(s.skip(1)) + group_bits(b) * p) == 128 * leb_raw(s.skip(1))
            + group_bits(b) * (128 * p)) by {
            lemma_mul_is_distributive_add(128, leb_raw(s.skip(1)), group_bits(b) * p);
            lemma_mul_is_associative(128, group_bits(b), p);
            lemma_mul_is_commutative(128, group_bits(b));
            lemma_mul_is_associative(group_bits(b), 128, p);
        }
    }
}

/// A sequence whose final byte alone lacks the continuation bit scans to its
/// own end, provided it fits in `rem` groups.
proof fn lemma_leb_end_of_shape(s: Seq<u8>, pos: int, rem: nat)
    requires
        0 <= pos < s.len(),
        s.len() - pos <= rem,
        forall|i: int| pos <= i < s.len() - 1 ==> has_cont(s[i]),
        !has_cont(s[s.len() - 1]),
    ensures
        leb_end(s, pos, rem) == (Parsed::Found { v: (), end: s.len() as int }),
    decreases rem,
{
    if pos < s.len() - 1 {
        lemma_leb_end_of_shape(s, pos + 1, (rem - 1) as nat);
    }
}

/// A scan over bytes that all carry the continuation bit fails once the
/// group limit is reached.
proof fn lemma_leb_end_all_cont(s: Seq<u8>, pos: int, rem: nat)
    requires
        0 <= pos,
        rem >= 1,
        pos + rem <= s.len(),
        forall|i: int| pos <= i < pos + rem ==> has_cont(s[i]),
    ensures
        leb_end(s, pos, rem) == (Parsed::<()>::Fail { kind: FailKind::Encoding }),
    decreases rem,
{
    if rem > 1 {
        lemma_leb_end_all_cont(s, pos + 1, (rem - 1) as nat);
    }
}

/// A byte sequence that needs more than ceil(w/7) groups to terminate is
/// rejected at width `w` with an encoding failure, unsigned or signed: the
/// value is never wrapped or truncated into range.
pub proof fn lemma_leb_too_long(s: Seq<u8>, pos: int, w: nat)
    requires
        0 <= pos,
        w >= 1,
        pos + max_groups(w) <= s.len(),
        forall|i: int| pos <= i < pos + max_groups(w) ==> has_cont(s[i]),
    ensures
        spec_leb_unsigned(s, pos, w) == (Parsed::<int>::Fail { kind: FailKind::Encoding }),
        spec_leb_signed(s, pos, w) == (Parsed::<int>::Fail { kind: FailKind::Encoding }),
{
    lemma_leb_end_all_cont(s, pos, max_groups(w));
}

/// Minimal unsigned LEB128 encoding of `x` at width `w`.  Decoding the
/// result at width `w` yields `x` back and consumes the whole sequence: the
/// round-trip law for unsigned values, stated as this function's contract.
#[verifier::rlimit(50)]
pub fn leb128_encode_unsigned(x: u128, w: u32) -> (out: Vec<u8>)
    requires
        1 <= w <= 128,
        (x as int) < pow2(w as nat),
    ensures
        spec_leb_unsigned(out@, 0, w as nat) == (Parsed::Found {
            v: x as int,
            end: out@.len() as int,
        }),
        1 <= out@.len() <= max_groups(w as nat),
{
    let ghost xg = x as int;
    let mut out: Vec<u8> = Vec::new();
    let mut rem: u128 = x;
    proof {
        lemma_pow2_values();
        lemma_div_basics(xg);
        assert(leb_raw(out@) == 0);
        assert((rem as int) * pow2(0) as int == xg) by {
            lemma_mul_basics(rem as int);
        }
    }
    #[verifier::loop_isolation(false)]
    loop
        invariant
            1 <= w <= 128,
            xg == x as int,
            0 <= xg < pow2(w as nat),
            forall|i: int| 0 <= i < out@.len() ==> has_cont(out@[i]),
            leb_raw(out@) + (rem as int) * pow2(7 * out@.len()) as int == xg,
            rem as int == xg / pow2(7 * out@.len()) as int,
            out@.len() >= 1 ==> xg >= pow2(7 * out@.len()) as int,
            out@.len() <= 19,
        decreases rem,
    {
        proof {
            lemma_pow2_pos(7 * out@.len());
            if out@.len() >= 19 {
                // impossible: xg >= 2^133 contradicts xg < 2^w <= 2^128
                lemma_pow2_strictly_increases(w as nat, 7 * out@.len());
            }
        }
        let ghost j = out@.len();
        let ghost rem0 = rem as int;
        let b: u8 = (rem % 128) as u8;
        rem = rem / 128;
        proof {
            lemma_fundamental_div_mod(rem0, 128);
            lemma_leb_raw_push(out@, b);
            lemma_leb_raw_push(out@, (b + 128) as u8);
            lemma_pow2_adds(7 * j, 7);
            lemma_div_denominator(xg, pow2(7 * j) as int, 128);
            // (b + 128 * rem') * 2^(7j) == b * 2^(7j) + rem' * (2^(7j) * 128)
            lemma_mul_is_distributive_add_other_way(
                pow2(7 * j) as int,
                b as int,
                128 * (rem as int),
            );
            lemma_mul_is_associative(128, rem as int, pow2(7 * j) as int);
            lemma_mul_is_commutative(128, pow2(7 * j) as int);
            lemma_mul_is_associative(rem as int, 128, pow2(7 * j) as int);
            lemma_mul_is_commutative(rem as int, 128 * pow2(7 * j) as int);
            lemma_mul_is_commutative(rem as int, pow2(7 * j + 7) as nat as int);
        }
        if rem == 0 {
            out.push(b);
            proof {
                // the whole payload is x, and the shape scans to the end
                assert(leb_raw(out@) == xg);
                lemma_small_mod(xg as nat, pow2(w as nat) as nat);
                assert(out@.len() <= max_groups(w as nat)) by {
                    if out@.len() >= 2 {
                        // x >= 2^(7(n-1)) and x < 2^w force 7(n-1) < w
                        if 7 * (out@.len() - 1) >= w as nat {
                            lemma_pow2_strictly_increases(
                                w as nat,
                                (7 * (out@.len() - 1)) as nat,
                            );
                        }
                        lemma_div_is_ordered(
                            7 * (out@.len() - 1),
                            w as int - 1,
                            7,
                        );
                        lemma_div_by_multiple(out@.len() - 1, 7);
                    }
                }
                lemma_leb_end_of_shape(out@, 0, max_groups(w as nat));
                assert(out@.subrange(0, out@.len() as int) =~= out@);
            }
            return out;
        }
        out.push(b + 128);
        proof {
            assert(group_bits((b + 128) as u8) == b as int);
            assert(has_cont(out@[j as int]));
            assert(rem as int >= 1);
            // x / 2^(7(j+1)) >= 1 means x >= 2^(7(j+1))
            assert(xg >= pow2(7 * out@.len()) as int) by {
                lemma_pow2_pos(7 * out@.len());
                if xg < pow2(7 * out@.len()) as int {
                    lemma_basic_div_specific_divisor(pow2(7 * out@.len()) as int);
                    lemma_small_div_converse(xg, pow2(7 * out@.len()) as int);
                }
            }
        }
    }
}

/// Minimal signed LEB128 encoding of `x` at width `w`.  Decoding the result
/// at width `w` yields `x` back and consumes the whole sequence: the
/// round-trip law for signed values, stated as this function's contract.
#[verifier::rlimit(50)]
pub fn leb128_encode_signed(x: i128, w: u32) -> (out: Vec<u8>)
    requires
        2 <= w <= 128,
        -(pow2((w - 1) as nat) as int) <= x as int && (x as int) < pow2((w - 1) as nat) as int,
    ensures
        spec_leb_signed(out@, 0, w as nat) == (Parsed::Found {
            v: x as int,
            end: out@.len() as int,
        }),
        1 <= out@.len() <= max_groups(w as nat),
{
    let ghost xg = x as int;
    let ghost wn = w as nat;
    proof {
        lemma_pow2_values();
    }
    let mut out: Vec<u8> = Vec::new();
    if x >= 0 {
        let mut rem: u128 = x as u128;
        proof {
            lemma_div_basics(xg);
            lemma_mul_basics(rem as int);
            assert(leb_raw(out@) == 0);
        }
        #[verifier::loop_isolation(false)]
        loop
            invariant
                forall|i: int| 0 <= i < out@.len() ==> has_cont(out@[i]),
                leb_raw(out@) + (rem as int) * pow2(7 * out@.len()) as int == xg,
                rem as int == xg / pow2(7 * out@.len()) as int,
                out@.len() >= 1 ==> xg >= pow2((7 * out@.len() - 1) as nat) as int,
            decreases rem,
        {
            let ghost pre = out@;
            let ghost j = pre.len();
            let ghost p = pow2(7 * j) as int;
            let ghost rem0 = rem as int;
            let b: u8 = (rem % 128) as u8;
            rem = rem / 128;
            proof {
                lemma_pow2_pos(7 * j);
                lemma_fundamental_div_mod(rem0, 128);
                lemma_leb_raw_push(pre, b);
                lemma_leb_raw_push(pre, (b + 128) as u8);
                lemma_pow2_adds(7 * j, 7);
                lemma_div_denominator(xg, p, 128);
                lemma_mul_is_distributive_add_other_way(p, b as int, 128 * (rem as int));
                lemma_mul_is_associative(128, rem as int, p);
                lemma_mul_is_commutative(128, p);
                lemma_mul_is_associative(rem as int, 128, p);
                lemma_mul_is_commutative(rem as int, 128 * p);
                lemma_mul_is_commutative(rem as int, pow2(7 * j + 7) as int);
            }
            if rem == 0 && b < 64 {
                out.push(b);
                proof {
                    assert(leb_raw(out@) == xg);
                    lemma_positive_terminal(out@, xg, wn, j);
                }
                return out;
            }
            out.push(b + 128);
            proof {
                assert(group_bits((b + 128) as u8) == b as int);
                assert(out@ == pre.push((b + 128) as u8));
                assert(xg >= pow2((7 * j + 6) as nat) as int) by {
                    lemma_pow2_adds(6, 7 * j);
                    if rem as int >= 1 {
                        if xg < pow2(7 * j + 7) as int {
                            lemma_pow2_pos(7 * j + 7);
                            lemma_basic_div_specific_divisor(pow2(7 * j + 7) as int);
                            lemma_small_div_converse(xg, pow2(7 * j + 7) as int);
                            assert(false);
                        }
                        lemma_pow2_strictly_increases((7 * j + 6) as nat, 7 * j + 7);
                    } else {
                        // rem == 0 and b >= 64: x == leb_raw(pre) + b * 2^(7j)
                        lemma_leb_raw_bound(pre);
                        lemma_mul_inequality(64, rem0, p);
                    }
                }
            }
            if rem == 0 {
                // b >= 64: the final data group's sign bit is set, so a
                // terminating zero group keeps the decoded value positive
                let ghost mid = out@;
                out.push(0);
                proof {
                    lemma_leb_raw_push(mid, 0);
                    lemma_mul_basics(pow2(7 * mid.len()) as int);
                    assert(leb_raw(out@) == xg);
                    lemma_positive_terminal(out@, xg, wn, (j + 1) as nat);
                }
                return out;
            }
        }
    } else {
        let y: u128 = (-(x + 1)) as u128;
        let ghost yg = y as int;
        let mut uy: u128 = y;
        proof {
            lemma_div_basics(yg);
            lemma_mul_basics(yg + 1);
            assert(leb_raw(out@) == 0);
        }
        #[verifier::loop_isolation(false)]
        loop
            invariant
                forall|i: int| 0 <= i < out@.len() ==> has_cont(out@[i]),
                leb_raw(out@) + yg + 1 == (uy as int + 1) * pow2(7 * out@.len()) as int,
                uy as int == yg / pow2(7 * out@.len()) as int,
                out@.len() >= 1 ==> yg >= pow2((7 * out@.len() - 1) as nat) as int,
            decreases uy,
        {
            let ghost pre = out@;
            let ghost j = pre.len();
            let ghost p = pow2(7 * j) as int;
            let ghost uy0 = uy as int;
            let c: u8 = (uy % 128) as u8;
            let b: u8 = 127 - c;
            uy = uy / 128;
            proof {
                lemma_pow2_pos(7 * j);
                lemma_fundamental_div_mod(uy0, 128);
                lemma_leb_raw_push(pre, b);
                lemma_leb_raw_push(pre, (b + 128) as u8);
                lemma_pow2_adds(7 * j, 7);
                lemma_div_denominator(yg, p, 128);
                // (uy0 + 1) * P + (127 - c) * P == (128 uy' + 128) * P
                //                               == (uy' + 1) * (128 P)
                lemma_mul_is_distributive_add_other_way(p, uy0 + 1, 127 - c as int);
                lemma_mul_is_distributive_add_other_way(p, 128 * (uy as int), 128);
                lemma_mul_is_associative(128, uy as int, p);
                lemma_mul_is_commutative(128, p);
                lemma_mul_is_associative(uy as int, 128, p);
                lemma_mul_is_commutative(uy as int, 128 * p);
                lemma_mul_is_distributive_add_other_way(pow2(7 * j + 7) as int, uy as int, 1);
                lemma_mul_is_commutative(uy as int, pow2(7 * j + 7) as int);
                lemma_mul_basics(pow2(7 * j + 7) as int);
            }
            if uy == 0 && b >= 64 {
                out.push(b);
                proof {
                    assert(leb_raw(out@) == leb_raw(pre) + (b as int) * p);
                    assert(uy0 == c as int);
                    lemma_group_combine(uy0 + 1, b as int, p);
                    assert(leb_raw(out@) + yg + 1 == 128 * p);
                    assert(leb_raw(out@) + yg + 1 == pow2(7 * out@.len()) as int);
                    lemma_negative_terminal(out@, xg, yg, wn, j);
                }
                return out;
            }
            out.push(b + 128);
            proof {
                assert(group_bits((b + 128) as u8) == b as int);
                assert(out@ == pre.push((b + 128) as u8));
                assert(yg >= pow2((7 * j + 6) as nat) as int) by {
                    lemma_pow2_adds(6, 7 * j);
                    if uy as int >= 1 {
                        if yg < pow2(7 * j + 7) as int {
                            lemma_pow2_pos(7 * j + 7);
                            lemma_basic_div_specific_divisor(pow2(7 * j + 7) as int);
                            lemma_small_div_converse(yg, pow2(7 * j + 7) as int);
                            assert(false);
                        }
                        lemma_pow2_strictly_increases((7 * j + 6) as nat, 7 * j + 7);
                    } else {
                        // uy' == 0 and c >= 64: y == y_low + c * 2^(7j) and
                        // y_low == 2^(7j) - 1 - leb_raw(pre) >= 0
                        lemma_leb_raw_bound(pre);
                        lemma_mul_basics(p);
                        lemma_mul_inequality(64, uy0, p);
                        lemma_mul_is_distributive_add_other_way(p, uy0, 1);
                    }
                }
            }
            if uy == 0 {
                // c >= 64: the final data group's sign bit is clear, so an
                // all-ones group terminates with the sign bit set
                let ghost mid = out@;
                out.push(127);
                proof {
                    assert(uy0 == c as int);
                    lemma_group_combine(uy0 + 1, b as int, p);
                    assert(leb_raw(mid) + yg + 1 == 128 * p);
                    assert(128 * p == pow2(7 * mid.len()) as int);
                    lemma_leb_raw_push(mid, 127);
                    lemma_group_combine(1, 127, pow2(7 * mid.len()) as int);
                    lemma_mul_basics(pow2(7 * mid.len()) as int);
                    lemma_pow2_adds(7 * mid.len(), 7);
                    lemma_mul_is_commutative(128, pow2(7 * mid.len()) as int);
                    assert(leb_raw(out@) + yg + 1 == pow2(7 * out@.len()) as int);
                    lemma_negative_terminal(out@, xg, yg, wn, (j + 1) as nat);
                }
                return out;
            }
        }
    }
}

/// Final proof step of the positive branch of the signed encoder: a group
/// sequence carrying payload `xg` with the final sign bit clear decodes to
/// `xg` at width `w`.
proof fn lemma_positive_terminal(s: Seq<u8>, xg: int, w: nat, j: nat)
    requires
        2 <= w <= 128,
        s.len() >= 1,
        leb_raw(s) == xg,
        0 <= xg < pow2((w - 1) as nat),
        !has_cont(s[s.len() - 1]),
        !group_sign(s[s.len() - 1]),
        forall|i: int| 0 <= i < s.len() - 1 ==> has_cont(s[i]),
        j + 1 == s.len(),
        j >= 1 ==> xg >= pow2((7 * j - 1) as nat) as int,
    ensures
        spec_leb_signed(s, 0, w) == (Parsed::Found { v: xg, end: s.len() as int }),
        s.len() <= max_groups(w),
{
    lemma_pow2_values();
    lemma_pow2_pos((w - 1) as nat);
    lemma_pow2_adds(1, (w - 1) as nat);
    let m = pow2(w) as int;
    let half = pow2((w - 1) as nat) as int;
    assert(s.len() <= max_groups(w)) by {
        lemma_group_count_bound(xg, w, j);
    }
    lemma_leb_end_of_shape(s, 0, max_groups(w));
    assert(s.subrange(0, s.len() as int) =~= s);
    // the value: no sign extension, and xg is already in signed range
    assert(sleb_value(s, w) == xg) by {
        lemma_small_mod(xg as nat, m as nat);
        assert(m / 2 == half);
    }
}

/// Final proof step of the negative branch of the signed encoder: a group
/// sequence carrying payload 2^(7n) - 1 - yg with the final sign bit set
/// decodes to -1 - yg at width `w`.
proof fn lemma_negative_terminal(s: Seq<u8>, xg: int, yg: int, w: nat, j: nat)
    requires
        2 <= w <= 128,
        s.len() >= 1,
        xg == -1 - yg,
        0 <= yg < pow2((w - 1) as nat),
        leb_raw(s) + yg + 1 == pow2(7 * s.len()) as int,
        !has_cont(s[s.len() - 1]),
        group_sign(s[s.len() - 1]),
        forall|i: int| 0 <= i < s.len() - 1 ==> has_cont(s[i]),
        j + 1 == s.len(),
        j >= 1 ==> yg >= pow2((7 * j - 1) as nat) as int,
    ensures
        spec_leb_signed(s, 0, w) == (Parsed::Found { v: xg, end: s.len() as int }),
        s.len() <= max_groups(w),
{
    lemma_pow2_values();
    lemma_pow2_pos((w - 1) as nat);
    lemma_pow2_pos(w);
    lemma_pow2_adds(1, (w - 1) as nat);
    let m = pow2(w) as int;
    let half = pow2((w - 1) as nat) as int;
    assert(s.len() <= max_groups(w)) by {
        lemma_group_count_bound(yg, w, j);
    }
    lemma_leb_end_of_shape(s, 0, max_groups(w));
    assert(s.subrange(0, s.len() as int) =~= s);
    // vs = leb_raw - 2^(7n) = -1 - yg = xg; then xg % 2^w == xg + 2^w
    assert(sleb_value(s, w) == xg) by {
        let vs = leb_raw(s) - pow2(7 * s.len()) as int;
        assert(vs == xg);
        lemma_mod_add_multiples_vanish(vs, m);
        lemma_small_mod((vs + m) as nat, m as nat);
        assert(vs % m == xg + m);
        assert(m / 2 == half);
    }
}

/// A magnitude below 2^(w-1) that reaches group `j` (so it is at least
/// 2^(7j - 1)) needs at most ceil(w/7) groups in all.
proof fn lemma_group_count_bound(mag: int, w: nat, j: nat)
    requires
        2 <= w,
        0 <= mag < pow2((w - 1) as nat),
        j >= 1 ==> mag >= pow2((7 * j - 1) as nat) as int,
    ensures
        j + 1 <= max_groups(w),
{
    if j >= 1 {
        // 2^(7j - 1) <= mag < 2^(w-1) forces 7j - 1 < w - 1
        if 7 * j - 1 >= w - 1 {
            if 7 * j - 1 > w - 1 {
                lemma_pow2_strictly_increases((w - 1) as nat, (7 * j - 1) as nat);
            }
            assert(false);
        }
        // 7j <= w - 1, hence 7(j+1) <= w + 6, hence j + 1 <= (w+6)/7
        lemma_div_is_ordered(7 * (j as int + 1), w as int + 6, 7);
        lemma_div_by_multiple(j as int + 1, 7);
        lemma_mul_is_commutative(j as int + 1, 7);
    } else {
        // one group always fits: (w+6)/7 >= 1
        lemma_div_is_ordered(7, w as int + 6, 7);
        lemma_div_by_multiple(1, 7);
    }
}

/// The signed spec outcome's value is a `w`-bit two's complement value.
pub proof fn lemma_spec_leb_signed_range(s: Seq<u8>, pos: int, w: nat, v: int, end: int)
    requires
        w >= 1,
        spec_leb_signed(s, pos, w) == (Parsed::Found { v, end }),
    ensures
        -(pow2((w - 1) as nat) as int) <= v < pow2((w - 1) as nat) as int,
{
    lemma_pow2_pos(w);
    lemma_pow2_pos((w - 1) as nat);
    lemma_pow2_adds(1, (w - 1) as nat);
    lemma_pow2_values();
    match leb_end(s, pos, max_groups(w)) {
        Parsed::Found { v: _, end: e2 } => {
            let groups = s.subrange(pos, e2);
            let raw = leb_raw(groups);
            let vs = if group_sign(groups.last()) {
                raw - pow2(7 * groups.len()) as int
            } else {
                raw
            };
            lemma_mod_bound(vs, pow2(w) as int);
            assert(pow2(w) as int / 2 == pow2((w - 1) as nat) as int);
        },
        _ => {},
    }
}

} // verus!
