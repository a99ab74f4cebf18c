//! Encodings of the two jumps a hook writes: `jmp rel32` and `jmp [rip+0]; dq target`.
use vstd::prelude::*;
use vstd::arithmetic::power::pow;
use vstd::arithmetic::div_mod::lemma_mod_breakdown;

verus! {

/// Length in bytes of `jmp rel32`.
pub const REL32_LEN: usize = 5;

/// Length in bytes of `jmp qword ptr [rip+0]` followed by the 8-byte target.
pub const ABS64_LEN: usize = 14;

/// The `n` low bytes of `v`, least significant first.
pub open spec fn le_bytes(v: nat, n: nat) -> Seq<u8>
    decreases n,
{
    if n == 0 {
        seq![]
    } else {
        seq![(v % 256) as u8] + le_bytes(v / 256, (n - 1) as nat)
    }
}

/// The unsigned value of a little-endian byte sequence.
pub open spec fn le_value(s: Seq<u8>) -> nat
    decreases s.len(),
{
    if s.len() == 0 {
        0
    } else {
        s[0] as nat + 256 * le_value(s.drop_first())
    }
}

/// Reading back `n` little-endian bytes gives the value modulo `256^n`.
pub proof fn lemma_le_roundtrip(v: nat, n: nat)
    ensures
        le_bytes(v, n).len() == n,
        le_value(le_bytes(v, n)) == v % pow(256, n) as nat,
    decreases n,
{
    reveal(pow);
    if n == 0 {
        assert(v % 1 == 0);
    } else {
        let m = (n - 1) as nat;
        lemma_le_roundtrip(v / 256, m);
        let s = le_bytes(v, n);
        assert(s.drop_first() =~= le_bytes(v / 256, m));
        vstd::arithmetic::power::lemma_pow_positive(256, m);
        lemma_mod_breakdown(v as int, 256, pow(256, m));
        assert(pow(256, n) == 256 * pow(256, m));
    }
}

/// The value of `x` taken as a two's complement number of 64 bits.
pub open spec fn signed64(x: int) -> int {
    let d = x % 0x1_0000_0000_0000_0000;
    if d < 0x8000_0000_0000_0000 { d } else { d - 0x1_0000_0000_0000_0000 }
}

/// The value of a 32-bit pattern `u` taken as a two's complement number.
pub open spec fn signed32(u: int) -> int {
    if u < 0x8000_0000 { u } else { u - 0x1_0000_0000 }
}

/// The signed displacement of a `jmp rel32` at `from` to `to`:
/// the distance from the end of the 5-byte instruction, taken modulo 2^64.
pub open spec fn rel32_displacement(from: u64, to: u64) -> int {
    signed64(to - from - REL32_LEN)
}

/// A `jmp rel32` at `from` can reach `to`.
pub open spec fn rel32_reachable(from: u64, to: u64) -> bool {
    -0x8000_0000 <= rel32_displacement(from, to) <= 0x7FFF_FFFF
}

/// The bytes of `jmp rel32` at `from` to `to`: opcode `E9`, then the displacement
/// as a little-endian 32-bit two's complement number.
pub open spec fn rel32_bytes(from: u64, to: u64) -> Seq<u8> {
    seq![0xE9u8] + le_bytes((rel32_displacement(from, to) % 0x1_0000_0000) as nat, 4)
}

/// Where the CPU goes after executing the `jmp rel32` in `bytes` placed at `from`.
pub open spec fn rel32_destination(from: u64, bytes: Seq<u8>) -> int {
    (from + REL32_LEN + signed32(le_value(bytes.subrange(1, 5)) as int)) % 0x1_0000_0000_0000_0000
}

/// `from + 5` does not overflow an `i64`, as the encoder computes it.
pub open spec fn rel32_origin_ok(from: u64) -> bool {
    !(0x7FFF_FFFF_FFFF_FFFB <= from <= 0x7FFF_FFFF_FFFF_FFFF)
}

/// The bytes of `jmp qword ptr [rip+0]` (`FF 25 00000000`) followed by `to`.
pub open spec fn abs64_bytes(to: u64) -> Seq<u8> {
    seq![0xFFu8, 0x25u8, 0u8, 0u8, 0u8, 0u8] + le_bytes(to as nat, 8)
}

/// Where the CPU goes after executing the absolute jump in `bytes`.
pub open spec fn abs64_destination(bytes: Seq<u8>) -> nat {
    le_value(bytes.subrange(6, 14))
}

/// A `jmp rel32` encoded for `from` and `to` lands on `to`.
pub proof fn lemma_rel32_lands_on_target(from: u64, to: u64)
    requires
        rel32_reachable(from, to),
    ensures
        rel32_bytes(from, to).len() == REL32_LEN,
        rel32_bytes(from, to)[0] == 0xE9,
        rel32_destination(from, rel32_bytes(from, to)) == to,
{
    let d = rel32_displacement(from, to);
    let u = (d % 0x1_0000_0000) as nat;
    lemma_le_roundtrip(u, 4);
    reveal_with_fuel(pow, 5);
    let b = rel32_bytes(from, to);
    assert(b.subrange(1, 5) =~= le_bytes(u, 4));
    assert(u % 0x1_0000_0000 == u);
    assert(signed32(u as int) == d);
    assert((to - from - REL32_LEN) % 0x1_0000_0000_0000_0000 == d % 0x1_0000_0000_0000_0000);
}

/// The absolute jump encoded for `to` lands on `to`.
pub proof fn lemma_abs64_lands_on_target(to: u64)
    ensures
        abs64_bytes(to).len() == ABS64_LEN,
        abs64_destination(abs64_bytes(to)) == to,
{
    lemma_le_roundtrip(to as nat, 8);
    reveal_with_fuel(pow, 9);
    assert(pow(256, 8) == 0x1_0000_0000_0000_0000);
    assert(to as nat % 0x1_0000_0000_0000_0000 == to);
    assert(abs64_bytes(to).subrange(6, 14) =~= le_bytes(to as nat, 8));
}

/// Any 32-bit displacement that takes a `jmp rel32` at `from` to `to` is the
/// one the encoder computes: `to` is reachable exactly when some signed
/// 32-bit displacement `d` has `from + 5 + d == to` modulo 2^64.
pub proof fn lemma_rel32_reach_is_exact(from: u64, to: u64, d: int)
    requires
        -0x8000_0000 <= d <= 0x7FFF_FFFF,
        (from + 5 + d) % 0x1_0000_0000_0000_0000 == to,
    ensures
        rel32_reachable(from, to),
        rel32_displacement(from, to) == d,
{
    let m: int = 0x1_0000_0000_0000_0000;
    let x = from + 5 + d;
    // `x` lies within one wrap of `to`.
    assert(-0x8000_0000 <= x < 2 * m);
    if x < 0 {
        assert(x % m == x + m);
    } else if x < m {
        assert(x % m == x);
    } else {
        assert(x % m == x - m);
    }
    let y = to - from - REL32_LEN;
    assert(y == d - m || y == d || y == d + m);
    if y == d - m {
        assert(y % m == d % m);
    } else if y == d + m {
        assert(y % m == d % m);
    }
    if d >= 0 {
        assert(d % m == d);
    } else {
        assert(d % m == d + m);
    }
}

/// No signed 32-bit displacement takes a `jmp rel32` at `from` to an
/// unreachable `to`.
pub proof fn lemma_rel32_unreachable_has_no_displacement(from: u64, to: u64)
    requires
        !rel32_reachable(from, to),
    ensures
        forall|d: int|
            -0x8000_0000 <= d <= 0x7FFF_FFFF ==> #[trigger] ((from + 5 + d) % 0x1_0000_0000_0000_0000)
                != to,
{
    assert forall|d: int| -0x8000_0000 <= d <= 0x7FFF_FFFF implies #[trigger] ((from + 5 + d)
        % 0x1_0000_0000_0000_0000) != to by {
        if (from + 5 + d) % 0x1_0000_0000_0000_0000 == to {
            lemma_rel32_reach_is_exact(from, to, d);
        }
    }
}

/// The absolute jump reads its destination from the 8 bytes right after it:
/// opcode `FF 25` (`jmp qword ptr [rip+disp32]`), displacement 0, then the
/// little-endian `to`.
pub proof fn lemma_abs64_reads_embedded_target(to: u64)
    ensures
        abs64_bytes(to).len() == 14,
        abs64_bytes(to)[0] == 0xFF,
        abs64_bytes(to)[1] == 0x25,
        le_value(abs64_bytes(to).subrange(2, 6)) == 0,
        le_value(abs64_bytes(to).subrange(6, 14)) == to,
{
    lemma_abs64_lands_on_target(to);
    let z = abs64_bytes(to).subrange(2, 6);
    assert(z =~= seq![0u8, 0u8, 0u8, 0u8]);
    reveal_with_fuel(le_value, 5);
    assert(z.drop_first() =~= seq![0u8, 0u8, 0u8]);
    assert(z.drop_first().drop_first() =~= seq![0u8, 0u8]);
    assert(z.drop_first().drop_first().drop_first() =~= seq![0u8]);
    assert(z.drop_first().drop_first().drop_first().drop_first() =~= Seq::<u8>::empty());
}

/// Encodes `jmp rel32` placed at `from` and jumping to `to`, or `None` when
/// `to` lies outside the reach of a signed 32-bit displacement.
pub fn encode_rel32(from: u64, to: u64) -> (r: Option<[u8; REL32_LEN]>)
    requires
        rel32_origin_ok(from),
    ensures
        r is Some <==> rel32_reachable(from, to),
        r matches Some(b) ==> b@ == rel32_bytes(from, to),
        r matches Some(b) ==> rel32_destination(from, b@) == to,
        r is None ==> forall|d: int|
            -0x8000_0000 <= d <= 0x7FFF_FFFF ==> #[trigger] ((from + 5 + d) % 0x1_0000_0000_0000_0000)
                != to,
{
    proof {
        if !rel32_reachable(from, to) {
            lemma_rel32_unreachable_has_no_displacement(from, to);
        }
    }
    let d = to.wrapping_sub(from).wrapping_sub(5);
    assert(d == (to - from - REL32_LEN) % 0x1_0000_0000_0000_0000);
    if d > 0x7FFF_FFFF && d < 0xFFFF_FFFF_8000_0000 {
        return None;
    }
    // The displacement's 32-bit two's complement pattern.
    let u: u64 = if d <= 0x7FFF_FFFF { d } else { d - 0xFFFF_FFFF_0000_0000 };
    assert(u == rel32_displacement(from, to) % 0x1_0000_0000);
    let b0 = (u % 256) as u8;
    let u1 = u / 256;
    let b1 = (u1 % 256) as u8;
    let u2 = u1 / 256;
    let b2 = (u2 % 256) as u8;
    let u3 = u2 / 256;
    let b3 = (u3 % 256) as u8;
    let buf: [u8; REL32_LEN] = [0xE9, b0, b1, b2, b3];
    proof {
        reveal_with_fuel(le_bytes, 5);
        assert(buf@ =~= rel32_bytes(from, to));
        lemma_rel32_lands_on_target(from, to);
    }
    Some(buf)
}

/// Encodes `jmp qword ptr [rip+0]` followed by the absolute target `to`.
pub fn encode_abs64(to: u64) -> (r: [u8; ABS64_LEN])
    ensures
        r@ == abs64_bytes(to),
        abs64_destination(r@) == to,
        r@[0] == 0xFF && r@[1] == 0x25,
        le_value(r@.subrange(2, 6)) == 0,
        le_value(r@.subrange(6, 14)) == to,
{
    proof {
        lemma_abs64_reads_embedded_target(to);
    }
    let v0 = to;
    let b0 = (v0 % 256) as u8;
    let v1 = v0 / 256;
    let b1 = (v1 % 256) as u8;
    let v2 = v1 / 256;
    let b2 = (v2 % 256) as u8;
    let v3 = v2 / 256;
    let b3 = (v3 % 256) as u8;
    let v4 = v3 / 256;
    let b4 = (v4 % 256) as u8;
    let v5 = v4 / 256;
    let b5 = (v5 % 256) as u8;
    let v6 = v5 / 256;
    let b6 = (v6 % 256) as u8;
    let v7 = v6 / 256;
    let b7 = (v7 % 256) as u8;
    let buf: [u8; ABS64_LEN] = [0xFF, 0x25, 0, 0, 0, 0, b0, b1, b2, b3, b4, b5, b6, b7];
    proof {
        reveal_with_fuel(le_bytes, 9);
        assert(buf@ =~= abs64_bytes(to));
        lemma_abs64_lands_on_target(to);
    }
    buf
}

} // verus!
