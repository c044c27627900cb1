//! Numbers as bytes: big-endian reading and writing, as functions on
//! sequences, with the facts that tie the two together.

use vstd::prelude::*;
use vstd::arithmetic::power2::{lemma2_to64, lemma_pow2_strictly_increases, pow2};
use vstd::bits::lemma_u32_shl_is_mul;

verus! {

/// The number that `bytes` spell, most significant byte first.
pub open spec fn be_uint(bytes: Seq<u8>) -> nat
    decreases bytes.len(),
{
    if bytes.len() == 0 {
        0
    } else {
        be_uint(bytes.drop_last()) * 256 + bytes.last() as nat
    }
}

/// The `n` low bytes of `x`, most significant first.
pub open spec fn be_bytes(x: nat, n: nat) -> Seq<u8>
    decreases n,
{
    if n == 0 {
        Seq::empty()
    } else {
        be_bytes(x / 256, (n - 1) as nat).push((x % 256) as u8)
    }
}

/// 256 to the power `n`.
pub open spec fn pow256(n: nat) -> nat
    decreases n,
{
    if n == 0 {
        1
    } else {
        256 * pow256((n - 1) as nat)
    }
}

/// The value of an `n`-byte two's complement number whose unsigned reading is `x`.
pub open spec fn to_signed(x: nat, n: nat) -> int {
    if 2 * x >= pow256(n) {
        x - pow256(n)
    } else {
        x as int
    }
}

/// The unsigned reading of the `n`-byte two's complement number `x`.
pub open spec fn from_signed(x: int, n: nat) -> nat {
    if x < 0 {
        (x + pow256(n)) as nat
    } else {
        x as nat
    }
}

/// The powers of 256 up to the eighth.
pub proof fn lemma_pow256_values()
    ensures
        pow256(0) == 1,
        pow256(1) == 0x100,
        pow256(2) == 0x1_0000,
        pow256(3) == 0x100_0000,
        pow256(4) == 0x1_0000_0000,
        pow256(5) == 0x100_0000_0000,
        pow256(6) == 0x1_0000_0000_0000,
        pow256(7) == 0x100_0000_0000_0000,
        pow256(8) == 0x1_0000_0000_0000_0000,
{
    reveal_with_fuel(pow256, 9);
}

/// A one-byte number is its byte.
pub proof fn lemma_be_uint_1(bytes: Seq<u8>)
    requires
        bytes.len() == 1,
    ensures
        be_uint(bytes) == bytes[0],
{
    reveal_with_fuel(be_uint, 2);
}

/// A two-byte number is 256 times the first byte plus the second.
pub proof fn lemma_be_uint_2(bytes: Seq<u8>)
    requires
        bytes.len() == 2,
    ensures
        be_uint(bytes) == bytes[0] * 256 + bytes[1],
{
    lemma_be_uint_1(bytes.drop_last());
}

/// Reading one more byte multiplies by 256 and adds the byte.
pub proof fn lemma_be_uint_push(bytes: Seq<u8>, b: u8)
    ensures
        be_uint(bytes.push(b)) == be_uint(bytes) * 256 + b,
{
    assert(bytes.push(b).drop_last() =~= bytes);
}

pub proof fn lemma_be_uint_bound(bytes: Seq<u8>)
    ensures
        be_uint(bytes) < pow256(bytes.len()),
    decreases bytes.len(),
{
    if bytes.len() > 0 {
        lemma_be_uint_bound(bytes.drop_last());
    }
}

pub proof fn lemma_be_bytes_len(x: nat, n: nat)
    ensures
        be_bytes(x, n).len() == n,
    decreases n,
{
    if n > 0 {
        lemma_be_bytes_len(x / 256, (n - 1) as nat);
    }
}

/// Writing a number and reading it back gives the number, when it fits.
pub proof fn lemma_be_uint_of_be_bytes(x: nat, n: nat)
    requires
        x < pow256(n),
    ensures
        be_uint(be_bytes(x, n)) == x,
    decreases n,
{
    if n > 0 {
        let rest = be_bytes(x / 256, (n - 1) as nat);
        lemma_be_uint_of_be_bytes(x / 256, (n - 1) as nat);
        assert(be_bytes(x, n).drop_last() =~= rest);
    }
}

/// Reading bytes and writing the number back gives the bytes.
pub proof fn lemma_be_bytes_of_be_uint(bytes: Seq<u8>)
    ensures
        be_bytes(be_uint(bytes), bytes.len()) == bytes,
    decreases bytes.len(),
{
    if bytes.len() > 0 {
        lemma_be_bytes_of_be_uint(bytes.drop_last());
        let x = be_uint(bytes);
        assert(x / 256 == be_uint(bytes.drop_last()));
        assert(x % 256 == bytes.last() as nat);
        assert(be_bytes(x, bytes.len()) =~= bytes);
    }
}

/// A number below `d * q` divided by `d` is below `q`.
pub proof fn lemma_div_bound(x: nat, d: nat, q: nat)
    requires
        d > 0,
        x < q * d,
    ensures
        x / d < q,
        x % d < d,
{
    assert(x / d < q && x % d < d) by (nonlinear_arith)
        requires
            d > 0,
            x < q * d,
    ;
}

/// Powers of two do not shrink as the exponent grows.
pub proof fn lemma_pow2_bound(a: nat, b: nat)
    requires
        a <= b,
    ensures
        1 <= pow2(a) <= pow2(b),
{
    vstd::arithmetic::power2::lemma_pow2_pos(a);
    if a < b {
        lemma_pow2_strictly_increases(a, b);
    }
}

/// Two to the power `k`, for exponents below sixteen.
pub fn pow2_small(k: u8) -> (d: u32)
    requires
        k < 16,
    ensures
        d == pow2(k as nat),
        1 <= d <= 0x8000,
{
    proof {
        lemma2_to64();
        lemma_pow2_bound(k as nat, 15);
        lemma_u32_shl_is_mul(1, k as u32);
    }
    1u32 << (k as u32)
}

/// Joining bytes does not depend on the grouping.
pub proof fn lemma_concat_assoc(a: Seq<u8>, b: Seq<u8>, c: Seq<u8>)
    ensures
        (a + b) + c == a + (b + c),
{
    assert((a + b) + c =~= a + (b + c));
}

/// Nothing behind bytes changes nothing.
pub proof fn lemma_concat_empty(a: Seq<u8>)
    ensures
        a + Seq::<u8>::empty() == a,
{
    assert(a + Seq::<u8>::empty() =~= a);
}

/// Nothing in front of bytes changes nothing.
pub proof fn lemma_concat_front(a: Seq<u8>)
    ensures
        Seq::<u8>::empty() + a == a,
{
    assert(Seq::<u8>::empty() + a =~= a);
}

} // verus!
