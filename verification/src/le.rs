//! Little-endian integer codecs over byte sequences, the encoding of every multi-byte
//! field of the program's accounts and instruction data.
use vstd::prelude::*;

verus! {

/// `256^n`.
pub open spec fn pow256(n: nat) -> nat
    decreases n,
{
    if n == 0 {
        1
    } else {
        256 * pow256((n - 1) as nat)
    }
}

/// The unsigned integer that the bytes `s` encode, least significant byte first.
pub open spec fn le_value(s: Seq<u8>) -> nat
    decreases s.len(),
{
    if s.len() == 0 {
        0
    } else {
        s[0] as nat + 256 * le_value(s.drop_first())
    }
}

/// The `n` low bytes of `v`, least significant first.
pub open spec fn le_bytes(v: nat, n: nat) -> Seq<u8>
    decreases n,
{
    if n == 0 {
        Seq::empty()
    } else {
        seq![(v % 256) as u8] + le_bytes(v / 256, (n - 1) as nat)
    }
}

/// Two's complement bits of a signed value of `bits` bits.
pub open spec fn twos_complement(x: int, bits: nat) -> nat {
    if x >= 0 {
        x as nat
    } else {
        (x + vstd::arithmetic::power2::pow2(bits)) as nat
    }
}

/// The signed value of `bits` bits whose two's complement is `u`.
pub open spec fn from_twos_complement(u: nat, bits: nat) -> int {
    if u >= vstd::arithmetic::power2::pow2((bits - 1) as nat) {
        u - vstd::arithmetic::power2::pow2(bits)
    } else {
        u as int
    }
}

pub proof fn lemma_pow256_values()
    ensures
        pow256(1) == 0x100,
        pow256(2) == 0x1_0000,
        pow256(4) == 0x1_0000_0000,
        pow256(8) == 0x1_0000_0000_0000_0000,
        pow256(16) == 0x1_0000_0000_0000_0000_0000_0000_0000_0000nat,
{
    reveal_with_fuel(pow256, 17);
}

proof fn lemma_pow256_monotone(a: nat, b: nat)
    requires
        a <= b,
    ensures
        pow256(a) <= pow256(b),
        pow256(a) >= 1,
    decreases b,
{
    if a < b {
        lemma_pow256_monotone(a, (b - 1) as nat);
    } else if a > 0 {
        lemma_pow256_monotone((a - 1) as nat, (a - 1) as nat);
    }
}

/// An `n`-byte encoding stays below `256^n`.
pub proof fn lemma_le_value_bound(s: Seq<u8>)
    ensures
        le_value(s) < pow256(s.len()),
    decreases s.len(),
{
    if s.len() > 0 {
        lemma_le_value_bound(s.drop_first());
    }
}

/// Decoding the encoding of `v < 256^n` gives back `v`.
pub proof fn lemma_le_roundtrip(v: nat, n: nat)
    requires
        v < pow256(n),
    ensures
        le_bytes(v, n).len() == n,
        le_value(le_bytes(v, n)) == v,
    decreases n,
{
    if n > 0 {
        lemma_le_roundtrip(v / 256, (n - 1) as nat);
        let s = le_bytes(v, n);
        assert(s.drop_first() =~= le_bytes(v / 256, (n - 1) as nat));
    }
}

/// The encoding is a function of the value: equal bytes come from equal values.
pub proof fn lemma_le_bytes_len(v: nat, n: nat)
    ensures
        le_bytes(v, n).len() == n,
    decreases n,
{
    if n > 0 {
        lemma_le_bytes_len(v / 256, (n - 1) as nat);
    }
}

/// Reads the `n`-byte little-endian integer at `at`.
pub fn read_le(data: &[u8], at: usize, n: usize) -> (r: u128)
    requires
        n <= 16,
        at + n <= data@.len(),
    ensures
        r == le_value(data@.subrange(at as int, at + n)),
{
    let mut acc: u128 = 0;
    let mut i: usize = n;
    proof {
        assert(data@.subrange(at + n, at + n) =~= Seq::<u8>::empty());
        lemma_pow256_values();
    }
    while i > 0
        invariant
            n <= 16,
            at + n <= data@.len(),
            at + n <= data.len(),
            i <= n,
            acc == le_value(data@.subrange(at + i, at + n)),
            pow256(16) == 0x1_0000_0000_0000_0000_0000_0000_0000_0000nat,
        decreases i,
    {
        let ghost rest = data@.subrange(at + i, at + n);
        i = i - 1;
        let ghost s = data@.subrange(at + i, at + n);
        proof {
            assert(s.drop_first() =~= rest);
            lemma_le_value_bound(rest);
            lemma_pow256_monotone(rest.len(), 15);
            lemma_pow256_values_15();
        }
        acc = acc * 256 + data[at + i] as u128;
    }
    acc
}

proof fn lemma_pow256_values_15()
    ensures
        pow256(15) == 0x1_0000_0000_0000_0000_0000_0000_0000_00nat,
{
    reveal_with_fuel(pow256, 16);
}

/// Appends the `n`-byte little-endian encoding of `v`.
pub fn write_le(out: &mut Vec<u8>, v: u128, n: usize)
    requires
        n <= 16,
    ensures
        final(out)@ == old(out)@ + le_bytes(v as nat, n as nat),
    decreases n,
{
    if n > 0 {
        let ghost before = out@;
        out.push((v % 256) as u8);
        write_le(out, v / 256, n - 1);
        proof {
            assert(out@ =~= before + le_bytes(v as nat, n as nat));
        }
    } else {
        proof {
            assert(out@ =~= out@ + le_bytes(v as nat, 0));
        }
    }
}

/// Reads the 32-byte address at `at`.
pub fn read_key(data: &[u8], at: usize) -> (k: [u8; 32])
    requires
        at + 32 <= data@.len(),
    ensures
        k@ == data@.subrange(at as int, at + 32),
{
    let mut k = [0u8; 32];
    let mut i: usize = 0;
    while i < 32
        invariant
            i <= 32,
            at + 32 <= data@.len(),
            at + 32 <= data.len(),
            forall|j: int| 0 <= j < i ==> k@[j] == data@[at + j],
        decreases 32 - i,
    {
        k[i] = data[at + i];
        i = i + 1;
    }
    proof {
        assert(k@ =~= data@.subrange(at as int, at + 32));
    }
    k
}

/// Appends the 32 bytes of `k`.
pub fn write_key(out: &mut Vec<u8>, k: &[u8; 32])
    ensures
        final(out)@ == old(out)@ + k@,
{
    let ghost start = out@;
    let mut i: usize = 0;
    while i < 32
        invariant
            i <= 32,
            out@ == start + k@.take(i as int),
        decreases 32 - i,
    {
        out.push(k[i]);
        i = i + 1;
        proof {
            assert(out@ =~= start + k@.take(i as int));
        }
    }
    proof {
        assert(k@.take(32) =~= k@);
    }
}

/// Two addresses are the same.
pub fn keys_equal(a: &[u8; 32], b: &[u8; 32]) -> (r: bool)
    ensures
        r == (a@ == b@),
{
    let mut i: usize = 0;
    while i < 32
        invariant
            i <= 32,
            forall|j: int| 0 <= j < i ==> a@[j] == b@[j],
        decreases 32 - i,
    {
        if a[i] != b[i] {
            return false;
        }
        i = i + 1;
    }
    proof {
        assert(a@ =~= b@);
    }
    true
}

/// `a` sorts strictly before `b` in byte-wise lexicographic order.
pub open spec fn key_less(a: Seq<u8>, b: Seq<u8>) -> bool {
    exists|i: int|
        0 <= i < a.len() && i < b.len() && a.subrange(0, i) == b.subrange(0, i) && a[i] < b[i]
}

/// Byte-wise lexicographic `a < b`, the order of addresses.
pub fn key_lt(a: &[u8; 32], b: &[u8; 32]) -> (r: bool)
    ensures
        r == key_less(a@, b@),
{
    let mut i: usize = 0;
    while i < 32
        invariant
            i <= 32,
            a@.subrange(0, i as int) == b@.subrange(0, i as int),
        decreases 32 - i,
    {
        if a[i] != b[i] {
            proof {
                if a[i as int] > b[i as int] {
                    assert forall|j: int|
                        0 <= j < 32 && a@.subrange(0, j) == b@.subrange(0, j) implies !(a@[j] < b@[j]) by {
                        if j < i {
                            assert(a@.subrange(0, i as int)[j] == a@[j]);
                            assert(b@.subrange(0, i as int)[j] == b@[j]);
                        } else if j > i {
                            assert(a@.subrange(0, j)[i as int] == a@[i as int]);
                            assert(b@.subrange(0, j)[i as int] == b@[i as int]);
                        }
                    }
                }
            }
            return a[i] < b[i];
        }
        proof {
            assert(a@.subrange(0, i + 1) =~= b@.subrange(0, i + 1));
        }
        i = i + 1;
    }
    proof {
        assert forall|j: int| 0 <= j < 32 implies !(a@[j] < b@[j]) by {
            assert(a@.subrange(0, 32)[j] == a@[j]);
            assert(b@.subrange(0, 32)[j] == b@[j]);
        }
    }
    false
}

/// Two's complement bits of an `i32`.
pub fn i32_bits(x: i32) -> (r: u32)
    ensures
        r == twos_complement(x as int, 32),
{
    proof {
        vstd::arithmetic::power2::lemma2_to64();
    }
    if x >= 0 {
        x as u32
    } else {
        ((x + 2147483647 + 1) as u32) + 2147483648
    }
}

/// The `i32` whose two's complement bits are `u`.
pub fn i32_from_bits(u: u32) -> (r: i32)
    ensures
        r == from_twos_complement(u as nat, 32),
{
    proof {
        vstd::arithmetic::power2::lemma2_to64();
    }
    if u >= 2147483648 {
        ((u - 2147483648) as i32) - 2147483647 - 1
    } else {
        u as i32
    }
}

/// Two's complement bits of an `i64`.
pub fn i64_bits(x: i64) -> (r: u64)
    ensures
        r == twos_complement(x as int, 64),
{
    proof {
        vstd::arithmetic::power2::lemma2_to64();
        vstd::arithmetic::power2::lemma2_to64_rest();
    }
    if x >= 0 {
        x as u64
    } else {
        ((x + 9223372036854775807 + 1) as u64) + 9223372036854775808
    }
}

/// The `i64` whose two's complement bits are `u`.
pub fn i64_from_bits(u: u64) -> (r: i64)
    ensures
        r == from_twos_complement(u as nat, 64),
{
    proof {
        vstd::arithmetic::power2::lemma2_to64();
        vstd::arithmetic::power2::lemma2_to64_rest();
    }
    if u >= 9223372036854775808 {
        ((u - 9223372036854775808) as i64) - 9223372036854775807 - 1
    } else {
        u as i64
    }
}

/// Reading back the two's complement of a signed value gives the value.
pub proof fn lemma_twos_complement_roundtrip(x: int, bits: nat)
    requires
        bits == 32 || bits == 64,
        -vstd::arithmetic::power2::pow2((bits - 1) as nat) <= x < vstd::arithmetic::power2::pow2(
            (bits - 1) as nat,
        ),
    ensures
        from_twos_complement(twos_complement(x, bits), bits) == x,
        twos_complement(x, bits) < vstd::arithmetic::power2::pow2(bits),
{
    vstd::arithmetic::power2::lemma2_to64();
    vstd::arithmetic::power2::lemma2_to64_rest();
    if bits == 32 {
        assert(vstd::arithmetic::power2::pow2(31) * 2 == vstd::arithmetic::power2::pow2(32));
    } else {
        assert(vstd::arithmetic::power2::pow2(63) * 2 == vstd::arithmetic::power2::pow2(64));
    }
}

} // verus!
