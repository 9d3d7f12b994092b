use vstd::prelude::*;
use pinocchio::pubkey::Pubkey;
use vstd::arithmetic::div_mod::{lemma_div_denominator, lemma_fundamental_div_mod, lemma_mod_bound, lemma_mod_breakdown, lemma_small_mod};
use vstd::arithmetic::mul::{lemma_mul_inequality, lemma_mul_is_commutative, lemma_mul_nonnegative};

verus! {

/// 256 to the power `k`: the weight of the byte at position `k` of a
/// little-endian number.
pub open spec fn byte_weight(k: nat) -> nat
    decreases k,
{
    if k == 0 {
        1
    } else {
        256 * byte_weight((k - 1) as nat)
    }
}

/// The number that the bytes `s` hold, least significant byte first.
pub open spec fn le_value(s: Seq<u8>) -> nat
    decreases s.len(),
{
    if s.len() == 0 {
        0
    } else {
        le_value(s.drop_last()) + (s.last() as nat) * byte_weight((s.len() - 1) as nat)
    }
}

/// The `len` low bytes of `n`, least significant byte first.
pub open spec fn le_bytes(n: nat, len: nat) -> Seq<u8>
    decreases len,
{
    if len == 0 {
        Seq::empty()
    } else {
        le_bytes(n, (len - 1) as nat).push(((n / byte_weight((len - 1) as nat)) % 256) as u8)
    }
}

/// `len` zero bytes.
pub open spec fn zero_bytes(len: nat) -> Seq<u8> {
    Seq::new(len, |i: int| 0u8)
}

pub proof fn lemma_byte_weight_positive(k: nat)
    ensures
        byte_weight(k) > 0,
    decreases k,
{
    if k > 0 {
        lemma_byte_weight_positive((k - 1) as nat);
    }
}

pub proof fn lemma_byte_weight_values()
    ensures
        byte_weight(8) == 0x1_0000_0000_0000_0000,
        byte_weight(16) == 0x1_0000_0000_0000_0000_0000_0000_0000_0000,
{
    reveal_with_fuel(byte_weight, 17);
}

pub proof fn lemma_le_bytes_len(n: nat, len: nat)
    ensures
        le_bytes(n, len).len() == len,
    decreases len,
{
    if len > 0 {
        lemma_le_bytes_len(n, (len - 1) as nat);
    }
}

/// A number of `s.len()` bytes is below 256 to that power.
pub proof fn lemma_le_value_bound(s: Seq<u8>)
    ensures
        le_value(s) < byte_weight(s.len()),
    decreases s.len(),
{
    if s.len() > 0 {
        let k = (s.len() - 1) as nat;
        lemma_le_value_bound(s.drop_last());
        lemma_byte_weight_positive(k);
        lemma_mul_inequality(s.last() as int, 255, byte_weight(k) as int);
        assert(le_value(s) < byte_weight(k) + 255 * byte_weight(k));
    }
}

/// Reading back the bytes of `n` gives `n` modulo 256 to the power of their number.
pub proof fn lemma_le_roundtrip(n: nat, len: nat)
    ensures
        le_value(le_bytes(n, len)) == n % byte_weight(len),
    decreases len,
{
    lemma_le_bytes_len(n, len);
    if len == 0 {
        lemma_small_mod(0, 1);
        assert(n % 1 == 0);
    } else {
        let k = (len - 1) as nat;
        lemma_le_roundtrip(n, k);
        lemma_le_bytes_len(n, k);
        let s = le_bytes(n, len);
        assert(s.drop_last() =~= le_bytes(n, k));
        lemma_byte_weight_positive(k);
        lemma_mod_breakdown(n as int, byte_weight(k) as int, 256);
        lemma_mul_is_commutative(byte_weight(k) as int, 256);
        lemma_mod_bound((n / byte_weight(k)) as int, 256);
        lemma_mul_is_commutative(((n / byte_weight(k)) % 256) as int, byte_weight(k) as int);
    }
}

pub proof fn lemma_le_roundtrip_small(n: nat, len: nat)
    requires
        n < byte_weight(len),
    ensures
        le_value(le_bytes(n, len)) == n,
        le_bytes(n, len).len() == len,
{
    lemma_le_roundtrip(n, len);
    lemma_le_bytes_len(n, len);
    lemma_small_mod(n, byte_weight(len));
}

/// Reads the little-endian number of `len` bytes at `off`.
pub fn read_le(data: &[u8], off: usize, len: usize) -> (r: u128)
    requires
        off + len <= data@.len(),
        len <= 16,
    ensures
        r == le_value(data@.subrange(off as int, off + len)),
{
    let n = data.len();
    let mut acc: u128 = 0;
    let mut weight: u128 = 1;
    let mut k: usize = 0;
    proof {
        assert(data@.subrange(off as int, off as int) =~= Seq::<u8>::empty());
        lemma_byte_weight_values();
    }
    while k < len
        invariant
            n == data@.len(),
            off + len <= data@.len(),
            len <= 16,
            0 <= k <= len,
            acc == le_value(data@.subrange(off as int, off + k)),
            k < len ==> weight == byte_weight(k as nat),
            byte_weight(16) == 0x1_0000_0000_0000_0000_0000_0000_0000_0000,
        decreases len - k,
    {
        let ghost s = data@.subrange(off as int, off + k + 1);
        proof {
            assert(s.drop_last() =~= data@.subrange(off as int, off + k));
            lemma_le_value_bound(s);
            if k + 1 < 16 {
                lemma_byte_weight_strictly_increases((k + 1) as nat, 16);
            }
            lemma_byte_weight_positive(k as nat);
            lemma_mul_nonnegative(data@[off + k] as int, byte_weight(k as nat) as int);
        }
        acc = acc + (data[off + k] as u128) * weight;
        if k + 1 < len {
            proof {
                lemma_byte_weight_strictly_increases((k + 1) as nat, 16);
            }
            weight = weight * 256;
        }
        k = k + 1;
    }
    acc
}

pub proof fn lemma_byte_weight_strictly_increases(a: nat, b: nat)
    requires
        a < b,
    ensures
        byte_weight(a) < byte_weight(b),
    decreases b,
{
    lemma_byte_weight_positive((b - 1) as nat);
    if a < b - 1 {
        lemma_byte_weight_strictly_increases(a, (b - 1) as nat);
    }
}

/// Reads the little-endian `u64` at `off`.
pub fn read_u64(data: &[u8], off: usize) -> (r: u64)
    requires
        off + 8 <= data@.len(),
    ensures
        r == le_value(data@.subrange(off as int, off + 8)),
{
    let v = read_le(data, off, 8);
    proof {
        lemma_le_value_bound(data@.subrange(off as int, off + 8));
        lemma_byte_weight_values();
    }
    v as u64
}

/// Reads the little-endian `u128` at `off`.
pub fn read_u128(data: &[u8], off: usize) -> (r: u128)
    requires
        off + 16 <= data@.len(),
    ensures
        r == le_value(data@.subrange(off as int, off + 16)),
{
    read_le(data, off, 16)
}

/// Reads the 32-byte key at `off`.
pub fn read_pubkey(data: &[u8], off: usize) -> (r: Pubkey)
    requires
        off + 32 <= data@.len(),
    ensures
        r@ == data@.subrange(off as int, off + 32),
{
    read_bytes(data, off)
}

/// Appends the `len` low bytes of `v`, least significant first.
pub fn write_le(out: &mut Vec<u8>, v: u128, len: usize)
    requires
        len <= 16,
    ensures
        final(out)@ == old(out)@ + le_bytes(v as nat, len as nat),
{
    let ghost start = out@;
    let mut rest = v;
    let mut k: usize = 0;
    proof {
        assert(start + le_bytes(v as nat, 0) =~= start);
        assert(byte_weight(0) == 1);
        assert(v as nat / 1 == v as nat) by (nonlinear_arith);
    }
    while k < len
        invariant
            len <= 16,
            0 <= k <= len,
            out@ == start + le_bytes(v as nat, k as nat),
            rest == v as nat / byte_weight(k as nat),
        decreases len - k,
    {
        proof {
            lemma_byte_weight_positive(k as nat);
            lemma_div_denominator(v as int, byte_weight(k as nat) as int, 256);
            lemma_mul_is_commutative(byte_weight(k as nat) as int, 256);
        }
        out.push((rest % 256) as u8);
        rest = rest / 256;
        proof {
            assert(out@ =~= start + le_bytes(v as nat, (k + 1) as nat));
        }
        k = k + 1;
    }
}

/// Appends the little-endian bytes of a `u64`.
pub fn write_u64(out: &mut Vec<u8>, v: u64)
    ensures
        final(out)@ == old(out)@ + le_bytes(v as nat, 8),
{
    write_le(out, v as u128, 8);
}

/// Appends the little-endian bytes of a `u128`.
pub fn write_u128(out: &mut Vec<u8>, v: u128)
    ensures
        final(out)@ == old(out)@ + le_bytes(v as nat, 16),
{
    write_le(out, v, 16);
}

/// Appends the bytes of a key.
pub fn write_pubkey(out: &mut Vec<u8>, key: &Pubkey)
    ensures
        final(out)@ == old(out)@ + key@,
{
    let ghost start = out@;
    let mut i: usize = 0;
    while i < 32
        invariant
            0 <= i <= 32,
            out@ == start + key@.subrange(0, i as int),
        decreases 32 - i,
    {
        out.push(key[i]);
        i = i + 1;
        proof {
            assert(out@ =~= start + key@.subrange(0, i as int));
        }
    }
    assert(key@.subrange(0, 32) =~= key@);
}

/// Appends `len` zero bytes.
pub fn write_zeros(out: &mut Vec<u8>, len: usize)
    ensures
        final(out)@ == old(out)@ + zero_bytes(len as nat),
{
    let ghost start = out@;
    let mut i: usize = 0;
    while i < len
        invariant
            0 <= i <= len,
            out@ == start + zero_bytes(i as nat),
        decreases len - i,
    {
        out.push(0u8);
        i = i + 1;
        proof {
            assert(out@ =~= start + zero_bytes(i as nat));
        }
    }
}

/// The encodings of the items of `s`, one after another.
pub open spec fn concat_map<T>(s: Seq<T>, f: spec_fn(T) -> Seq<u8>) -> Seq<u8>
    decreases s.len(),
{
    if s.len() == 0 {
        Seq::empty()
    } else {
        concat_map(s.drop_last(), f) + f(s.last())
    }
}

/// Where every item encodes to `w` bytes, item `i` of `s` sits at `w * i`.
pub proof fn lemma_concat_map_layout<T>(s: Seq<T>, f: spec_fn(T) -> Seq<u8>, w: nat)
    requires
        forall|x: T| #[trigger] f(x).len() == w,
    ensures
        concat_map(s, f).len() == w * s.len(),
        forall|i: int|
            0 <= i < s.len() ==> concat_map(s, f).subrange(w * i, w * i + w) == f(
                #[trigger] s[i],
            ),
    decreases s.len(),
{
    if s.len() > 0 {
        let init = s.drop_last();
        lemma_concat_map_layout(init, f, w);
        let a = concat_map(init, f);
        let b = f(s.last());
        assert(concat_map(s, f) == a + b);
        assert(w * s.len() == w * init.len() + w) by (nonlinear_arith)
            requires
                s.len() == init.len() + 1,
        ;
        assert forall|i: int| 0 <= i < s.len() implies concat_map(s, f).subrange(
            w * i,
            w * i + w,
        ) == f(#[trigger] s[i]) by {
            if i < init.len() {
                assert(w * i + w <= w * init.len()) by (nonlinear_arith)
                    requires
                        i + 1 <= init.len(),
                ;
                assert(0 <= w * i) by (nonlinear_arith)
                    requires
                        0 <= i,
                ;
                assert((a + b).subrange(w * i, w * i + w) =~= a.subrange(w * i, w * i + w));
                assert(init[i] == s[i]);
            } else {
                assert(i == init.len());
                assert((a + b).subrange(w * i, w * i + w) =~= b);
            }
        }
    }
}

/// Reads the little-endian `u16` at `off`.
pub fn read_u16(data: &[u8], off: usize) -> (r: u16)
    requires
        off + 2 <= data@.len(),
    ensures
        r == le_value(data@.subrange(off as int, off + 2)),
{
    let v = read_le(data, off, 2);
    proof {
        lemma_le_value_bound(data@.subrange(off as int, off + 2));
        reveal_with_fuel(byte_weight, 3);
    }
    v as u16
}

/// Copies the `N` bytes at `off`.
pub fn read_bytes<const N: usize>(data: &[u8], off: usize) -> (r: [u8; N])
    requires
        off + N <= data@.len(),
    ensures
        r@ == data@.subrange(off as int, off + N),
{
    let n = data.len();
    let mut out = [0u8; N];
    let mut i: usize = 0;
    while i < N
        invariant
            n == data@.len(),
            off + N <= data@.len(),
            0 <= i <= N,
            forall|j: int| 0 <= j < i ==> out[j] == data@[off + j],
        decreases N - i,
    {
        out[i] = data[off + i];
        i = i + 1;
    }
    assert(out@ =~= data@.subrange(off as int, off + N));
    out
}

} // verus!
