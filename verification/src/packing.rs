//! The variable-width bit-packing codec for palette indices.
//!
//! The wire format stores one palette index per grid cell in a continuous
//! bit stream: each index contributes its low `nbits` bits, low bit first,
//! and the stream is chopped into 64-bit words, the low bit of each word
//! filled first. A chunk may straddle a word boundary; the final word is
//! zero-padded.

use vstd::arithmetic::div_mod::lemma_div_denominator;
use vstd::arithmetic::div_mod::lemma_fundamental_div_mod;
use vstd::arithmetic::div_mod::lemma_fundamental_div_mod_converse_div;
use vstd::arithmetic::div_mod::lemma_fundamental_div_mod_converse_mod;
use vstd::arithmetic::power2::lemma2_to64;
use vstd::arithmetic::power2::lemma_pow2_pos;
use vstd::arithmetic::power2::lemma_pow2_strictly_increases;
use vstd::arithmetic::power2::lemma_pow2_unfold;
use vstd::arithmetic::power2::pow2;
use vstd::prelude::*;

verus! {

/// Bit `b` of the value `v`, little-endian.
pub open spec fn bit_of(v: nat, b: nat) -> bool {
    v / pow2(b) % 2 == 1
}

/// The value whose little-endian bits are `s` (first element of `s` is the
/// lowest bit).
pub open spec fn val_of_bits(s: Seq<bool>) -> nat
    decreases s.len(),
{
    if s.len() == 0 {
        0
    } else {
        (if s[0] {
            1nat
        } else {
            0nat
        }) + 2 * val_of_bits(s.skip(1))
    }
}

/// The low `n` bits of `v`, low bit first.
pub open spec fn bits_of_val(v: nat, n: nat) -> Seq<bool> {
    Seq::new(n, |b: int| bit_of(v, b as nat))
}

/// The continuous bit stream of `ids`: each entry contributes its low
/// `nbits` bits, low bit first, in entry order.
pub open spec fn packed_bits(ids: Seq<u64>, nbits: nat) -> Seq<bool> {
    Seq::new(ids.len() * nbits, |k: int| bit_of(ids[k / nbits as int] as nat, (k % nbits as int) as nat))
}

/// The 64 bits of the stream `s` that fall into word `j`, zero-padded past
/// the end of the stream.
pub open spec fn word_bits(s: Seq<bool>, j: int) -> Seq<bool> {
    Seq::new(64, |b: int| if j * 64 + b < s.len() { s[j * 64 + b] } else { false })
}

/// The value of word `j` of the packed form of the stream `s`.
pub open spec fn word_of(s: Seq<bool>, j: int) -> nat {
    val_of_bits(word_bits(s, j))
}

/// How many 64-bit words a stream of `len` bits needs.
pub open spec fn word_count(len: int) -> int {
    (len + 63) / 64
}

/// The continuous bit stream held by a word sequence, low bit of each word
/// first.
pub open spec fn stream_of_words(words: Seq<u64>) -> Seq<bool> {
    Seq::new(words.len() * 64, |k: int| bit_of(words[k / 64] as nat, (k % 64) as nat))
}

/// The value of chunk `i` when the stream of `words` is sliced into
/// `nbits`-wide chunks, low bit of each chunk first.
pub open spec fn chunk_val(words: Seq<u64>, nbits: nat, i: int) -> nat {
    val_of_bits(stream_of_words(words).subrange(i * nbits, i * nbits + nbits))
}

/// The whole packed word sequence of `ids`: the packed bit stream of
/// `ids`, chopped into as many 64-bit words as it needs.
pub open spec fn packed_words(ids: Seq<u64>, nbits: nat) -> Seq<u64> {
    Seq::new(
        word_count((ids.len() * nbits) as int) as nat,
        |j: int| word_of(packed_bits(ids, nbits), j) as u64,
    )
}

/// A bit sequence's value is below `2^len`.
pub proof fn lemma_val_of_bits_bound(s: Seq<bool>)
    ensures
        val_of_bits(s) < pow2(s.len()),
    decreases s.len(),
{
    if s.len() == 0 {
        assert(pow2(0) == 1) by {
            lemma2_to64();
        }
    } else {
        lemma_val_of_bits_bound(s.skip(1));
        lemma_pow2_unfold(s.len());
    }
}

/// Reading a bit back out of a bit sequence's value gives the sequence
/// element.
pub proof fn lemma_bit_of_val_of_bits(s: Seq<bool>, b: nat)
    requires
        b < s.len(),
    ensures
        bit_of(val_of_bits(s), b) == s[b as int],
    decreases b,
{
    let v = val_of_bits(s);
    let lo: nat = if s[0] {
        1nat
    } else {
        0nat
    };
    let t = val_of_bits(s.skip(1));
    assert(v == lo + 2 * t);
    if b == 0 {
        assert(pow2(0) == 1) by {
            lemma2_to64();
        }
        assert(v / pow2(0) == v) by {
            vstd::arithmetic::div_mod::lemma_div_basics_1(v as int);
        }
        assert(v % 2 == lo) by {
            lemma_fundamental_div_mod_converse_mod(v as int, 2, t as int, lo as int);
        }
    } else {
        assert(v / 2 == t) by {
            lemma_fundamental_div_mod_converse_div(v as int, 2, t as int, lo as int);
        }
        assert(v / pow2(b) == t / pow2((b - 1) as nat)) by {
            lemma_pow2_pos((b - 1) as nat);
            lemma_div_denominator(v as int, 2, pow2((b - 1) as nat) as int);
            lemma_pow2_unfold(b);
        }
        lemma_bit_of_val_of_bits(s.skip(1), (b - 1) as nat);
        assert(s.skip(1)[b - 1] == s[b as int]);
    }
}

/// Recombining the low `n` bits of a value below `2^n` gives the value back.
pub proof fn lemma_val_of_bits_of_val(v: nat, n: nat)
    requires
        v < pow2(n),
    ensures
        val_of_bits(bits_of_val(v, n)) == v,
    decreases n,
{
    let s = bits_of_val(v, n);
    if n == 0 {
        assert(pow2(0) == 1) by {
            lemma2_to64();
        }
    } else {
        let h = v / 2;
        assert(h < pow2((n - 1) as nat)) by {
            lemma_pow2_unfold(n);
            lemma_fundamental_div_mod(v as int, 2);
        }
        lemma_val_of_bits_of_val(h, (n - 1) as nat);
        assert(s.skip(1) =~= bits_of_val(h, (n - 1) as nat)) by {
            assert forall|b: int| 0 <= b < n - 1 implies s.skip(1)[b] == bit_of(h, b as nat) by {
                assert(s.skip(1)[b] == bit_of(v, (b + 1) as nat));
                assert(v / pow2((b + 1) as nat) == h / pow2(b as nat)) by {
                    lemma_pow2_pos(b as nat);
                    lemma_div_denominator(v as int, 2, pow2(b as nat) as int);
                    lemma_pow2_unfold((b + 1) as nat);
                }
            }
        }
        assert(s[0] == bit_of(v, 0));
        assert(pow2(0) == 1) by {
            lemma2_to64();
        }
        assert(v / pow2(0) == v) by {
            vstd::arithmetic::div_mod::lemma_div_basics_1(v as int);
        }
        assert(v == (if s[0] {
            1nat
        } else {
            0nat
        }) + 2 * h) by {
            lemma_fundamental_div_mod(v as int, 2);
        }
    }
}

/// Within the packed range, the bit stream read back from the packed words
/// is the bit stream that was packed.
pub proof fn lemma_stream_of_packed_words(ids: Seq<u64>, nbits: nat, words: Seq<u64>)
    requires
        1 <= nbits,
        words.len() == word_count((ids.len() * nbits) as int),
        forall|j: int| 0 <= j < words.len() ==> words[j] == word_of(packed_bits(ids, nbits), j),
    ensures
        ids.len() * nbits <= words.len() * 64,
        forall|k: int|
            0 <= k < ids.len() * nbits ==> stream_of_words(words)[k] == packed_bits(ids, nbits)[k],
{
    let pb = packed_bits(ids, nbits);
    let len = (ids.len() * nbits) as int;
    assert(words.len() * 64 >= len) by {
        lemma_fundamental_div_mod(len + 63, 64);
    }
    assert forall|k: int| 0 <= k < len implies stream_of_words(words)[k] == pb[k] by {
        let j = k / 64;
        let b = k % 64;
        lemma_fundamental_div_mod(k, 64);
        assert(0 <= j && 0 <= b < 64);
        assert(j < words.len()) by {
            vstd::arithmetic::div_mod::lemma_multiply_divide_lt(k, 64, words.len() as int);
        }
        assert(stream_of_words(words)[k] == bit_of(words[j] as nat, b as nat));
        assert(words[j] == val_of_bits(word_bits(pb, j)));
        lemma_bit_of_val_of_bits(word_bits(pb, j), b as nat);
        assert(word_bits(pb, j)[b] == pb[j * 64 + b]);
        assert(j * 64 + b == k);
    }
}

/// Packing then re-chunking reads every index back unchanged: the round
/// trip at the heart of the codec. The law holds for any index sequence
/// whose entries fit in the chunk width.
pub proof fn lemma_pack_roundtrip(ids: Seq<u64>, nbits: nat, words: Seq<u64>)
    requires
        1 <= nbits <= 64,
        forall|i: int| 0 <= i < ids.len() ==> ids[i] < pow2(nbits),
        words.len() == word_count((ids.len() * nbits) as int),
        forall|j: int| 0 <= j < words.len() ==> words[j] == word_of(packed_bits(ids, nbits), j),
    ensures
        forall|i: int| 0 <= i < ids.len() ==> chunk_val(words, nbits, i) == ids[i],
{
    let pb = packed_bits(ids, nbits);
    let sw = stream_of_words(words);
    lemma_stream_of_packed_words(ids, nbits, words);
    assert forall|i: int| 0 <= i < ids.len() implies chunk_val(words, nbits, i) == ids[i] by {
        assert((i + 1) * nbits == i * nbits + nbits) by {
            vstd::arithmetic::mul::lemma_mul_is_distributive_add_other_way(nbits as int, i, 1);
        }
        assert((i + 1) * nbits <= ids.len() * nbits) by {
            vstd::arithmetic::mul::lemma_mul_inequality(i + 1, ids.len() as int, nbits as int);
        }
        assert(0 <= i * nbits) by {
            vstd::arithmetic::mul::lemma_mul_nonnegative(i, nbits as int);
        }
        let chunk = sw.subrange(i * nbits, i * nbits + nbits);
        assert(chunk =~= bits_of_val(ids[i] as nat, nbits)) by {
            assert forall|b: int| 0 <= b < nbits implies chunk[b] == bit_of(ids[i] as nat, b as nat) by {
                let k = i * nbits + b;
                assert(chunk[b] == sw[k]);
                assert(sw[k] == pb[k]);
                assert(k / (nbits as int) == i && k % (nbits as int) == b) by {
                    lemma_fundamental_div_mod_converse_div(k, nbits as int, i, b);
                    lemma_fundamental_div_mod_converse_mod(k, nbits as int, i, b);
                }
                assert(pb[k] == bit_of(ids[k / (nbits as int)] as nat, (k % (nbits as int)) as nat));
            }
        }
        lemma_val_of_bits_of_val(ids[i] as nat, nbits);
    }
}

/// Every entry of the packed word sequence is the value of its word of
/// the packed bit stream: the value fits, so no truncation occurs.
pub proof fn lemma_packed_words_are_words(ids: Seq<u64>, nbits: nat)
    requires
        1 <= nbits,
    ensures
        packed_words(ids, nbits).len() == word_count((ids.len() * nbits) as int),
        forall|j: int|
            0 <= j < packed_words(ids, nbits).len() ==> packed_words(ids, nbits)[j] == word_of(
                packed_bits(ids, nbits),
                j,
            ),
{
    let pb = packed_bits(ids, nbits);
    assert forall|j: int|
        0 <= j < packed_words(ids, nbits).len() implies packed_words(ids, nbits)[j] == word_of(
        pb,
        j,
    ) by {
        lemma_val_of_bits_bound(word_bits(pb, j));
        assert(word_bits(pb, j).len() == 64);
        assert(pow2(64) == 0x10000000000000000) by {
            lemma2_to64();
        }
    }
}

/// The codec round trip: packing an index sequence into words and slicing
/// the words back into chunks reads every index back unchanged, for any
/// width the indices fit in.
pub proof fn lemma_codec_roundtrip(ids: Seq<u64>, nbits: nat)
    requires
        1 <= nbits <= 64,
        forall|i: int| 0 <= i < ids.len() ==> ids[i] < pow2(nbits),
    ensures
        forall|i: int|
            0 <= i < ids.len() ==> chunk_val(packed_words(ids, nbits), nbits, i) == ids[i],
{
    lemma_packed_words_are_words(ids, nbits);
    lemma_pack_roundtrip(ids, nbits, packed_words(ids, nbits));
}

/// The smallest width of at least `n` bits whose range covers a palette of
/// `len` entries.
pub open spec fn bpe_from(len: nat, n: nat) -> nat
    decreases (if len <= pow2(n) {
        0int
    } else {
        len - pow2(n)
    })
    via bpe_from_dec
{
    if pow2(n) >= len {
        n
    } else {
        bpe_from(len, n + 1)
    }
}

#[via_fn]
proof fn bpe_from_dec(len: nat, n: nat) {
    lemma_pow2_strictly_increases(n, n + 1);
}

/// How many bits each packed palette index uses: the smallest `n >= 2` with
/// `2^n >= len`. The width never drops below 2, even for palettes of up to
/// 4 entries.
pub open spec fn spec_bits_per_entry(len: nat) -> nat {
    bpe_from(len, 2)
}

proof fn lemma_bpe_from(len: nat, n: nat)
    ensures
        n <= bpe_from(len, n),
        pow2(bpe_from(len, n)) >= len,
        forall|m: nat| n <= m < bpe_from(len, n) ==> pow2(m) < len,
    decreases (if len <= pow2(n) {
        0int
    } else {
        len - pow2(n)
    }),
{
    if pow2(n) < len {
        lemma_pow2_strictly_increases(n, n + 1);
        lemma_bpe_from(len, n + 1);
        assert forall|m: nat| n <= m < bpe_from(len, n) implies pow2(m) < len by {
            if m > n {
                assert(pow2(m) < len);
            }
        }
    }
}

/// The packed width for a palette of `len` entries is at least 2, covers
/// `len`, and no smaller width of at least 2 does: it is the unique minimal
/// such width.
pub proof fn lemma_bits_per_entry_minimal(len: nat)
    ensures
        2 <= spec_bits_per_entry(len),
        pow2(spec_bits_per_entry(len)) >= len,
        forall|m: nat| 2 <= m < spec_bits_per_entry(len) ==> pow2(m) < len,
        forall|n: nat|
            (2 <= n && pow2(n) >= len && (forall|m: nat| 2 <= m < n ==> pow2(m) < len)) ==> n
                == spec_bits_per_entry(len),
{
    lemma_bpe_from(len, 2);
    let r = spec_bits_per_entry(len);
    assert forall|n: nat|
        (2 <= n && pow2(n) >= len && (forall|m: nat| 2 <= m < n ==> pow2(m) < len)) implies n
        == r by {
        if n < r {
            assert(pow2(n) < len);
        }
        if r < n {
            assert(pow2(r) < len);
        }
    }
}

/// The packed width for a palette of `len` entries, computed by widening
/// from 2 bits until the range covers the palette.
#[verifier::loop_isolation(false)]
pub fn num_bits(len: usize) -> (r: usize)
    ensures
        r == spec_bits_per_entry(len as nat),
        2 <= r <= 64,
{
    proof {
        lemma2_to64();
        assert(usize::MAX < pow2(64));
    }
    let mut n: usize = 2;
    let mut p: u128 = 4;
    proof {
        assert(pow2(2) == 4) by {
            lemma2_to64();
        }
    }
    while p < len as u128
        invariant
            2 <= n <= 64,
            p == pow2(n as nat),
            spec_bits_per_entry(len as nat) == bpe_from(len as nat, n as nat),
        decreases 64 - n,
    {
        proof {
            if n >= 64 {
                lemma_pow2_strictly_increases(64, n as nat);
                assert(false);
            }
        }
        n = n + 1;
        p = p * 2;
        proof {
            lemma_pow2_unfold(n as nat);
        }
    }
    n
}

/// Pack every entry's low `nbits` bits into a continuous bit stream and
/// chop the stream into 64-bit words, zero-padding the final word.
#[verifier::loop_isolation(false)]
pub fn pack(ids: &Vec<u64>, nbits: usize) -> (r: Vec<u64>)
    requires
        1 <= nbits <= 64,
        ids@.len() * nbits + 63 <= usize::MAX,
    ensures
        r@.len() == word_count((ids@.len() * nbits) as int),
        forall|j: int| 0 <= j < r@.len() ==> r@[j] == word_of(packed_bits(ids@, nbits as nat), j),
        r@ == packed_words(ids@, nbits as nat),
{
    let ghost pb = packed_bits(ids@, nbits as nat);
    let mut bits: Vec<bool> = Vec::new();
    let mut i: usize = 0;
    while i < ids.len()
        invariant
            0 <= i <= ids@.len(),
            bits@.len() == i * nbits,
            forall|k: int| 0 <= k < bits@.len() ==> bits@[k] == pb[k],
        decreases ids@.len() - i,
    {
        proof {
            vstd::arithmetic::mul::lemma_mul_inequality(i + 1, ids@.len() as int, nbits as int);
            vstd::arithmetic::mul::lemma_mul_is_distributive_add_other_way(nbits as int, i as int, 1);
        }
        let mut v: u64 = ids[i];
        let mut b: usize = 0;
        proof {
            assert(pow2(0) == 1) by {
                lemma2_to64();
            }
            vstd::arithmetic::div_mod::lemma_div_basics_1(ids@[i as int] as int);
        }
        while b < nbits
            invariant
                0 <= b <= nbits,
                v as nat == ids@[i as int] as nat / pow2(b as nat),
                bits@.len() == i * nbits + b,
                forall|k: int| 0 <= k < bits@.len() ==> bits@[k] == pb[k],
        decreases nbits - b,
        {
            bits.push(v % 2 == 1);
            proof {
                let k = (i * nbits + b) as int;
                assert(k / (nbits as int) == i && k % (nbits as int) == b) by {
                    lemma_fundamental_div_mod_converse_div(k, nbits as int, i as int, b as int);
                    lemma_fundamental_div_mod_converse_mod(k, nbits as int, i as int, b as int);
                }
                assert(pb[k] == bit_of(ids@[i as int] as nat, b as nat));
                assert(bits@[k] == (v % 2 == 1));
            }
            v = v / 2;
            proof {
                lemma_pow2_pos(b as nat);
                lemma_div_denominator(ids@[i as int] as int, pow2(b as nat) as int, 2);
                lemma_pow2_unfold((b + 1) as nat);
            }
            b = b + 1;
        }
        i = i + 1;
    }
    assert(bits@ =~= pb);
    let nwords = (bits.len() + 63) / 64;
    let mut words: Vec<u64> = Vec::new();
    let mut j: usize = 0;
    proof {
        lemma2_to64();
    }
    while j < nwords
        invariant
            0 <= j <= nwords,
            words@.len() == j,
            forall|jj: int| 0 <= jj < j ==> words@[jj] == word_of(pb, jj),
        decreases nwords - j,
    {
        let ghost wb = word_bits(pb, j as int);
        let mut w: u64 = 0;
        let mut b: usize = 64;
        assert(wb.skip(64) =~= Seq::<bool>::empty());
        while b > 0
            invariant
                0 <= b <= 64,
                w as nat == val_of_bits(wb.skip(b as int)),
        decreases b,
        {
            b = b - 1;
            proof {
                lemma_val_of_bits_bound(wb.skip(b as int + 1));
                assert(wb.skip(b as int + 1).len() == 63 - b);
                if b > 0 {
                    lemma_pow2_strictly_increases((63 - b) as nat, 63);
                }
                assert(w < pow2(63));
                assert(pow2(63) == 0x8000000000000000) by {
                    vstd::arithmetic::power2::lemma2_to64_rest();
                }
            }
            let k = j * 64 + b;
            let bitv = if k < bits.len() {
                bits[k]
            } else {
                false
            };
            assert(bitv == wb[b as int]);
            w = w * 2 + (if bitv {
                1
            } else {
                0
            });
            proof {
                assert(wb.skip(b as int).skip(1) =~= wb.skip(b as int + 1));
                assert(wb.skip(b as int)[0] == wb[b as int]);
            }
        }
        assert(wb.skip(0) =~= wb);
        words.push(w);
        j = j + 1;
    }
    proof {
        lemma_packed_words_are_words(ids@, nbits as nat);
        assert(words@ =~= packed_words(ids@, nbits as nat));
    }
    words
}

/// Read the continuous bit stream back out of `words` and slice it into
/// `count` chunks of `nbits` bits each, low bit of each chunk first.
#[verifier::loop_isolation(false)]
pub fn unpack(words: &Vec<u64>, nbits: usize, count: usize) -> (r: Vec<u64>)
    requires
        1 <= nbits <= 64,
        count * nbits <= words@.len() * 64,
        words@.len() * 64 <= usize::MAX,
    ensures
        r@.len() == count,
        forall|i: int| 0 <= i < count ==> r@[i] == chunk_val(words@, nbits as nat, i),
{
    let ghost sw = stream_of_words(words@);
    let mut bits: Vec<bool> = Vec::new();
    let mut j: usize = 0;
    while j < words.len()
        invariant
            0 <= j <= words@.len(),
            bits@.len() == j * 64,
            forall|k: int| 0 <= k < bits@.len() ==> bits@[k] == sw[k],
        decreases words@.len() - j,
    {
        proof {
            vstd::arithmetic::mul::lemma_mul_inequality(j + 1, words@.len() as int, 64);
            vstd::arithmetic::mul::lemma_mul_is_distributive_add_other_way(64, j as int, 1);
        }
        let mut v: u64 = words[j];
        let mut b: usize = 0;
        proof {
            assert(pow2(0) == 1) by {
                lemma2_to64();
            }
            vstd::arithmetic::div_mod::lemma_div_basics_1(words@[j as int] as int);
        }
        while b < 64
            invariant
                0 <= b <= 64,
                v as nat == words@[j as int] as nat / pow2(b as nat),
                bits@.len() == j * 64 + b,
                forall|k: int| 0 <= k < bits@.len() ==> bits@[k] == sw[k],
        decreases 64 - b,
        {
            bits.push(v % 2 == 1);
            proof {
                let k = (j * 64 + b) as int;
                assert(k / 64 == j && k % 64 == b) by {
                    lemma_fundamental_div_mod_converse_div(k, 64, j as int, b as int);
                    lemma_fundamental_div_mod_converse_mod(k, 64, j as int, b as int);
                }
                assert(sw[k] == bit_of(words@[j as int] as nat, b as nat));
            }
            v = v / 2;
            proof {
                lemma_pow2_pos(b as nat);
                lemma_div_denominator(words@[j as int] as int, pow2(b as nat) as int, 2);
                lemma_pow2_unfold((b + 1) as nat);
            }
            b = b + 1;
        }
        j = j + 1;
    }
    assert(bits@ =~= sw);
    let mut out: Vec<u64> = Vec::new();
    let mut i: usize = 0;
    proof {
        lemma2_to64();
    }
    while i < count
        invariant
            0 <= i <= count,
            out@.len() == i,
            forall|ii: int| 0 <= ii < i ==> out@[ii] == chunk_val(words@, nbits as nat, ii),
        decreases count - i,
    {
        proof {
            vstd::arithmetic::mul::lemma_mul_inequality(i + 1, count as int, nbits as int);
            vstd::arithmetic::mul::lemma_mul_is_distributive_add_other_way(nbits as int, i as int, 1);
            vstd::arithmetic::mul::lemma_mul_nonnegative(i as int, nbits as int);
        }
        let ghost chunk = sw.subrange((i * nbits) as int, (i * nbits + nbits) as int);
        let mut w: u64 = 0;
        let mut b: usize = nbits;
        assert(chunk.skip(nbits as int) =~= Seq::<bool>::empty());
        while b > 0
            invariant
                0 <= b <= nbits,
                w as nat == val_of_bits(chunk.skip(b as int)),
        decreases b,
        {
            b = b - 1;
            proof {
                lemma_val_of_bits_bound(chunk.skip(b as int + 1));
                assert(chunk.skip(b as int + 1).len() == nbits - 1 - b);
                if nbits - 1 - b < 63 {
                    lemma_pow2_strictly_increases((nbits - 1 - b) as nat, 63);
                }
                assert(w < pow2(63));
                assert(pow2(63) == 0x8000000000000000) by {
                    vstd::arithmetic::power2::lemma2_to64_rest();
                }
            }
            let k = i * nbits + b;
            let bitv = bits[k];
            assert(bitv == chunk[b as int]);
            w = w * 2 + (if bitv {
                1
            } else {
                0
            });
            proof {
                assert(chunk.skip(b as int).skip(1) =~= chunk.skip(b as int + 1));
                assert(chunk.skip(b as int)[0] == chunk[b as int]);
            }
        }
        assert(chunk.skip(0) =~= chunk);
        out.push(w);
        i = i + 1;
    }
    out
}

} // verus!
