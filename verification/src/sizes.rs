//! Planning helpers for the sequential local file benchmark that the
//! looping client mode interleaves with its network runs: which file sizes
//! to test, and how a file of a given size is written in fixed chunks.

use vstd::prelude::*;

use vstd::arithmetic::div_mod::lemma_fundamental_div_mod;
use vstd::arithmetic::power2::lemma2_to64;
use vstd::arithmetic::power2::lemma_pow2_strictly_increases;
use vstd::arithmetic::power2::lemma_pow2_unfold;
use vstd::arithmetic::power2::pow2;

verus! {

/// The chunk size of the local file benchmark: one mebibyte per write.
pub const FILE_BUFFER_SIZE: usize = 1024 * 1024;

/// The exponent of the largest power of two that is at most `n`.
pub open spec fn floor_log2(n: nat) -> nat
    decreases n,
{
    if n < 2 {
        0
    } else {
        1 + floor_log2(n / 2)
    }
}

/// The file sizes the looping client tests for a configured maximum: every
/// power of two from 4 KiB up to the maximum, and the maximum itself when
/// it is not the last of those powers.
pub open spec fn spec_test_sizes(max_size: usize) -> Seq<usize> {
    let e = floor_log2(max_size as nat);
    let powers = Seq::new((e - 11) as nat, |i: int| pow2((12 + i) as nat) as usize);
    if pow2(e) == max_size as nat {
        powers
    } else {
        powers.push(max_size)
    }
}

proof fn lemma_floor_log2(k: nat, n: nat)
    requires
        pow2(k) <= n < pow2(k + 1),
    ensures
        floor_log2(n) == k,
    decreases k,
{
    lemma_pow2_unfold(k + 1);
    if k == 0 {
        lemma2_to64();
    } else {
        lemma_pow2_unfold(k);
        if k > 1 {
            lemma_pow2_strictly_increases(1, k);
        }
        lemma2_to64();
        assert(n >= 2);
        lemma_fundamental_div_mod(n as int, 2);
        lemma_floor_log2((k - 1) as nat, n / 2);
    }
}

/// The file sizes the looping client tests: powers of two from 4 KiB up to
/// `max_size`, with `max_size` itself appended when it is not already the
/// last power in the list.
pub fn generate_test_sizes(max_size: usize) -> (r: Vec<usize>)
    requires
        max_size >= 4096,
    ensures
        r@ == spec_test_sizes(max_size),
{
    proof {
        lemma2_to64();
    }
    let mut sizes: Vec<usize> = Vec::new();
    sizes.push(4096);
    let mut p: usize = 4096;
    while p <= max_size / 2
        invariant
            max_size >= 4096,
            1 <= sizes@.len(),
            4096 <= p,
            p == pow2((11 + sizes@.len()) as nat),
            p <= max_size,
            forall|i: int|
                0 <= i < sizes@.len() ==> sizes@[i] == pow2((12 + i) as nat) as usize,
        decreases max_size - p,
    {
        proof {
            lemma_pow2_unfold((12 + sizes@.len()) as nat);
            lemma_fundamental_div_mod(max_size as int, 2);
        }
        p = p * 2;
        sizes.push(p);
    }
    proof {
        let len = sizes@.len();
        lemma_fundamental_div_mod(max_size as int, 2);
        assert(max_size < 2 * p);
        lemma_pow2_unfold((12 + len) as nat);
        assert(pow2((12 + len) as nat) == 2 * pow2((11 + len) as nat));
        lemma_floor_log2((11 + len) as nat, max_size as nat);
        let e = floor_log2(max_size as nat);
        assert(e == 11 + len);
        assert(sizes@ =~= Seq::new((e - 11) as nat, |i: int| pow2((12 + i) as nat) as usize));
    }
    if p != max_size {
        sizes.push(max_size);
        proof {
            assert(sizes@ =~= spec_test_sizes(max_size));
        }
    }
    sizes
}

/// How a file of `size_in_bytes` is written with a fixed one-mebibyte
/// buffer: so many full chunks, then the remainder — together exactly the
/// requested size.
pub fn file_write_plan(size_in_bytes: usize) -> (r: (usize, usize))
    ensures
        r.0 == size_in_bytes as int / FILE_BUFFER_SIZE as int,
        r.1 == size_in_bytes as int % FILE_BUFFER_SIZE as int,
        r.0 * FILE_BUFFER_SIZE + r.1 == size_in_bytes,
        r.1 < FILE_BUFFER_SIZE,
{
    let full_chunks = size_in_bytes / FILE_BUFFER_SIZE;
    let remainder = size_in_bytes % FILE_BUFFER_SIZE;
    proof {
        lemma_fundamental_div_mod(size_in_bytes as int, FILE_BUFFER_SIZE as int);
    }
    (full_chunks, remainder)
}

} // verus!
