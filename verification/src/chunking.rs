//! The chunk model shared by both transfer engines: the sizes of the
//! pieces a stable byte source of known length yields under full reads of
//! a fixed size.

use vstd::prelude::*;

verus! {

/// The piece sizes of `total` bytes consumed `size` bytes at a time: full
/// pieces, then the remainder.
pub open spec fn full_chunk_sizes(total: u64, size: u64) -> Seq<u64>
    decreases total,
    when size > 0
{
    if total == 0 {
        Seq::empty()
    } else if total <= size {
        seq![total]
    } else {
        seq![size] + full_chunk_sizes((total - size) as u64, size)
    }
}

/// Sum of a byte-count sequence.
pub open spec fn sum64(s: Seq<u64>) -> int
    decreases s.len(),
{
    if s.len() == 0 {
        0
    } else {
        sum64(s.drop_last()) + s.last()
    }
}

/// The pieces sum to the whole, there are none exactly for an empty
/// source, and their count is the total divided by the size, rounded up.
pub proof fn lemma_full_chunks_total(total: u64, size: u64)
    requires
        size > 0,
    ensures
        sum64(full_chunk_sizes(total, size)) == total,
        total == 0 <==> full_chunk_sizes(total, size).len() == 0,
        full_chunk_sizes(total, size).len() == (total + size - 1) / (size as int),
    decreases total,
{
    if total == 0 {
        vstd::arithmetic::div_mod::lemma_basic_div((size - 1) as int, size as int);
    } else if total <= size {
        let s = full_chunk_sizes(total, size);
        assert(s =~= seq![total]);
        assert(s.last() == total);
        assert(s.drop_last() =~= Seq::<u64>::empty());
        assert(sum64(s) == sum64(s.drop_last()) + total);
        assert((total + size - 1) / (size as int) == 1) by {
            vstd::arithmetic::div_mod::lemma_div_plus_one((total - 1) as int, size as int);
            vstd::arithmetic::div_mod::lemma_basic_div((total - 1) as int, size as int);
        }
    } else {
        lemma_full_chunks_total((total - size) as u64, size);
        let s = full_chunk_sizes(total, size);
        let rest = full_chunk_sizes((total - size) as u64, size);
        lemma_sum64_prepend(size, rest);
        assert((total - size + size - 1) / (size as int) + 1 == (total + size - 1) / (
        size as int)) by {
            vstd::arithmetic::div_mod::lemma_div_plus_one((total - 1) as int, size as int);
        }
    }
}

/// Summing after prepending one element.
proof fn lemma_sum64_prepend(x: u64, s: Seq<u64>)
    ensures
        sum64(seq![x] + s) == x + sum64(s),
    decreases s.len(),
{
    if s.len() == 0 {
        assert(seq![x] + s =~= seq![x]);
        assert(sum64(seq![x]) == sum64(seq![x].drop_last()) + x);
        assert(seq![x].drop_last() =~= Seq::<u64>::empty());
    } else {
        let w = seq![x] + s;
        assert(w.drop_last() =~= seq![x] + s.drop_last());
        lemma_sum64_prepend(x, s.drop_last());
        assert(w.last() == s.last());
    }
}

} // verus!
