use vstd::prelude::*;

verus! {

/// Where the chunk `index` of an input of `total_size` bytes starts when the
/// input is cut into `parts` chunks of equal size.
pub open spec fn chunk_start(total_size: nat, parts: nat, index: nat) -> nat
    recommends
        parts > 0,
        index < parts,
{
    index * (total_size / parts)
}

/// Where the chunk `index` ends: where the next one starts, or at the end of
/// the input for the last chunk, which takes what the division leaves over.
pub open spec fn chunk_end(total_size: nat, parts: nat, index: nat) -> nat
    recommends
        parts > 0,
        index < parts,
{
    if index + 1 == parts {
        total_size
    } else {
        (index + 1) * (total_size / parts)
    }
}

/// The size of each chunk when every reader takes a chunk of the same size
/// and none takes less than one byte.
pub open spec fn even_chunk_size(total_size: nat, parts: nat) -> nat
    recommends
        parts > 0,
{
    if total_size / parts >= 1 {
        total_size / parts
    } else {
        1
    }
}

/// The chunks cover the input from its first byte to its last, one after the
/// other and in order.
pub proof fn lemma_chunks_tile(total_size: nat, parts: nat, index: nat)
    requires
        parts > 0,
        index < parts,
    ensures
        chunk_start(total_size, parts, 0) == 0,
        chunk_start(total_size, parts, index) <= chunk_end(total_size, parts, index) <= total_size,
        index + 1 < parts ==> chunk_end(total_size, parts, index) == chunk_start(
            total_size,
            parts,
            index + 1,
        ),
        index + 1 == parts ==> chunk_end(total_size, parts, index) == total_size,
{
    let size: nat = total_size / parts;
    assert(size * parts <= total_size) by {
        vstd::arithmetic::div_mod::lemma_fundamental_div_mod(total_size as int, parts as int);
    }
    assert((index + 1) * size <= parts * size) by (nonlinear_arith)
        requires
            index + 1 <= parts,
            size >= 0,
    ;
    assert(index * size <= (index + 1) * size) by (nonlinear_arith)
        requires
            size >= 0,
            index >= 0,
    ;
    assert(parts * size == size * parts) by (nonlinear_arith);
}

/// The bounds of the chunk `index` among `parts` chunks of an input of
/// `total_size` bytes: where it starts and where it ends.
pub fn chunk_bounds(total_size: usize, parts: usize, index: usize) -> (r: (usize, usize))
    requires
        parts > 0,
        index < parts,
    ensures
        r.0 == chunk_start(total_size as nat, parts as nat, index as nat),
        r.1 == chunk_end(total_size as nat, parts as nat, index as nat),
        r.0 <= r.1 <= total_size,
{
    let chunk_size: usize = total_size / parts;
    proof {
        lemma_chunks_tile(total_size as nat, parts as nat, index as nat);
        assert(index * chunk_size <= (index + 1) * chunk_size) by (nonlinear_arith)
            requires
                chunk_size >= 0,
                index >= 0,
        ;
        if index + 1 < parts {
            lemma_chunks_tile(total_size as nat, parts as nat, (index + 1) as nat);
        } else {
            assert(index * chunk_size <= total_size);
        }
    }
    let start: usize = index * chunk_size;
    let end: usize = if index == parts - 1 {
        total_size
    } else {
        (index + 1) * chunk_size
    };
    (start, end)
}

/// The size of the chunk that each of `parts` readers takes: an equal share
/// of the input, and never less than one byte.
pub fn chunk_size(total_size: u64, parts: u64) -> (r: u64)
    requires
        parts > 0,
    ensures
        r == even_chunk_size(total_size as nat, parts as nat),
        r >= 1,
{
    let share: u64 = total_size / parts;
    if share >= 1 {
        share
    } else {
        1
    }
}

} // verus!
