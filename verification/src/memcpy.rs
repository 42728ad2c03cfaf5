//! Single-worker copies within linear memory.

use vstd::prelude::*;

verus! {

/// Memory can be accessed at any alignment.
pub const UNALIGNED_ACCESS_IS_OK: bool = true;

/// Whether the regions of a copy lie within the memory.
pub open spec fn regions_in_memory(memory: Seq<u8>, src: usize, dst: usize, count: usize) -> bool {
    &&& src + count <= memory.len()
    &&& dst + count <= memory.len()
}

/// The memory with `count` bytes from `src` copied to `dst`, as if by way of
/// somewhere else.
pub open spec fn copied(memory: Seq<u8>, src: usize, dst: usize, count: usize) -> Seq<u8> {
    Seq::new(
        memory.len(),
        |i: int|
            if dst <= i < dst + count {
                memory[i - dst + src]
            } else {
                memory[i]
            },
    )
}

/// Copies `count` bytes from `src` to `dst`. The regions do not overlap.
pub fn unordered_memcpy_down_unsynchronized(
    memory: &mut Vec<u8>,
    src: usize,
    dst: usize,
    count: usize,
)
    requires
        regions_in_memory(old(memory)@, src, dst, count),
        src + count <= dst || dst + count <= src,
    ensures
        final(memory)@ == copied(old(memory)@, src, dst, count),
{
    copy_forwards(memory, src, dst, count);
}

/// Copies `count` bytes from `src` to `dst`. The regions may overlap.
pub fn unordered_memcpy_up_unsynchronized(
    memory: &mut Vec<u8>,
    src: usize,
    dst: usize,
    count: usize,
)
    requires
        regions_in_memory(old(memory)@, src, dst, count),
    ensures
        final(memory)@ == copied(old(memory)@, src, dst, count),
{
    if dst <= src {
        copy_forwards(memory, src, dst, count);
    } else {
        copy_backwards(memory, src, dst, count);
    }
}

/// Copies from the first byte to the last.
fn copy_forwards(memory: &mut Vec<u8>, src: usize, dst: usize, count: usize)
    requires
        regions_in_memory(old(memory)@, src, dst, count),
        dst <= src || src + count <= dst,
    ensures
        final(memory)@ == copied(old(memory)@, src, dst, count),
{
    let ghost before = memory@;
    let length: usize = memory.len();
    let mut i: usize = 0;
    while i < count
        invariant
            i <= count,
            regions_in_memory(before, src, dst, count),
            dst <= src || src + count <= dst,
            length == before.len(),
            memory@.len() == before.len(),
            forall|j: int|
                0 <= j < before.len() ==> #[trigger] memory@[j] == (if dst <= j < dst + i {
                    before[j - dst + src]
                } else {
                    before[j]
                }),
        decreases count - i,
    {
        let byte: u8 = memory[src + i];
        memory.set(dst + i, byte);
        i = i + 1;
    }
    assert(memory@ =~= copied(before, src, dst, count));
}

/// Copies from the last byte to the first.
fn copy_backwards(memory: &mut Vec<u8>, src: usize, dst: usize, count: usize)
    requires
        regions_in_memory(old(memory)@, src, dst, count),
        src <= dst,
    ensures
        final(memory)@ == copied(old(memory)@, src, dst, count),
{
    let ghost before = memory@;
    let length: usize = memory.len();
    let mut i: usize = count;
    while i > 0
        invariant
            i <= count,
            regions_in_memory(before, src, dst, count),
            src <= dst,
            length == before.len(),
            memory@.len() == before.len(),
            forall|j: int|
                0 <= j < before.len() ==> #[trigger] memory@[j] == (if dst + i <= j < dst + count {
                    before[j - dst + src]
                } else {
                    before[j]
                }),
        decreases i,
    {
        i = i - 1;
        let byte: u8 = memory[src + i];
        memory.set(dst + i, byte);
    }
    assert(memory@ =~= copied(before, src, dst, count));
}

/// After a copy the destination holds what the source held, and nothing
/// outside of the destination changed.
pub proof fn lemma_copy_moves_source(memory: Seq<u8>, src: usize, dst: usize, count: usize)
    requires
        regions_in_memory(memory, src, dst, count),
    ensures
        copied(memory, src, dst, count).len() == memory.len(),
        copied(memory, src, dst, count).subrange(dst as int, dst + count) == memory.subrange(
            src as int,
            src + count,
        ),
        forall|i: int|
            0 <= i < memory.len() && !(dst <= i < dst + count) ==> #[trigger] copied(
                memory,
                src,
                dst,
                count,
            )[i] == memory[i],
{
    assert(copied(memory, src, dst, count).subrange(dst as int, dst + count) =~= memory.subrange(
        src as int,
        src + count,
    ));
}

/// Both copies put what the source held before into the destination, however the
/// regions lie, and change nothing outside of the destination.
pub proof fn law_copies(
    down: &mut Vec<u8>,
    up: &mut Vec<u8>,
    src: usize,
    dst: usize,
    count: usize,
)
    requires
        src + count <= old(down)@.len(),
        dst + count <= old(down)@.len(),
        src + count <= old(up)@.len(),
        dst + count <= old(up)@.len(),
        call_ensures(unordered_memcpy_down_unsynchronized, (down, src, dst, count), ()),
        call_ensures(unordered_memcpy_up_unsynchronized, (up, src, dst, count), ()),
    ensures
        final(down)@.len() == old(down)@.len(),
        final(up)@.len() == old(up)@.len(),
        final(down)@.subrange(dst as int, dst + count) == old(down)@.subrange(
            src as int,
            src + count,
        ),
        final(up)@.subrange(dst as int, dst + count) == old(up)@.subrange(src as int, src + count),
        forall|i: int|
            0 <= i < old(down)@.len() && !(dst <= i < dst + count) ==> #[trigger] final(down)@[i]
                == old(down)@[i],
        forall|i: int|
            0 <= i < old(up)@.len() && !(dst <= i < dst + count) ==> #[trigger] final(up)@[i]
                == old(up)@[i],
{
    lemma_copy_moves_source(old(down)@, src, dst, count);
    lemma_copy_moves_source(old(up)@, src, dst, count);
}

} // verus!
