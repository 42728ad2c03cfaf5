//! Single-worker access to linear memory.
//!
//! With one owning worker there are no concurrent accesses, so ordinary
//! unaligned reads and writes realize the semantics of array buffers, for the
//! sequentially consistent and the unsynchronized operations alike. Memory is
//! little-endian.

use vstd::prelude::*;

verus! {

/// The number that bytes stand for, least significant byte first.
pub open spec fn le_value(bytes: Seq<u8>) -> nat
    decreases bytes.len(),
{
    if bytes.len() == 0 {
        0
    } else {
        bytes[0] as nat + 256 * le_value(bytes.skip(1))
    }
}

/// The lowest bytes of a number, least significant byte first.
pub open spec fn le_bytes(value: nat, width: nat) -> Seq<u8>
    decreases width,
{
    if width == 0 {
        seq![]
    } else {
        seq![(value % 256) as u8] + le_bytes(value / 256, (width - 1) as nat)
    }
}

/// How many numbers there are of a width in bytes.
pub open spec fn le_limit(width: nat) -> nat
    decreases width,
{
    if width == 0 {
        1
    } else {
        256 * le_limit((width - 1) as nat)
    }
}

/// The number at `offset`.
pub open spec fn value_at(memory: Seq<u8>, offset: usize, width: nat) -> nat {
    le_value(memory.subrange(offset as int, offset + width))
}

/// The memory with other bytes at `offset`.
pub open spec fn bytes_stored(memory: Seq<u8>, offset: usize, bytes: Seq<u8>) -> Seq<u8> {
    Seq::new(
        memory.len(),
        |i: int|
            if offset <= i < offset + bytes.len() {
                bytes[i - offset]
            } else {
                memory[i]
            },
    )
}

/// Whether `width` bytes at `offset` lie within the memory.
pub open spec fn in_memory(memory: Seq<u8>, offset: usize, width: nat) -> bool {
    offset + width <= memory.len()
}

/// A number of `width` bytes is below the limit of that width.
pub proof fn lemma_value_limit(bytes: Seq<u8>)
    ensures
        le_value(bytes) < le_limit(bytes.len()),
    decreases bytes.len(),
{
    if bytes.len() > 0 {
        lemma_value_limit(bytes.skip(1));
    }
}

/// The limits of the widths that operations have.
pub proof fn lemma_limits()
    ensures
        le_limit(1) == 0x100,
        le_limit(2) == 0x1_0000,
        le_limit(4) == 0x1_0000_0000,
        le_limit(7) == 0x100_0000_0000_0000,
        le_limit(8) == 0x1_0000_0000_0000_0000,
{
    reveal_with_fuel(le_limit, 9);
}

/// The bytes of a number stand for it, if they are enough.
pub proof fn lemma_value_of_bytes(value: nat, width: nat)
    requires
        value < le_limit(width),
    ensures
        le_bytes(value, width).len() == width,
        le_value(le_bytes(value, width)) == value,
    decreases width,
{
    if width > 0 {
        let rest = (width - 1) as nat;
        assert(value / 256 < le_limit(rest));
        lemma_value_of_bytes(value / 256, rest);
        assert(le_bytes(value, width).skip(1) =~= le_bytes(value / 256, rest));
    }
}

/// The bytes of the number that bytes stand for are those bytes.
pub proof fn lemma_bytes_of_value(bytes: Seq<u8>)
    ensures
        le_bytes(le_value(bytes), bytes.len()) == bytes,
    decreases bytes.len(),
{
    if bytes.len() > 0 {
        let rest = bytes.skip(1);
        lemma_bytes_of_value(rest);
        let value = le_value(bytes);
        assert(value == bytes[0] as nat + 256 * le_value(rest));
        assert(value % 256 == bytes[0] as nat && value / 256 == le_value(rest));
        assert(le_bytes(value, bytes.len()) =~= bytes);
    }
}

proof fn lemma_bytes_length(value: nat, width: nat)
    ensures
        le_bytes(value, width).len() == width,
    decreases width,
{
    if width > 0 {
        lemma_bytes_length(value / 256, (width - 1) as nat);
    }
}

/// What was stored is what is loaded.
pub proof fn lemma_load_after_store(memory: Seq<u8>, offset: usize, width: nat, value: nat)
    requires
        in_memory(memory, offset, width),
        value < le_limit(width),
    ensures
        value_at(bytes_stored(memory, offset, le_bytes(value, width)), offset, width) == value,
{
    lemma_value_of_bytes(value, width);
    assert(bytes_stored(memory, offset, le_bytes(value, width)).subrange(
        offset as int,
        offset + width,
    ) =~= le_bytes(value, width));
}

/// Storing what was loaded changes nothing.
pub proof fn lemma_store_after_load(memory: Seq<u8>, offset: usize, width: nat)
    requires
        in_memory(memory, offset, width),
    ensures
        bytes_stored(memory, offset, le_bytes(value_at(memory, offset, width), width)) == memory,
{
    lemma_bytes_of_value(memory.subrange(offset as int, offset + width));
    assert(bytes_stored(memory, offset, le_bytes(value_at(memory, offset, width), width))
        =~= memory);
}

/// Only the last of two stores to one place counts.
pub proof fn lemma_store_after_store(
    memory: Seq<u8>,
    offset: usize,
    width: nat,
    first: nat,
    second: nat,
)
    ensures
        bytes_stored(
            bytes_stored(memory, offset, le_bytes(first, width)),
            offset,
            le_bytes(second, width),
        ) == bytes_stored(memory, offset, le_bytes(second, width)),
{
    lemma_bytes_length(first, width);
    lemma_bytes_length(second, width);
    assert(bytes_stored(
        bytes_stored(memory, offset, le_bytes(first, width)),
        offset,
        le_bytes(second, width),
    ) =~= bytes_stored(memory, offset, le_bytes(second, width)));
}

/// A store does not affect what lies elsewhere.
pub proof fn lemma_store_elsewhere(
    memory: Seq<u8>,
    offset: usize,
    width: nat,
    value: nat,
    other: usize,
    other_width: nat,
)
    requires
        in_memory(memory, other, other_width),
        other + other_width <= offset || offset + width <= other,
    ensures
        value_at(bytes_stored(memory, offset, le_bytes(value, width)), other, other_width)
            == value_at(memory, other, other_width),
{
    lemma_bytes_length(value, width);
    assert(bytes_stored(memory, offset, le_bytes(value, width)).subrange(
        other as int,
        other + other_width,
    ) =~= memory.subrange(other as int, other + other_width));
}

/// Reads `width` bytes at `offset`.
pub fn load(memory: &Vec<u8>, offset: usize, width: usize) -> (r: u64)
    requires
        width <= 8,
        in_memory(memory@, offset, width as nat),
    ensures
        r == value_at(memory@, offset, width as nat),
        r < le_limit(width as nat),
{
    let ghost bytes = memory@.subrange(offset as int, offset + width);
    let length: usize = memory.len();
    let mut value: u64 = 0;
    let mut i: usize = width;
    assert(bytes.skip(width as int) =~= Seq::<u8>::empty());
    while i > 0
        invariant
            i <= width <= 8,
            length == memory@.len(),
            offset + width <= length,
            bytes == memory@.subrange(offset as int, offset + width),
            value == le_value(bytes.skip(i as int)),
        decreases i,
    {
        i = i - 1;
        proof {
            let rest = bytes.skip(i + 1);
            lemma_value_limit(rest);
            lemma_limits();
            lemma_limit_monotonic(rest.len(), 7);
            assert(bytes.skip(i as int).skip(1) =~= rest);
            assert(bytes.skip(i as int)[0] == memory@[offset + i]);
        }
        value = value * 256 + memory[offset + i] as u64;
    }
    proof {
        assert(bytes.skip(0) =~= bytes);
        lemma_value_limit(bytes);
    }
    value
}

proof fn lemma_limit_monotonic(a: nat, b: nat)
    requires
        a <= b,
    ensures
        le_limit(a) <= le_limit(b),
    decreases b - a,
{
    if a < b {
        lemma_limit_monotonic(a, (b - 1) as nat);
    }
}

/// Writes the lowest `width` bytes of `value` at `offset`.
pub fn store(memory: &mut Vec<u8>, offset: usize, width: usize, value: u64)
    requires
        in_memory(old(memory)@, offset, width as nat),
    ensures
        final(memory)@ == bytes_stored(
            old(memory)@,
            offset,
            le_bytes(value as nat, width as nat),
        ),
{
    let ghost before = memory@;
    let ghost bytes = le_bytes(value as nat, width as nat);
    let length: usize = memory.len();
    let mut rest: u64 = value;
    let mut i: usize = 0;
    proof {
        lemma_bytes_length(value as nat, width as nat);
        assert(bytes.skip(0) =~= bytes);
    }
    while i < width
        invariant
            i <= width,
            offset + width <= length,
            length == before.len(),
            memory@.len() == before.len(),
            bytes.len() == width,
            bytes.skip(i as int) == le_bytes(rest as nat, (width - i) as nat),
            forall|j: int|
                0 <= j < before.len() ==> #[trigger] memory@[j] == (if offset <= j < offset + i {
                    bytes[j - offset]
                } else {
                    before[j]
                }),
        decreases width - i,
    {
        proof {
            assert(bytes.skip(i as int)[0] == (rest % 256) as u8);
            assert(bytes.skip(i as int).skip(1) =~= bytes.skip(i + 1));
            assert(bytes.skip(i as int).skip(1) =~= le_bytes(
                (rest / 256) as nat,
                (width - i - 1) as nat,
            ));
        }
        memory.set(offset + i, (rest % 256) as u8);
        rest = rest / 256;
        i = i + 1;
    }
    assert(memory@ =~= bytes_stored(before, offset, bytes));
}

/// The `u8` at `offset`.
pub open spec fn value_8(memory: Seq<u8>, offset: usize) -> u8 {
    value_at(memory, offset, 1) as u8
}

/// The memory with another `u8` at `offset`.
pub open spec fn stored_8(memory: Seq<u8>, offset: usize, value: u8) -> Seq<u8> {
    bytes_stored(memory, offset, le_bytes(value as nat, 1))
}

/// Reads the `u8` at `offset`.
fn load_8(memory: &Vec<u8>, offset: usize) -> (r: u8)
    requires
        in_memory(memory@, offset, 1),
    ensures
        r == value_8(memory@, offset),
{
    proof {
        lemma_limits();
    }
    load(memory, offset, 1) as u8
}

/// Writes a `u8` at `offset`.
fn store_8(memory: &mut Vec<u8>, offset: usize, value: u8)
    requires
        in_memory(old(memory)@, offset, 1),
    ensures
        final(memory)@ == stored_8(old(memory)@, offset, value),
{
    store(memory, offset, 1, value as u64);
}

/// Reads the `u8` at `offset`, sequentially consistent.
pub fn atomic_load_8_seq_cst(memory: &Vec<u8>, offset: usize) -> (r: u8)
    requires
        in_memory(memory@, offset, 1),
    ensures
        r == value_8(memory@, offset),
{
    load_8(memory, offset)
}

/// Reads the `u8` at `offset`, unsynchronized.
pub fn atomic_load_8_unsynchronized(memory: &Vec<u8>, offset: usize) -> (r: u8)
    requires
        in_memory(memory@, offset, 1),
    ensures
        r == value_8(memory@, offset),
{
    load_8(memory, offset)
}

/// Writes a `u8` at `offset`, sequentially consistent.
pub fn atomic_store_8_seq_cst(memory: &mut Vec<u8>, offset: usize, value: u8)
    requires
        in_memory(old(memory)@, offset, 1),
    ensures
        final(memory)@ == stored_8(old(memory)@, offset, value),
{
    store_8(memory, offset, value);
}

/// Writes a `u8` at `offset`, unsynchronized.
pub fn atomic_store_8_unsynchronized(memory: &mut Vec<u8>, offset: usize, value: u8)
    requires
        in_memory(old(memory)@, offset, 1),
    ensures
        final(memory)@ == stored_8(old(memory)@, offset, value),
{
    store_8(memory, offset, value);
}

/// Replaces the `u8` at `offset` and returns the previous one.
pub fn atomic_exchange_8_seq_cst(memory: &mut Vec<u8>, offset: usize, value: u8) -> (r: u8)
    requires
        in_memory(old(memory)@, offset, 1),
    ensures
        r == value_8(old(memory)@, offset),
        final(memory)@ == stored_8(old(memory)@, offset, value),
{
    let previous: u8 = load_8(memory, offset);
    store_8(memory, offset, value);
    previous
}

/// Replaces the `u8` at `offset` if it is `expected`, and returns the previous one.
pub fn atomic_cmp_xchg_8_seq_cst(
    memory: &mut Vec<u8>,
    offset: usize,
    expected: u8,
    replacement: u8,
) -> (r: u8)
    requires
        in_memory(old(memory)@, offset, 1),
    ensures
        r == value_8(old(memory)@, offset),
        final(memory)@ == (if r == expected {
            stored_8(old(memory)@, offset, replacement)
        } else {
            old(memory)@
        }),
{
    let current: u8 = load_8(memory, offset);
    if current == expected {
        store_8(memory, offset, replacement);
    }
    current
}

/// Adds `value`, wrapping around, to the `u8` at `offset` and returns the previous one.
pub fn atomic_add_8_seq_cst(memory: &mut Vec<u8>, offset: usize, value: u8) -> (r: u8)
    requires
        in_memory(old(memory)@, offset, 1),
    ensures
        r == value_8(old(memory)@, offset),
        final(memory)@ == stored_8(old(memory)@, offset, r.wrapping_add(value)),
{
    let previous: u8 = load_8(memory, offset);
    store_8(memory, offset, previous.wrapping_add(value));
    previous
}

/// Combines with `value` by bitwise and the `u8` at `offset` and returns the previous one.
pub fn atomic_and_8_seq_cst(memory: &mut Vec<u8>, offset: usize, value: u8) -> (r: u8)
    requires
        in_memory(old(memory)@, offset, 1),
    ensures
        r == value_8(old(memory)@, offset),
        final(memory)@ == stored_8(old(memory)@, offset, r & value),
{
    let previous: u8 = load_8(memory, offset);
    store_8(memory, offset, previous & value);
    previous
}

/// Combines with `value` by bitwise or the `u8` at `offset` and returns the previous one.
pub fn atomic_or_8_seq_cst(memory: &mut Vec<u8>, offset: usize, value: u8) -> (r: u8)
    requires
        in_memory(old(memory)@, offset, 1),
    ensures
        r == value_8(old(memory)@, offset),
        final(memory)@ == stored_8(old(memory)@, offset, r | value),
{
    let previous: u8 = load_8(memory, offset);
    store_8(memory, offset, previous | value);
    previous
}

/// Combines with `value` by bitwise exclusive or the `u8` at `offset` and returns the previous one.
pub fn atomic_xor_8_seq_cst(memory: &mut Vec<u8>, offset: usize, value: u8) -> (r: u8)
    requires
        in_memory(old(memory)@, offset, 1),
    ensures
        r == value_8(old(memory)@, offset),
        final(memory)@ == stored_8(old(memory)@, offset, r ^ value),
{
    let previous: u8 = load_8(memory, offset);
    store_8(memory, offset, previous ^ value);
    previous
}

/// The `u8` that is loaded is the one that was stored last: exchanging gives
/// it back, and combining with one value by exclusive or twice undoes itself.
pub proof fn lemma_operations_8(memory: Seq<u8>, offset: usize, value: u8)
    requires
        in_memory(memory, offset, 1),
    ensures
        value_8(stored_8(memory, offset, value), offset) == value,
        stored_8(memory, offset, value_8(memory, offset)) == memory,
        ({
            let once = stored_8(memory, offset, value_8(memory, offset) ^ value);
            stored_8(once, offset, value_8(once, offset) ^ value) == memory
        }),
{
    lemma_limits();
    let current = value_8(memory, offset);
    lemma_value_limit(memory.subrange(offset as int, offset + 1));
    assert(current as nat == value_at(memory, offset, 1));
    lemma_load_after_store(memory, offset, 1, value as nat);
    lemma_store_after_load(memory, offset, 1);
    lemma_load_after_store(memory, offset, 1, (current ^ value) as nat);
    lemma_store_after_store(memory, offset, 1, (current ^ value) as nat, current as nat);
    assert((current ^ value) ^ value == current) by (bit_vector);
}

/// The `u16` at `offset`.
pub open spec fn value_16(memory: Seq<u8>, offset: usize) -> u16 {
    value_at(memory, offset, 2) as u16
}

/// The memory with another `u16` at `offset`.
pub open spec fn stored_16(memory: Seq<u8>, offset: usize, value: u16) -> Seq<u8> {
    bytes_stored(memory, offset, le_bytes(value as nat, 2))
}

/// Reads the `u16` at `offset`.
fn load_16(memory: &Vec<u8>, offset: usize) -> (r: u16)
    requires
        in_memory(memory@, offset, 2),
    ensures
        r == value_16(memory@, offset),
{
    proof {
        lemma_limits();
    }
    load(memory, offset, 2) as u16
}

/// Writes a `u16` at `offset`.
fn store_16(memory: &mut Vec<u8>, offset: usize, value: u16)
    requires
        in_memory(old(memory)@, offset, 2),
    ensures
        final(memory)@ == stored_16(old(memory)@, offset, value),
{
    store(memory, offset, 2, value as u64);
}

/// Reads the `u16` at `offset`, sequentially consistent.
pub fn atomic_load_16_seq_cst(memory: &Vec<u8>, offset: usize) -> (r: u16)
    requires
        in_memory(memory@, offset, 2),
    ensures
        r == value_16(memory@, offset),
{
    load_16(memory, offset)
}

/// Reads the `u16` at `offset`, unsynchronized.
pub fn atomic_load_16_unsynchronized(memory: &Vec<u8>, offset: usize) -> (r: u16)
    requires
        in_memory(memory@, offset, 2),
    ensures
        r == value_16(memory@, offset),
{
    load_16(memory, offset)
}

/// Writes a `u16` at `offset`, sequentially consistent.
pub fn atomic_store_16_seq_cst(memory: &mut Vec<u8>, offset: usize, value: u16)
    requires
        in_memory(old(memory)@, offset, 2),
    ensures
        final(memory)@ == stored_16(old(memory)@, offset, value),
{
    store_16(memory, offset, value);
}

/// Writes a `u16` at `offset`, unsynchronized.
pub fn atomic_store_16_unsynchronized(memory: &mut Vec<u8>, offset: usize, value: u16)
    requires
        in_memory(old(memory)@, offset, 2),
    ensures
        final(memory)@ == stored_16(old(memory)@, offset, value),
{
    store_16(memory, offset, value);
}

/// Replaces the `u16` at `offset` and returns the previous one.
pub fn atomic_exchange_16_seq_cst(memory: &mut Vec<u8>, offset: usize, value: u16) -> (r: u16)
    requires
        in_memory(old(memory)@, offset, 2),
    ensures
        r == value_16(old(memory)@, offset),
        final(memory)@ == stored_16(old(memory)@, offset, value),
{
    let previous: u16 = load_16(memory, offset);
    store_16(memory, offset, value);
    previous
}

/// Replaces the `u16` at `offset` if it is `expected`, and returns the previous one.
pub fn atomic_cmp_xchg_16_seq_cst(
    memory: &mut Vec<u8>,
    offset: usize,
    expected: u16,
    replacement: u16,
) -> (r: u16)
    requires
        in_memory(old(memory)@, offset, 2),
    ensures
        r == value_16(old(memory)@, offset),
        final(memory)@ == (if r == expected {
            stored_16(old(memory)@, offset, replacement)
        } else {
            old(memory)@
        }),
{
    let current: u16 = load_16(memory, offset);
    if current == expected {
        store_16(memory, offset, replacement);
    }
    current
}

/// Adds `value`, wrapping around, to the `u16` at `offset` and returns the previous one.
pub fn atomic_add_16_seq_cst(memory: &mut Vec<u8>, offset: usize, value: u16) -> (r: u16)
    requires
        in_memory(old(memory)@, offset, 2),
    ensures
        r == value_16(old(memory)@, offset),
        final(memory)@ == stored_16(old(memory)@, offset, r.wrapping_add(value)),
{
    let previous: u16 = load_16(memory, offset);
    store_16(memory, offset, previous.wrapping_add(value));
    previous
}

/// Combines with `value` by bitwise and the `u16` at `offset` and returns the previous one.
pub fn atomic_and_16_seq_cst(memory: &mut Vec<u8>, offset: usize, value: u16) -> (r: u16)
    requires
        in_memory(old(memory)@, offset, 2),
    ensures
        r == value_16(old(memory)@, offset),
        final(memory)@ == stored_16(old(memory)@, offset, r & value),
{
    let previous: u16 = load_16(memory, offset);
    store_16(memory, offset, previous & value);
    previous
}

/// Combines with `value` by bitwise or the `u16` at `offset` and returns the previous one.
pub fn atomic_or_16_seq_cst(memory: &mut Vec<u8>, offset: usize, value: u16) -> (r: u16)
    requires
        in_memory(old(memory)@, offset, 2),
    ensures
        r == value_16(old(memory)@, offset),
        final(memory)@ == stored_16(old(memory)@, offset, r | value),
{
    let previous: u16 = load_16(memory, offset);
    store_16(memory, offset, previous | value);
    previous
}

/// Combines with `value` by bitwise exclusive or the `u16` at `offset` and returns the previous one.
pub fn atomic_xor_16_seq_cst(memory: &mut Vec<u8>, offset: usize, value: u16) -> (r: u16)
    requires
        in_memory(old(memory)@, offset, 2),
    ensures
        r == value_16(old(memory)@, offset),
        final(memory)@ == stored_16(old(memory)@, offset, r ^ value),
{
    let previous: u16 = load_16(memory, offset);
    store_16(memory, offset, previous ^ value);
    previous
}

/// The `u16` that is loaded is the one that was stored last: exchanging gives
/// it back, and combining with one value by exclusive or twice undoes itself.
pub proof fn lemma_operations_16(memory: Seq<u8>, offset: usize, value: u16)
    requires
        in_memory(memory, offset, 2),
    ensures
        value_16(stored_16(memory, offset, value), offset) == value,
        stored_16(memory, offset, value_16(memory, offset)) == memory,
        ({
            let once = stored_16(memory, offset, value_16(memory, offset) ^ value);
            stored_16(once, offset, value_16(once, offset) ^ value) == memory
        }),
{
    lemma_limits();
    let current = value_16(memory, offset);
    lemma_value_limit(memory.subrange(offset as int, offset + 2));
    assert(current as nat == value_at(memory, offset, 2));
    lemma_load_after_store(memory, offset, 2, value as nat);
    lemma_store_after_load(memory, offset, 2);
    lemma_load_after_store(memory, offset, 2, (current ^ value) as nat);
    lemma_store_after_store(memory, offset, 2, (current ^ value) as nat, current as nat);
    assert((current ^ value) ^ value == current) by (bit_vector);
}

/// The `u32` at `offset`.
pub open spec fn value_32(memory: Seq<u8>, offset: usize) -> u32 {
    value_at(memory, offset, 4) as u32
}

/// The memory with another `u32` at `offset`.
pub open spec fn stored_32(memory: Seq<u8>, offset: usize, value: u32) -> Seq<u8> {
    bytes_stored(memory, offset, le_bytes(value as nat, 4))
}

/// Reads the `u32` at `offset`.
fn load_32(memory: &Vec<u8>, offset: usize) -> (r: u32)
    requires
        in_memory(memory@, offset, 4),
    ensures
        r == value_32(memory@, offset),
{
    proof {
        lemma_limits();
    }
    load(memory, offset, 4) as u32
}

/// Writes a `u32` at `offset`.
fn store_32(memory: &mut Vec<u8>, offset: usize, value: u32)
    requires
        in_memory(old(memory)@, offset, 4),
    ensures
        final(memory)@ == stored_32(old(memory)@, offset, value),
{
    store(memory, offset, 4, value as u64);
}

/// Reads the `u32` at `offset`, sequentially consistent.
pub fn atomic_load_32_seq_cst(memory: &Vec<u8>, offset: usize) -> (r: u32)
    requires
        in_memory(memory@, offset, 4),
    ensures
        r == value_32(memory@, offset),
{
    load_32(memory, offset)
}

/// Reads the `u32` at `offset`, unsynchronized.
pub fn atomic_load_32_unsynchronized(memory: &Vec<u8>, offset: usize) -> (r: u32)
    requires
        in_memory(memory@, offset, 4),
    ensures
        r == value_32(memory@, offset),
{
    load_32(memory, offset)
}

/// Writes a `u32` at `offset`, sequentially consistent.
pub fn atomic_store_32_seq_cst(memory: &mut Vec<u8>, offset: usize, value: u32)
    requires
        in_memory(old(memory)@, offset, 4),
    ensures
        final(memory)@ == stored_32(old(memory)@, offset, value),
{
    store_32(memory, offset, value);
}

/// Writes a `u32` at `offset`, unsynchronized.
pub fn atomic_store_32_unsynchronized(memory: &mut Vec<u8>, offset: usize, value: u32)
    requires
        in_memory(old(memory)@, offset, 4),
    ensures
        final(memory)@ == stored_32(old(memory)@, offset, value),
{
    store_32(memory, offset, value);
}

/// Replaces the `u32` at `offset` and returns the previous one.
pub fn atomic_exchange_32_seq_cst(memory: &mut Vec<u8>, offset: usize, value: u32) -> (r: u32)
    requires
        in_memory(old(memory)@, offset, 4),
    ensures
        r == value_32(old(memory)@, offset),
        final(memory)@ == stored_32(old(memory)@, offset, value),
{
    let previous: u32 = load_32(memory, offset);
    store_32(memory, offset, value);
    previous
}

/// Replaces the `u32` at `offset` if it is `expected`, and returns the previous one.
pub fn atomic_cmp_xchg_32_seq_cst(
    memory: &mut Vec<u8>,
    offset: usize,
    expected: u32,
    replacement: u32,
) -> (r: u32)
    requires
        in_memory(old(memory)@, offset, 4),
    ensures
        r == value_32(old(memory)@, offset),
        final(memory)@ == (if r == expected {
            stored_32(old(memory)@, offset, replacement)
        } else {
            old(memory)@
        }),
{
    let current: u32 = load_32(memory, offset);
    if current == expected {
        store_32(memory, offset, replacement);
    }
    current
}

/// Adds `value`, wrapping around, to the `u32` at `offset` and returns the previous one.
pub fn atomic_add_32_seq_cst(memory: &mut Vec<u8>, offset: usize, value: u32) -> (r: u32)
    requires
        in_memory(old(memory)@, offset, 4),
    ensures
        r == value_32(old(memory)@, offset),
        final(memory)@ == stored_32(old(memory)@, offset, r.wrapping_add(value)),
{
    let previous: u32 = load_32(memory, offset);
    store_32(memory, offset, previous.wrapping_add(value));
    previous
}

/// Combines with `value` by bitwise and the `u32` at `offset` and returns the previous one.
pub fn atomic_and_32_seq_cst(memory: &mut Vec<u8>, offset: usize, value: u32) -> (r: u32)
    requires
        in_memory(old(memory)@, offset, 4),
    ensures
        r == value_32(old(memory)@, offset),
        final(memory)@ == stored_32(old(memory)@, offset, r & value),
{
    let previous: u32 = load_32(memory, offset);
    store_32(memory, offset, previous & value);
    previous
}

/// Combines with `value` by bitwise or the `u32` at `offset` and returns the previous one.
pub fn atomic_or_32_seq_cst(memory: &mut Vec<u8>, offset: usize, value: u32) -> (r: u32)
    requires
        in_memory(old(memory)@, offset, 4),
    ensures
        r == value_32(old(memory)@, offset),
        final(memory)@ == stored_32(old(memory)@, offset, r | value),
{
    let previous: u32 = load_32(memory, offset);
    store_32(memory, offset, previous | value);
    previous
}

/// Combines with `value` by bitwise exclusive or the `u32` at `offset` and returns the previous one.
pub fn atomic_xor_32_seq_cst(memory: &mut Vec<u8>, offset: usize, value: u32) -> (r: u32)
    requires
        in_memory(old(memory)@, offset, 4),
    ensures
        r == value_32(old(memory)@, offset),
        final(memory)@ == stored_32(old(memory)@, offset, r ^ value),
{
    let previous: u32 = load_32(memory, offset);
    store_32(memory, offset, previous ^ value);
    previous
}

/// The `u32` that is loaded is the one that was stored last: exchanging gives
/// it back, and combining with one value by exclusive or twice undoes itself.
pub proof fn lemma_operations_32(memory: Seq<u8>, offset: usize, value: u32)
    requires
        in_memory(memory, offset, 4),
    ensures
        value_32(stored_32(memory, offset, value), offset) == value,
        stored_32(memory, offset, value_32(memory, offset)) == memory,
        ({
            let once = stored_32(memory, offset, value_32(memory, offset) ^ value);
            stored_32(once, offset, value_32(once, offset) ^ value) == memory
        }),
{
    lemma_limits();
    let current = value_32(memory, offset);
    lemma_value_limit(memory.subrange(offset as int, offset + 4));
    assert(current as nat == value_at(memory, offset, 4));
    lemma_load_after_store(memory, offset, 4, value as nat);
    lemma_store_after_load(memory, offset, 4);
    lemma_load_after_store(memory, offset, 4, (current ^ value) as nat);
    lemma_store_after_store(memory, offset, 4, (current ^ value) as nat, current as nat);
    assert((current ^ value) ^ value == current) by (bit_vector);
}

/// The `u64` at `offset`.
pub open spec fn value_64(memory: Seq<u8>, offset: usize) -> u64 {
    value_at(memory, offset, 8) as u64
}

/// The memory with another `u64` at `offset`.
pub open spec fn stored_64(memory: Seq<u8>, offset: usize, value: u64) -> Seq<u8> {
    bytes_stored(memory, offset, le_bytes(value as nat, 8))
}

/// Reads the `u64` at `offset`.
fn load_64(memory: &Vec<u8>, offset: usize) -> (r: u64)
    requires
        in_memory(memory@, offset, 8),
    ensures
        r == value_64(memory@, offset),
{
    proof {
        lemma_limits();
    }
    load(memory, offset, 8)
}

/// Writes a `u64` at `offset`.
fn store_64(memory: &mut Vec<u8>, offset: usize, value: u64)
    requires
        in_memory(old(memory)@, offset, 8),
    ensures
        final(memory)@ == stored_64(old(memory)@, offset, value),
{
    store(memory, offset, 8, value);
}

/// Reads the `u64` at `offset`, sequentially consistent.
pub fn atomic_load_64_seq_cst(memory: &Vec<u8>, offset: usize) -> (r: u64)
    requires
        in_memory(memory@, offset, 8),
    ensures
        r == value_64(memory@, offset),
{
    load_64(memory, offset)
}

/// Reads the `u64` at `offset`, unsynchronized.
pub fn atomic_load_64_unsynchronized(memory: &Vec<u8>, offset: usize) -> (r: u64)
    requires
        in_memory(memory@, offset, 8),
    ensures
        r == value_64(memory@, offset),
{
    load_64(memory, offset)
}

/// Writes a `u64` at `offset`, sequentially consistent.
pub fn atomic_store_64_seq_cst(memory: &mut Vec<u8>, offset: usize, value: u64)
    requires
        in_memory(old(memory)@, offset, 8),
    ensures
        final(memory)@ == stored_64(old(memory)@, offset, value),
{
    store_64(memory, offset, value);
}

/// Writes a `u64` at `offset`, unsynchronized.
pub fn atomic_store_64_unsynchronized(memory: &mut Vec<u8>, offset: usize, value: u64)
    requires
        in_memory(old(memory)@, offset, 8),
    ensures
        final(memory)@ == stored_64(old(memory)@, offset, value),
{
    store_64(memory, offset, value);
}

/// Replaces the `u64` at `offset` and returns the previous one.
pub fn atomic_exchange_64_seq_cst(memory: &mut Vec<u8>, offset: usize, value: u64) -> (r: u64)
    requires
        in_memory(old(memory)@, offset, 8),
    ensures
        r == value_64(old(memory)@, offset),
        final(memory)@ == stored_64(old(memory)@, offset, value),
{
    let previous: u64 = load_64(memory, offset);
    store_64(memory, offset, value);
    previous
}

/// Replaces the `u64` at `offset` if it is `expected`, and returns the previous one.
pub fn atomic_cmp_xchg_64_seq_cst(
    memory: &mut Vec<u8>,
    offset: usize,
    expected: u64,
    replacement: u64,
) -> (r: u64)
    requires
        in_memory(old(memory)@, offset, 8),
    ensures
        r == value_64(old(memory)@, offset),
        final(memory)@ == (if r == expected {
            stored_64(old(memory)@, offset, replacement)
        } else {
            old(memory)@
        }),
{
    let current: u64 = load_64(memory, offset);
    if current == expected {
        store_64(memory, offset, replacement);
    }
    current
}

/// Adds `value`, wrapping around, to the `u64` at `offset` and returns the previous one.
pub fn atomic_add_64_seq_cst(memory: &mut Vec<u8>, offset: usize, value: u64) -> (r: u64)
    requires
        in_memory(old(memory)@, offset, 8),
    ensures
        r == value_64(old(memory)@, offset),
        final(memory)@ == stored_64(old(memory)@, offset, r.wrapping_add(value)),
{
    let previous: u64 = load_64(memory, offset);
    store_64(memory, offset, previous.wrapping_add(value));
    previous
}

/// Combines with `value` by bitwise and the `u64` at `offset` and returns the previous one.
pub fn atomic_and_64_seq_cst(memory: &mut Vec<u8>, offset: usize, value: u64) -> (r: u64)
    requires
        in_memory(old(memory)@, offset, 8),
    ensures
        r == value_64(old(memory)@, offset),
        final(memory)@ == stored_64(old(memory)@, offset, r & value),
{
    let previous: u64 = load_64(memory, offset);
    store_64(memory, offset, previous & value);
    previous
}

/// Combines with `value` by bitwise or the `u64` at `offset` and returns the previous one.
pub fn atomic_or_64_seq_cst(memory: &mut Vec<u8>, offset: usize, value: u64) -> (r: u64)
    requires
        in_memory(old(memory)@, offset, 8),
    ensures
        r == value_64(old(memory)@, offset),
        final(memory)@ == stored_64(old(memory)@, offset, r | value),
{
    let previous: u64 = load_64(memory, offset);
    store_64(memory, offset, previous | value);
    previous
}

/// Combines with `value` by bitwise exclusive or the `u64` at `offset` and returns the previous one.
pub fn atomic_xor_64_seq_cst(memory: &mut Vec<u8>, offset: usize, value: u64) -> (r: u64)
    requires
        in_memory(old(memory)@, offset, 8),
    ensures
        r == value_64(old(memory)@, offset),
        final(memory)@ == stored_64(old(memory)@, offset, r ^ value),
{
    let previous: u64 = load_64(memory, offset);
    store_64(memory, offset, previous ^ value);
    previous
}

/// The `u64` that is loaded is the one that was stored last: exchanging gives
/// it back, and combining with one value by exclusive or twice undoes itself.
pub proof fn lemma_operations_64(memory: Seq<u8>, offset: usize, value: u64)
    requires
        in_memory(memory, offset, 8),
    ensures
        value_64(stored_64(memory, offset, value), offset) == value,
        stored_64(memory, offset, value_64(memory, offset)) == memory,
        ({
            let once = stored_64(memory, offset, value_64(memory, offset) ^ value);
            stored_64(once, offset, value_64(once, offset) ^ value) == memory
        }),
{
    lemma_limits();
    let current = value_64(memory, offset);
    lemma_value_limit(memory.subrange(offset as int, offset + 8));
    assert(current as nat == value_at(memory, offset, 8));
    lemma_load_after_store(memory, offset, 8, value as nat);
    lemma_store_after_load(memory, offset, 8);
    lemma_load_after_store(memory, offset, 8, (current ^ value) as nat);
    lemma_store_after_store(memory, offset, 8, (current ^ value) as nat, current as nat);
    assert((current ^ value) ^ value == current) by (bit_vector);
}

/// Bytes stand for the first of them plus 256 times what the others stand for.
pub proof fn lemma_first_byte(memory: Seq<u8>, i: int, j: int)
    requires
        0 <= i < j <= memory.len(),
    ensures
        le_value(memory.subrange(i, j)) == memory[i] + 256 * le_value(memory.subrange(i + 1, j)),
        le_value(memory.subrange(j, j)) == 0,
{
    assert(memory.subrange(i, j).skip(1) =~= memory.subrange(i + 1, j));
}

/// The `u8` at an offset is the number of the byte there.
/// Storing a `u8` puts its byte there, and every other byte stays.
pub proof fn lemma_bytes_of_8(memory: Seq<u8>, offset: usize, value: u8)
    requires
        offset + 1 <= memory.len(),
    ensures
        value_8(memory, offset) == memory[offset as int],
        ({
            let stored = stored_8(memory, offset, value);
            &&& stored.len() == memory.len()
            &&& stored[offset as int] == (value as int) % 256
            &&& forall|i: int|
                0 <= i < memory.len() && !(offset <= i < offset + 1) ==> #[trigger] stored[i]
                    == memory[i]
        }),
{
    lemma_limits();
    lemma_value_limit(memory.subrange(offset as int, offset + 1));
    lemma_first_byte(memory, offset as int, offset + 1);
    lemma_bytes_length(value as nat, 1);
    lemma_byte_of_number(value as nat, 1);
}

/// The `u16` at an offset is the number of the two bytes there, least significant first.
/// Storing a `u16` puts its bytes there, and every other byte stays.
pub proof fn lemma_bytes_of_16(memory: Seq<u8>, offset: usize, value: u16)
    requires
        offset + 2 <= memory.len(),
    ensures
        value_16(memory, offset) == memory[offset as int] + 0x100 * memory[offset + 1],
        ({
            let stored = stored_16(memory, offset, value);
            &&& stored.len() == memory.len()
            &&& stored[offset as int] == (value as int) % 256
            &&& stored[offset + 1] == (value as int / 0x100) % 256
            &&& forall|i: int|
                0 <= i < memory.len() && !(offset <= i < offset + 2) ==> #[trigger] stored[i]
                    == memory[i]
        }),
{
    lemma_limits();
    lemma_value_limit(memory.subrange(offset as int, offset + 2));
    lemma_first_byte(memory, offset as int, offset + 2);
    lemma_first_byte(memory, offset + 1, offset + 2);
    lemma_bytes_length(value as nat, 2);
    lemma_byte_of_number(value as nat, 2);
}

/// The `u32` at an offset is the number of the four bytes there, least significant first.
/// Storing a `u32` puts its bytes there, and every other byte stays.
pub proof fn lemma_bytes_of_32(memory: Seq<u8>, offset: usize, value: u32)
    requires
        offset + 4 <= memory.len(),
    ensures
        value_32(memory, offset) == memory[offset as int] + 0x100 * memory[offset + 1] + 0x1_0000
            * memory[offset + 2] + 0x100_0000 * memory[offset + 3],
        ({
            let stored = stored_32(memory, offset, value);
            &&& stored.len() == memory.len()
            &&& stored[offset as int] == (value as int) % 256
            &&& stored[offset + 1] == (value as int / 0x100) % 256
            &&& stored[offset + 2] == (value as int / 0x1_0000) % 256
            &&& stored[offset + 3] == (value as int / 0x100_0000) % 256
            &&& forall|i: int|
                0 <= i < memory.len() && !(offset <= i < offset + 4) ==> #[trigger] stored[i]
                    == memory[i]
        }),
{
    lemma_limits();
    lemma_value_limit(memory.subrange(offset as int, offset + 4));
    lemma_first_byte(memory, offset as int, offset + 4);
    lemma_first_byte(memory, offset + 1, offset + 4);
    lemma_first_byte(memory, offset + 2, offset + 4);
    lemma_first_byte(memory, offset + 3, offset + 4);
    lemma_bytes_length(value as nat, 4);
    lemma_byte_of_number(value as nat, 4);
}

/// The `u64` at an offset is the number of the eight bytes there, least significant first.
/// Storing a `u64` puts its bytes there, and every other byte stays.
pub proof fn lemma_bytes_of_64(memory: Seq<u8>, offset: usize, value: u64)
    requires
        offset + 8 <= memory.len(),
    ensures
        value_64(memory, offset) == memory[offset as int] + 0x100 * memory[offset + 1] + 0x1_0000
            * memory[offset + 2] + 0x100_0000 * memory[offset + 3] + 0x1_0000_0000 * memory[offset
            + 4] + 0x100_0000_0000 * memory[offset + 5] + 0x1_0000_0000_0000 * memory[offset + 6]
            + 0x100_0000_0000_0000 * memory[offset + 7],
        ({
            let stored = stored_64(memory, offset, value);
            &&& stored.len() == memory.len()
            &&& stored[offset as int] == (value as int) % 256
            &&& stored[offset + 1] == (value as int / 0x100) % 256
            &&& stored[offset + 2] == (value as int / 0x1_0000) % 256
            &&& stored[offset + 3] == (value as int / 0x100_0000) % 256
            &&& stored[offset + 4] == (value as int / 0x1_0000_0000) % 256
            &&& stored[offset + 5] == (value as int / 0x100_0000_0000) % 256
            &&& stored[offset + 6] == (value as int / 0x1_0000_0000_0000) % 256
            &&& stored[offset + 7] == (value as int / 0x100_0000_0000_0000) % 256
            &&& forall|i: int|
                0 <= i < memory.len() && !(offset <= i < offset + 8) ==> #[trigger] stored[i]
                    == memory[i]
        }),
{
    lemma_limits();
    lemma_value_limit(memory.subrange(offset as int, offset + 8));
    lemma_first_byte(memory, offset as int, offset + 8);
    lemma_first_byte(memory, offset + 1, offset + 8);
    lemma_first_byte(memory, offset + 2, offset + 8);
    lemma_first_byte(memory, offset + 3, offset + 8);
    lemma_first_byte(memory, offset + 4, offset + 8);
    lemma_first_byte(memory, offset + 5, offset + 8);
    lemma_first_byte(memory, offset + 6, offset + 8);
    lemma_first_byte(memory, offset + 7, offset + 8);
    lemma_bytes_length(value as nat, 8);
    lemma_byte_of_number(value as nat, 8);
}

/// The bytes of a number are its digits to the base 256, least significant
/// first.
proof fn lemma_byte_of_number(value: nat, width: nat)
    ensures
        width > 0 ==> le_bytes(value, width)[0] == value % 256,
        width > 1 ==> le_bytes(value, width)[1] == value / 0x100 % 256,
        width > 3 ==> le_bytes(value, width)[2] == value / 0x1_0000 % 256,
        width > 3 ==> le_bytes(value, width)[3] == value / 0x100_0000 % 256,
        width > 7 ==> le_bytes(value, width)[4] == value / 0x1_0000_0000 % 256,
        width > 7 ==> le_bytes(value, width)[5] == value / 0x100_0000_0000 % 256,
        width > 7 ==> le_bytes(value, width)[6] == value / 0x1_0000_0000_0000 % 256,
        width > 7 ==> le_bytes(value, width)[7] == value / 0x100_0000_0000_0000 % 256,
{
    reveal_with_fuel(le_bytes, 9);
}

/// A stored `u8` is there, and every other byte stays.
proof fn lemma_stored_8(memory: Seq<u8>, offset: usize, value: u8)
    requires
        offset + 1 <= memory.len(),
    ensures
        value_8(stored_8(memory, offset, value), offset) == value,
        stored_8(memory, offset, value).len() == memory.len(),
        forall|i: int|
            0 <= i < memory.len() && !(offset <= i < offset + 1)
                ==> #[trigger] stored_8(memory, offset, value)[i] == memory[i],
{
    lemma_operations_8(memory, offset, value);
    lemma_bytes_of_8(memory, offset, value);
}

/// Both ways of loading give the `u8` at the offset.
pub proof fn law_load_8(memory: &Vec<u8>, offset: usize, r: u8, unsynchronized: u8)
    requires
        call_ensures(atomic_load_8_seq_cst, (memory, offset), r),
        call_ensures(atomic_load_8_unsynchronized, (memory, offset), unsynchronized),
    ensures
        r == value_8(memory@, offset),
        unsynchronized == r,
{
}

/// After a store, sequentially consistent, the `u8` at the offset is the one that was
/// stored, and every other byte stays.
pub proof fn law_store_8_seq_cst(memory: &mut Vec<u8>, offset: usize, value: u8)
    requires
        offset + 1 <= old(memory)@.len(),
        call_ensures(atomic_store_8_seq_cst, (memory, offset, value), ()),
    ensures
        value_8(final(memory)@, offset) == value,
        final(memory)@.len() == old(memory)@.len(),
        forall|i: int|
            0 <= i < old(memory)@.len() && !(offset <= i < offset + 1)
                ==> #[trigger] final(memory)@[i] == old(memory)@[i],
{
    lemma_stored_8(old(memory)@, offset, value);
}

/// After a store, unsynchronized, the `u8` at the offset is the one that was
/// stored, and every other byte stays.
pub proof fn law_store_8_unsynchronized(memory: &mut Vec<u8>, offset: usize, value: u8)
    requires
        offset + 1 <= old(memory)@.len(),
        call_ensures(atomic_store_8_unsynchronized, (memory, offset, value), ()),
    ensures
        value_8(final(memory)@, offset) == value,
        final(memory)@.len() == old(memory)@.len(),
        forall|i: int|
            0 <= i < old(memory)@.len() && !(offset <= i < offset + 1)
                ==> #[trigger] final(memory)@[i] == old(memory)@[i],
{
    lemma_stored_8(old(memory)@, offset, value);
}

/// Exchanging gives the `u8` that was at the offset. What is there then is
/// the new one, and every other byte stays.
pub proof fn law_exchange_8(memory: &mut Vec<u8>, offset: usize, value: u8, r: u8)
    requires
        offset + 1 <= old(memory)@.len(),
        call_ensures(atomic_exchange_8_seq_cst, (memory, offset, value), r),
    ensures
        r == value_8(old(memory)@, offset),
        value_8(final(memory)@, offset) == value,
        final(memory)@.len() == old(memory)@.len(),
        forall|i: int|
            0 <= i < old(memory)@.len() && !(offset <= i < offset + 1)
                ==> #[trigger] final(memory)@[i] == old(memory)@[i],
{
    lemma_stored_8(old(memory)@, offset, value);
}

/// Adding gives the `u8` that was at the offset. What is there then is
/// the sum modulo 2^8, and every other byte stays.
pub proof fn law_add_8(memory: &mut Vec<u8>, offset: usize, value: u8, r: u8)
    requires
        offset + 1 <= old(memory)@.len(),
        call_ensures(atomic_add_8_seq_cst, (memory, offset, value), r),
    ensures
        r == value_8(old(memory)@, offset),
        value_8(final(memory)@, offset) == (r + value) % 0x100,
        final(memory)@.len() == old(memory)@.len(),
        forall|i: int|
            0 <= i < old(memory)@.len() && !(offset <= i < offset + 1)
                ==> #[trigger] final(memory)@[i] == old(memory)@[i],
{
    lemma_stored_8(old(memory)@, offset, r.wrapping_add(value));
}

/// A bitwise and gives the `u8` that was at the offset. What is there then is
/// the bitwise and of the two, and every other byte stays.
pub proof fn law_and_8(memory: &mut Vec<u8>, offset: usize, value: u8, r: u8)
    requires
        offset + 1 <= old(memory)@.len(),
        call_ensures(atomic_and_8_seq_cst, (memory, offset, value), r),
    ensures
        r == value_8(old(memory)@, offset),
        value_8(final(memory)@, offset) == r & value,
        final(memory)@.len() == old(memory)@.len(),
        forall|i: int|
            0 <= i < old(memory)@.len() && !(offset <= i < offset + 1)
                ==> #[trigger] final(memory)@[i] == old(memory)@[i],
{
    lemma_stored_8(old(memory)@, offset, r & value);
}

/// A bitwise or gives the `u8` that was at the offset. What is there then is
/// the bitwise or of the two, and every other byte stays.
pub proof fn law_or_8(memory: &mut Vec<u8>, offset: usize, value: u8, r: u8)
    requires
        offset + 1 <= old(memory)@.len(),
        call_ensures(atomic_or_8_seq_cst, (memory, offset, value), r),
    ensures
        r == value_8(old(memory)@, offset),
        value_8(final(memory)@, offset) == r | value,
        final(memory)@.len() == old(memory)@.len(),
        forall|i: int|
            0 <= i < old(memory)@.len() && !(offset <= i < offset + 1)
                ==> #[trigger] final(memory)@[i] == old(memory)@[i],
{
    lemma_stored_8(old(memory)@, offset, r | value);
}

/// A bitwise exclusive or gives the `u8` that was at the offset. What is there then is
/// the exclusive or of the two, and every other byte stays.
pub proof fn law_xor_8(memory: &mut Vec<u8>, offset: usize, value: u8, r: u8)
    requires
        offset + 1 <= old(memory)@.len(),
        call_ensures(atomic_xor_8_seq_cst, (memory, offset, value), r),
    ensures
        r == value_8(old(memory)@, offset),
        value_8(final(memory)@, offset) == r ^ value,
        final(memory)@.len() == old(memory)@.len(),
        forall|i: int|
            0 <= i < old(memory)@.len() && !(offset <= i < offset + 1)
                ==> #[trigger] final(memory)@[i] == old(memory)@[i],
{
    lemma_stored_8(old(memory)@, offset, r ^ value);
}

/// A conditional exchange gives the `u8` that was at the offset. Only if that is
/// the expected one is the replacement there then, and every other byte stays.
pub proof fn law_conditional_exchange_8(
    memory: &mut Vec<u8>,
    offset: usize,
    expected: u8,
    replacement: u8,
    r: u8,
)
    requires
        offset + 1 <= old(memory)@.len(),
        call_ensures(atomic_cmp_xchg_8_seq_cst, (memory, offset, expected, replacement), r),
    ensures
        r == value_8(old(memory)@, offset),
        r == expected ==> value_8(final(memory)@, offset) == replacement,
        r != expected ==> final(memory)@ == old(memory)@,
        final(memory)@.len() == old(memory)@.len(),
        forall|i: int|
            0 <= i < old(memory)@.len() && !(offset <= i < offset + 1)
                ==> #[trigger] final(memory)@[i] == old(memory)@[i],
{
    lemma_stored_8(old(memory)@, offset, replacement);
}

/// A stored `u16` is there, and every other byte stays.
proof fn lemma_stored_16(memory: Seq<u8>, offset: usize, value: u16)
    requires
        offset + 2 <= memory.len(),
    ensures
        value_16(stored_16(memory, offset, value), offset) == value,
        stored_16(memory, offset, value).len() == memory.len(),
        forall|i: int|
            0 <= i < memory.len() && !(offset <= i < offset + 2)
                ==> #[trigger] stored_16(memory, offset, value)[i] == memory[i],
{
    lemma_operations_16(memory, offset, value);
    lemma_bytes_of_16(memory, offset, value);
}

/// Both ways of loading give the `u16` at the offset.
pub proof fn law_load_16(memory: &Vec<u8>, offset: usize, r: u16, unsynchronized: u16)
    requires
        call_ensures(atomic_load_16_seq_cst, (memory, offset), r),
        call_ensures(atomic_load_16_unsynchronized, (memory, offset), unsynchronized),
    ensures
        r == value_16(memory@, offset),
        unsynchronized == r,
{
}

/// After a store, sequentially consistent, the `u16` at the offset is the one that was
/// stored, and every other byte stays.
pub proof fn law_store_16_seq_cst(memory: &mut Vec<u8>, offset: usize, value: u16)
    requires
        offset + 2 <= old(memory)@.len(),
        call_ensures(atomic_store_16_seq_cst, (memory, offset, value), ()),
    ensures
        value_16(final(memory)@, offset) == value,
        final(memory)@.len() == old(memory)@.len(),
        forall|i: int|
            0 <= i < old(memory)@.len() && !(offset <= i < offset + 2)
                ==> #[trigger] final(memory)@[i] == old(memory)@[i],
{
    lemma_stored_16(old(memory)@, offset, value);
}

/// After a store, unsynchronized, the `u16` at the offset is the one that was
/// stored, and every other byte stays.
pub proof fn law_store_16_unsynchronized(memory: &mut Vec<u8>, offset: usize, value: u16)
    requires
        offset + 2 <= old(memory)@.len(),
        call_ensures(atomic_store_16_unsynchronized, (memory, offset, value), ()),
    ensures
        value_16(final(memory)@, offset) == value,
        final(memory)@.len() == old(memory)@.len(),
        forall|i: int|
            0 <= i < old(memory)@.len() && !(offset <= i < offset + 2)
                ==> #[trigger] final(memory)@[i] == old(memory)@[i],
{
    lemma_stored_16(old(memory)@, offset, value);
}

/// Exchanging gives the `u16` that was at the offset. What is there then is
/// the new one, and every other byte stays.
pub proof fn law_exchange_16(memory: &mut Vec<u8>, offset: usize, value: u16, r: u16)
    requires
        offset + 2 <= old(memory)@.len(),
        call_ensures(atomic_exchange_16_seq_cst, (memory, offset, value), r),
    ensures
        r == value_16(old(memory)@, offset),
        value_16(final(memory)@, offset) == value,
        final(memory)@.len() == old(memory)@.len(),
        forall|i: int|
            0 <= i < old(memory)@.len() && !(offset <= i < offset + 2)
                ==> #[trigger] final(memory)@[i] == old(memory)@[i],
{
    lemma_stored_16(old(memory)@, offset, value);
}

/// Adding gives the `u16` that was at the offset. What is there then is
/// the sum modulo 2^16, and every other byte stays.
pub proof fn law_add_16(memory: &mut Vec<u8>, offset: usize, value: u16, r: u16)
    requires
        offset + 2 <= old(memory)@.len(),
        call_ensures(atomic_add_16_seq_cst, (memory, offset, value), r),
    ensures
        r == value_16(old(memory)@, offset),
        value_16(final(memory)@, offset) == (r + value) % 0x1_0000,
        final(memory)@.len() == old(memory)@.len(),
        forall|i: int|
            0 <= i < old(memory)@.len() && !(offset <= i < offset + 2)
                ==> #[trigger] final(memory)@[i] == old(memory)@[i],
{
    lemma_stored_16(old(memory)@, offset, r.wrapping_add(value));
}

/// A bitwise and gives the `u16` that was at the offset. What is there then is
/// the bitwise and of the two, and every other byte stays.
pub proof fn law_and_16(memory: &mut Vec<u8>, offset: usize, value: u16, r: u16)
    requires
        offset + 2 <= old(memory)@.len(),
        call_ensures(atomic_and_16_seq_cst, (memory, offset, value), r),
    ensures
        r == value_16(old(memory)@, offset),
        value_16(final(memory)@, offset) == r & value,
        final(memory)@.len() == old(memory)@.len(),
        forall|i: int|
            0 <= i < old(memory)@.len() && !(offset <= i < offset + 2)
                ==> #[trigger] final(memory)@[i] == old(memory)@[i],
{
    lemma_stored_16(old(memory)@, offset, r & value);
}

/// A bitwise or gives the `u16` that was at the offset. What is there then is
/// the bitwise or of the two, and every other byte stays.
pub proof fn law_or_16(memory: &mut Vec<u8>, offset: usize, value: u16, r: u16)
    requires
        offset + 2 <= old(memory)@.len(),
        call_ensures(atomic_or_16_seq_cst, (memory, offset, value), r),
    ensures
        r == value_16(old(memory)@, offset),
        value_16(final(memory)@, offset) == r | value,
        final(memory)@.len() == old(memory)@.len(),
        forall|i: int|
            0 <= i < old(memory)@.len() && !(offset <= i < offset + 2)
                ==> #[trigger] final(memory)@[i] == old(memory)@[i],
{
    lemma_stored_16(old(memory)@, offset, r | value);
}

/// A bitwise exclusive or gives the `u16` that was at the offset. What is there then is
/// the exclusive or of the two, and every other byte stays.
pub proof fn law_xor_16(memory: &mut Vec<u8>, offset: usize, value: u16, r: u16)
    requires
        offset + 2 <= old(memory)@.len(),
        call_ensures(atomic_xor_16_seq_cst, (memory, offset, value), r),
    ensures
        r == value_16(old(memory)@, offset),
        value_16(final(memory)@, offset) == r ^ value,
        final(memory)@.len() == old(memory)@.len(),
        forall|i: int|
            0 <= i < old(memory)@.len() && !(offset <= i < offset + 2)
                ==> #[trigger] final(memory)@[i] == old(memory)@[i],
{
    lemma_stored_16(old(memory)@, offset, r ^ value);
}

/// A conditional exchange gives the `u16` that was at the offset. Only if that is
/// the expected one is the replacement there then, and every other byte stays.
pub proof fn law_conditional_exchange_16(
    memory: &mut Vec<u8>,
    offset: usize,
    expected: u16,
    replacement: u16,
    r: u16,
)
    requires
        offset + 2 <= old(memory)@.len(),
        call_ensures(atomic_cmp_xchg_16_seq_cst, (memory, offset, expected, replacement), r),
    ensures
        r == value_16(old(memory)@, offset),
        r == expected ==> value_16(final(memory)@, offset) == replacement,
        r != expected ==> final(memory)@ == old(memory)@,
        final(memory)@.len() == old(memory)@.len(),
        forall|i: int|
            0 <= i < old(memory)@.len() && !(offset <= i < offset + 2)
                ==> #[trigger] final(memory)@[i] == old(memory)@[i],
{
    lemma_stored_16(old(memory)@, offset, replacement);
}

/// A stored `u32` is there, and every other byte stays.
proof fn lemma_stored_32(memory: Seq<u8>, offset: usize, value: u32)
    requires
        offset + 4 <= memory.len(),
    ensures
        value_32(stored_32(memory, offset, value), offset) == value,
        stored_32(memory, offset, value).len() == memory.len(),
        forall|i: int|
            0 <= i < memory.len() && !(offset <= i < offset + 4)
                ==> #[trigger] stored_32(memory, offset, value)[i] == memory[i],
{
    lemma_operations_32(memory, offset, value);
    lemma_bytes_of_32(memory, offset, value);
}

/// Both ways of loading give the `u32` at the offset.
pub proof fn law_load_32(memory: &Vec<u8>, offset: usize, r: u32, unsynchronized: u32)
    requires
        call_ensures(atomic_load_32_seq_cst, (memory, offset), r),
        call_ensures(atomic_load_32_unsynchronized, (memory, offset), unsynchronized),
    ensures
        r == value_32(memory@, offset),
        unsynchronized == r,
{
}

/// After a store, sequentially consistent, the `u32` at the offset is the one that was
/// stored, and every other byte stays.
pub proof fn law_store_32_seq_cst(memory: &mut Vec<u8>, offset: usize, value: u32)
    requires
        offset + 4 <= old(memory)@.len(),
        call_ensures(atomic_store_32_seq_cst, (memory, offset, value), ()),
    ensures
        value_32(final(memory)@, offset) == value,
        final(memory)@.len() == old(memory)@.len(),
        forall|i: int|
            0 <= i < old(memory)@.len() && !(offset <= i < offset + 4)
                ==> #[trigger] final(memory)@[i] == old(memory)@[i],
{
    lemma_stored_32(old(memory)@, offset, value);
}

/// After a store, unsynchronized, the `u32` at the offset is the one that was
/// stored, and every other byte stays.
pub proof fn law_store_32_unsynchronized(memory: &mut Vec<u8>, offset: usize, value: u32)
    requires
        offset + 4 <= old(memory)@.len(),
        call_ensures(atomic_store_32_unsynchronized, (memory, offset, value), ()),
    ensures
        value_32(final(memory)@, offset) == value,
        final(memory)@.len() == old(memory)@.len(),
        forall|i: int|
            0 <= i < old(memory)@.len() && !(offset <= i < offset + 4)
                ==> #[trigger] final(memory)@[i] == old(memory)@[i],
{
    lemma_stored_32(old(memory)@, offset, value);
}

/// Exchanging gives the `u32` that was at the offset. What is there then is
/// the new one, and every other byte stays.
pub proof fn law_exchange_32(memory: &mut Vec<u8>, offset: usize, value: u32, r: u32)
    requires
        offset + 4 <= old(memory)@.len(),
        call_ensures(atomic_exchange_32_seq_cst, (memory, offset, value), r),
    ensures
        r == value_32(old(memory)@, offset),
        value_32(final(memory)@, offset) == value,
        final(memory)@.len() == old(memory)@.len(),
        forall|i: int|
            0 <= i < old(memory)@.len() && !(offset <= i < offset + 4)
                ==> #[trigger] final(memory)@[i] == old(memory)@[i],
{
    lemma_stored_32(old(memory)@, offset, value);
}

/// Adding gives the `u32` that was at the offset. What is there then is
/// the sum modulo 2^32, and every other byte stays.
pub proof fn law_add_32(memory: &mut Vec<u8>, offset: usize, value: u32, r: u32)
    requires
        offset + 4 <= old(memory)@.len(),
        call_ensures(atomic_add_32_seq_cst, (memory, offset, value), r),
    ensures
        r == value_32(old(memory)@, offset),
        value_32(final(memory)@, offset) == (r + value) % 0x1_0000_0000,
        final(memory)@.len() == old(memory)@.len(),
        forall|i: int|
            0 <= i < old(memory)@.len() && !(offset <= i < offset + 4)
                ==> #[trigger] final(memory)@[i] == old(memory)@[i],
{
    lemma_stored_32(old(memory)@, offset, r.wrapping_add(value));
}

/// A bitwise and gives the `u32` that was at the offset. What is there then is
/// the bitwise and of the two, and every other byte stays.
pub proof fn law_and_32(memory: &mut Vec<u8>, offset: usize, value: u32, r: u32)
    requires
        offset + 4 <= old(memory)@.len(),
        call_ensures(atomic_and_32_seq_cst, (memory, offset, value), r),
    ensures
        r == value_32(old(memory)@, offset),
        value_32(final(memory)@, offset) == r & value,
        final(memory)@.len() == old(memory)@.len(),
        forall|i: int|
            0 <= i < old(memory)@.len() && !(offset <= i < offset + 4)
                ==> #[trigger] final(memory)@[i] == old(memory)@[i],
{
    lemma_stored_32(old(memory)@, offset, r & value);
}

/// A bitwise or gives the `u32` that was at the offset. What is there then is
/// the bitwise or of the two, and every other byte stays.
pub proof fn law_or_32(memory: &mut Vec<u8>, offset: usize, value: u32, r: u32)
    requires
        offset + 4 <= old(memory)@.len(),
        call_ensures(atomic_or_32_seq_cst, (memory, offset, value), r),
    ensures
        r == value_32(old(memory)@, offset),
        value_32(final(memory)@, offset) == r | value,
        final(memory)@.len() == old(memory)@.len(),
        forall|i: int|
            0 <= i < old(memory)@.len() && !(offset <= i < offset + 4)
                ==> #[trigger] final(memory)@[i] == old(memory)@[i],
{
    lemma_stored_32(old(memory)@, offset, r | value);
}

/// A bitwise exclusive or gives the `u32` that was at the offset. What is there then is
/// the exclusive or of the two, and every other byte stays.
pub proof fn law_xor_32(memory: &mut Vec<u8>, offset: usize, value: u32, r: u32)
    requires
        offset + 4 <= old(memory)@.len(),
        call_ensures(atomic_xor_32_seq_cst, (memory, offset, value), r),
    ensures
        r == value_32(old(memory)@, offset),
        value_32(final(memory)@, offset) == r ^ value,
        final(memory)@.len() == old(memory)@.len(),
        forall|i: int|
            0 <= i < old(memory)@.len() && !(offset <= i < offset + 4)
                ==> #[trigger] final(memory)@[i] == old(memory)@[i],
{
    lemma_stored_32(old(memory)@, offset, r ^ value);
}

/// A conditional exchange gives the `u32` that was at the offset. Only if that is
/// the expected one is the replacement there then, and every other byte stays.
pub proof fn law_conditional_exchange_32(
    memory: &mut Vec<u8>,
    offset: usize,
    expected: u32,
    replacement: u32,
    r: u32,
)
    requires
        offset + 4 <= old(memory)@.len(),
        call_ensures(atomic_cmp_xchg_32_seq_cst, (memory, offset, expected, replacement), r),
    ensures
        r == value_32(old(memory)@, offset),
        r == expected ==> value_32(final(memory)@, offset) == replacement,
        r != expected ==> final(memory)@ == old(memory)@,
        final(memory)@.len() == old(memory)@.len(),
        forall|i: int|
            0 <= i < old(memory)@.len() && !(offset <= i < offset + 4)
                ==> #[trigger] final(memory)@[i] == old(memory)@[i],
{
    lemma_stored_32(old(memory)@, offset, replacement);
}

/// A stored `u64` is there, and every other byte stays.
proof fn lemma_stored_64(memory: Seq<u8>, offset: usize, value: u64)
    requires
        offset + 8 <= memory.len(),
    ensures
        value_64(stored_64(memory, offset, value), offset) == value,
        stored_64(memory, offset, value).len() == memory.len(),
        forall|i: int|
            0 <= i < memory.len() && !(offset <= i < offset + 8)
                ==> #[trigger] stored_64(memory, offset, value)[i] == memory[i],
{
    lemma_operations_64(memory, offset, value);
    lemma_bytes_of_64(memory, offset, value);
}

/// Both ways of loading give the `u64` at the offset.
pub proof fn law_load_64(memory: &Vec<u8>, offset: usize, r: u64, unsynchronized: u64)
    requires
        call_ensures(atomic_load_64_seq_cst, (memory, offset), r),
        call_ensures(atomic_load_64_unsynchronized, (memory, offset), unsynchronized),
    ensures
        r == value_64(memory@, offset),
        unsynchronized == r,
{
}

/// After a store, sequentially consistent, the `u64` at the offset is the one that was
/// stored, and every other byte stays.
pub proof fn law_store_64_seq_cst(memory: &mut Vec<u8>, offset: usize, value: u64)
    requires
        offset + 8 <= old(memory)@.len(),
        call_ensures(atomic_store_64_seq_cst, (memory, offset, value), ()),
    ensures
        value_64(final(memory)@, offset) == value,
        final(memory)@.len() == old(memory)@.len(),
        forall|i: int|
            0 <= i < old(memory)@.len() && !(offset <= i < offset + 8)
                ==> #[trigger] final(memory)@[i] == old(memory)@[i],
{
    lemma_stored_64(old(memory)@, offset, value);
}

/// After a store, unsynchronized, the `u64` at the offset is the one that was
/// stored, and every other byte stays.
pub proof fn law_store_64_unsynchronized(memory: &mut Vec<u8>, offset: usize, value: u64)
    requires
        offset + 8 <= old(memory)@.len(),
        call_ensures(atomic_store_64_unsynchronized, (memory, offset, value), ()),
    ensures
        value_64(final(memory)@, offset) == value,
        final(memory)@.len() == old(memory)@.len(),
        forall|i: int|
            0 <= i < old(memory)@.len() && !(offset <= i < offset + 8)
                ==> #[trigger] final(memory)@[i] == old(memory)@[i],
{
    lemma_stored_64(old(memory)@, offset, value);
}

/// Exchanging gives the `u64` that was at the offset. What is there then is
/// the new one, and every other byte stays.
pub proof fn law_exchange_64(memory: &mut Vec<u8>, offset: usize, value: u64, r: u64)
    requires
        offset + 8 <= old(memory)@.len(),
        call_ensures(atomic_exchange_64_seq_cst, (memory, offset, value), r),
    ensures
        r == value_64(old(memory)@, offset),
        value_64(final(memory)@, offset) == value,
        final(memory)@.len() == old(memory)@.len(),
        forall|i: int|
            0 <= i < old(memory)@.len() && !(offset <= i < offset + 8)
                ==> #[trigger] final(memory)@[i] == old(memory)@[i],
{
    lemma_stored_64(old(memory)@, offset, value);
}

/// Adding gives the `u64` that was at the offset. What is there then is
/// the sum modulo 2^64, and every other byte stays.
pub proof fn law_add_64(memory: &mut Vec<u8>, offset: usize, value: u64, r: u64)
    requires
        offset + 8 <= old(memory)@.len(),
        call_ensures(atomic_add_64_seq_cst, (memory, offset, value), r),
    ensures
        r == value_64(old(memory)@, offset),
        value_64(final(memory)@, offset) == (r + value) % 0x1_0000_0000_0000_0000,
        final(memory)@.len() == old(memory)@.len(),
        forall|i: int|
            0 <= i < old(memory)@.len() && !(offset <= i < offset + 8)
                ==> #[trigger] final(memory)@[i] == old(memory)@[i],
{
    lemma_stored_64(old(memory)@, offset, r.wrapping_add(value));
}

/// A bitwise and gives the `u64` that was at the offset. What is there then is
/// the bitwise and of the two, and every other byte stays.
pub proof fn law_and_64(memory: &mut Vec<u8>, offset: usize, value: u64, r: u64)
    requires
        offset + 8 <= old(memory)@.len(),
        call_ensures(atomic_and_64_seq_cst, (memory, offset, value), r),
    ensures
        r == value_64(old(memory)@, offset),
        value_64(final(memory)@, offset) == r & value,
        final(memory)@.len() == old(memory)@.len(),
        forall|i: int|
            0 <= i < old(memory)@.len() && !(offset <= i < offset + 8)
                ==> #[trigger] final(memory)@[i] == old(memory)@[i],
{
    lemma_stored_64(old(memory)@, offset, r & value);
}

/// A bitwise or gives the `u64` that was at the offset. What is there then is
/// the bitwise or of the two, and every other byte stays.
pub proof fn law_or_64(memory: &mut Vec<u8>, offset: usize, value: u64, r: u64)
    requires
        offset + 8 <= old(memory)@.len(),
        call_ensures(atomic_or_64_seq_cst, (memory, offset, value), r),
    ensures
        r == value_64(old(memory)@, offset),
        value_64(final(memory)@, offset) == r | value,
        final(memory)@.len() == old(memory)@.len(),
        forall|i: int|
            0 <= i < old(memory)@.len() && !(offset <= i < offset + 8)
                ==> #[trigger] final(memory)@[i] == old(memory)@[i],
{
    lemma_stored_64(old(memory)@, offset, r | value);
}

/// A bitwise exclusive or gives the `u64` that was at the offset. What is there then is
/// the exclusive or of the two, and every other byte stays.
pub proof fn law_xor_64(memory: &mut Vec<u8>, offset: usize, value: u64, r: u64)
    requires
        offset + 8 <= old(memory)@.len(),
        call_ensures(atomic_xor_64_seq_cst, (memory, offset, value), r),
    ensures
        r == value_64(old(memory)@, offset),
        value_64(final(memory)@, offset) == r ^ value,
        final(memory)@.len() == old(memory)@.len(),
        forall|i: int|
            0 <= i < old(memory)@.len() && !(offset <= i < offset + 8)
                ==> #[trigger] final(memory)@[i] == old(memory)@[i],
{
    lemma_stored_64(old(memory)@, offset, r ^ value);
}

/// A conditional exchange gives the `u64` that was at the offset. Only if that is
/// the expected one is the replacement there then, and every other byte stays.
pub proof fn law_conditional_exchange_64(
    memory: &mut Vec<u8>,
    offset: usize,
    expected: u64,
    replacement: u64,
    r: u64,
)
    requires
        offset + 8 <= old(memory)@.len(),
        call_ensures(atomic_cmp_xchg_64_seq_cst, (memory, offset, expected, replacement), r),
    ensures
        r == value_64(old(memory)@, offset),
        r == expected ==> value_64(final(memory)@, offset) == replacement,
        r != expected ==> final(memory)@ == old(memory)@,
        final(memory)@.len() == old(memory)@.len(),
        forall|i: int|
            0 <= i < old(memory)@.len() && !(offset <= i < offset + 8)
                ==> #[trigger] final(memory)@[i] == old(memory)@[i],
{
    lemma_stored_64(old(memory)@, offset, replacement);
}

} // verus!
