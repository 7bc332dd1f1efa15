use vstd::prelude::*;
use vstd::arithmetic::div_mod::lemma_fundamental_div_mod;
use vstd::arithmetic::div_mod::lemma_mod_multiples_vanish;
use vstd::arithmetic::div_mod::lemma_add_mod_noop;
use vstd::bytes::spec_u64_to_le_bytes;
use vstd::bytes::spec_u64_from_le_bytes;
use vstd::bytes::u64_to_le_bytes;
use vstd::bytes::lemma_auto_spec_u64_to_from_le_bytes;

verus! {

/// Bytes of the stack that a single jump is made onto.
pub const STACK_SIZE: usize = 48;

/// `s` with the eight little-endian bytes of `value` stored from offset `at`.
pub open spec fn write_word(s: Seq<u8>, at: int, value: u64) -> Seq<u8> {
    Seq::new(
        s.len(),
        |i: int|
            if at <= i < at + 8 {
                spec_u64_to_le_bytes(value)[i - at]
            } else {
                s[i]
            },
    )
}

/// The word stored in `s` from offset `at`, read little-endian.
pub open spec fn read_word(s: Seq<u8>, at: int) -> u64 {
    spec_u64_from_le_bytes(s.subrange(at, at + 8))
}

/// The offset, in a stack of `len` bytes that starts at address `base`, of
/// the highest 16-byte aligned address at or below the stack's end.
pub open spec fn aligned_top(base: u64, len: int) -> int {
    len - (base + len) % 16
}

/// The address `off` bytes into the memory that starts at `base`, as the
/// machine computes it (modulo 2^64).
pub open spec fn address_at(base: u64, off: int) -> u64 {
    ((base + off) % 0x1_0000_0000_0000_0000) as u64
}

/// The frame that starts a thread: below the aligned top of its stack lie,
/// from the top down, the address of the `guard` the thread returns to when
/// it finishes, that of the `skip` trampoline, and its `entry` point, which
/// is where the stack pointer is left.
pub open spec fn spawn_frame(stack: Seq<u8>, base: u64, entry: u64, guard: u64, skip: u64) -> Seq<u8> {
    let top = aligned_top(base, stack.len() as int);
    write_word(write_word(write_word(stack, top - 16, guard), top - 24, skip), top - 32, entry)
}

/// The frame that makes a single jump into `entry`: its address stored just
/// below the aligned top of the stack, where the stack pointer is left.
pub open spec fn jump_frame(stack: Seq<u8>, base: u64, entry: u64) -> Seq<u8> {
    write_word(stack, aligned_top(base, stack.len() as int) - 16, entry)
}

/// Stores the eight little-endian bytes of `value` into `stack` from `at`.
pub fn store_word(stack: &mut Vec<u8>, at: usize, value: u64)
    requires
        at + 8 <= old(stack)@.len(),
    ensures
        final(stack)@ == write_word(old(stack)@, at as int, value),
{
    let bytes = u64_to_le_bytes(value);
    let ghost start = stack@;
    for k in 0..8usize
        invariant
            bytes@ == spec_u64_to_le_bytes(value),
            bytes@.len() == 8,
            at + 8 <= start.len(),
            at + 8 <= stack.len(),
            stack@.len() == start.len(),
            forall|i: int|
                0 <= i < stack@.len() ==> #[trigger] stack@[i] == if at <= i < at + k {
                    spec_u64_to_le_bytes(value)[i - at]
                } else {
                    start[i]
                },
    {
        stack[at + k] = bytes[k];
    }
    assert(stack@ =~= write_word(start, at as int, value));
}

/// The offset of the aligned top of a stack of `len` bytes at `base`.
pub fn aligned_top_offset(base: u64, len: usize) -> (off: usize)
    requires
        len >= 16,
    ensures
        off == aligned_top(base, len as int),
        len - 15 <= off <= len,
{
    let misalign: u64 = ((base % 16) + ((len as u64) % 16)) % 16;
    proof {
        lemma_add_mod_noop(base as int, len as int, 16);
    }
    len - (misalign as usize)
}

/// The address `off` bytes above a 16-byte aligned point is aligned when
/// `off` is a multiple of 16, whatever wrapping the machine does.
proof fn lemma_aligned_address(base: u64, len: int, back: int)
    requires
        16 <= len,
        back % 16 == 0,
        0 <= back <= aligned_top(base, len),
    ensures
        address_at(base, aligned_top(base, len) - back) % 16 == 0,
{
    let x = base + len;
    lemma_fundamental_div_mod(x, 16);
    let q = x / 16;
    let r = (base + aligned_top(base, len) - back) % 0x1_0000_0000_0000_0000;
    assert(base + aligned_top(base, len) - back == 16 * (q - back / 16));
    lemma_fundamental_div_mod(base + aligned_top(base, len) - back, 0x1_0000_0000_0000_0000);
    let w = (base + aligned_top(base, len) - back) / 0x1_0000_0000_0000_0000;
    assert(r == 16 * ((q - back / 16) - w * 0x1000_0000_0000_0000));
    lemma_mod_multiples_vanish((q - back / 16) - w * 0x1000_0000_0000_0000, 0, 16);
}

/// Lays the starting frame of a thread out in `stack`, which lives at
/// address `base`, and returns the stack pointer the thread starts with. The
/// stack pointer is 16-byte aligned, and the three words lie in the stack.
pub fn prepare_frame(stack: &mut Vec<u8>, base: u64, entry: u64, guard: u64, skip: u64) -> (rsp: u64)
    requires
        old(stack)@.len() >= 48,
    ensures
        final(stack)@ == spawn_frame(old(stack)@, base, entry, guard, skip),
        rsp == address_at(base, aligned_top(base, old(stack)@.len() as int) - 32),
        rsp % 16 == 0,
        read_word(final(stack)@, aligned_top(base, old(stack)@.len() as int) - 32) == entry,
        read_word(final(stack)@, aligned_top(base, old(stack)@.len() as int) - 24) == skip,
        read_word(final(stack)@, aligned_top(base, old(stack)@.len() as int) - 16) == guard,
{
    let len = stack.len();
    let top = aligned_top_offset(base, len);
    store_word(stack, top - 16, guard);
    store_word(stack, top - 24, skip);
    store_word(stack, top - 32, entry);
    let off = (top - 32) as u64;
    let rsp = base.wrapping_add(off);
    proof {
        lemma_aligned_address(base, len as int, 32);
        law_spawn_frame_layout(old(stack)@, base, entry, guard, skip);
    }
    rsp
}

/// Lays out a frame that makes a single jump into `entry` in `stack`, which
/// lives at address `base`, and returns the aligned stack pointer to load.
pub fn prepare_jump(stack: &mut Vec<u8>, base: u64, entry: u64) -> (rsp: u64)
    requires
        old(stack)@.len() >= 32,
    ensures
        final(stack)@ == jump_frame(old(stack)@, base, entry),
        rsp == address_at(base, aligned_top(base, old(stack)@.len() as int) - 16),
        rsp % 16 == 0,
        read_word(final(stack)@, aligned_top(base, old(stack)@.len() as int) - 16) == entry,
{
    let len = stack.len();
    let top = aligned_top_offset(base, len);
    store_word(stack, top - 16, entry);
    let off = (top - 16) as u64;
    let rsp = base.wrapping_add(off);
    proof {
        lemma_aligned_address(base, len as int, 16);
        law_jump_frame_layout(old(stack)@, base, entry);
    }
    rsp
}

/// A word stored into a stack reads back as itself, and the bytes outside
/// it keep what they held.
pub proof fn law_word_read_back(s: Seq<u8>, at: int, value: u64)
    requires
        0 <= at,
        at + 8 <= s.len(),
    ensures
        read_word(write_word(s, at, value), at) == value,
        forall|i: int|
            0 <= i < s.len() && !(at <= i < at + 8) ==> #[trigger] write_word(s, at, value)[i]
                == s[i],
{
    lemma_auto_spec_u64_to_from_le_bytes();
    assert(write_word(s, at, value).subrange(at, at + 8) =~= spec_u64_to_le_bytes(value));
}

/// Stores at disjoint offsets do not disturb each other.
pub proof fn law_disjoint_words(s: Seq<u8>, at1: int, v1: u64, at2: int, v2: u64)
    requires
        0 <= at1,
        at1 + 8 <= s.len(),
        0 <= at2,
        at2 + 8 <= s.len(),
        at1 + 8 <= at2 || at2 + 8 <= at1,
    ensures
        read_word(write_word(write_word(s, at1, v1), at2, v2), at1) == v1,
{
    lemma_auto_spec_u64_to_from_le_bytes();
    assert(write_word(write_word(s, at1, v1), at2, v2).subrange(at1, at1 + 8)
        =~= spec_u64_to_le_bytes(v1));
}

/// A thread's starting frame holds, from its stack pointer up, its entry
/// point, the `skip` trampoline and the `guard` it returns to, all inside
/// its stack; every other byte of the stack is kept.
pub proof fn law_spawn_frame_layout(stack: Seq<u8>, base: u64, entry: u64, guard: u64, skip: u64)
    requires
        stack.len() >= 48,
    ensures
        ({
            let top = aligned_top(base, stack.len() as int);
            let f = spawn_frame(stack, base, entry, guard, skip);
            &&& 0 <= top - 32
            &&& top <= stack.len()
            &&& read_word(f, top - 32) == entry
            &&& read_word(f, top - 24) == skip
            &&& read_word(f, top - 16) == guard
            &&& f.len() == stack.len()
            &&& forall|i: int|
                0 <= i < stack.len() && !(top - 32 <= i < top - 8) ==> #[trigger] f[i] == stack[i]
        }),
{
    let top = aligned_top(base, stack.len() as int);
    let s1 = write_word(stack, top - 16, guard);
    let s2 = write_word(s1, top - 24, skip);
    law_word_read_back(s2, top - 32, entry);
    law_disjoint_words(s1, top - 24, skip, top - 32, entry);
    law_disjoint_words(stack, top - 16, guard, top - 24, skip);
    lemma_auto_spec_u64_to_from_le_bytes();
    let f = spawn_frame(stack, base, entry, guard, skip);
    assert(f.subrange(top - 16, top - 8) =~= s1.subrange(top - 16, top - 8));
    assert(s1.subrange(top - 16, top - 8) =~= spec_u64_to_le_bytes(guard));
}

/// The aligned top of a stack is the highest 16-byte aligned address at or
/// below its end: its address is a multiple of 16, it lies within the last
/// 16 bytes, and the stack pointer left `back` bytes below it (a multiple of
/// 16) is aligned too, whatever the stack's address.
pub proof fn law_aligned_top(base: u64, len: int, back: int)
    requires
        16 <= len,
        back % 16 == 0,
        0 <= back <= len - 15,
    ensures
        (base + aligned_top(base, len)) % 16 == 0,
        len - 15 <= aligned_top(base, len) <= len,
        address_at(base, aligned_top(base, len) - back) % 16 == 0,
{
    lemma_fundamental_div_mod(base + len, 16);
    lemma_mod_multiples_vanish((base + len) / 16, 0, 16);
    assert(base + aligned_top(base, len) == 16 * ((base + len) / 16));
    lemma_aligned_address(base, len, back);
}

/// The frame of a jump holds, at the stack pointer it leaves, the address
/// jumped to, so that `ret` lands there; every other byte of the stack is
/// kept, whatever the stack's address.
pub proof fn law_jump_frame_layout(stack: Seq<u8>, base: u64, entry: u64)
    requires
        stack.len() >= 32,
    ensures
        ({
            let top = aligned_top(base, stack.len() as int);
            let f = jump_frame(stack, base, entry);
            &&& 0 <= top - 16
            &&& top - 8 <= stack.len()
            &&& f.len() == stack.len()
            &&& read_word(f, top - 16) == entry
            &&& forall|i: int|
                0 <= i < stack.len() && !(top - 16 <= i < top - 8) ==> #[trigger] f[i] == stack[i]
        }),
{
    let top = aligned_top(base, stack.len() as int);
    law_word_read_back(stack, top - 16, entry);
}

/// The address `off` bytes into memory that starts at `base` lies, counted
/// modulo 2^64 as the machine counts, exactly `off` bytes above `base`.
pub proof fn law_address_at_offset(base: u64, off: int)
    requires
        0 <= off < 0x1_0000_0000_0000_0000,
    ensures
        (address_at(base, off) - base) % 0x1_0000_0000_0000_0000 == off,
{
    let m: int = 0x1_0000_0000_0000_0000;
    lemma_fundamental_div_mod(base + off, m);
    let q = (base + off) / m;
    assert(address_at(base, off) - base == off - m * q);
    lemma_mod_multiples_vanish(-q, off, m);
    assert(m * (-q) + off == off - m * q) by (nonlinear_arith);
}

} // verus!
