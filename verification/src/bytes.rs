//! Big-endian integers, and the counter that the first four bytes of a
//! counter block hold.

use vstd::prelude::*;

verus! {

/// Two to the power of 32: the number of values that the counter takes.
pub open spec fn counter_modulus() -> int {
    0x1_0000_0000
}

/// The 32-bit number that the first four bytes of `b` spell, most significant
/// byte first.
pub open spec fn be_u32(b: Seq<u8>) -> int
    recommends
        b.len() >= 4,
{
    b[0] as int * 0x100_0000 + b[1] as int * 0x1_0000 + b[2] as int * 0x100 + b[3] as int
}

/// The four bytes that spell `v`, most significant byte first.
pub open spec fn be_bytes(v: int) -> Seq<u8>
    recommends
        0 <= v < counter_modulus(),
{
    seq![
        (v / 0x100_0000) as u8,
        ((v / 0x1_0000) % 0x100) as u8,
        ((v / 0x100) % 0x100) as u8,
        (v % 0x100) as u8,
    ]
}

/// The counter block `iv` with its counter replaced by `c`.
pub open spec fn with_counter(iv: Seq<u8>, c: int) -> Seq<u8>
    recommends
        iv.len() == 16,
        0 <= c < counter_modulus(),
{
    be_bytes(c) + iv.subrange(4, 16)
}

/// The counter block that follows `iv`: the counter goes up by one and wraps
/// from its largest value to zero; the other twelve bytes stay.
pub open spec fn next_iv(iv: Seq<u8>) -> Seq<u8>
    recommends
        iv.len() == 16,
{
    with_counter(iv, (be_u32(iv) + 1) % counter_modulus())
}

/// The counter block after `n` steps from `iv`.
pub open spec fn iv_after(iv: Seq<u8>, n: nat) -> Seq<u8>
    decreases n,
{
    if n == 0 {
        iv
    } else {
        next_iv(iv_after(iv, (n - 1) as nat))
    }
}

/// Spelling a number and reading it back gives the number.
pub proof fn lemma_be_round_trip(v: int)
    requires
        0 <= v < counter_modulus(),
    ensures
        be_bytes(v).len() == 4,
        be_u32(be_bytes(v)) == v,
{
}

/// The digits of a number written to the base 256 are what quotients and
/// remainders give back.
proof fn lemma_digits(a: int, b: int, c: int, d: int)
    requires
        0 <= a < 0x100,
        0 <= b < 0x100,
        0 <= c < 0x100,
        0 <= d < 0x100,
    ensures
        ({
            let v = a * 0x100_0000 + b * 0x1_0000 + c * 0x100 + d;
            &&& 0 <= v < 0x1_0000_0000
            &&& v / 0x100_0000 == a
            &&& (v / 0x1_0000) % 0x100 == b
            &&& (v / 0x100) % 0x100 == c
            &&& v % 0x100 == d
        }),
{
    let v = a * 0x100_0000 + b * 0x1_0000 + c * 0x100 + d;
    assert(v / 0x1_0000 == a * 0x100 + b);
}

/// Reading four bytes and spelling the number gives the bytes.
pub proof fn lemma_be_bytes_of_be_u32(b: Seq<u8>)
    requires
        b.len() == 4,
    ensures
        0 <= be_u32(b) < counter_modulus(),
        be_bytes(be_u32(b)) == b,
{
    lemma_digits(b[0] as int, b[1] as int, b[2] as int, b[3] as int);
}

/// Adding one before or after reducing gives the same residue.
proof fn lemma_mod_step(x: int, m: int)
    requires
        0 <= x,
        1 < m,
    ensures
        ((x % m) + 1) % m == (x + 1) % m,
{
    assert(((x % m) + 1) % m == (x + 1) % m) by (nonlinear_arith)
        requires
            0 <= x,
            1 < m,
    ;
}

/// Replacing the counter keeps the length and the last twelve bytes, and the
/// new counter reads back.
pub proof fn lemma_with_counter(iv: Seq<u8>, c: int)
    requires
        iv.len() == 16,
        0 <= c < counter_modulus(),
    ensures
        with_counter(iv, c).len() == 16,
        be_u32(with_counter(iv, c)) == c,
        with_counter(iv, c).subrange(4, 16) == iv.subrange(4, 16),
{
    lemma_be_round_trip(c);
    let w = with_counter(iv, c);
}

/// Stepping a counter block `n` times adds `n` to its counter modulo two to
/// the power of 32 and leaves the other twelve bytes alone: the block after
/// `n` steps depends on the first block and on `n` only.
pub proof fn lemma_iv_after(iv: Seq<u8>, n: nat)
    requires
        iv.len() == 16,
    ensures
        iv_after(iv, n) == with_counter(iv, (be_u32(iv) + n) % counter_modulus()),
    decreases n,
{
    let head = iv.subrange(0, 4);
    lemma_be_bytes_of_be_u32(head);
    let c0 = be_u32(iv);
    if n > 0 {
        let m = (n - 1) as nat;
        lemma_iv_after(iv, m);
        let c = (c0 + m) % counter_modulus();
        lemma_with_counter(iv, c);
        assert((c + 1) % counter_modulus() == (c0 + n) % counter_modulus()) by {
            lemma_mod_step(c0 + m, counter_modulus());
        }
    }
}

/// Reads the big-endian `u32` at the front of `b`.
pub fn read_be_u32(b: &[u8]) -> (r: u32)
    requires
        b@.len() >= 4,
    ensures
        r as int == be_u32(b@),
{
    let b0: u32 = b[0] as u32;
    let b1: u32 = b[1] as u32;
    let b2: u32 = b[2] as u32;
    let b3: u32 = b[3] as u32;
    b0 * 0x100_0000 + b1 * 0x1_0000 + b2 * 0x100 + b3
}

/// Steps the counter block in place.
pub fn increase_counter(iv: &mut Vec<u8>)
    requires
        old(iv)@.len() == 16,
    ensures
        final(iv)@ == next_iv(old(iv)@),
{
    let c: u32 = read_be_u32(iv.as_slice());
    let n: u32 = c.wrapping_add(1);
    iv[0] = (n / 0x100_0000) as u8;
    iv[1] = ((n / 0x1_0000) % 0x100) as u8;
    iv[2] = ((n / 0x100) % 0x100) as u8;
    iv[3] = (n % 0x100) as u8;
}

/// A copy of `b[from..to]`.
pub fn copy_range(b: &[u8], from: usize, to: usize) -> (r: Vec<u8>)
    requires
        from <= to <= b@.len(),
    ensures
        r@ == b@.subrange(from as int, to as int),
{
    let mut out: Vec<u8> = Vec::new();
    let mut i: usize = from;
    while i < to
        invariant
            from <= i <= to <= b@.len(),
            out@ == b@.subrange(from as int, i as int),
        decreases to - i,
    {
        out.push(b[i]);
        i = i + 1;
    }
    out
}

/// Appends the bytes of `tail` to `out`.
pub fn append_bytes(out: &mut Vec<u8>, tail: &[u8])
    ensures
        final(out)@ == old(out)@ + tail@,
{
    let mut i: usize = 0;
    while i < tail.len()
        invariant
            i <= tail@.len(),
            out@ == old(out)@ + tail@.subrange(0, i as int),
        decreases tail@.len() - i,
    {
        out.push(tail[i]);
        i = i + 1;
    }
}

/// The counter block `block` with the number that its bytes up to the one
/// at `i` spell, most significant byte first, gone up by one; a byte that is
/// full goes to zero and the one before it goes up.
pub open spec fn next_block_at(block: Seq<u8>, i: int) -> Seq<u8>
    decreases i + 1,
{
    if i < 0 || i >= block.len() {
        block
    } else if block[i] == 0xff {
        next_block_at(block.update(i, 0u8), i - 1)
    } else {
        block.update(i, (block[i] + 1) as u8)
    }
}

/// The counter block of the next sixteen bytes of keystream: counter mode
/// reads all sixteen bytes as one number, most significant byte first, and
/// adds one to it for each block of the cipher, wrapping to zero.
pub open spec fn next_block(block: Seq<u8>) -> Seq<u8> {
    next_block_at(block, block.len() - 1)
}

/// The counter block `n` blocks of the cipher further on.
pub open spec fn block_after(block: Seq<u8>, n: nat) -> Seq<u8>
    decreases n,
{
    if n == 0 {
        block
    } else {
        next_block(block_after(block, (n - 1) as nat))
    }
}

/// Going up by one keeps the length.
pub proof fn lemma_next_block_len(block: Seq<u8>, i: int)
    ensures
        next_block_at(block, i).len() == block.len(),
    decreases i + 1,
{
    if 0 <= i < block.len() && block[i] == 0xff {
        lemma_next_block_len(block.update(i, 0u8), i - 1);
    }
}

/// Moves a counter block on by one block of the cipher.
pub fn step_block(block: &mut Vec<u8>)
    ensures
        final(block)@ == next_block(old(block)@),
        final(block)@.len() == old(block)@.len(),
{
    let mut i: usize = block.len();
    while i > 0
        invariant
            i <= block@.len(),
            block@.len() == old(block)@.len(),
            next_block(old(block)@) == next_block_at(block@, i - 1),
        decreases i,
    {
        i = i - 1;
        if block[i] == 0xff {
            block[i] = 0;
        } else {
            let up: u8 = block[i] + 1;
            block[i] = up;
            return;
        }
    }
}

/// Moves a counter block on by `n` blocks of the cipher.
pub fn advance_block(block: &mut Vec<u8>, n: usize)
    ensures
        final(block)@ == block_after(old(block)@, n as nat),
        final(block)@.len() == old(block)@.len(),
{
    let mut done: usize = 0;
    while done < n
        invariant
            done <= n,
            block@.len() == old(block)@.len(),
            block@ == block_after(old(block)@, done as nat),
        decreases n - done,
    {
        step_block(block);
        done = done + 1;
    }
}

} // verus!
