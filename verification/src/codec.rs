//! Little-endian encoding of 32-bit and 64-bit words, and of arrays of
//! 32-bit words, with the facts that make a round trip exact.

use vstd::prelude::*;

verus! {

/// The four bytes of `x`, least significant first.
pub open spec fn le32(x: u32) -> Seq<u8> {
    seq![
        (x % 256) as u8,
        (x / 0x100 % 256) as u8,
        (x / 0x1_0000 % 256) as u8,
        (x / 0x100_0000 % 256) as u8,
    ]
}

/// The eight bytes of `x`, least significant first.
pub open spec fn le64(x: u64) -> Seq<u8> {
    le32((x % 0x1_0000_0000) as u32) + le32((x / 0x1_0000_0000) as u32)
}

/// The word whose four bytes stand at `off` in `data`.
pub open spec fn word_at(data: Seq<u8>, off: int) -> u32 {
    (data[off] + 0x100 * data[off + 1] + 0x1_0000 * data[off + 2] + 0x100_0000 * data[off
        + 3]) as u32
}

/// The 64-bit word whose eight bytes stand at `off` in `data`.
pub open spec fn dword_at(data: Seq<u8>, off: int) -> u64 {
    (word_at(data, off) + 0x1_0000_0000 * word_at(data, off + 4)) as u64
}

/// The bytes of every word of `ws`, in order.
pub open spec fn words_le(ws: Seq<u32>) -> Seq<u8> {
    Seq::new(4 * ws.len(), |k: int| le32(ws[k / 4])[k % 4])
}

/// The `n` words that stand at `off` in `data`.
pub open spec fn words_at(data: Seq<u8>, off: int, n: nat) -> Seq<u32> {
    Seq::new(n, |i: int| word_at(data, off + 4 * i))
}

/// A word is the sum of its four bytes, each at its place.
proof fn word_is_sum_of_bytes(x: u32)
    ensures
        x == (x % 256) + 0x100 * (x / 0x100 % 256) + 0x1_0000 * (x / 0x1_0000 % 256) + 0x100_0000
            * (x / 0x100_0000 % 256),
{
    assert(x == (x % 256) + 0x100 * (x / 0x100 % 256) + 0x1_0000 * (x / 0x1_0000 % 256)
        + 0x100_0000 * (x / 0x100_0000 % 256)) by (bit_vector);
}

/// A word is what its four bytes decode to.
pub proof fn word_round_trip(x: u32)
    ensures
        le32(x).len() == 4,
        word_at(le32(x), 0) == x,
{
    word_at_bytes_of(le32(x), 0, x);
}

/// A 64-bit word is what its eight bytes decode to.
pub proof fn dword_round_trip(x: u64)
    ensures
        le64(x).len() == 8,
        dword_at(le64(x), 0) == x,
{
    let lo: u32 = (x % 0x1_0000_0000) as u32;
    let hi: u32 = (x / 0x1_0000_0000) as u32;
    word_round_trip(lo);
    word_round_trip(hi);
    let d = le64(x);
    assert(d.len() == 8);
    assert(word_at(d, 0) == word_at(le32(lo), 0));
    assert(word_at(d, 4) == word_at(le32(hi), 0));
}

/// Decoding looks only at the bytes it names: a word read at `off + k` in
/// `data` is the word read at `k` in the part of `data` that starts at `off`.
pub proof fn word_at_within(data: Seq<u8>, off: int, len: int, k: int)
    requires
        0 <= off,
        0 <= k,
        k + 4 <= len,
        off + len <= data.len(),
    ensures
        word_at(data, off + k) == word_at(data.subrange(off, off + len), k),
{
}

/// The word at `off` is `x` where the four bytes at `off` are those of `x`.
pub proof fn word_at_bytes_of(data: Seq<u8>, off: int, x: u32)
    requires
        data[off] == le32(x)[0],
        data[off + 1] == le32(x)[1],
        data[off + 2] == le32(x)[2],
        data[off + 3] == le32(x)[3],
    ensures
        word_at(data, off) == x,
{
    word_is_sum_of_bytes(x);
    assert(le32(x)[0] == (x % 256) as u8);
    assert(le32(x)[1] == (x / 0x100 % 256) as u8);
    assert(le32(x)[2] == (x / 0x1_0000 % 256) as u8);
    assert(le32(x)[3] == (x / 0x100_0000 % 256) as u8);
}

/// Byte `4 * i + j` of the bytes of an array is byte `j` of its word `i`.
pub proof fn words_le_index(ws: Seq<u32>, i: int, j: int)
    requires
        0 <= i < ws.len(),
        0 <= j < 4,
    ensures
        words_le(ws).len() == 4 * ws.len(),
        words_le(ws)[4 * i + j] == le32(ws[i])[j],
{
    assert((4 * i + j) / 4 == i);
    assert((4 * i + j) % 4 == j);
}

/// Word `i` of an array is what its four bytes decode to, wherever the
/// array's bytes stand.
pub proof fn word_in_words(pre: Seq<u8>, ws: Seq<u32>, post: Seq<u8>, i: int)
    requires
        0 <= i < ws.len(),
    ensures
        word_at(pre + words_le(ws) + post, pre.len() + 4 * i) == ws[i],
{
    let mid = words_le(ws);
    let data = pre + mid + post;
    let off = pre.len() + 4 * i;
    words_le_index(ws, i, 0);
    words_le_index(ws, i, 1);
    words_le_index(ws, i, 2);
    words_le_index(ws, i, 3);
    assert(data[off] == mid[4 * i]);
    assert(data[off + 1] == mid[4 * i + 1]);
    assert(data[off + 2] == mid[4 * i + 2]);
    assert(data[off + 3] == mid[4 * i + 3]);
    word_at_bytes_of(data, off, ws[i]);
}

/// An array of words is what its bytes decode to, wherever they stand.
pub proof fn words_round_trip(pre: Seq<u8>, ws: Seq<u32>, post: Seq<u8>)
    ensures
        words_le(ws).len() == 4 * ws.len(),
        words_at(pre + words_le(ws) + post, pre.len() as int, ws.len()) == ws,
{
    let data = pre + words_le(ws) + post;
    let got = words_at(data, pre.len() as int, ws.len());
    assert(got.len() == ws.len());
    assert forall|i: int| 0 <= i < ws.len() implies got[i] == ws[i] by {
        word_in_words(pre, ws, post, i);
    }
    assert(got =~= ws);
}

/// The bytes of an array with one more word are the bytes of the array and
/// then the bytes of the word.
pub proof fn words_le_push(ws: Seq<u32>, x: u32)
    ensures
        words_le(ws.push(x)) == words_le(ws) + le32(x),
{
    let a = words_le(ws.push(x));
    let b = words_le(ws) + le32(x);
    assert(a.len() == b.len());
    assert forall|k: int| 0 <= k < a.len() implies a[k] == b[k] by {
        if k < 4 * ws.len() {
            assert(k / 4 < ws.len());
        } else {
            assert(k / 4 == ws.len());
            assert(k % 4 == k - 4 * ws.len());
        }
    }
    assert(a =~= b);
}

/// Appends the four bytes of `x`.
pub fn put_u32(out: &mut Vec<u8>, x: u32)
    ensures
        final(out)@ == old(out)@ + le32(x),
{
    out.push((x % 256) as u8);
    out.push((x / 0x100 % 256) as u8);
    out.push((x / 0x1_0000 % 256) as u8);
    out.push((x / 0x100_0000 % 256) as u8);
    assert(out@ =~= old(out)@ + le32(x));
}

/// Appends the eight bytes of `x`.
pub fn put_u64(out: &mut Vec<u8>, x: u64)
    ensures
        final(out)@ == old(out)@ + le64(x),
{
    put_u32(out, (x % 0x1_0000_0000) as u32);
    put_u32(out, (x / 0x1_0000_0000) as u32);
    assert(out@ =~= old(out)@ + le64(x));
}

/// Appends the bytes of every word of `ws`.
pub fn put_words(out: &mut Vec<u8>, ws: &Vec<u32>)
    ensures
        final(out)@ == old(out)@ + words_le(ws@),
{
    let n: usize = ws.len();
    let mut i: usize = 0;
    assert(out@ =~= old(out)@ + words_le(ws@.subrange(0, 0)));
    while i < n
        invariant
            i <= n,
            n == ws@.len(),
            out@ == old(out)@ + words_le(ws@.subrange(0, i as int)),
        decreases n - i,
    {
        proof {
            words_le_push(ws@.subrange(0, i as int), ws@[i as int]);
            assert(ws@.subrange(0, i as int).push(ws@[i as int]) =~= ws@.subrange(0, i + 1));
        }
        put_u32(out, ws[i]);
        i += 1;
        assert(out@ =~= old(out)@ + words_le(ws@.subrange(0, i as int)));
    }
    assert(ws@.subrange(0, n as int) =~= ws@);
}

/// Reads the word at `off`.
pub fn get_u32(data: &[u8], off: usize) -> (r: u32)
    requires
        off + 4 <= data.len(),
    ensures
        r == word_at(data@, off as int),
{
    let b0: u32 = data[off] as u32;
    let b1: u32 = data[off + 1] as u32;
    let b2: u32 = data[off + 2] as u32;
    let b3: u32 = data[off + 3] as u32;
    b0 + 0x100 * b1 + 0x1_0000 * b2 + 0x100_0000 * b3
}

/// Reads the 64-bit word at `off`.
pub fn get_u64(data: &[u8], off: usize) -> (r: u64)
    requires
        off + 8 <= data.len(),
    ensures
        r == dword_at(data@, off as int),
{
    let lo: u64 = get_u32(data, off) as u64;
    let hi: u64 = get_u32(data, off + 4) as u64;
    lo + 0x1_0000_0000 * hi
}

/// Reads `n` words from `off` on.
pub fn get_words(data: &[u8], off: usize, n: usize) -> (r: Vec<u32>)
    requires
        off + 4 * n <= data.len(),
    ensures
        r@ == words_at(data@, off as int, n as nat),
{
    let mut r: Vec<u32> = Vec::new();
    let mut i: usize = 0;
    while i < n
        invariant
            i <= n,
            off + 4 * n <= data.len(),
            r@.len() == i,
            forall|k: int| 0 <= k < i ==> r@[k] == word_at(data@, off + 4 * k),
        decreases n - i,
    {
        r.push(get_u32(data, off + 4 * i));
        i += 1;
    }
    assert(r@ =~= words_at(data@, off as int, n as nat));
    r
}

} // verus!
