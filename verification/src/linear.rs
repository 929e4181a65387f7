//! An affine layer `y = x * W + b` as a store of bit patterns: weights,
//! biases, gradient accumulators, Adam moments and the cached input, with
//! the operations on them that need no arithmetic, and the layer's block in
//! a checkpoint.

use crate::codec::{
    get_u32, get_words, le32, put_u32, put_words, word_at, word_at_bytes_of, word_round_trip,
    words_at, words_le, words_round_trip,
};
use crate::ieee::{any_non_finite, clamp_abs, clamped_abs, has_non_finite, ZERO_BITS};
use vstd::prelude::*;

verus! {

/// One of the arrays that a linear layer holds.
#[derive(Clone, Copy, Debug, PartialEq, Eq, Structural)]
pub enum Slot {
    /// Weights, row-major: the weight from input `i` to output `j` is at
    /// `i * out_dim + j`.
    W,
    /// Biases.
    B,
    /// Accumulated gradient of the weights.
    Gw,
    /// Accumulated gradient of the biases.
    Gb,
    /// First Adam moment of the weights.
    Mw,
    /// Second Adam moment of the weights.
    Vw,
    /// First Adam moment of the biases.
    Mb,
    /// Second Adam moment of the biases.
    Vb,
    /// The input of the latest forward pass.
    Input,
}

/// `n` zeros.
pub open spec fn zeros_seq(n: nat) -> Seq<u32> {
    Seq::new(n, |i: int| ZERO_BITS)
}

/// Every element limited to `[-max_abs, max_abs]`.
pub open spec fn clamped_seq(s: Seq<u32>, max_abs: u32) -> Seq<u32> {
    Seq::new(s.len(), |i: int| clamped_abs(s[i], max_abs))
}

/// What a linear layer holds.
pub struct LinearView {
    pub in_dim: nat,
    pub out_dim: nat,
    pub w: Seq<u32>,
    pub b: Seq<u32>,
    pub gw: Seq<u32>,
    pub gb: Seq<u32>,
    pub mw: Seq<u32>,
    pub vw: Seq<u32>,
    pub mb: Seq<u32>,
    pub vb: Seq<u32>,
    pub last_x: Seq<u32>,
}

impl LinearView {
    /// Every array has the length that the dimensions give it.
    pub open spec fn wf(self) -> bool {
        &&& self.w.len() == self.in_dim * self.out_dim
        &&& self.gw.len() == self.in_dim * self.out_dim
        &&& self.mw.len() == self.in_dim * self.out_dim
        &&& self.vw.len() == self.in_dim * self.out_dim
        &&& self.b.len() == self.out_dim
        &&& self.gb.len() == self.out_dim
        &&& self.mb.len() == self.out_dim
        &&& self.vb.len() == self.out_dim
        &&& self.last_x.len() == self.in_dim
    }

    /// A layer of the given dimensions with every array zero.
    pub open spec fn zeroed(in_dim: nat, out_dim: nat) -> LinearView {
        LinearView {
            in_dim,
            out_dim,
            w: zeros_seq(in_dim * out_dim),
            b: zeros_seq(out_dim),
            gw: zeros_seq(in_dim * out_dim),
            gb: zeros_seq(out_dim),
            mw: zeros_seq(in_dim * out_dim),
            vw: zeros_seq(in_dim * out_dim),
            mb: zeros_seq(out_dim),
            vb: zeros_seq(out_dim),
            last_x: zeros_seq(in_dim),
        }
    }

    pub open spec fn slot(self, s: Slot) -> Seq<u32> {
        match s {
            Slot::W => self.w,
            Slot::B => self.b,
            Slot::Gw => self.gw,
            Slot::Gb => self.gb,
            Slot::Mw => self.mw,
            Slot::Vw => self.vw,
            Slot::Mb => self.mb,
            Slot::Vb => self.vb,
            Slot::Input => self.last_x,
        }
    }

    pub open spec fn with_slot(self, s: Slot, v: Seq<u32>) -> LinearView {
        match s {
            Slot::W => LinearView { w: v, ..self },
            Slot::B => LinearView { b: v, ..self },
            Slot::Gw => LinearView { gw: v, ..self },
            Slot::Gb => LinearView { gb: v, ..self },
            Slot::Mw => LinearView { mw: v, ..self },
            Slot::Vw => LinearView { vw: v, ..self },
            Slot::Mb => LinearView { mb: v, ..self },
            Slot::Vb => LinearView { vb: v, ..self },
            Slot::Input => LinearView { last_x: v, ..self },
        }
    }

    /// The same layer with both gradient accumulators zero.
    pub open spec fn with_zero_grad(self) -> LinearView {
        LinearView { gw: zeros_seq(self.gw.len()), gb: zeros_seq(self.gb.len()), ..self }
    }

    /// The same layer with weights and biases limited to
    /// `[-max_abs, max_abs]`.
    pub open spec fn with_clamped_params(self, max_abs: u32) -> LinearView {
        LinearView {
            w: clamped_seq(self.w, max_abs),
            b: clamped_seq(self.b, max_abs),
            ..self
        }
    }

    /// The same layer with the weights and biases of `src`.
    pub open spec fn with_params_of(self, src: LinearView) -> LinearView {
        LinearView { w: src.w, b: src.b, ..self }
    }

    /// The layer as it stands in a checkpoint: both dimensions, then the
    /// weights, the biases and the four Adam moments.
    pub open spec fn block(self) -> Seq<u8> {
        le32(self.in_dim as u32) + le32(self.out_dim as u32) + words_le(self.w) + words_le(self.b)
            + words_le(self.mw) + words_le(self.vw) + words_le(self.mb) + words_le(self.vb)
    }

    /// The block at `off` in `data` declares this layer's dimensions.
    pub open spec fn block_matches(self, data: Seq<u8>, off: int) -> bool {
        word_at(data, off) == self.in_dim && word_at(data, off + 4) == self.out_dim
    }

    /// The same layer with the weights, biases and moments of the block at
    /// `off` in `data`.
    pub open spec fn with_block_at(self, data: Seq<u8>, off: int) -> LinearView {
        let n = self.in_dim * self.out_dim;
        let m = self.out_dim;
        LinearView {
            w: words_at(data, off + 8, n),
            b: words_at(data, off + 8 + 4 * n, m),
            mw: words_at(data, off + 8 + 4 * n + 4 * m, n),
            vw: words_at(data, off + 8 + 8 * n + 4 * m, n),
            mb: words_at(data, off + 8 + 12 * n + 4 * m, m),
            vb: words_at(data, off + 8 + 12 * n + 8 * m, m),
            ..self
        }
    }

    /// The same layer with the weights, biases and moments of `src`.
    pub open spec fn with_persisted_of(self, src: LinearView) -> LinearView {
        LinearView { w: src.w, b: src.b, mw: src.mw, vw: src.vw, mb: src.mb, vb: src.vb, ..self }
    }

    /// A weight, a bias or a gradient is infinite or NaN.
    pub open spec fn non_finite(self) -> bool {
        any_non_finite(self.w) || any_non_finite(self.b) || any_non_finite(self.gw)
            || any_non_finite(self.gb)
    }
}

/// Number of bytes of a layer's block in a checkpoint.
pub open spec fn block_len(in_dim: nat, out_dim: nat) -> nat {
    8 + 12 * (in_dim * out_dim) + 12 * out_dim
}

/// Joining byte strings does not depend on the grouping.
proof fn join_assoc(a: Seq<u8>, b: Seq<u8>, c: Seq<u8>)
    ensures
        a + (b + c) == a + b + c,
{
    assert(a + (b + c) =~= a + b + c);
}

/// A string before a row of eight and a string behind it: the row may be
/// opened up.
proof fn open_row(
    pre: Seq<u8>,
    d1: Seq<u8>,
    d2: Seq<u8>,
    s0: Seq<u8>,
    s1: Seq<u8>,
    s2: Seq<u8>,
    s3: Seq<u8>,
    s4: Seq<u8>,
    s5: Seq<u8>,
    post: Seq<u8>,
)
    ensures
        pre + (d1 + d2 + s0 + s1 + s2 + s3 + s4 + s5) + post == pre + d1 + d2 + s0 + s1 + s2 + s3
            + s4 + s5 + post,
{
    join_assoc(pre, d1 + d2 + s0 + s1 + s2 + s3 + s4, s5);
    join_assoc(pre, d1 + d2 + s0 + s1 + s2 + s3, s4);
    join_assoc(pre, d1 + d2 + s0 + s1 + s2, s3);
    join_assoc(pre, d1 + d2 + s0 + s1, s2);
    join_assoc(pre, d1 + d2 + s0, s1);
    join_assoc(pre, d1 + d2, s0);
    join_assoc(pre, d1, d2);
}

/// Ten byte strings in a row may be cut before and behind any one of the
/// six in the middle.
proof fn regroup(
    pre: Seq<u8>,
    d1: Seq<u8>,
    d2: Seq<u8>,
    s0: Seq<u8>,
    s1: Seq<u8>,
    s2: Seq<u8>,
    s3: Seq<u8>,
    s4: Seq<u8>,
    s5: Seq<u8>,
    post: Seq<u8>,
)
    ensures
        ({
            let data = pre + (d1 + d2 + s0 + s1 + s2 + s3 + s4 + s5) + post;
            &&& data == (pre + d1 + d2) + s0 + (s1 + s2 + s3 + s4 + s5 + post)
            &&& data == (pre + d1 + d2 + s0) + s1 + (s2 + s3 + s4 + s5 + post)
            &&& data == (pre + d1 + d2 + s0 + s1) + s2 + (s3 + s4 + s5 + post)
            &&& data == (pre + d1 + d2 + s0 + s1 + s2) + s3 + (s4 + s5 + post)
            &&& data == (pre + d1 + d2 + s0 + s1 + s2 + s3) + s4 + (s5 + post)
            &&& data == (pre + d1 + d2 + s0 + s1 + s2 + s3 + s4) + s5 + post
            &&& data == pre + d1 + (d2 + s0 + s1 + s2 + s3 + s4 + s5 + post)
            &&& data == (pre + d1) + d2 + (s0 + s1 + s2 + s3 + s4 + s5 + post)
        }),
{
    open_row(pre, d1, d2, s0, s1, s2, s3, s4, s5, post);
    let a0 = pre + d1;
    let a1 = a0 + d2;
    let a2 = a1 + s0;
    let a3 = a2 + s1;
    let a4 = a3 + s2;
    let a5 = a4 + s3;
    let a6 = a5 + s4;
    // behind s5
    join_assoc(a6, s5, post);
    // behind s4
    join_assoc(a5, s4, s5 + post);
    join_assoc(s4, s5, post);
    // behind s3
    join_assoc(a4, s3, s4 + s5 + post);
    join_assoc(s3, s4 + s5, post);
    join_assoc(s3, s4, s5);
    // behind s2
    join_assoc(a3, s2, s3 + s4 + s5 + post);
    join_assoc(s2, s3 + s4 + s5, post);
    join_assoc(s2, s3 + s4, s5);
    join_assoc(s2, s3, s4);
    // behind s1
    join_assoc(a2, s1, s2 + s3 + s4 + s5 + post);
    join_assoc(s1, s2 + s3 + s4 + s5, post);
    join_assoc(s1, s2 + s3 + s4, s5);
    join_assoc(s1, s2 + s3, s4);
    join_assoc(s1, s2, s3);
    // behind s0
    join_assoc(a1, s0, s1 + s2 + s3 + s4 + s5 + post);
    join_assoc(s0, s1 + s2 + s3 + s4 + s5, post);
    join_assoc(s0, s1 + s2 + s3 + s4, s5);
    join_assoc(s0, s1 + s2 + s3, s4);
    join_assoc(s0, s1 + s2, s3);
    join_assoc(s0, s1, s2);
    // behind d2
    join_assoc(a0, d2, s0 + s1 + s2 + s3 + s4 + s5 + post);
    join_assoc(d2, s0 + s1 + s2 + s3 + s4 + s5, post);
    join_assoc(d2, s0 + s1 + s2 + s3 + s4, s5);
    join_assoc(d2, s0 + s1 + s2 + s3, s4);
    join_assoc(d2, s0 + s1 + s2, s3);
    join_assoc(d2, s0 + s1, s2);
    join_assoc(d2, s0, s1);
}

/// A layer's block is what it decodes to, wherever it stands: read into a
/// layer `t` of the same dimensions, the block of `l` gives `t` the weights,
/// biases and moments of `l`.
pub proof fn block_round_trip(pre: Seq<u8>, l: LinearView, post: Seq<u8>, t: LinearView)
    requires
        l.wf(),
        l.in_dim <= u32::MAX,
        l.out_dim <= u32::MAX,
        t.in_dim == l.in_dim,
        t.out_dim == l.out_dim,
    ensures
        l.block().len() == block_len(l.in_dim, l.out_dim),
        t.block_matches(pre + l.block() + post, pre.len() as int),
        t.with_block_at(pre + l.block() + post, pre.len() as int) == t.with_persisted_of(l),
{
    let n = l.in_dim * l.out_dim;
    let m = l.out_dim;
    let d1 = le32(l.in_dim as u32);
    let d2 = le32(l.out_dim as u32);
    let data = pre + l.block() + post;
    let off = pre.len() as int;
    let sw = words_le(l.w);
    let sb = words_le(l.b);
    let smw = words_le(l.mw);
    let svw = words_le(l.vw);
    let smb = words_le(l.mb);
    let svb = words_le(l.vb);
    regroup(pre, d1, d2, sw, sb, smw, svw, smb, svb, post);
    word_round_trip(l.in_dim as u32);
    word_round_trip(l.out_dim as u32);
    words_round_trip(pre + d1 + d2, l.w, sb + smw + svw + smb + svb + post);
    words_round_trip(pre + d1 + d2 + sw, l.b, smw + svw + smb + svb + post);
    words_round_trip(pre + d1 + d2 + sw + sb, l.mw, svw + smb + svb + post);
    words_round_trip(pre + d1 + d2 + sw + sb + smw, l.vw, smb + svb + post);
    words_round_trip(pre + d1 + d2 + sw + sb + smw + svw, l.mb, svb + post);
    words_round_trip(pre + d1 + d2 + sw + sb + smw + svw + smb, l.vb, post);
    assert(word_at(data, off) == l.in_dim) by {
        let z = d2 + sw + sb + smw + svw + smb + svb + post;
        assert(data == pre + d1 + z);
        word_at_bytes_of(pre + d1 + z, off, l.in_dim as u32);
    }
    assert(word_at(data, off + 4) == l.out_dim) by {
        let z = sw + sb + smw + svw + smb + svb + post;
        assert(data == (pre + d1) + d2 + z);
        word_at_bytes_of((pre + d1) + d2 + z, off + 4, l.out_dim as u32);
    }
}

/// A vector of `n` zeros.
pub fn zeros(n: usize) -> (r: Vec<u32>)
    ensures
        r@ == zeros_seq(n as nat),
{
    let mut r: Vec<u32> = Vec::new();
    let mut i: usize = 0;
    while i < n
        invariant
            i <= n,
            r@.len() == i,
            forall|k: int| 0 <= k < i ==> r@[k] == ZERO_BITS,
        decreases n - i,
    {
        r.push(ZERO_BITS);
        i += 1;
    }
    assert(r@ =~= zeros_seq(n as nat));
    r
}

fn clamp_all(v: &Vec<u32>, max_abs: u32) -> (r: Vec<u32>)
    ensures
        r@ == clamped_seq(v@, max_abs),
{
    let n: usize = v.len();
    let mut r: Vec<u32> = Vec::new();
    let mut i: usize = 0;
    while i < n
        invariant
            i <= n,
            n == v@.len(),
            r@.len() == i,
            forall|k: int| 0 <= k < i ==> r@[k] == clamped_abs(v@[k], max_abs),
        decreases n - i,
    {
        r.push(clamp_abs(v[i], max_abs));
        i += 1;
    }
    assert(r@ =~= clamped_seq(v@, max_abs));
    r
}

/// An affine layer `y = x * W + b` with its optimiser state.
pub struct Linear {
    in_dim: usize,
    out_dim: usize,
    w: Vec<u32>,
    b: Vec<u32>,
    gw: Vec<u32>,
    gb: Vec<u32>,
    mw: Vec<u32>,
    vw: Vec<u32>,
    mb: Vec<u32>,
    vb: Vec<u32>,
    last_x: Vec<u32>,
}

impl View for Linear {
    type V = LinearView;

    closed spec fn view(&self) -> LinearView {
        LinearView {
            in_dim: self.in_dim as nat,
            out_dim: self.out_dim as nat,
            w: self.w@,
            b: self.b@,
            gw: self.gw@,
            gb: self.gb@,
            mw: self.mw@,
            vw: self.vw@,
            mb: self.mb@,
            vb: self.vb@,
            last_x: self.last_x@,
        }
    }
}

impl Linear {
    #[verifier::type_invariant]
    spec fn inv(self) -> bool {
        self@.wf()
    }

    /// A layer with every array zero.
    pub fn new(in_dim: usize, out_dim: usize) -> (r: Self)
        requires
            in_dim * out_dim <= usize::MAX,
        ensures
            r@ == LinearView::zeroed(in_dim as nat, out_dim as nat),
            r@.wf(),
    {
        let n: usize = in_dim * out_dim;
        Self {
            in_dim,
            out_dim,
            w: zeros(n),
            b: zeros(out_dim),
            gw: zeros(n),
            gb: zeros(out_dim),
            mw: zeros(n),
            vw: zeros(n),
            mb: zeros(out_dim),
            vb: zeros(out_dim),
            last_x: zeros(in_dim),
        }
    }

    pub fn in_dim(&self) -> (r: usize)
        ensures
            r == self@.in_dim,
            self@.wf(),
    {
        proof {
            use_type_invariant(self);
        }
        self.in_dim
    }

    pub fn out_dim(&self) -> (r: usize)
        ensures
            r == self@.out_dim,
            self@.wf(),
    {
        proof {
            use_type_invariant(self);
        }
        self.out_dim
    }

    /// One of the layer's arrays.
    pub fn slot(&self, s: Slot) -> (r: &Vec<u32>)
        ensures
            r@ == self@.slot(s),
            self@.wf(),
    {
        proof {
            use_type_invariant(self);
        }
        match s {
            Slot::W => &self.w,
            Slot::B => &self.b,
            Slot::Gw => &self.gw,
            Slot::Gb => &self.gb,
            Slot::Mw => &self.mw,
            Slot::Vw => &self.vw,
            Slot::Mb => &self.mb,
            Slot::Vb => &self.vb,
            Slot::Input => &self.last_x,
        }
    }

    /// Replaces one of the layer's arrays by `v` where `v` has that array's
    /// length, and says whether it did.
    pub fn put(&mut self, s: Slot, v: Vec<u32>) -> (ok: bool)
        ensures
            ok == (v@.len() == old(self)@.slot(s).len()),
            ok ==> final(self)@ == old(self)@.with_slot(s, v@),
            !ok ==> final(self)@ == old(self)@,
            final(self)@.wf(),
    {
        proof {
            use_type_invariant(&*self);
        }
        if v.len() != self.slot(s).len() {
            return false;
        }
        match s {
            Slot::W => {
                self.w = v;
            },
            Slot::B => {
                self.b = v;
            },
            Slot::Gw => {
                self.gw = v;
            },
            Slot::Gb => {
                self.gb = v;
            },
            Slot::Mw => {
                self.mw = v;
            },
            Slot::Vw => {
                self.vw = v;
            },
            Slot::Mb => {
                self.mb = v;
            },
            Slot::Vb => {
                self.vb = v;
            },
            Slot::Input => {
                self.last_x = v;
            },
        }
        true
    }

    /// Sets both gradient accumulators to zero.
    pub fn zero_grad(&mut self)
        ensures
            final(self)@ == old(self)@.with_zero_grad(),
            final(self)@.wf(),
    {
        proof {
            use_type_invariant(&*self);
        }
        self.gw = zeros(self.gw.len());
        self.gb = zeros(self.gb.len());
    }

    /// Whether a weight, a bias or a gradient is infinite or NaN.
    pub fn non_finite_in_params_or_grads(&self) -> (r: bool)
        ensures
            r == self@.non_finite(),
    {
        has_non_finite(self.w.as_slice()) || has_non_finite(self.b.as_slice()) || has_non_finite(
            self.gw.as_slice(),
        ) || has_non_finite(self.gb.as_slice())
    }

    /// Takes the weights and biases of `src`.
    pub fn copy_params_from(&mut self, src: &Linear)
        requires
            src@.in_dim == old(self)@.in_dim,
            src@.out_dim == old(self)@.out_dim,
        ensures
            final(self)@ == old(self)@.with_params_of(src@),
            final(self)@.wf(),
    {
        proof {
            use_type_invariant(&*self);
            use_type_invariant(src);
        }
        self.w = src.w.clone();
        self.b = src.b.clone();
    }

    /// Appends the layer's checkpoint block to `out`.
    pub fn write_to(&self, out: &mut Vec<u8>)
        requires
            self@.in_dim <= u32::MAX,
            self@.out_dim <= u32::MAX,
        ensures
            final(out)@ == old(out)@ + self@.block(),
    {
        put_u32(out, self.in_dim as u32);
        put_u32(out, self.out_dim as u32);
        put_words(out, &self.w);
        put_words(out, &self.b);
        put_words(out, &self.mw);
        put_words(out, &self.vw);
        put_words(out, &self.mb);
        put_words(out, &self.vb);
        assert(out@ =~= old(out)@ + self@.block());
    }

    /// Whether the block at `off` declares this layer's dimensions.
    pub fn block_matches(&self, data: &[u8], off: usize) -> (r: bool)
        requires
            off + 8 <= data.len(),
        ensures
            r == self@.block_matches(data@, off as int),
    {
        let i: u32 = get_u32(data, off);
        let o: u32 = get_u32(data, off + 4);
        i as u64 == self.in_dim as u64 && o as u64 == self.out_dim as u64
    }

    /// Takes weights, biases and moments from the block at `off`, and
    /// returns the offset behind the block.
    pub fn read_from(&mut self, data: &[u8], off: usize) -> (end: usize)
        requires
            off + block_len(old(self)@.in_dim, old(self)@.out_dim) <= data.len(),
            old(self)@.block_matches(data@, off as int),
        ensures
            final(self)@ == old(self)@.with_block_at(data@, off as int),
            final(self)@.wf(),
            end == off + block_len(old(self)@.in_dim, old(self)@.out_dim),
    {
        proof {
            use_type_invariant(&*self);
        }
        let n: usize = self.w.len();
        let m: usize = self.b.len();
        let mut at: usize = off + 8;
        self.w = get_words(data, at, n);
        at = at + 4 * n;
        self.b = get_words(data, at, m);
        at = at + 4 * m;
        self.mw = get_words(data, at, n);
        at = at + 4 * n;
        self.vw = get_words(data, at, n);
        at = at + 4 * n;
        self.mb = get_words(data, at, m);
        at = at + 4 * m;
        self.vb = get_words(data, at, m);
        at = at + 4 * m;
        at
    }

    /// Limits every weight and bias to `[-max_abs, max_abs]`.
    pub fn clamp_params(&mut self, max_abs: u32)
        ensures
            final(self)@ == old(self)@.with_clamped_params(max_abs),
            final(self)@.wf(),
    {
        proof {
            use_type_invariant(&*self);
        }
        self.w = clamp_all(&self.w, max_abs);
        self.b = clamp_all(&self.b, max_abs);
    }
}

/// A layer's block has the length that its dimensions give it.
pub proof fn block_has_block_len(l: LinearView)
    requires
        l.wf(),
    ensures
        l.block().len() == block_len(l.in_dim, l.out_dim),
{
    let n = l.in_dim * l.out_dim;
    assert(words_le(l.w).len() == 4 * n);
    assert(words_le(l.mw).len() == 4 * n);
    assert(words_le(l.vw).len() == 4 * n);
    assert(words_le(l.b).len() == 4 * l.out_dim);
    assert(words_le(l.mb).len() == 4 * l.out_dim);
    assert(words_le(l.vb).len() == 4 * l.out_dim);
    assert(le32(l.in_dim as u32).len() == 4);
    assert(le32(l.out_dim as u32).len() == 4);
}

} // verus!
