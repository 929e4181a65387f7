//! The three-layer perceptron
//! `input -> Linear -> ReLU -> Linear -> ReLU -> Linear -> output` as a store
//! of parameters with one shared Adam step counter, and its checkpoint
//!
//! ```text
//! "SNET" | version:u32 | din:u32 | h1:u32 | h2:u32 | dout:u32 | adam_step:u64
//!        | block of layer 1 | block of layer 2 | block of layer 3
//! block := in_dim:u32 | out_dim:u32 | W | B | mW | vW | mB | vB
//! ```
//!
//! with every number little-endian and every array a row of 32-bit patterns.

use crate::codec::{
    dword_at, dword_round_trip, get_u32, get_u64, le32, le64, put_u32, put_u64, word_at,
    word_at_bytes_of, word_at_within,
};
use crate::ieee::{is_zero, is_zero_bits, ONE_BITS};
use crate::linear::{block_has_block_len, block_len, block_round_trip, Linear, LinearView, Slot};
use crate::relu::{relu_back, relu_mask, relu_out, ReLU};
use vstd::prelude::*;

verus! {

/// One of the three linear layers of a network.
#[derive(Clone, Copy, Debug, PartialEq, Eq, Structural)]
pub enum LayerId {
    L1,
    L2,
    L3,
}

/// One of the two rectifiers of a network.
#[derive(Clone, Copy, Debug, PartialEq, Eq, Structural)]
pub enum ActId {
    A1,
    A2,
}

/// Why a checkpoint was not loaded.
#[derive(Clone, Copy, Debug, PartialEq, Eq, Structural)]
pub enum LoadError {
    /// The data does not start with the tag `SNET`.
    BadMagic,
    /// The data ends before the header or the last layer does.
    Truncated,
    /// A declared dimension differs from the network's.
    ShapeMismatch,
}

/// Version number written into a checkpoint.
pub const FORMAT_VERSION: u32 = 1;

/// Number of bytes before the first layer block: the tag, the version, four
/// dimensions and the Adam step.
pub const HEADER_LEN: usize = 32;

/// The tag `SNET`.
pub open spec fn magic() -> Seq<u8> {
    seq![0x53u8, 0x4eu8, 0x45u8, 0x54u8]
}

/// `data` starts with the tag.
pub open spec fn has_magic(data: Seq<u8>) -> bool {
    data.len() >= 4 && data[0] == 0x53 && data[1] == 0x4e && data[2] == 0x45 && data[3] == 0x54
}

/// Number of bytes of the checkpoint of a network of the given dimensions.
pub open spec fn image_len(din: nat, h1: nat, h2: nat, dout: nat) -> nat {
    32 + block_len(din, h1) + block_len(h1, h2) + block_len(h2, dout)
}

/// The dimensions can be written into a checkpoint, and the checkpoint
/// can be held in memory.
pub open spec fn shape_fits(din: nat, h1: nat, h2: nat, dout: nat) -> bool {
    &&& din <= u32::MAX
    &&& h1 <= u32::MAX
    &&& h2 <= u32::MAX
    &&& dout <= u32::MAX
    &&& image_len(din, h1, h2, dout) <= usize::MAX
}

/// What a network holds.
pub struct NetView {
    pub din: nat,
    pub h1: nat,
    pub h2: nat,
    pub dout: nat,
    pub l1: LinearView,
    pub a1: Seq<u8>,
    pub l2: LinearView,
    pub a2: Seq<u8>,
    pub l3: LinearView,
    pub t_adam: u64,
}

impl NetView {
    pub open spec fn wf(self) -> bool {
        &&& shape_fits(self.din, self.h1, self.h2, self.dout)
        &&& self.l1.wf()
        &&& self.l2.wf()
        &&& self.l3.wf()
        &&& self.l1.in_dim == self.din
        &&& self.l1.out_dim == self.h1
        &&& self.l2.in_dim == self.h1
        &&& self.l2.out_dim == self.h2
        &&& self.l3.in_dim == self.h2
        &&& self.l3.out_dim == self.dout
        &&& self.a1.len() == self.h1
        &&& self.a2.len() == self.h2
    }

    /// A network of the given dimensions with every array zero and the Adam
    /// step at zero.
    pub open spec fn zeroed(din: nat, h1: nat, h2: nat, dout: nat) -> NetView {
        NetView {
            din,
            h1,
            h2,
            dout,
            l1: LinearView::zeroed(din, h1),
            a1: Seq::new(h1, |i: int| 0u8),
            l2: LinearView::zeroed(h1, h2),
            a2: Seq::new(h2, |i: int| 0u8),
            l3: LinearView::zeroed(h2, dout),
            t_adam: 0,
        }
    }

    pub open spec fn same_shape(self, other: NetView) -> bool {
        self.din == other.din && self.h1 == other.h1 && self.h2 == other.h2 && self.dout
            == other.dout
    }

    pub open spec fn layer(self, id: LayerId) -> LinearView {
        match id {
            LayerId::L1 => self.l1,
            LayerId::L2 => self.l2,
            LayerId::L3 => self.l3,
        }
    }

    pub open spec fn with_layer(self, id: LayerId, l: LinearView) -> NetView {
        match id {
            LayerId::L1 => NetView { l1: l, ..self },
            LayerId::L2 => NetView { l2: l, ..self },
            LayerId::L3 => NetView { l3: l, ..self },
        }
    }

    pub open spec fn act(self, id: ActId) -> Seq<u8> {
        match id {
            ActId::A1 => self.a1,
            ActId::A2 => self.a2,
        }
    }

    pub open spec fn with_act(self, id: ActId, mask: Seq<u8>) -> NetView {
        match id {
            ActId::A1 => NetView { a1: mask, ..self },
            ActId::A2 => NetView { a2: mask, ..self },
        }
    }

    /// The same network with every gradient accumulator zero.
    pub open spec fn with_zero_grad(self) -> NetView {
        NetView {
            l1: self.l1.with_zero_grad(),
            l2: self.l2.with_zero_grad(),
            l3: self.l3.with_zero_grad(),
            ..self
        }
    }

    /// The same network with every weight and bias limited to
    /// `[-max_abs, max_abs]`.
    pub open spec fn with_clamped_params(self, max_abs: u32) -> NetView {
        NetView {
            l1: self.l1.with_clamped_params(max_abs),
            l2: self.l2.with_clamped_params(max_abs),
            l3: self.l3.with_clamped_params(max_abs),
            ..self
        }
    }

    /// The same network with the weights and biases of `src`.
    pub open spec fn with_params_of(self, src: NetView) -> NetView {
        NetView {
            l1: self.l1.with_params_of(src.l1),
            l2: self.l2.with_params_of(src.l2),
            l3: self.l3.with_params_of(src.l3),
            ..self
        }
    }

    /// The same network after a soft update at a rate of zero or one: at one
    /// with the weights and biases of `online`, else as it is.
    pub open spec fn soft_updated(self, online: NetView, tau: u32) -> NetView {
        if tau == ONE_BITS {
            self.with_params_of(online)
        } else {
            self
        }
    }

    /// The same network with the weights, biases, moments and Adam step of
    /// `src`: all that a checkpoint holds.
    pub open spec fn with_persisted_of(self, src: NetView) -> NetView {
        NetView {
            l1: self.l1.with_persisted_of(src.l1),
            l2: self.l2.with_persisted_of(src.l2),
            l3: self.l3.with_persisted_of(src.l3),
            t_adam: src.t_adam,
            ..self
        }
    }

    /// A weight, a bias or a gradient of some layer is infinite or NaN.
    pub open spec fn non_finite(self) -> bool {
        self.l1.non_finite() || self.l2.non_finite() || self.l3.non_finite()
    }

    /// The header of the checkpoint.
    pub open spec fn header(self) -> Seq<u8> {
        magic() + le32(FORMAT_VERSION) + le32(self.din as u32) + le32(self.h1 as u32) + le32(
            self.h2 as u32,
        ) + le32(self.dout as u32) + le64(self.t_adam)
    }

    /// The checkpoint: the header, then the three layer blocks.
    pub open spec fn image(self) -> Seq<u8> {
        self.header() + self.l1.block() + self.l2.block() + self.l3.block()
    }

    /// Where the block of a layer starts in a checkpoint.
    pub open spec fn block_start(self, id: LayerId) -> nat {
        match id {
            LayerId::L1 => 32,
            LayerId::L2 => 32 + block_len(self.din, self.h1),
            LayerId::L3 => 32 + block_len(self.din, self.h1) + block_len(self.h1, self.h2),
        }
    }

    /// Whether `data` can be loaded into this network, and if not, why.
    pub open spec fn load_check(self, data: Seq<u8>) -> Result<(), LoadError> {
        if !has_magic(data) {
            Err(LoadError::BadMagic)
        } else if data.len() < 32 {
            Err(LoadError::Truncated)
        } else if word_at(data, 8) != self.din || word_at(data, 12) != self.h1 || word_at(data, 16)
            != self.h2 || word_at(data, 20) != self.dout {
            Err(LoadError::ShapeMismatch)
        } else if data.len() < image_len(self.din, self.h1, self.h2, self.dout) {
            Err(LoadError::Truncated)
        } else if !self.l1.block_matches(data, self.block_start(LayerId::L1) as int)
            || !self.l2.block_matches(data, self.block_start(LayerId::L2) as int)
            || !self.l3.block_matches(data, self.block_start(LayerId::L3) as int) {
            Err(LoadError::ShapeMismatch)
        } else {
            Ok(())
        }
    }

    /// The network after loading `data`: weights, biases, moments and Adam
    /// step are those of `data`; gradients, cached inputs and masks stay.
    pub open spec fn loaded(self, data: Seq<u8>) -> NetView {
        NetView {
            l1: self.l1.with_block_at(data, self.block_start(LayerId::L1) as int),
            l2: self.l2.with_block_at(data, self.block_start(LayerId::L2) as int),
            l3: self.l3.with_block_at(data, self.block_start(LayerId::L3) as int),
            t_adam: dword_at(data, 24),
            ..self
        }
    }
}

/// The three-layer perceptron with the one Adam step counter that all its
/// layers share.
pub struct Net {
    din: usize,
    h1: usize,
    h2: usize,
    dout: usize,
    l1: Linear,
    a1: ReLU,
    l2: Linear,
    a2: ReLU,
    l3: Linear,
    t_adam: u64,
}

impl View for Net {
    type V = NetView;

    closed spec fn view(&self) -> NetView {
        NetView {
            din: self.din as nat,
            h1: self.h1 as nat,
            h2: self.h2 as nat,
            dout: self.dout as nat,
            l1: self.l1@,
            a1: self.a1@,
            l2: self.l2@,
            a2: self.a2@,
            l3: self.l3@,
            t_adam: self.t_adam,
        }
    }
}



impl Net {
    /// The layers fit one another and the dimensions given at construction.
    pub open spec fn wf(&self) -> bool {
        self@.wf()
    }

    /// Whether a network of these dimensions can be made.
    pub fn shape_ok(din: usize, h1: usize, h2: usize, dout: usize) -> (r: bool)
        ensures
            r == shape_fits(din as nat, h1 as nat, h2 as nat, dout as nat),
    {
        let lim: u128 = 0xffff_ffff;
        if din as u128 > lim || h1 as u128 > lim || h2 as u128 > lim || dout as u128 > lim {
            return false;
        }
        assert(din * h1 <= 0xffff_ffff * 0xffff_ffff && h1 * h2 <= 0xffff_ffff * 0xffff_ffff && h2
            * dout <= 0xffff_ffff * 0xffff_ffff) by (nonlinear_arith)
            requires
                din <= 0xffff_ffff,
                h1 <= 0xffff_ffff,
                h2 <= 0xffff_ffff,
                dout <= 0xffff_ffff,
        ;
        let b1: u128 = 8 + 12 * (din as u128 * h1 as u128) + 12 * (h1 as u128);
        let b2: u128 = 8 + 12 * (h1 as u128 * h2 as u128) + 12 * (h2 as u128);
        let b3: u128 = 8 + 12 * (h2 as u128 * dout as u128) + 12 * (dout as u128);
        let total: u128 = 32 + b1 + b2 + b3;
        total <= usize::MAX as u128
    }

    /// A network with every array zero and the Adam step at zero.
    pub fn new(din: usize, h1: usize, h2: usize, dout: usize) -> (r: Self)
        requires
            shape_fits(din as nat, h1 as nat, h2 as nat, dout as nat),
        ensures
            r@ == NetView::zeroed(din as nat, h1 as nat, h2 as nat, dout as nat),
            r.wf(),
    {
        Self {
            din,
            h1,
            h2,
            dout,
            l1: Linear::new(din, h1),
            a1: ReLU::new(h1),
            l2: Linear::new(h1, h2),
            a2: ReLU::new(h2),
            l3: Linear::new(h2, dout),
            t_adam: 0,
        }
    }

    /// Width of the input.
    pub fn din(&self) -> (r: usize)
        ensures
            r == self@.din,
    {
        self.din
    }

    /// Width of the first hidden layer.
    pub fn h1(&self) -> (r: usize)
        ensures
            r == self@.h1,
    {
        self.h1
    }

    /// Width of the second hidden layer.
    pub fn h2(&self) -> (r: usize)
        ensures
            r == self@.h2,
    {
        self.h2
    }

    /// Width of the output.
    pub fn dout(&self) -> (r: usize)
        ensures
            r == self@.dout,
    {
        self.dout
    }

    /// Number of optimiser steps taken so far.
    pub fn t_adam(&self) -> (r: u64)
        ensures
            r == self@.t_adam,
    {
        self.t_adam
    }

    /// One of the arrays of one of the layers.
    pub fn slot(&self, id: LayerId, s: Slot) -> (r: &Vec<u32>)
        ensures
            r@ == self@.layer(id).slot(s),
    {
        match id {
            LayerId::L1 => self.l1.slot(s),
            LayerId::L2 => self.l2.slot(s),
            LayerId::L3 => self.l3.slot(s),
        }
    }

    /// Replaces one of the arrays of one of the layers by `v` where `v` has
    /// that array's length, and says whether it did.
    pub fn put(&mut self, id: LayerId, s: Slot, v: Vec<u32>) -> (ok: bool)
        requires
            old(self).wf(),
        ensures
            final(self).wf(),
            ok == (v@.len() == old(self)@.layer(id).slot(s).len()),
            ok ==> final(self)@ == old(self)@.with_layer(
                id,
                old(self)@.layer(id).with_slot(s, v@),
            ),
            !ok ==> final(self)@ == old(self)@,
    {
        match id {
            LayerId::L1 => self.l1.put(s, v),
            LayerId::L2 => self.l2.put(s, v),
            LayerId::L3 => self.l3.put(s, v),
        }
    }

    /// Rectifies `z` in place and records in the mask of `id` which entries
    /// were above zero.
    pub fn relu_forward(&mut self, id: ActId, z: &mut Vec<u32>)
        requires
            old(self).wf(),
            old(z)@.len() <= old(self)@.act(id).len(),
        ensures
            final(self).wf(),
            final(self)@ == old(self)@.with_act(id, relu_mask(old(self)@.act(id), old(z)@)),
            final(z)@ == relu_out(old(z)@),
    {
        match id {
            ActId::A1 => self.a1.forward(z),
            ActId::A2 => self.a2.forward(z),
        }
    }

    /// Mutes in place the entries of `da` whose neuron did not pass the
    /// latest forward call of `id`.
    pub fn relu_backward(&self, id: ActId, da: &mut Vec<u32>)
        requires
            old(da)@.len() <= self@.act(id).len(),
        ensures
            final(da)@ == relu_back(self@.act(id), old(da)@),
    {
        match id {
            ActId::A1 => self.a1.backward(da),
            ActId::A2 => self.a2.backward(da),
        }
    }

    /// Sets every gradient accumulator to zero.
    pub fn zero_grad(&mut self)
        requires
            old(self).wf(),
        ensures
            final(self).wf(),
            final(self)@ == old(self)@.with_zero_grad(),
    {
        self.l1.zero_grad();
        self.l2.zero_grad();
        self.l3.zero_grad();
    }

    /// Whether a weight, a bias or a gradient of some layer is infinite or
    /// NaN.
    pub fn non_finite_any(&self) -> (r: bool)
        ensures
            r == self@.non_finite(),
    {
        self.l1.non_finite_in_params_or_grads() || self.l2.non_finite_in_params_or_grads()
            || self.l3.non_finite_in_params_or_grads()
    }

    /// Limits every weight and bias to `[-max_abs, max_abs]`.
    pub fn clamp_params(&mut self, max_abs: u32)
        requires
            old(self).wf(),
        ensures
            final(self).wf(),
            final(self)@ == old(self)@.with_clamped_params(max_abs),
    {
        self.l1.clamp_params(max_abs);
        self.l2.clamp_params(max_abs);
        self.l3.clamp_params(max_abs);
    }

    /// Takes every weight and bias of `src`; moments, gradients and the Adam
    /// step stay.
    pub fn copy_from(&mut self, src: &Net)
        requires
            old(self).wf(),
            src.wf(),
            old(self)@.same_shape(src@),
        ensures
            final(self).wf(),
            final(self)@ == old(self)@.with_params_of(src@),
    {
        self.l1.copy_params_from(&src.l1);
        self.l2.copy_params_from(&src.l2);
        self.l3.copy_params_from(&src.l3);
    }

    /// Moves the weights and biases towards those of `online` by the rate
    /// `tau` where that takes no arithmetic: a rate of zero changes nothing,
    /// a rate of one takes every weight and bias of `online`. For any other
    /// rate nothing is changed and `true` is returned: the blend
    /// `(1 - tau) * own + tau * online` is then left to the caller.
    pub fn soft_update_from(&mut self, online: &Net, tau: u32) -> (blend: bool)
        requires
            old(self).wf(),
            online.wf(),
            old(self)@.same_shape(online@),
        ensures
            final(self).wf(),
            blend == (!is_zero(tau) && tau != ONE_BITS),
            final(self)@ == old(self)@.soft_updated(online@, tau),
    {
        if is_zero_bits(tau) {
            false
        } else if tau == ONE_BITS {
            self.copy_from(online);
            false
        } else {
            true
        }
    }

    /// Counts one optimiser step and returns the new count, which every
    /// layer then uses for its bias correction.
    pub fn begin_adam_step(&mut self) -> (t: u64)
        requires
            old(self).wf(),
            old(self)@.t_adam < u64::MAX,
        ensures
            final(self).wf(),
            final(self)@ == (NetView { t_adam: (old(self)@.t_adam + 1) as u64, ..old(self)@ }),
            t == old(self)@.t_adam + 1,
    {
        self.t_adam = self.t_adam + 1;
        self.t_adam
    }

    /// The checkpoint of this network.
    pub fn save(&self) -> (out: Vec<u8>)
        requires
            self.wf(),
        ensures
            out@ == self@.image(),
    {
        let mut out: Vec<u8> = Vec::new();
        out.push(0x53u8);
        out.push(0x4eu8);
        out.push(0x45u8);
        out.push(0x54u8);
        assert(out@ =~= magic());
        put_u32(&mut out, FORMAT_VERSION);
        put_u32(&mut out, self.din as u32);
        put_u32(&mut out, self.h1 as u32);
        put_u32(&mut out, self.h2 as u32);
        put_u32(&mut out, self.dout as u32);
        put_u64(&mut out, self.t_adam);
        assert(out@ == self@.header());
        self.l1.write_to(&mut out);
        self.l2.write_to(&mut out);
        self.l3.write_to(&mut out);
        out
    }

    /// Loads a checkpoint: takes weights, biases, moments and the Adam step
    /// from `data`, or changes nothing and says why `data` was refused.
    pub fn load(&mut self, data: &[u8]) -> (r: Result<(), LoadError>)
        requires
            old(self).wf(),
        ensures
            final(self).wf(),
            r == old(self)@.load_check(data@),
            r is Ok ==> final(self)@ == old(self)@.loaded(data@),
            r is Err ==> final(self)@ == old(self)@,
    {
        if data.len() < 4 || data[0] != 0x53u8 || data[1] != 0x4eu8 || data[2] != 0x45u8 || data[3]
            != 0x54u8 {
            return Err(LoadError::BadMagic);
        }
        if data.len() < HEADER_LEN {
            return Err(LoadError::Truncated);
        }
        let din: u32 = get_u32(data, 8);
        let h1: u32 = get_u32(data, 12);
        let h2: u32 = get_u32(data, 16);
        let dout: u32 = get_u32(data, 20);
        if din as u64 != self.din as u64 || h1 as u64 != self.h1 as u64 || h2 as u64
            != self.h2 as u64 || dout as u64 != self.dout as u64 {
            return Err(LoadError::ShapeMismatch);
        }
        let n1: usize = self.l1.slot(Slot::W).len();
        let n2: usize = self.l2.slot(Slot::W).len();
        let n3: usize = self.l3.slot(Slot::W).len();
        let o1: usize = HEADER_LEN;
        let o2: usize = o1 + (8 + 12 * n1 + 12 * self.h1);
        let o3: usize = o2 + (8 + 12 * n2 + 12 * self.h2);
        let total: usize = o3 + (8 + 12 * n3 + 12 * self.dout);
        if data.len() < total {
            return Err(LoadError::Truncated);
        }
        if !self.l1.block_matches(data, o1) || !self.l2.block_matches(data, o2)
            || !self.l3.block_matches(data, o3) {
            return Err(LoadError::ShapeMismatch);
        }
        self.t_adam = get_u64(data, 24);
        self.l1.read_from(data, o1);
        self.l2.read_from(data, o2);
        self.l3.read_from(data, o3);
        Ok(())
    }
}

/// In a row of byte strings of the lengths of a header's fields, each field
/// stands at its offset.
proof fn header_fields(
    m: Seq<u8>,
    v: Seq<u8>,
    d1: Seq<u8>,
    d2: Seq<u8>,
    d3: Seq<u8>,
    d4: Seq<u8>,
    t: Seq<u8>,
    rest: Seq<u8>,
)
    requires
        m.len() == 4,
        v.len() == 4,
        d1.len() == 4,
        d2.len() == 4,
        d3.len() == 4,
        d4.len() == 4,
        t.len() == 8,
    ensures
        ({
            let data = m + v + d1 + d2 + d3 + d4 + t + rest;
            &&& data.len() == 32 + rest.len()
            &&& data.subrange(0, 4) == m
            &&& data.subrange(8, 12) == d1
            &&& data.subrange(12, 16) == d2
            &&& data.subrange(16, 20) == d3
            &&& data.subrange(20, 24) == d4
            &&& data.subrange(24, 32) == t
        }),
{
    let data = m + v + d1 + d2 + d3 + d4 + t + rest;
    assert(data.subrange(0, 4) =~= m);
    assert(data.subrange(8, 12) =~= d1);
    assert(data.subrange(12, 16) =~= d2);
    assert(data.subrange(16, 20) =~= d3);
    assert(data.subrange(20, 24) =~= d4);
    assert(data.subrange(24, 32) =~= t);
}

/// A word read from a string is the word whose bytes stand there.
proof fn word_at_field(data: Seq<u8>, off: int, x: u32)
    requires
        0 <= off,
        off + 4 <= data.len(),
        data.subrange(off, off + 4) == le32(x),
    ensures
        word_at(data, off) == x,
{
    let part = data.subrange(off, off + 4);
    assert(part[0] == data[off]);
    assert(part[1] == data[off + 1]);
    assert(part[2] == data[off + 2]);
    assert(part[3] == data[off + 3]);
    word_at_bytes_of(data, off, x);
}

/// A 64-bit word read from a string is the word whose bytes stand there.
proof fn dword_at_field(data: Seq<u8>, off: int, x: u64)
    requires
        0 <= off,
        off + 8 <= data.len(),
        data.subrange(off, off + 8) == le64(x),
    ensures
        dword_at(data, off) == x,
{
    dword_round_trip(x);
    word_at_within(data, off, 8, 0);
    word_at_within(data, off, 8, 4);
}

/// The header of a checkpoint is what it decodes to.
proof fn header_round_trip(a: NetView, rest: Seq<u8>)
    requires
        a.din <= u32::MAX,
        a.h1 <= u32::MAX,
        a.h2 <= u32::MAX,
        a.dout <= u32::MAX,
    ensures
        a.header().len() == 32,
        has_magic(a.header() + rest),
        word_at(a.header() + rest, 8) == a.din,
        word_at(a.header() + rest, 12) == a.h1,
        word_at(a.header() + rest, 16) == a.h2,
        word_at(a.header() + rest, 20) == a.dout,
        dword_at(a.header() + rest, 24) == a.t_adam,
{
    let m = magic();
    let v = le32(FORMAT_VERSION);
    let d1 = le32(a.din as u32);
    let d2 = le32(a.h1 as u32);
    let d3 = le32(a.h2 as u32);
    let d4 = le32(a.dout as u32);
    let t = le64(a.t_adam);
    let data = a.header() + rest;
    assert(m.len() == 4 && v.len() == 4 && d1.len() == 4 && d2.len() == 4 && d3.len() == 4
        && d4.len() == 4 && t.len() == 8);
    header_fields(m, v, d1, d2, d3, d4, t, rest);
    header_fields(m, v, d1, d2, d3, d4, t, Seq::<u8>::empty());
    assert(data == m + v + d1 + d2 + d3 + d4 + t + rest);
    assert(has_magic(data)) by {
        let part = data.subrange(0, 4);
        assert(part[0] == data[0] && part[1] == data[1] && part[2] == data[2] && part[3]
            == data[3]);
    }
    word_at_field(data, 8, a.din as u32);
    word_at_field(data, 12, a.h1 as u32);
    word_at_field(data, 16, a.h2 as u32);
    word_at_field(data, 20, a.dout as u32);
    dword_at_field(data, 24, a.t_adam);
}

/// A checkpoint has the length that the dimensions give it.
pub proof fn image_has_image_len(a: NetView)
    requires
        a.wf(),
    ensures
        a.header().len() == 32,
        a.image().len() == image_len(a.din, a.h1, a.h2, a.dout),
{
    header_round_trip(a, Seq::<u8>::empty());
    block_has_block_len(a.l1);
    block_has_block_len(a.l2);
    block_has_block_len(a.l3);
}

/// A header and three blocks in a row may be cut before and behind any
/// block.
proof fn image_cuts(h: Seq<u8>, b1: Seq<u8>, b2: Seq<u8>, b3: Seq<u8>)
    ensures
        ({
            let data = h + b1 + b2 + b3;
            &&& data == h + b1 + (b2 + b3)
            &&& data == (h + b1) + b2 + b3
            &&& data == (h + b1 + b2) + b3 + Seq::<u8>::empty()
            &&& data == h + (b1 + b2 + b3)
        }),
{
    let data = h + b1 + b2 + b3;
    assert(data =~= h + b1 + (b2 + b3));
    assert(data =~= (h + b1 + b2) + b3 + Seq::<u8>::empty());
    assert(data =~= h + (b1 + b2 + b3));
}

/// The layers of a checkpoint are what they decode to.
proof fn layers_round_trip(a: NetView, b: NetView)
    requires
        a.wf(),
        b.wf(),
        a.same_shape(b),
    ensures
        b.l1.block_matches(a.image(), b.block_start(LayerId::L1) as int),
        b.l2.block_matches(a.image(), b.block_start(LayerId::L2) as int),
        b.l3.block_matches(a.image(), b.block_start(LayerId::L3) as int),
        b.l1.with_block_at(a.image(), b.block_start(LayerId::L1) as int)
            == b.l1.with_persisted_of(a.l1),
        b.l2.with_block_at(a.image(), b.block_start(LayerId::L2) as int)
            == b.l2.with_persisted_of(a.l2),
        b.l3.with_block_at(a.image(), b.block_start(LayerId::L3) as int)
            == b.l3.with_persisted_of(a.l3),
{
    let h = a.header();
    let b1 = a.l1.block();
    let b2 = a.l2.block();
    let b3 = a.l3.block();
    header_round_trip(a, Seq::<u8>::empty());
    block_has_block_len(a.l1);
    block_has_block_len(a.l2);
    image_cuts(h, b1, b2, b3);
    assert((h + b1).len() == b.block_start(LayerId::L2));
    assert((h + b1 + b2).len() == b.block_start(LayerId::L3));
    block_round_trip(h, a.l1, b2 + b3, b.l1);
    block_round_trip(h + b1, a.l2, b3, b.l2);
    block_round_trip(h + b1 + b2, a.l3, Seq::<u8>::empty(), b.l3);
}

/// Saving and loading is exact: the checkpoint of a network `a` is accepted
/// by every network `b` of the same dimensions, and gives `b` every weight,
/// bias, Adam moment and the Adam step of `a`, bit for bit.
pub proof fn save_load_round_trip(a: NetView, b: NetView)
    requires
        a.wf(),
        b.wf(),
        a.same_shape(b),
    ensures
        b.load_check(a.image()) == Ok::<(), LoadError>(()),
        b.loaded(a.image()) == b.with_persisted_of(a),
{
    image_has_image_len(a);
    layers_round_trip(a, b);
    image_cuts(a.header(), a.l1.block(), a.l2.block(), a.l3.block());
    header_round_trip(a, a.l1.block() + a.l2.block() + a.l3.block());
}

} // verus!
