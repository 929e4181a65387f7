//! The rectifier between two layers, with the mask of the neurons that
//! passed the latest forward call.

use crate::ieee::{gt, gt_bits, ZERO_BITS};
use vstd::prelude::*;

verus! {

/// What `forward` leaves in the mask for the pre-activations `z`: one where
/// the value is above zero, zero elsewhere; entries beyond `z` stay.
pub open spec fn relu_mask(mask: Seq<u8>, z: Seq<u32>) -> Seq<u8> {
    Seq::new(
        mask.len(),
        |i: int|
            if i < z.len() {
                if gt(z[i], ZERO_BITS) {
                    1u8
                } else {
                    0u8
                }
            } else {
                mask[i]
            },
    )
}

/// The activations of the pre-activations `z`.
pub open spec fn relu_out(z: Seq<u32>) -> Seq<u32> {
    Seq::new(z.len(), |i: int| if gt(z[i], ZERO_BITS) { z[i] } else { ZERO_BITS })
}

/// The gradient `da` with the entries muted whose mask is zero.
pub open spec fn relu_back(mask: Seq<u8>, da: Seq<u32>) -> Seq<u32> {
    Seq::new(da.len(), |i: int| if mask[i] == 0 { ZERO_BITS } else { da[i] })
}

/// The rectifier, with the mask of the neurons that passed the latest
/// forward call.
pub struct ReLU {
    mask: Vec<u8>,
}

impl View for ReLU {
    type V = Seq<u8>;

    closed spec fn view(&self) -> Seq<u8> {
        self.mask@
    }
}

impl ReLU {
    pub fn new(size: usize) -> (r: Self)
        ensures
            r@ == Seq::new(size as nat, |i: int| 0u8),
    {
        let mut mask: Vec<u8> = Vec::new();
        let mut i: usize = 0;
        while i < size
            invariant
                i <= size,
                mask@.len() == i,
                forall|k: int| 0 <= k < i ==> mask@[k] == 0u8,
            decreases size - i,
        {
            mask.push(0u8);
            i += 1;
        }
        assert(mask@ =~= Seq::new(size as nat, |i: int| 0u8));
        Self { mask }
    }

    /// Number of neurons.
    pub fn len(&self) -> (r: usize)
        ensures
            r == self@.len(),
    {
        self.mask.len()
    }

    /// Rectifies `z` in place and records which entries were above zero.
    pub fn forward(&mut self, z: &mut Vec<u32>)
        requires
            old(z)@.len() <= old(self)@.len(),
        ensures
            final(self)@ == relu_mask(old(self)@, old(z)@),
            final(z)@ == relu_out(old(z)@),
    {
        let n: usize = z.len();
        let mut i: usize = 0;
        while i < n
            invariant
                i <= n,
                n == z@.len(),
                n == old(z)@.len(),
                n <= self.mask@.len(),
                self.mask@.len() == old(self)@.len(),
                forall|k: int| 0 <= k < i ==> self.mask@[k] == relu_mask(old(self)@, old(z)@)[k],
                forall|k: int| i <= k < self.mask@.len() ==> self.mask@[k] == old(self)@[k],
                forall|k: int| 0 <= k < i ==> z@[k] == relu_out(old(z)@)[k],
                forall|k: int| i <= k < n ==> z@[k] == old(z)@[k],
            decreases n - i,
        {
            if gt_bits(z[i], ZERO_BITS) {
                self.mask[i] = 1;
            } else {
                self.mask[i] = 0;
                z[i] = ZERO_BITS;
            }
            i += 1;
        }
        assert(self.mask@ =~= relu_mask(old(self)@, old(z)@));
        assert(z@ =~= relu_out(old(z)@));
    }

    /// Mutes in place the entries of `da` whose neuron did not pass.
    pub fn backward(&self, da: &mut Vec<u32>)
        requires
            old(da)@.len() <= self@.len(),
        ensures
            final(da)@ == relu_back(self@, old(da)@),
    {
        let n: usize = da.len();
        let mut i: usize = 0;
        while i < n
            invariant
                i <= n,
                n == da@.len(),
                n == old(da)@.len(),
                n <= self.mask@.len(),
                forall|k: int| 0 <= k < i ==> da@[k] == relu_back(self@, old(da)@)[k],
                forall|k: int| i <= k < n ==> da@[k] == old(da)@[k],
            decreases n - i,
        {
            if self.mask[i] == 0 {
                da[i] = ZERO_BITS;
            }
            i += 1;
        }
        assert(da@ =~= relu_back(self@, old(da)@));
    }
}

} // verus!
