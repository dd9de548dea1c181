use vstd::prelude::*;
use crate::error::DrumGenError;
use crate::sequence::DrumGenSequence;
use crate::sequence::decoded_steps;
use crate::sequence::seq_encoded;
use crate::sequence::zero_steps;

verus! {

/// The 48-byte encoding of a layer: the three tiers' 16-byte blocks, in
/// tier order.
pub open spec fn layer_encoded(l: DrumGenLayer) -> Seq<u8> {
    seq_encoded(l.sequence[0]@) + seq_encoded(l.sequence[1]@) + seq_encoded(l.sequence[2]@)
}

/// A fixed triple of step sequences, one per velocity tier; the order is
/// meaningful and is preserved by the codec.
#[derive(Debug, Clone, Copy)]
pub struct DrumGenLayer {
    pub sequence: [DrumGenSequence; 3],
}

impl DrumGenLayer {
    /// A layer of three zero-initialized sequences.
    pub fn new() -> (l: DrumGenLayer)
        ensures
            forall|t: int| 0 <= t < 3 ==> l.sequence[t]@ == zero_steps(),
    {
        DrumGenLayer { sequence: [DrumGenSequence::new(); 3] }
    }

    /// Encode the layer as 48 bytes: the three tiers' encodings
    /// concatenated in tier order.
    pub fn convert(&self) -> (r: Vec<u8>)
        ensures
            r@ == layer_encoded(*self),
            r@.len() == 48,
    {
        let mut result: Vec<u8> = Vec::new();
        let mut t: usize = 0;
        while t < 3
            invariant
                t <= 3,
                result@.len() == 16 * t,
                forall|u: int, j: int| 0 <= u < t && 0 <= j < 16
                    ==> result@[16 * u + j] == seq_encoded(self.sequence[u]@)[j],
            decreases 3 - t,
        {
            let block = self.sequence[t].convert();
            let mut j: usize = 0;
            while j < 16
                invariant
                    j <= 16,
                    t < 3,
                    block@ == seq_encoded(self.sequence[t as int]@),
                    result@.len() == 16 * t + j,
                    forall|u: int, k: int| 0 <= u < t && 0 <= k < 16
                        ==> result@[16 * u + k] == seq_encoded(self.sequence[u]@)[k],
                    forall|k: int| 0 <= k < j
                        ==> result@[16 * (t as int) + k] == seq_encoded(self.sequence[t as int]@)[k],
                decreases 16 - j,
            {
                result.push(block[j]);
                j = j + 1;
            }
            t = t + 1;
        }
        proof {
            assert(result@ =~= layer_encoded(*self));
        }
        result
    }

    /// Overwrite the layer from an encoded buffer: three consecutive
    /// 16-byte blocks, one per tier, each decoded as
    /// [`DrumGenSequence::decode`] does (position 31 of each tier keeps its
    /// previous value). Buffers shorter than 48 bytes are rejected and
    /// leave the layer unchanged.
    pub fn decode(&mut self, data: Vec<u8>) -> (r: Result<(), DrumGenError>)
        ensures
            data@.len() >= 48 ==> r == Ok::<(), DrumGenError>(())
                && forall|t: int| 0 <= t < 3
                    ==> final(self).sequence[t]@ == decoded_steps(
                        old(self).sequence[t]@,
                        data@.subrange(16 * t, 16 * t + 16),
                    ),
            data@.len() < 48 ==> r == Err::<(), DrumGenError>(DrumGenError::InsufficientData)
                && *final(self) == *old(self),
    {
        if data.len() < 48 {
            return Err(DrumGenError::InsufficientData);
        }
        let mut t: usize = 0;
        while t < 3
            invariant
                t <= 3,
                data@.len() >= 48,
                forall|u: int| t <= u < 3 ==> self.sequence[u] == old(self).sequence[u],
                forall|u: int| 0 <= u < t
                    ==> self.sequence[u]@ == decoded_steps(
                        old(self).sequence[u]@,
                        data@.subrange(16 * u, 16 * u + 16),
                    ),
            decreases 3 - t,
        {
            let mut block: Vec<u8> = Vec::new();
            let mut j: usize = 0;
            while j < 16
                invariant
                    j <= 16,
                    t < 3,
                    data@.len() >= 48,
                    block@.len() == j,
                    forall|k: int| 0 <= k < j ==> block@[k] == data@[16 * (t as int) + k],
                decreases 16 - j,
            {
                block.push(data[16 * t + j]);
                j = j + 1;
            }
            proof {
                assert(block@ =~= data@.subrange(16 * (t as int), 16 * (t as int) + 16));
            }
            let mut s = self.sequence[t];
            let _ = s.decode(block);
            self.sequence[t] = s;
            t = t + 1;
        }
        Ok(())
    }
}

} // verus!
