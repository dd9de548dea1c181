use vstd::prelude::*;
use crate::error::DrumGenError;
use crate::layer::DrumGenLayer;
use crate::layer::layer_encoded;
use crate::sequence::decoded_steps;
use crate::sequence::zero_steps;

verus! {

/// The 192-byte encoding of a whole pattern: the four parts' 48-byte
/// encodings, in part order.
pub open spec fn pattern_encoded(g: DrumGen) -> Seq<u8> {
    layer_encoded(g.parts[0]) + layer_encoded(g.parts[1]) + layer_encoded(g.parts[2])
        + layer_encoded(g.parts[3])
}

/// What every tier of a pattern holds after decoding `data` into a
/// zero-initialized pattern: steps `0..=30` of part `p`, tier `t` come from
/// the 16-byte block at offset `48 * p + 16 * t`, and step 31 stays 0.
pub open spec fn loaded_tier(data: Seq<u8>, p: int, t: int) -> Seq<u8> {
    decoded_steps(zero_steps(), data.subrange(48 * p + 16 * t, 48 * p + 16 * t + 16))
}

/// A full drum-sequencer template: four parts, each a layer of three
/// velocity tiers. The part order is meaningful and is preserved by the
/// codec.
#[derive(Debug, Clone, Copy)]
pub struct DrumGen {
    pub parts: [DrumGenLayer; 4],
}

impl DrumGen {
    /// A zero-initialized pattern.
    pub fn new() -> (g: DrumGen)
        ensures
            forall|p: int, t: int| 0 <= p < 4 && 0 <= t < 3
                ==> g.parts[p].sequence[t]@ == zero_steps(),
    {
        DrumGen { parts: [DrumGenLayer::new(); 4] }
    }

    /// Encode the pattern as 192 bytes: the four parts' 48-byte encodings
    /// concatenated in part order.
    pub fn convert(&self) -> (r: Vec<u8>)
        ensures
            r@ == pattern_encoded(*self),
            r@.len() == 192,
    {
        let mut result: Vec<u8> = Vec::new();
        let mut p: usize = 0;
        while p < 4
            invariant
                p <= 4,
                result@.len() == 48 * p,
                forall|u: int, j: int| 0 <= u < p && 0 <= j < 48
                    ==> result@[48 * u + j] == layer_encoded(self.parts[u])[j],
            decreases 4 - p,
        {
            let block = self.parts[p].convert();
            let mut j: usize = 0;
            while j < 48
                invariant
                    j <= 48,
                    p < 4,
                    block@ == layer_encoded(self.parts[p as int]),
                    block@.len() == 48,
                    result@.len() == 48 * p + j,
                    forall|u: int, k: int| 0 <= u < p && 0 <= k < 48
                        ==> result@[48 * u + k] == layer_encoded(self.parts[u])[k],
                    forall|k: int| 0 <= k < j
                        ==> result@[48 * (p as int) + k] == layer_encoded(self.parts[p as int])[k],
                decreases 48 - j,
            {
                result.push(block[j]);
                j = j + 1;
            }
            p = p + 1;
        }
        proof {
            assert(result@ =~= pattern_encoded(*self));
        }
        result
    }

    /// Overwrite the pattern from an encoded buffer: four consecutive
    /// 48-byte blocks, one per part, each decoded as
    /// [`DrumGenLayer::decode`] does. Buffers shorter than 192 bytes are
    /// rejected and leave the pattern unchanged.
    pub fn decode(&mut self, data: Vec<u8>) -> (r: Result<(), DrumGenError>)
        ensures
            data@.len() >= 192 ==> r == Ok::<(), DrumGenError>(())
                && forall|p: int, t: int| 0 <= p < 4 && 0 <= t < 3
                    ==> final(self).parts[p].sequence[t]@ == decoded_steps(
                        old(self).parts[p].sequence[t]@,
                        data@.subrange(48 * p + 16 * t, 48 * p + 16 * t + 16),
                    ),
            data@.len() < 192 ==> r == Err::<(), DrumGenError>(DrumGenError::InsufficientData)
                && *final(self) == *old(self),
    {
        if data.len() < 192 {
            return Err(DrumGenError::InsufficientData);
        }
        let mut p: usize = 0;
        while p < 4
            invariant
                p <= 4,
                data@.len() >= 192,
                forall|u: int| p <= u < 4 ==> self.parts[u] == old(self).parts[u],
                forall|u: int, t: int| 0 <= u < p && 0 <= t < 3
                    ==> self.parts[u].sequence[t]@ == decoded_steps(
                        old(self).parts[u].sequence[t]@,
                        data@.subrange(48 * u + 16 * t, 48 * u + 16 * t + 16),
                    ),
            decreases 4 - p,
        {
            let mut block: Vec<u8> = Vec::new();
            let mut j: usize = 0;
            while j < 48
                invariant
                    j <= 48,
                    p < 4,
                    data@.len() >= 192,
                    block@.len() == j,
                    forall|k: int| 0 <= k < j ==> block@[k] == data@[48 * (p as int) + k],
                decreases 48 - j,
            {
                block.push(data[48 * p + j]);
                j = j + 1;
            }
            proof {
                assert(block@ =~= data@.subrange(48 * (p as int), 48 * (p as int) + 48));
            }
            let mut l = self.parts[p];
            let _ = l.decode(block);
            self.parts[p] = l;
            proof {
                assert forall|t: int| 0 <= t < 3 implies self.parts[p as int].sequence[t]@
                    == decoded_steps(
                    old(self).parts[p as int].sequence[t]@,
                    data@.subrange(
                        48 * (p as int) + 16 * t,
                        48 * (p as int) + 16 * t + 16,
                    ),
                ) by {
                    assert(block@.subrange(16 * t, 16 * t + 16) =~= data@.subrange(
                        48 * (p as int) + 16 * t,
                        48 * (p as int) + 16 * t + 16,
                    ));
                }
            }
            p = p + 1;
        }
        Ok(())
    }

    /// Build a pattern from an encoded buffer: a zero-initialized pattern
    /// overwritten by [`DrumGen::decode`], so step 31 of every tier reads
    /// as 0. This is the whole interface a file-reading collaborator
    /// needs; it surfaces its own I/O failures separately.
    pub fn load(data: Vec<u8>) -> (r: Result<DrumGen, DrumGenError>)
        ensures
            data@.len() >= 192 ==> r is Ok
                && forall|p: int, t: int| 0 <= p < 4 && 0 <= t < 3
                    ==> r->Ok_0.parts[p].sequence[t]@ == loaded_tier(data@, p, t),
            data@.len() < 192 ==> r == Err::<DrumGen, DrumGenError>(DrumGenError::InsufficientData),
    {
        let mut g = DrumGen::new();
        match g.decode(data) {
            Ok(()) => Ok(g),
            Err(e) => Err(e),
        }
    }

    /// The encoded form of the pattern, ready for a file-writing
    /// collaborator: identical to [`DrumGen::convert`].
    pub fn save(&self) -> (r: Vec<u8>)
        ensures
            r@ == pattern_encoded(*self),
            r@.len() == 192,
    {
        self.convert()
    }
}

} // verus!
