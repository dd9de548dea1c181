use vstd::prelude::*;
use vstd::arithmetic::div_mod::lemma_fundamental_div_mod;
use vstd::arithmetic::div_mod::lemma_mod_division_less_than_divisor;
use vstd::arithmetic::div_mod::lemma_mod_multiples_vanish;
use vstd::arithmetic::div_mod::lemma_small_mod;
use crate::error::DrumGenError;
use crate::random::UniformSource;

verus! {

/// A remainder taken with a positive divisor is bounded by the divisor and
/// never exceeds a non-negative dividend.
proof fn lemma_mod_window(a: int, b: int)
    requires
        a >= 0,
        b >= 1,
    ensures
        0 <= a % b < b,
        a % b <= a,
{
    lemma_mod_division_less_than_divisor(a, b);
    if a < b {
        lemma_small_mod(a as nat, b as nat);
    }
}

/// The rotation offset computed by `shift` from a signed amount is the
/// amount reduced modulo 32: adding either to a position and reducing
/// modulo 32 lands on the same source index.
proof fn lemma_offset_congruent(v: int, off: int)
    requires
        -128 <= v <= 127,
        v >= 0 ==> off == v % 32,
        v < 0 && (-v) % 32 == 0 ==> off == 0,
        v < 0 && (-v) % 32 != 0 ==> off == 32 - (-v) % 32,
    ensures
        0 <= off < 32,
        forall|j: int| 0 <= j < 32 ==> #[trigger] ((j + off) % 32) == (j + v) % 32,
{
    if v >= 0 {
        lemma_mod_division_less_than_divisor(v, 32);
    } else {
        lemma_mod_division_less_than_divisor(-v, 32);
    }
    assert forall|j: int| 0 <= j < 32 implies #[trigger] ((j + off) % 32) == (j + v) % 32 by {
        if v >= 0 {
            lemma_fundamental_div_mod(v, 32);
            let q = v / 32;
            assert(j + v == 32 * q + (j + off));
            lemma_mod_multiples_vanish(q, j + off, 32);
        } else {
            let a = -v;
            lemma_fundamental_div_mod(a, 32);
            let q = a / 32;
            let m = a % 32;
            if m == 0 {
                assert(j + v == 32 * (-q) + (j + off));
                lemma_mod_multiples_vanish(-q, j + off, 32);
            } else {
                assert(j + v == 32 * (-q - 1) + (j + off));
                lemma_mod_multiples_vanish(-q - 1, j + off, 32);
            }
        }
    }
}

/// The ceiling applied by step assignment: stored steps never exceed 15.
pub open spec fn clamp_step(v: u8) -> u8 {
    if v > 15 {
        15
    } else {
        v
    }
}

/// The ceiling applied by the additive offset: results are clamped into
/// `[0, 10]`, a deliberately different bound from the assignment clamp.
pub open spec fn add_clamped(v: u8, delta: int) -> u8 {
    let x = v + delta;
    if x < 0 {
        0u8
    } else if x > 10 {
        10u8
    } else {
        x as u8
    }
}

/// The byte that packs step `2k` (low nibble) and step `2k + 1` (high
/// nibble); each step is reduced to its low four bits first.
pub open spec fn encoded_byte(s: Seq<u8>, k: int) -> u8 {
    ((s[2 * k] % 16) + 16 * (s[2 * k + 1] % 16)) as u8
}

/// The 16-byte encoding of a 32-step sequence.
pub open spec fn seq_encoded(s: Seq<u8>) -> Seq<u8> {
    Seq::new(16, |k: int| encoded_byte(s, k))
}

/// The step that position `i` reads out of an encoded buffer: the low
/// nibble of byte `i / 2` for even `i`, the high nibble for odd `i`.
pub open spec fn step_from_bytes(data: Seq<u8>, i: int) -> u8 {
    if i % 2 == 0 {
        (data[i / 2] % 16) as u8
    } else {
        (data[i / 2] / 16) as u8
    }
}

/// What a sequence holds after decoding `data` over previous contents
/// `prev`: positions `0..=30` come from the buffer, while position 31 is
/// never written by decode and keeps its previous value (a quirk of the
/// original file layout handling, kept deliberately and documented at
/// [`DrumGenSequence::decode`]).
pub open spec fn decoded_steps(prev: Seq<u8>, data: Seq<u8>) -> Seq<u8> {
    Seq::new(32, |i: int| if i < 31 { step_from_bytes(data, i) } else { prev[31] })
}

/// The sequence rotated so that position `i` shows the old step at
/// `(i + v) mod 32`, with true mathematical modulo.
pub open spec fn seq_shifted(s: Seq<u8>, v: int) -> Seq<u8> {
    Seq::new(32, |i: int| s[(i + v) % 32])
}

/// Every step moved by `delta` and clamped into `[0, 10]`.
pub open spec fn seq_added(s: Seq<u8>, delta: int) -> Seq<u8> {
    Seq::new(32, |i: int| add_clamped(s[i], delta))
}

/// The window `[start, start + steps)` tiled forward over the tail of the
/// sequence; tiled values pass through the assignment clamp.
pub open spec fn seq_repeated(s: Seq<u8>, start: int, steps: int) -> Seq<u8> {
    Seq::new(
        32,
        |i: int|
            if i < start {
                s[i]
            } else {
                clamp_step(s[start + (i - start) % steps])
            },
    )
}

/// The all-zero step sequence.
pub open spec fn zero_steps() -> Seq<u8> {
    Seq::new(32, |i: int| 0u8)
}

/// One half-open draw range of `randomize`, as chosen from `min` and `max`:
/// reversed bounds swap the ends, equal bounds pin the constant `min`.
pub open spec fn in_draw_range(min: u8, max: u8, d: u8) -> bool {
    if min > max {
        max <= d < min
    } else if min == max {
        d == min
    } else {
        min <= d < max
    }
}

/// A value that one `randomize` replacement can leave in a step: some draw
/// from the chosen range, passed through the assignment clamp.
pub open spec fn randomize_outcome(min: u8, max: u8, v: u8) -> bool {
    exists|d: u8| #[trigger] in_draw_range(min, max, d) && v == clamp_step(d)
}

/// An ordered run of 32 probability steps, one velocity tier of a drum
/// pattern. Each step is a small unsigned magnitude; the codec keeps only
/// its low four bits.
#[derive(Debug, Clone, Copy)]
pub struct DrumGenSequence {
    pub steps: [u8; 32],
}

impl View for DrumGenSequence {
    type V = Seq<u8>;

    open spec fn view(&self) -> Seq<u8> {
        self.steps@
    }
}

impl DrumGenSequence {
    /// A zero-initialized sequence.
    pub fn new() -> (s: DrumGenSequence)
        ensures
            s@ == zero_steps(),
    {
        let s = DrumGenSequence { steps: [0u8; 32] };
        proof {
            assert(s@ =~= zero_steps());
        }
        s
    }

    /// Store `value` at position `step`, clamped to the assignment ceiling
    /// of 15. Indices outside `0..=31` are rejected.
    pub fn set_step(&mut self, step: usize, value: u8) -> (r: Result<(), DrumGenError>)
        ensures
            step < 32 ==> r == Ok::<(), DrumGenError>(())
                && final(self)@ == old(self)@.update(step as int, clamp_step(value)),
            step >= 32 ==> r == Err::<(), DrumGenError>(DrumGenError::IndexOutOfRange)
                && final(self)@ == old(self)@,
    {
        if step < 32 {
            let final_value = if value > 15 { 15 } else { value };
            self.steps[step] = final_value;
            Ok(())
        } else {
            Err(DrumGenError::IndexOutOfRange)
        }
    }

    /// The stored step for indices `0..=31`; out-of-range indices read as 0
    /// rather than failing, an asymmetry with `set_step` kept from the
    /// original design.
    pub fn get_step(&self, step: usize) -> (r: u8)
        ensures
            step < 32 ==> r == self@[step as int],
            step >= 32 ==> r == 0,
    {
        if step < 32 {
            self.steps[step]
        } else {
            0
        }
    }

    /// Encode the sequence as 16 bytes, two steps per byte: step `2k` in the
    /// low nibble of byte `k`, step `2k + 1` in the high nibble. Steps above
    /// 15 silently lose their high bits.
    pub fn convert(&self) -> (r: Vec<u8>)
        ensures
            r@ == seq_encoded(self@),
            r@.len() == 16,
    {
        let mut result: Vec<u8> = Vec::new();
        let mut k: usize = 0;
        while k < 16
            invariant
                k <= 16,
                result@.len() == k,
                forall|j: int| 0 <= j < k ==> result@[j] == encoded_byte(self@, j),
            decreases 16 - k,
        {
            let lo = self.steps[2 * k] % 16;
            let hi = self.steps[2 * k + 1] % 16;
            let byte = lo + hi * 16;
            result.push(byte);
            k = k + 1;
        }
        proof {
            assert(result@ =~= seq_encoded(self@));
        }
        result
    }

    /// Overwrite the sequence from an encoded buffer: position `i` takes the
    /// low nibble of byte `i / 2` for even `i`, the high nibble for odd `i`.
    /// As in the original file layout handling, only positions `0..=30` are
    /// written; position 31 keeps whatever it held before the call. Buffers
    /// shorter than 16 bytes are rejected and leave the sequence unchanged.
    pub fn decode(&mut self, data: Vec<u8>) -> (r: Result<(), DrumGenError>)
        ensures
            data@.len() >= 16 ==> r == Ok::<(), DrumGenError>(())
                && final(self)@ == decoded_steps(old(self)@, data@),
            data@.len() < 16 ==> r == Err::<(), DrumGenError>(DrumGenError::InsufficientData)
                && final(self)@ == old(self)@,
    {
        if data.len() < 16 {
            return Err(DrumGenError::InsufficientData);
        }
        let mut i: usize = 0;
        while i < 31
            invariant
                i <= 31,
                data@.len() >= 16,
                forall|j: int| 0 <= j < i ==> self@[j] == step_from_bytes(data@, j),
                forall|j: int| i <= j < 32 ==> self@[j] == old(self)@[j],
            decreases 31 - i,
        {
            let value = data[i / 2];
            let v = if i % 2 == 0 {
                value % 16
            } else {
                value / 16
            };
            let ghost prev = self@;
            self.steps[i] = v;
            proof {
                assert(self@ == prev.update(i as int, v));
            }
            i = i + 1;
        }
        proof {
            assert(self@ =~= decoded_steps(old(self)@, data@));
        }
        Ok(())
    }

    /// Rotate the sequence so that position `i` shows the old step at
    /// `(i + value) mod 32`, with true mathematical modulo, so negative
    /// shifts rotate the other way.
    pub fn shift(&mut self, value: i8)
        ensures
            final(self)@ == seq_shifted(old(self)@, value as int),
    {
        let off: usize = if value >= 0 {
            (value as usize) % 32
        } else {
            let neg: i16 = -(value as i16);
            let m = (neg as usize) % 32;
            if m == 0 {
                0
            } else {
                32 - m
            }
        };
        proof {
            lemma_offset_congruent(value as int, off as int);
        }
        let mut new_steps: [u8; 32] = [0u8; 32];
        let mut i: usize = 0;
        while i < 32
            invariant
                i <= 32,
                off < 32,
                forall|j: int| 0 <= j < i ==> new_steps@[j] == self@[(j + off) % 32],
            decreases 32 - i,
        {
            let src = (i + off) % 32;
            let ghost prev = new_steps@;
            new_steps[i] = self.steps[src];
            proof {
                assert(new_steps@ == prev.update(i as int, self@[src as int]));
            }
            i = i + 1;
        }
        self.steps = new_steps;
        proof {
            assert forall|j: int| 0 <= j < 32 implies self@[j] == seq_shifted(old(self)@, value as int)[j] by {
                assert((j + off) % 32 == (j + value as int) % 32);
            }
            assert(self@ =~= seq_shifted(old(self)@, value as int));
        }
    }

    /// Move every step by `value` and clamp the result into `[0, 10]`, the
    /// additive ceiling (deliberately lower than the assignment clamp).
    pub fn add(&mut self, value: i8)
        ensures
            final(self)@ == seq_added(old(self)@, value as int),
    {
        let mut i: usize = 0;
        while i < 32
            invariant
                i <= 32,
                forall|j: int| 0 <= j < i ==> self@[j] == add_clamped(old(self)@[j], value as int),
                forall|j: int| i <= j < 32 ==> self@[j] == old(self)@[j],
            decreases 32 - i,
        {
            let x: i16 = self.steps[i] as i16 + value as i16;
            let v: u8 = if x < 0 {
                0
            } else if x > 10 {
                10
            } else {
                x as u8
            };
            let ghost prev = self@;
            self.steps[i] = v;
            proof {
                assert(self@ == prev.update(i as int, v));
            }
            i = i + 1;
        }
        proof {
            assert(self@ =~= seq_added(old(self)@, value as int));
        }
    }

    /// Tile the window `[start, start + steps)` forward to the end of the
    /// sequence: position `i >= start` takes the value at
    /// `start + ((i - start) mod steps)`, passed through the assignment
    /// clamp. An empty window is rejected.
    pub fn repeat(&mut self, start: usize, steps: usize) -> (r: Result<(), DrumGenError>)
        ensures
            steps == 0 ==> r == Err::<(), DrumGenError>(DrumGenError::InvalidRepeatWindow)
                && final(self)@ == old(self)@,
            steps > 0 ==> r == Ok::<(), DrumGenError>(())
                && final(self)@ == seq_repeated(old(self)@, start as int, steps as int),
    {
        if steps == 0 {
            return Err(DrumGenError::InvalidRepeatWindow);
        }
        let mut i: usize = start;
        while i < 32
            invariant
                steps >= 1,
                start <= i,
                i <= 32 || i == start,
                forall|j: int| 0 <= j < 32 && !(start <= j < i) ==> self@[j] == old(self)@[j],
                forall|j: int| start <= j < i ==> self@[j] == clamp_step(
                    old(self)@[start as int + (j - start as int) % (steps as int)],
                ),
            decreases 32 - i,
        {
            proof {
                lemma_mod_window((i - start) as int, steps as int);
            }
            let idx = start + ((i - start) % steps);
            let v = self.steps[idx];
            let _ = self.set_step(i, v);
            proof {
                if idx < i {
                    lemma_small_mod((idx - start) as nat, steps as nat);
                }
            }
            i = i + 1;
        }
        proof {
            assert(self@ =~= seq_repeated(old(self)@, start as int, steps as int));
        }
        Ok(())
    }

    /// Replace steps at random. For each of the 32 positions independently,
    /// a percentage roll in `[0, 100)` decides whether the step is replaced;
    /// a replacement is drawn from the half-open range chosen from `min` and
    /// `max` (reversed bounds swap the ends, equal bounds pin the constant
    /// `min`) and stored through the assignment clamp. A zero probability
    /// leaves the sequence untouched; a probability of 100 or more replaces
    /// every step.
    pub fn randomize<R: UniformSource>(&mut self, rng: &mut R, min: u8, max: u8, probability: u8)
        ensures
            forall|i: int| 0 <= i < 32 ==> final(self)@[i] == old(self)@[i]
                || randomize_outcome(min, max, final(self)@[i]),
            probability == 0 ==> final(self)@ == old(self)@,
            probability >= 100 ==> forall|i: int| 0 <= i < 32
                ==> randomize_outcome(min, max, final(self)@[i]),
            probability >= 100 && min == max ==> forall|i: int| 0 <= i < 32
                ==> final(self)@[i] == clamp_step(min),
    {
        let mut i: usize = 0;
        while i < 32
            invariant
                i <= 32,
                forall|j: int| i <= j < 32 ==> self@[j] == old(self)@[j],
                forall|j: int| 0 <= j < i ==> self@[j] == old(self)@[j]
                    || randomize_outcome(min, max, self@[j]),
                probability == 0 ==> forall|j: int| 0 <= j < i ==> self@[j] == old(self)@[j],
                probability >= 100 ==> forall|j: int| 0 <= j < i
                    ==> randomize_outcome(min, max, self@[j]),
                probability >= 100 && min == max ==> forall|j: int| 0 <= j < i
                    ==> self@[j] == clamp_step(min),
            decreases 32 - i,
        {
            let roll = rng.next_in(0, 100);
            if roll < probability {
                if min > max {
                    let value = rng.next_in(max, min);
                    let _ = self.set_step(i, value);
                    proof {
                        assert(in_draw_range(min, max, value));
                        assert(randomize_outcome(min, max, clamp_step(value)));
                    }
                } else if max - min == 0 {
                    let _ = self.set_step(i, min);
                    proof {
                        assert(in_draw_range(min, max, min));
                        assert(randomize_outcome(min, max, clamp_step(min)));
                    }
                } else {
                    let value = rng.next_in(min, max);
                    let _ = self.set_step(i, value);
                    proof {
                        assert(in_draw_range(min, max, value));
                        assert(randomize_outcome(min, max, clamp_step(value)));
                    }
                }
            }
            i = i + 1;
        }
        proof {
            if probability == 0 {
                assert(self@ =~= old(self)@);
            }
        }
    }

    /// Reset every step to 0.
    pub fn clear(&mut self)
        ensures
            final(self)@ == zero_steps(),
    {
        let mut i: usize = 0;
        while i < 32
            invariant
                i <= 32,
                forall|j: int| 0 <= j < i ==> self@[j] == 0u8,
            decreases 32 - i,
        {
            let ghost prev = self@;
            self.steps[i] = 0;
            proof {
                assert(self@ == prev.update(i as int, 0u8));
            }
            i = i + 1;
        }
        proof {
            assert(self@ =~= zero_steps());
        }
    }
}

} // verus!
