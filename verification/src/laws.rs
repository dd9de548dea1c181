use vstd::prelude::*;
use vstd::arithmetic::div_mod::lemma_fundamental_div_mod_converse;
use vstd::arithmetic::div_mod::lemma_mod_multiples_vanish;
use vstd::arithmetic::div_mod::lemma_small_mod;
use crate::sequence::clamp_step;
use crate::sequence::decoded_steps;
use crate::sequence::encoded_byte;
use crate::sequence::seq_added;
use crate::sequence::seq_encoded;
use crate::sequence::seq_repeated;
use crate::sequence::seq_shifted;
use crate::sequence::step_from_bytes;
use crate::sequence::zero_steps;

verus! {

/// A byte made of a low and a high nibble gives both back: remainder and
/// quotient by 16 recover the packed values.
proof fn lemma_pack_unpack(l: int, h: int)
    requires
        0 <= l < 16,
        0 <= h < 16,
    ensures
        (l + 16 * h) % 16 == l,
        (l + 16 * h) / 16 == h,
{
    lemma_fundamental_div_mod_converse(l + 16 * h, 16, h, l);
}

/// Storing a step and reading it back returns the stored value clamped to
/// the assignment ceiling: after `set_step(index, v)`, `get_step(index)`
/// returns `v` capped at 15, for every valid index.
pub proof fn lemma_set_then_get(s: Seq<u8>, index: int, v: u8)
    requires
        s.len() == 32,
        0 <= index < 32,
    ensures
        s.update(index, clamp_step(v))[index] == if v > 15 {
            15u8
        } else {
            v
        },
{
}

/// Round trip: encoding a sequence and decoding the result reproduces it
/// exactly, provided every step below position 31 fits in a nibble.
/// Position 31 is never written by decode and keeps the value it already
/// had, so the whole sequence comes back unchanged whatever step 31 holds.
pub proof fn lemma_round_trip(s: Seq<u8>)
    requires
        s.len() == 32,
        forall|i: int| 0 <= i < 31 ==> s[i] <= 15,
    ensures
        decoded_steps(s, seq_encoded(s)) == s,
{
    assert forall|i: int| 0 <= i < 31 implies step_from_bytes(seq_encoded(s), i) == s[i] by {
        let k = i / 2;
        let b = encoded_byte(s, k);
        let l = (s[2 * k] % 16) as int;
        let h = (s[2 * k + 1] % 16) as int;
        lemma_pack_unpack(l, h);
        assert(b == l + 16 * h);
        if i % 2 == 0 {
            assert(2 * k == i);
            lemma_small_mod(s[i] as nat, 16);
        } else {
            assert(2 * k + 1 == i);
            lemma_small_mod(s[i] as nat, 16);
        }
    }
    assert(decoded_steps(s, seq_encoded(s)) =~= s);
}

/// A shift by 0 or by a whole lap of 32 positions is the identity.
pub proof fn lemma_shift_identity(s: Seq<u8>)
    requires
        s.len() == 32,
    ensures
        seq_shifted(s, 0) == s,
        seq_shifted(s, 32) == s,
{
    assert forall|i: int| 0 <= i < 32 implies #[trigger] ((i + 0) % 32) == i && (i + 32) % 32
        == i by {
        lemma_small_mod(i as nat, 32);
        lemma_mod_multiples_vanish(1, i, 32);
    }
    assert(seq_shifted(s, 0) =~= s);
    assert(seq_shifted(s, 32) =~= s);
}

/// Adding 0 is the identity on every sequence whose steps already lie
/// within the additive ceiling of 10; a step above it would be pulled down
/// to 10 by the clamp.
pub proof fn lemma_add_zero(s: Seq<u8>)
    requires
        s.len() == 32,
        forall|i: int| 0 <= i < 32 ==> s[i] <= 10,
    ensures
        seq_added(s, 0) == s,
{
    assert(seq_added(s, 0) =~= s);
}

/// Adding 100 saturates every step to the additive ceiling of 10.
pub proof fn lemma_add_saturates_high(s: Seq<u8>)
    requires
        s.len() == 32,
    ensures
        forall|i: int| 0 <= i < 32 ==> #[trigger] seq_added(s, 100)[i] == 10u8,
{
}

/// Subtracting 100 saturates every step to 0, for every sequence whose
/// steps do not exceed 100; a step above that would still sit above the
/// floor after the subtraction.
pub proof fn lemma_add_saturates_low(s: Seq<u8>)
    requires
        s.len() == 32,
        forall|i: int| 0 <= i < 32 ==> s[i] <= 100,
    ensures
        forall|i: int| 0 <= i < 32 ==> #[trigger] seq_added(s, -100)[i] == 0u8,
{
}

/// Tiling from the start with a window of one step copies the first step
/// everywhere, provided it fits in a nibble (a larger value would pass
/// through the assignment clamp).
pub proof fn lemma_repeat_tile(s: Seq<u8>)
    requires
        s.len() == 32,
        s[0] <= 15,
    ensures
        forall|i: int| 0 <= i < 32 ==> #[trigger] seq_repeated(s, 0, 1)[i] == s[0],
{
    assert forall|i: int| 0 <= i < 32 implies #[trigger] seq_repeated(s, 0, 1)[i] == s[0] by {
        lemma_mod_multiples_vanish(i, 0, 1);
        lemma_small_mod(0, 1);
        assert(i % 1 == 0);
    }
}

/// A cleared sequence encodes to 16 zero bytes.
pub proof fn lemma_clear_encodes_zero()
    ensures
        seq_encoded(zero_steps()) == Seq::new(16, |k: int| 0u8),
{
    assert forall|k: int| 0 <= k < 16 implies encoded_byte(zero_steps(), k) == 0u8 by {
        lemma_small_mod(0, 16);
    }
    assert(seq_encoded(zero_steps()) =~= Seq::new(16, |k: int| 0u8));
}

} // verus!
