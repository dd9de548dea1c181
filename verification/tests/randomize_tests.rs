use drumgen::DrumGenSequence;
use drumgen::ThreadRandom;
use drumgen::UniformSource;

/// A scripted random source for deterministic tests: always answers with
/// the lowest value the range allows.
struct LowestSource;

impl UniformSource for LowestSource {
    fn next_in(&mut self, lo: u8, _hi: u8) -> u8 {
        lo
    }
}

/// A scripted random source that always answers with the highest value the
/// range allows.
struct HighestSource;

impl UniformSource for HighestSource {
    fn next_in(&mut self, _lo: u8, hi: u8) -> u8 {
        hi - 1
    }
}

#[test]
fn randomize_with_equal_bounds_pins_every_step() {
    let mut s = DrumGenSequence::new();
    let mut rng = ThreadRandom::new();
    s.randomize(&mut rng, 5, 5, 100);
    for i in 0..32 {
        assert_eq!(s.get_step(i), 5);
    }
}

#[test]
fn randomize_with_zero_probability_changes_nothing() {
    let mut s = DrumGenSequence::new();
    for i in 0..32 {
        s.set_step(i, (i % 11) as u8).unwrap();
    }
    let before: Vec<u8> = (0..32).map(|i| s.get_step(i)).collect();
    let mut rng = ThreadRandom::new();
    s.randomize(&mut rng, 0, 10, 0);
    let after: Vec<u8> = (0..32).map(|i| s.get_step(i)).collect();
    assert_eq!(before, after);
}

#[test]
fn randomize_draws_stay_inside_the_range() {
    let mut s = DrumGenSequence::new();
    let mut rng = ThreadRandom::new();
    s.randomize(&mut rng, 3, 4, 100);
    // the only value in [3, 4) is 3
    for i in 0..32 {
        assert_eq!(s.get_step(i), 3);
    }
}

#[test]
fn randomize_excludes_the_upper_bound() {
    let mut s = DrumGenSequence::new();
    let mut rng = ThreadRandom::new();
    s.randomize(&mut rng, 0, 10, 100);
    for i in 0..32 {
        assert!(s.get_step(i) < 10);
    }
}

#[test]
fn randomize_with_reversed_bounds_swaps_the_ends() {
    let mut s = DrumGenSequence::new();
    let mut rng = ThreadRandom::new();
    // min > max draws from [max, min) = [6, 7): only 6
    s.randomize(&mut rng, 7, 6, 100);
    for i in 0..32 {
        assert_eq!(s.get_step(i), 6);
    }
}

#[test]
fn randomize_is_deterministic_under_a_scripted_source() {
    let mut s = DrumGenSequence::new();
    let mut rng = LowestSource;
    // every roll is 0 < 100, every draw is the range's low end
    s.randomize(&mut rng, 2, 9, 100);
    for i in 0..32 {
        assert_eq!(s.get_step(i), 2);
    }
    let mut high = HighestSource;
    s.randomize(&mut high, 2, 9, 100);
    for i in 0..32 {
        assert_eq!(s.get_step(i), 8);
    }
}

#[test]
fn randomize_replacement_passes_the_assignment_clamp() {
    let mut s = DrumGenSequence::new();
    let mut rng = LowestSource;
    // equal bounds above the clamp: the stored value is capped at 15
    s.randomize(&mut rng, 200, 200, 100);
    for i in 0..32 {
        assert_eq!(s.get_step(i), 15);
    }
}

#[test]
fn randomize_with_scripted_rolls_never_replaces_when_roll_too_high() {
    let mut s = DrumGenSequence::new();
    let mut rng = HighestSource;
    // every roll is 99, and 99 < 50 is false, so nothing changes
    s.randomize(&mut rng, 5, 9, 50);
    for i in 0..32 {
        assert_eq!(s.get_step(i), 0);
    }
}
