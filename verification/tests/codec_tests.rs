use drumgen::DrumGen;
use drumgen::DrumGenError;
use drumgen::DrumGenLayer;
use drumgen::DrumGenSequence;

#[test]
fn sequence_convert_yields_16_bytes() {
    let s = DrumGenSequence::new();
    assert_eq!(s.convert().len(), 16);
}

#[test]
fn layer_convert_yields_48_bytes() {
    let l = DrumGenLayer::new();
    assert_eq!(l.convert().len(), 48);
}

#[test]
fn pattern_convert_yields_192_bytes() {
    let g = DrumGen::new();
    assert_eq!(g.convert().len(), 192);
}

#[test]
fn convert_packs_two_steps_per_byte() {
    let mut s = DrumGenSequence::new();
    s.set_step(0, 1).unwrap();
    s.set_step(1, 2).unwrap();
    s.set_step(30, 15).unwrap();
    s.set_step(31, 9).unwrap();
    let bytes = s.convert();
    assert_eq!(bytes[0], 0x21);
    assert_eq!(bytes[15], 0x9F);
    for k in 1..15 {
        assert_eq!(bytes[k], 0);
    }
}

#[test]
fn convert_masks_values_to_the_low_nibble() {
    let mut s = DrumGenSequence::new();
    // The field write bypasses the assignment clamp, as the editor's
    // sliders do; the codec masks the value down to 4 bits regardless.
    s.steps[0] = 200;
    let bytes = s.convert();
    assert_eq!(bytes[0], 200 % 16);
}

#[test]
fn clear_then_convert_yields_16_zero_bytes() {
    let mut s = DrumGenSequence::new();
    for i in 0..32 {
        s.set_step(i, 9).unwrap();
    }
    s.clear();
    assert_eq!(s.convert(), vec![0u8; 16]);
}

#[test]
fn sequence_round_trip_reproduces_steps() {
    let mut s = DrumGenSequence::new();
    for i in 0..32 {
        s.set_step(i, (i % 16) as u8).unwrap();
    }
    let encoded = s.convert();
    let mut decoded = DrumGenSequence::new();
    decoded.decode(encoded).unwrap();
    // Positions 0..=30 come back exactly; position 31 is never written by
    // decode and keeps the target's previous value, here 0.
    for i in 0..31 {
        assert_eq!(decoded.get_step(i), (i % 16) as u8);
    }
    assert_eq!(decoded.get_step(31), 0);
}

#[test]
fn decode_keeps_previous_value_at_position_31() {
    let mut s = DrumGenSequence::new();
    s.set_step(31, 7).unwrap();
    s.decode(vec![0u8; 16]).unwrap();
    for i in 0..31 {
        assert_eq!(s.get_step(i), 0);
    }
    assert_eq!(s.get_step(31), 7);
}

#[test]
fn sequence_decode_rejects_short_buffers() {
    let mut s = DrumGenSequence::new();
    s.set_step(0, 5).unwrap();
    assert_eq!(s.decode(vec![0u8; 15]), Err(DrumGenError::InsufficientData));
    assert_eq!(s.get_step(0), 5);
}

#[test]
fn layer_decode_rejects_short_buffers() {
    let mut l = DrumGenLayer::new();
    assert_eq!(l.decode(vec![0u8; 47]), Err(DrumGenError::InsufficientData));
}

#[test]
fn pattern_decode_rejects_short_buffers() {
    let mut g = DrumGen::new();
    assert_eq!(g.decode(vec![0u8; 191]), Err(DrumGenError::InsufficientData));
}

#[test]
fn layer_codec_keeps_tier_order() {
    let mut l = DrumGenLayer::new();
    l.sequence[0].set_step(0, 1).unwrap();
    l.sequence[1].set_step(0, 2).unwrap();
    l.sequence[2].set_step(0, 3).unwrap();
    let bytes = l.convert();
    assert_eq!(bytes[0], 1);
    assert_eq!(bytes[16], 2);
    assert_eq!(bytes[32], 3);
    let mut back = DrumGenLayer::new();
    back.decode(bytes).unwrap();
    assert_eq!(back.sequence[0].get_step(0), 1);
    assert_eq!(back.sequence[1].get_step(0), 2);
    assert_eq!(back.sequence[2].get_step(0), 3);
}

#[test]
fn pattern_codec_keeps_part_order() {
    let mut g = DrumGen::new();
    g.parts[0].sequence[0].set_step(0, 1).unwrap();
    g.parts[1].sequence[0].set_step(0, 2).unwrap();
    g.parts[2].sequence[0].set_step(0, 3).unwrap();
    g.parts[3].sequence[2].set_step(30, 4).unwrap();
    let bytes = g.convert();
    assert_eq!(bytes[0], 1);
    assert_eq!(bytes[48], 2);
    assert_eq!(bytes[96], 3);
    assert_eq!(bytes[144 + 32 + 15], 4);
    let mut back = DrumGen::new();
    back.decode(bytes).unwrap();
    assert_eq!(back.parts[0].sequence[0].get_step(0), 1);
    assert_eq!(back.parts[1].sequence[0].get_step(0), 2);
    assert_eq!(back.parts[2].sequence[0].get_step(0), 3);
    assert_eq!(back.parts[3].sequence[2].get_step(30), 4);
}

#[test]
fn zero_pattern_encodes_to_192_zero_bytes() {
    let g = DrumGen::new();
    assert_eq!(g.convert(), vec![0u8; 192]);
}

#[test]
fn decoding_192_zero_bytes_yields_all_zero_steps() {
    let g = DrumGen::load(vec![0u8; 192]).unwrap();
    for p in 0..4 {
        for t in 0..3 {
            for i in 0..32 {
                assert_eq!(g.parts[p].sequence[t].get_step(i), 0);
            }
        }
    }
}

#[test]
fn load_rejects_short_buffers() {
    assert_eq!(
        DrumGen::load(vec![0u8; 100]).err(),
        Some(DrumGenError::InsufficientData)
    );
}

#[test]
fn save_matches_convert() {
    let mut g = DrumGen::new();
    g.parts[2].sequence[1].set_step(4, 9).unwrap();
    assert_eq!(g.save(), g.convert());
}

#[test]
fn load_then_save_round_trips_a_buffer() {
    let mut source = DrumGen::new();
    for p in 0..4 {
        for t in 0..3 {
            for i in 0..32 {
                source.parts[p].sequence[t]
                    .set_step(i, ((p + 2 * t + i) % 11) as u8)
                    .unwrap();
            }
        }
    }
    let bytes = source.save();
    let reloaded = DrumGen::load(bytes.clone()).unwrap();
    // Step 31 of each tier decodes to 0 in a freshly loaded pattern, so
    // re-encoding gives the same buffer with each tier's last high nibble
    // cleared.
    let again = reloaded.save();
    for k in 0..192 {
        if k % 16 == 15 {
            assert_eq!(again[k], bytes[k] & 0x0F);
        } else {
            assert_eq!(again[k], bytes[k]);
        }
    }
}
