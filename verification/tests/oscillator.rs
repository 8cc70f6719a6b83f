use wavy::oscillator::{Key, Oscillator, Pitch, Sample, SineOscillator, REFERENCE_KEY};

fn tone(semitones: i32, phase: u32) -> Sample {
    Sample::Tone { pitch: Pitch { semitones }, phase }
}

fn render(osc: &mut SineOscillator, len: usize) -> (Vec<Sample>, Vec<Sample>) {
    let mut left = vec![tone(99, 99); len];
    let mut right = vec![tone(-99, 98); len];
    osc.process(&mut left, &mut right);
    (left, right)
}

#[test]
fn new_voice_is_silent_and_rewound() {
    let osc = SineOscillator::new(48000);
    assert_eq!(osc.sample_rate(), 48000);
    assert_eq!(osc.pitch(), None);
    assert_eq!(osc.phase(), 0);
    assert!(!osc.is_active());
}

#[test]
fn reference_key_is_57() {
    assert_eq!(REFERENCE_KEY, 57);
    assert_eq!(Pitch::from_key(REFERENCE_KEY), Pitch { semitones: 0 });
}

#[test]
fn pitch_is_the_distance_from_the_reference_key() {
    assert_eq!(Pitch::from_key(57).semitones, 0);
    assert_eq!(Pitch::from_key(69).semitones, 12);
    assert_eq!(Pitch::from_key(45).semitones, -12);
    assert_eq!(Pitch::from_key(58).semitones, 1);
    assert_eq!(Pitch::from_key(0).semitones, -57);
    assert_eq!(Pitch::from_key(127).semitones, 70);
    assert_eq!(Pitch::from_key(u16::MAX).semitones, 65478);
}

#[test]
fn note_on_sets_the_pitch_of_the_key() {
    let mut osc = SineOscillator::new(48000);
    osc.handle_note_on(Key::Specific(57));
    assert_eq!(osc.pitch(), Some(Pitch { semitones: 0 }));
    osc.handle_note_on(Key::Specific(69));
    assert_eq!(osc.pitch(), Some(Pitch { semitones: 12 }));
    osc.handle_note_on(Key::Specific(45));
    assert_eq!(osc.pitch(), Some(Pitch { semitones: -12 }));
    assert!(osc.is_active());
    assert_eq!(osc.sample_rate(), 48000);
}

#[test]
fn note_on_for_every_key_sets_its_pitch() {
    let mut key: u16 = 0;
    loop {
        let mut osc = SineOscillator::new(44100);
        osc.handle_note_on(Key::Specific(key));
        assert_eq!(osc.pitch(), Some(Pitch { semitones: key as i32 - 57 }));
        assert!(osc.is_active());
        if key == u16::MAX {
            break;
        }
        key += 1;
    }
}

#[test]
fn note_on_with_the_wildcard_changes_nothing() {
    let mut osc = SineOscillator::new(48000);
    osc.handle_note_on(Key::Unspecified);
    assert_eq!(osc.pitch(), None);
    assert_eq!(osc.phase(), 0);
    assert!(!osc.is_active());

    osc.handle_note_on(Key::Specific(60));
    let _ = render(&mut osc, 5);
    osc.handle_note_on(Key::Unspecified);
    assert_eq!(osc.pitch(), Some(Pitch { semitones: 3 }));
    assert_eq!(osc.phase(), 5);
    assert!(osc.is_active());
}

#[test]
fn note_on_retunes_and_keeps_the_phase() {
    let mut osc = SineOscillator::new(48000);
    osc.handle_note_on(Key::Specific(57));
    let _ = render(&mut osc, 10);
    assert_eq!(osc.phase(), 10);
    osc.handle_note_on(Key::Specific(69));
    assert_eq!(osc.phase(), 10);
    let (left, _) = render(&mut osc, 2);
    assert_eq!(left, vec![tone(12, 10), tone(12, 11)]);
}

#[test]
fn note_off_silences_and_rewinds() {
    let mut osc = SineOscillator::new(48000);
    osc.handle_note_on(Key::Specific(69));
    let _ = render(&mut osc, 7);
    assert_eq!(osc.phase(), 7);
    osc.handle_note_off(Key::Specific(69));
    assert_eq!(osc.pitch(), None);
    assert_eq!(osc.phase(), 0);
    assert!(!osc.is_active());
    assert_eq!(osc.sample_rate(), 48000);
}

#[test]
fn note_off_silences_whatever_key_it_names() {
    let mut osc = SineOscillator::new(48000);
    osc.handle_note_on(Key::Specific(69));
    osc.handle_note_off(Key::Specific(12));
    assert!(!osc.is_active());
    osc.handle_note_on(Key::Specific(69));
    osc.handle_note_off(Key::Unspecified);
    assert!(!osc.is_active());
}

#[test]
fn note_off_on_a_silent_voice_is_no_change() {
    let mut osc = SineOscillator::new(48000);
    osc.handle_note_off(Key::Specific(69));
    assert_eq!(osc.pitch(), None);
    assert_eq!(osc.phase(), 0);
    assert!(!osc.is_active());
}

#[test]
fn a_silent_voice_fills_both_buffers_with_silence() {
    for len in [0usize, 1, 2, 7, 64, 4096] {
        let mut osc = SineOscillator::new(48000);
        let (left, right) = render(&mut osc, len);
        assert_eq!(left, vec![Sample::Silence; len]);
        assert_eq!(right, vec![Sample::Silence; len]);
        assert_eq!(osc.phase(), 0);
        assert_eq!(osc.pitch(), None);
    }
}

#[test]
fn a_sounding_voice_renders_consecutive_phases() {
    let mut osc = SineOscillator::new(48000);
    osc.handle_note_on(Key::Specific(69));
    let (left, right) = render(&mut osc, 4);
    assert_eq!(left, vec![tone(12, 0), tone(12, 1), tone(12, 2), tone(12, 3)]);
    assert_eq!(right, left);
    assert_eq!(osc.phase(), 4);
}

#[test]
fn the_phase_wraps_at_the_sample_rate() {
    let mut osc = SineOscillator::new(3);
    osc.handle_note_on(Key::Specific(57));
    let (left, _) = render(&mut osc, 5);
    assert_eq!(left, vec![tone(0, 0), tone(0, 1), tone(0, 2), tone(0, 0), tone(0, 1)]);
    assert_eq!(osc.phase(), 2);
    let (left, _) = render(&mut osc, 1);
    assert_eq!(left, vec![tone(0, 2)]);
    assert_eq!(osc.phase(), 0);
}

#[test]
fn a_sample_rate_of_one_keeps_the_phase_at_zero() {
    let mut osc = SineOscillator::new(1);
    osc.handle_note_on(Key::Specific(57));
    let (left, _) = render(&mut osc, 3);
    assert_eq!(left, vec![tone(0, 0), tone(0, 0), tone(0, 0)]);
    assert_eq!(osc.phase(), 0);
}

#[test]
fn the_largest_sample_rate_does_not_overflow() {
    let mut osc = SineOscillator::new(u32::MAX);
    osc.handle_note_on(Key::Specific(57));
    let (left, _) = render(&mut osc, 3);
    assert_eq!(left, vec![tone(0, 0), tone(0, 1), tone(0, 2)]);
    assert_eq!(osc.phase(), 3);
}

#[test]
fn rendering_an_empty_block_changes_nothing() {
    let mut osc = SineOscillator::new(48000);
    osc.handle_note_on(Key::Specific(57));
    let _ = render(&mut osc, 3);
    let (left, right) = render(&mut osc, 0);
    assert!(left.is_empty());
    assert!(right.is_empty());
    assert_eq!(osc.phase(), 3);
}

#[test]
fn two_calls_render_what_one_call_renders() {
    for rate in [1u32, 2, 5, 48000] {
        for a in 0usize..7 {
            for b in 0usize..7 {
                let mut split = SineOscillator::new(rate);
                split.handle_note_on(Key::Specific(64));
                let (mut left, mut right) = render(&mut split, a);
                let (more_left, more_right) = render(&mut split, b);
                left.extend(more_left);
                right.extend(more_right);

                let mut whole = SineOscillator::new(rate);
                whole.handle_note_on(Key::Specific(64));
                let (whole_left, whole_right) = render(&mut whole, a + b);

                assert_eq!(left, whole_left);
                assert_eq!(right, whole_right);
                assert_eq!(split.phase(), whole.phase());
                assert_eq!(split.pitch(), whole.pitch());
            }
        }
    }
}

#[test]
fn two_silent_calls_render_what_one_call_renders() {
    let mut split = SineOscillator::new(48000);
    let (mut left, _) = render(&mut split, 3);
    let (more, _) = render(&mut split, 4);
    left.extend(more);
    let mut whole = SineOscillator::new(48000);
    let (whole_left, _) = render(&mut whole, 7);
    assert_eq!(left, whole_left);
    assert_eq!(split.phase(), whole.phase());
}

#[test]
fn left_and_right_are_the_same_sample_for_sample() {
    let mut osc = SineOscillator::new(5);
    let (left, right) = render(&mut osc, 6);
    assert_eq!(left, right);
    osc.handle_note_on(Key::Specific(70));
    let (left, right) = render(&mut osc, 12);
    assert_eq!(left, right);
    for i in 0..12 {
        assert_eq!(left[i], right[i]);
    }
}

#[test]
fn a_note_after_silence_starts_at_phase_zero() {
    let mut osc = SineOscillator::new(48000);
    osc.handle_note_on(Key::Specific(57));
    let _ = render(&mut osc, 100);
    osc.handle_note_off(Key::Specific(57));
    let _ = render(&mut osc, 50);
    osc.handle_note_on(Key::Specific(59));
    let (left, _) = render(&mut osc, 2);
    assert_eq!(left, vec![tone(2, 0), tone(2, 1)]);
}

#[test]
fn a_boxed_voice_behaves_like_the_voice() {
    let mut osc: Box<dyn Oscillator> = Box::new(SineOscillator::new(48000));
    assert!(!osc.is_active());
    osc.handle_note_on(Key::Specific(57));
    assert!(osc.is_active());
    let mut left = vec![Sample::Silence; 2];
    let mut right = vec![Sample::Silence; 2];
    osc.process(&mut left, &mut right);
    assert_eq!(left, vec![tone(0, 0), tone(0, 1)]);
    assert_eq!(right, left);
    osc.handle_note_off(Key::Specific(57));
    assert!(!osc.is_active());
}
