use synesthetic_screen::note::{
    dist_from_range_bounds, include_in_range, range_len, Note, Span, MAX_AMPLITUDE_RANGE,
    MAX_MIDI_RANGE,
};
use synesthetic_screen::pitch::Pitch;

fn pitch(midi: i32) -> Pitch {
    Pitch::new(440_000, midi)
}

#[test]
fn new_note_has_zero_width_ranges() {
    let n = Note::new(pitch(690_000), 500_000);
    assert_eq!(n.midi_range, Span { start: 690_000, end: 690_000 });
    assert_eq!(n.amp_range, Span { start: 500_000, end: 500_000 });
    assert_eq!(n.midi(), 690_000);
    assert_eq!(n.frequency(), 440_000);
    assert_eq!(n.amplitude(), 500_000);
}

#[test]
fn distance_is_gap_to_nearer_bound() {
    let r = Span { start: 100, end: 200 };
    assert_eq!(dist_from_range_bounds(150, &r), 0);
    assert_eq!(dist_from_range_bounds(100, &r), 0);
    assert_eq!(dist_from_range_bounds(200, &r), 0);
    assert_eq!(dist_from_range_bounds(250, &r), 50);
    assert_eq!(dist_from_range_bounds(40, &r), 60);
    assert_eq!(range_len(&r), 100);
}

#[test]
fn include_moves_only_the_nearer_bound() {
    let mut r = Span { start: 100, end: 200 };
    include_in_range(250, &mut r);
    assert_eq!(r, Span { start: 100, end: 250 });
    include_in_range(50, &mut r);
    assert_eq!(r, Span { start: 50, end: 250 });
    include_in_range(120, &mut r);
    assert_eq!(r, Span { start: 50, end: 250 });
}

#[test]
fn try_include_absorbs_louder_bin_as_peak() {
    let mut n = Note::new(pitch(690_000), 500_000);
    assert!(n.try_include(Pitch::new(450_000, 693_000), 600_000).is_ok());
    assert_eq!(n.peak_amplitude, 600_000);
    assert_eq!(n.midi(), 693_000);
    assert_eq!(n.midi_range, Span { start: 690_000, end: 693_000 });
    assert_eq!(n.amp_range, Span { start: 500_000, end: 600_000 });
    assert!(n.try_include(Pitch::new(430_000, 688_000), 450_000).is_ok());
    assert_eq!(n.peak_amplitude, 600_000);
    assert_eq!(n.midi_range, Span { start: 688_000, end: 693_000 });
    assert_eq!(n.amp_range, Span { start: 450_000, end: 600_000 });
}

#[test]
fn try_include_rejects_too_wide_midi_and_keeps_note() {
    let mut n = Note::new(pitch(690_000), 500_000);
    assert!(n.try_include(pitch(696_000), 500_000).is_ok());
    let before = n;
    // distance 4_001 plus width 6_000 exceeds one semitone
    assert!(n.try_include(pitch(700_001), 500_000).is_err());
    assert_eq!(n.midi_range, before.midi_range);
    assert_eq!(n.amp_range, before.amp_range);
    assert_eq!(n.peak_amplitude, before.peak_amplitude);
    // exactly one semitone is still admitted
    assert!(n.try_include(pitch(700_000), 500_000).is_ok());
    assert_eq!(n.midi_range.end - n.midi_range.start, MAX_MIDI_RANGE);
}

#[test]
fn try_include_rejects_too_wide_amplitude() {
    let mut n = Note::new(pitch(690_000), 100_000);
    assert!(n.try_include(pitch(690_000), 350_001).is_err());
    assert_eq!(n.amp_range, Span { start: 100_000, end: 100_000 });
    assert!(n.try_include(pitch(690_000), 350_000).is_ok());
    assert_eq!(n.amp_range.end - n.amp_range.start, MAX_AMPLITUDE_RANGE);
    assert_eq!(n.peak_amplitude, 350_000);
}

#[test]
fn ranges_hold_peak_after_inclusions() {
    let mut n = Note::new(pitch(600_000), 200_000);
    let bins = [(602_000, 300_000), (598_000, 250_000), (605_000, 420_000), (609_000, 100_000)];
    for (m, a) in bins {
        let _ = n.try_include(pitch(m), a);
        assert!(n.midi_range.end - n.midi_range.start <= MAX_MIDI_RANGE);
        assert!(n.amp_range.end - n.amp_range.start <= MAX_AMPLITUDE_RANGE);
        assert!(n.midi_range.start <= n.midi() && n.midi() <= n.midi_range.end);
        assert!(n.amp_range.start <= n.peak_amplitude && n.peak_amplitude <= n.amp_range.end);
    }
    assert_eq!(n.peak_amplitude, 420_000);
}

#[test]
fn glyph_geometry() {
    // amplitude 0.5: height ceil(50) + 3, width (2500 / 53) * 2
    let n = Note::new(pitch(690_000), 500_000);
    assert_eq!(n.height(), 53);
    assert_eq!(n.width(), 94);
    assert_eq!(n.x(), 869);
    assert_eq!(n.y(), 450);
    // amplitude 0.123401 rounds its height up
    let n = Note::new(pitch(0), 123_401);
    assert_eq!(n.height(), 16);
    assert_eq!(n.x(), 0);
    let n = Note::new(pitch(1_270_000), 0);
    assert_eq!(n.height(), 3);
    assert_eq!(n.width(), 1666);
    assert_eq!(n.x(), 1600);
    // a very loud note has a glyph of zero width
    let n = Note::new(pitch(600_000), 30_000_000);
    assert_eq!(n.width(), 0);
}

#[test]
fn pitch_equality_is_by_frequency() {
    assert!(Pitch::new(440_000, 690_000) == Pitch::new(440_000, 1));
    assert!(Pitch::new(440_000, 690_000) != Pitch::new(440_001, 690_000));
}
