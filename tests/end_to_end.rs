use spectrum_analyzer::scaling::divide_by_N_sqrt;
use spectrum_analyzer::windows::hann_window;
use spectrum_analyzer::{samples_fft_to_spectrum, FrequencyLimit};
use synesthetic_screen::color::ColorPalette;
use synesthetic_screen::pitch::Pitch;
use synesthetic_screen::settings::Settings;
use synesthetic_screen::synesthetizer::Synesthetizer;
use synesthetic_screen::tones::Bin;

fn bins_of(samples: &[f32], rate: u32) -> Vec<Bin> {
    let spectrum = samples_fft_to_spectrum(
        &hann_window(samples),
        rate,
        FrequencyLimit::Range(16.35, 7902.13),
        Some(&divide_by_N_sqrt),
    )
    .unwrap();
    spectrum
        .data()
        .iter()
        .map(|(fr, amp)| {
            let f = fr.val();
            let midi = 12.0 * (f / 440.0).log2() + 69.0;
            Bin {
                pitch: Pitch::new((f * 1000.0).round() as u32, (midi * 10000.0).round() as i32),
                amplitude: (amp.val() * 1_000_000.0).round() as i32,
            }
        })
        .collect()
}

#[test]
fn sine_at_a4_becomes_a_note_at_midi_69() {
    let rate: u32 = 44100;
    let track: Vec<f32> = (0..rate)
        .map(|i| 0.5 * (2.0 * std::f32::consts::PI * 440.0 * i as f32 / rate as f32).sin())
        .collect();
    let entries: Vec<Vec<u8>> = [
        "#ff0000", "#ff8000", "#ffff00", "#80ff00", "#00ff00", "#00ff80", "#00ffff", "#0080ff",
        "#0000ff", "#8000ff", "#ff00ff", "#ff0080",
    ]
    .iter()
    .map(|s| s.as_bytes().to_vec())
    .collect();
    let mut s = Synesthetizer::new(ColorPalette::from_hex(&entries).unwrap());
    s.load_music(rate);
    assert_eq!(s.samples_per_frame(), 4096);
    let n = s.window_len(0, track.len());
    let mut window: Vec<f32> = track[..n].to_vec();
    window.resize(s.samples_per_frame(), 0.0);
    let bins = bins_of(&window, rate);
    let frame = s.new_frame(Some(&bins), &Settings { is_overlay: false });
    let loudest = s.notes().last().unwrap();
    assert!((loudest.midi() - 690_000).abs() <= 2_000, "midi {}", loudest.midi());
    assert!((loudest.x() - 869).abs() <= 2);
    assert_eq!(loudest.y(), 450);
    let bytes = frame.canvas.bytes();
    let i = (450 * 1600 + loudest.x() as usize) * 4;
    assert!(bytes[i + 3] > 0);
}
