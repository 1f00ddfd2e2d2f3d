use synesthetic_screen::color::ColorPalette;
use synesthetic_screen::pitch::Pitch;
use synesthetic_screen::settings::{MusicControl, Settings, SettingsWindow};
use synesthetic_screen::synesthetizer::Synesthetizer;
use synesthetic_screen::tones::Bin;

const ENTRIES: [&str; 12] = [
    "#ff0000", "#ff8000", "#ffff00", "#80ff00", "#00ff00", "#00ff80", "#00ffff", "#0080ff",
    "#0000ff", "#8000ff", "#ff00ff", "#ff0080",
];

fn synesthetizer() -> Synesthetizer {
    let entries: Vec<Vec<u8>> = ENTRIES.iter().map(|s| s.as_bytes().to_vec()).collect();
    Synesthetizer::new(ColorPalette::from_hex(&entries).unwrap())
}

fn a4() -> Vec<Bin> {
    vec![Bin { pitch: Pitch::new(440_000, 690_000), amplitude: 500_000 }]
}

fn pixel(bytes: &[u8], x: usize, y: usize) -> [u8; 4] {
    let i = (y * 1600 + x) * 4;
    [bytes[i], bytes[i + 1], bytes[i + 2], bytes[i + 3]]
}

const ON: Settings = Settings { is_overlay: true };
const OFF: Settings = Settings { is_overlay: false };

#[test]
fn silent_frame_is_blank() {
    let mut s = synesthetizer();
    let f = s.new_frame(None, &OFF);
    assert_eq!(f.canvas.size(), (1600, 900));
    let bytes = f.canvas.bytes();
    assert_eq!(bytes.len(), 1600 * 900 * 4);
    assert!(bytes.iter().all(|b| *b == 0));
    assert!(f.snapshot.is_none());
}

#[test]
fn note_is_painted_at_its_position() {
    let mut s = synesthetizer();
    let f = s.new_frame(Some(&a4()), &OFF);
    assert_eq!(s.notes().len(), 1);
    let bytes = f.canvas.bytes();
    let centre = pixel(&bytes, 869, 450);
    assert!(centre[3] > 0);
    assert!(centre[0] > 0 && centre[2] > centre[1]);
    assert_eq!(pixel(&bytes, 100, 450), [0, 0, 0, 0]);
    assert_eq!(pixel(&bytes, 869, 10), [0, 0, 0, 0]);
}

#[test]
fn without_overlay_each_frame_starts_blank() {
    let mut s = synesthetizer();
    let _ = s.new_frame(Some(&a4()), &OFF);
    let f = s.new_frame(None, &OFF);
    assert!(f.canvas.bytes().iter().all(|b| *b == 0));
}

#[test]
fn overlay_keeps_previous_frame() {
    let mut s = synesthetizer();
    let first = s.new_frame(Some(&a4()), &ON).canvas.bytes();
    let second = s.new_frame(None, &ON).canvas.bytes();
    assert_eq!(first, second);
    assert!(second.iter().any(|b| *b != 0));
}

#[test]
fn overlay_off_then_on_starts_blank() {
    let mut s = synesthetizer();
    let _ = s.new_frame(Some(&a4()), &ON);
    let off = s.new_frame(None, &OFF).canvas.bytes();
    assert!(off.iter().all(|b| *b == 0));
    let on = s.new_frame(None, &ON).canvas.bytes();
    assert!(on.iter().all(|b| *b == 0));
}

#[test]
fn clear_overlay_forgets_kept_frame() {
    let mut s = synesthetizer();
    let _ = s.new_frame(Some(&a4()), &ON);
    s.clear_overlay();
    let f = s.new_frame(None, &ON).canvas.bytes();
    assert!(f.iter().all(|b| *b == 0));
}

#[test]
fn snapshot_is_handed_out_once() {
    let mut s = synesthetizer();
    s.request_snapshot(String::from("first.png"));
    s.request_snapshot(String::from("frame.png"));
    let f = s.new_frame(Some(&a4()), &OFF);
    assert_eq!(f.snapshot, Some(String::from("frame.png")));
    assert_eq!(f.canvas.size(), (1600, 900));
    let g = s.new_frame(Some(&a4()), &OFF);
    assert_eq!(g.snapshot, None);
}

#[test]
fn load_music_sizes_window() {
    let mut s = synesthetizer();
    assert_eq!(s.samples_per_frame(), 0);
    s.load_music(44100);
    assert_eq!(s.samples_per_frame(), 4096);
    assert_eq!(s.window_len(0, 44100), 4096);
    assert_eq!(s.window_len(43000, 44100), 1100);
    assert_eq!(s.window_len(44100, 44100), 0);
}

#[test]
fn settings_window_toggles() {
    let mut w = SettingsWindow::new();
    assert!(!w.is_open());
    w.toggle_open();
    assert!(w.is_open());
    w.toggle_open();
    assert!(!w.is_open());
    assert!(!Settings::default().is_overlay);
    assert!(MusicControl::Snapshot != MusicControl::Nothing);
}
