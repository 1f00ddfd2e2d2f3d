use synesthetic_screen::color::{
    color_of, fade_color, hex_digit, integer_sqrt, lerp_color, Color, ColorPalette, PaletteError,
};

const ENTRIES: [&str; 12] = [
    "#ff0000", "#ff8000", "#ffff00", "#80ff00", "#00ff00", "#00ff80", "#00ffff", "#0080ff",
    "#0000ff", "#8000ff", "#FF00FF", "#ff0080",
];

fn entries() -> Vec<Vec<u8>> {
    ENTRIES.iter().map(|s| s.as_bytes().to_vec()).collect()
}

fn palette() -> ColorPalette {
    ColorPalette::from_hex(&entries()).unwrap()
}

fn rgb(r: u8, g: u8, b: u8) -> Color {
    Color { r, g, b, a: 255 }
}

#[test]
fn palette_reads_hex_entries() {
    let p = palette();
    assert_eq!(p.get(0), rgb(255, 0, 0));
    assert_eq!(p.get(1), rgb(255, 128, 0));
    assert_eq!(p.get(10), rgb(255, 0, 255));
}

#[test]
fn palette_refuses_wrong_count() {
    let mut e = entries();
    e.pop();
    assert_eq!(ColorPalette::from_hex(&e).unwrap_err(), PaletteError::WrongCount);
}

#[test]
fn palette_refuses_wrong_length() {
    let mut e = entries();
    e[3] = b"#12345".to_vec();
    e[5] = b"#zz0000".to_vec();
    assert_eq!(ColorPalette::from_hex(&e).unwrap_err(), PaletteError::WrongLength(3));
}

#[test]
fn palette_refuses_non_hex() {
    let mut e = entries();
    e[5] = b"#00g000".to_vec();
    assert_eq!(ColorPalette::from_hex(&e).unwrap_err(), PaletteError::NotHex(5));
}

#[test]
fn hex_digits() {
    assert_eq!(hex_digit(b'0'), Some(0));
    assert_eq!(hex_digit(b'9'), Some(9));
    assert_eq!(hex_digit(b'a'), Some(10));
    assert_eq!(hex_digit(b'F'), Some(15));
    assert_eq!(hex_digit(b'g'), None);
    assert_eq!(hex_digit(b'#'), None);
}

#[test]
fn square_roots() {
    assert_eq!(integer_sqrt(0), 0);
    assert_eq!(integer_sqrt(15), 3);
    assert_eq!(integer_sqrt(16), 4);
    assert_eq!(integer_sqrt(1_000_000), 1000);
    assert_eq!(integer_sqrt(u32::MAX), 65535);
}

#[test]
fn blends() {
    let a = rgb(200, 100, 0);
    let b = rgb(0, 100, 200);
    assert_eq!(lerp_color(a, b, 0), b);
    assert_eq!(lerp_color(a, b, 10000), a);
    assert_eq!(lerp_color(a, b, 2500), rgb(50, 100, 150));
    // weight 1000 / 2000 halves each channel
    assert_eq!(fade_color(rgb(200, 100, 0), 1000), Color { r: 100, g: 50, b: 0, a: 127 });
    // weights above one clamp to a byte
    assert_eq!(fade_color(rgb(200, 100, 0), 4000), Color { r: 255, g: 200, b: 0, a: 255 });
}

#[test]
fn note_on_a_palette_entry_takes_that_entry() {
    // MIDI 69 is pitch class 9; amplitude 1.0 gives weight sqrt(1) / 2
    let c = color_of(&palette(), 690_000, 1_000_000);
    assert_eq!(c, Color { r: 64, g: 0, b: 127, a: 127 });
    // amplitude 4.0 gives full weight
    assert_eq!(color_of(&palette(), 690_000, 4_000_000), rgb(128, 0, 255));
}

#[test]
fn color_between_entries_interpolates() {
    // half way from C (red) to C# (orange), at full weight
    assert_eq!(color_of(&palette(), 605_000, 4_000_000), rgb(255, 64, 0));
}

#[test]
fn color_wraps_round_the_octave() {
    let p = palette();
    // just under pitch class 12 is almost C again
    let near_top = color_of(&p, 719_999, 4_000_000);
    let at_c = color_of(&p, 720_000, 4_000_000);
    assert_eq!(at_c, rgb(255, 0, 0));
    assert_eq!(color_of(&p, 600_000, 4_000_000), at_c);
    assert!((near_top.r as i32 - at_c.r as i32).abs() <= 1);
    assert!((near_top.g as i32 - at_c.g as i32).abs() <= 1);
    assert!((near_top.b as i32 - at_c.b as i32).abs() <= 1);
    assert!((near_top.a as i32 - at_c.a as i32).abs() <= 1);
    // negative MIDI numbers are taken modulo the octave too
    assert_eq!(color_of(&p, -120_000, 4_000_000), at_c);
    // no loudness, no colour
    assert_eq!(color_of(&p, 690_000, 0), Color { r: 0, g: 0, b: 0, a: 0 });
}

fn yaml_of(entries: &[&str]) -> Vec<u8> {
    entries.iter().map(|e| format!("- '{e}'\n")).collect::<String>().into_bytes()
}

#[test]
fn palette_reads_yaml_list() {
    let p = ColorPalette::from_yaml(&yaml_of(&ENTRIES)).unwrap();
    assert_eq!(p.get(0), rgb(255, 0, 0));
    assert_eq!(p.get(9), rgb(128, 0, 255));
    assert_eq!(p.get(11), rgb(255, 0, 128));
}

#[test]
fn palette_yaml_refuses_non_list() {
    let text = b"colors: red".to_vec();
    assert_eq!(ColorPalette::from_yaml(&text).unwrap_err(), PaletteError::NotAList);
}

#[test]
fn palette_yaml_refuses_malformed_entries() {
    assert_eq!(
        ColorPalette::from_yaml(&yaml_of(&ENTRIES[..11])).unwrap_err(),
        PaletteError::WrongCount
    );
    let mut e = ENTRIES;
    e[7] = "#12x456";
    assert_eq!(ColorPalette::from_yaml(&yaml_of(&e)).unwrap_err(), PaletteError::NotHex(7));
}

#[test]
fn color_changes_at_most_in_proportion_to_pitch() {
    let p = palette();
    let points = [600_000, 603_000, 609_999, 610_000, 655_000, 719_000, 720_000, 721_500];
    for &m1 in &points {
        for &m2 in &points {
            let c1 = color_of(&p, m1, 2_000_000);
            let c2 = color_of(&p, m2, 2_000_000);
            let steps = (m1 as i64 - m2 as i64).abs();
            for (x, y) in [(c1.r, c2.r), (c1.g, c2.g), (c1.b, c2.b), (c1.a, c2.a)] {
                let gap = (x as i64 - y as i64).abs();
                assert!(10_000 * gap < 255 * steps + 10_000, "{m1} {m2}");
            }
        }
    }
}
