use vstd::prelude::*;
use crate::pitch::MIDI_SCALE;

verus! {

/// An 8-bit RGBA colour.
#[derive(Debug, Clone, Copy, PartialEq, Eq, Structural)]
pub struct Color {
    pub r: u8,
    pub g: u8,
    pub b: u8,
    pub a: u8,
}

/// The number of pitch classes in an octave, and of colours in a palette.
pub const PITCH_CLASSES: usize = 12;

/// One opaque colour for each pitch class, from C up to B.
#[derive(Debug)]
pub struct ColorPalette {
    colors: Vec<Color>,
}

/// Why a palette's text was refused.
#[derive(Debug, Clone, Copy, PartialEq, Eq, Structural)]
pub enum PaletteError {
    /// The palette does not list exactly twelve colours.
    WrongCount,
    /// The entry at this index is not seven characters long.
    WrongLength(usize),
    /// The entry at this index has a character that is not a hex digit.
    NotHex(usize),
    /// The text is not a YAML list of strings.
    NotAList,
}

/// What serde_yaml reads from `text` as a list of strings, each string as
/// its UTF-8 bytes; `None` where it reads no such list.
pub uninterp spec fn yaml_string_list(text: Seq<u8>) -> Option<Seq<Seq<u8>>>;

/// Relies on `serde_yaml::from_slice` into a `Vec<String>`: the list it reads
/// from the text, or none where the text is not a list of strings.
#[verifier::external_body]
fn read_yaml_list(text: &Vec<u8>) -> (r: Option<Vec<Vec<u8>>>)
    ensures
        r is Some <==> yaml_string_list(text@) is Some,
        r matches Some(v) ==> yaml_string_list(text@) == Some(v@.map_values(|e: Vec<u8>| e@)),
{
    serde_yaml::from_slice::<Vec<String>>(text).ok().map(
        |v| v.into_iter().map(|s| s.into_bytes()).collect(),
    )
}

/// `r` is what reading a palette from these entries gives: a palette of
/// their colours when there are twelve and each is `#RRGGBB`, else the error
/// of the count or of the first malformed entry.
pub open spec fn palette_read(es: Seq<Seq<u8>>, r: Result<ColorPalette, PaletteError>) -> bool {
    &&& es.len() != PITCH_CLASSES ==> r == Err::<ColorPalette, PaletteError>(PaletteError::WrongCount)
    &&& r is Ok <==> es.len() == PITCH_CLASSES && forall|i: int|
        0 <= i < es.len() ==> entry_ok(#[trigger] es[i])
    &&& r matches Ok(p) ==> p.wf() && forall|i: int|
        0 <= i < PITCH_CLASSES ==> p@[i] == entry_color(#[trigger] es[i])
    &&& es.len() == PITCH_CLASSES ==> (r matches Err(e) ==> exists|i: usize|
        i < es.len() && !entry_ok(#[trigger] es[i as int]) && (forall|j: int|
            0 <= j < i ==> entry_ok(#[trigger] es[j])) && e == entry_error(es[i as int], i))
}

/// The value of an ASCII hex digit, or -1.
pub open spec fn hex_value(c: u8) -> int {
    if 48 <= c <= 57 {
        c - 48
    } else if 97 <= c <= 102 {
        c - 87
    } else if 65 <= c <= 70 {
        c - 55
    } else {
        -1
    }
}

/// An entry `#RRGGBB`: seven characters, the last six hex digits.
pub open spec fn entry_ok(e: Seq<u8>) -> bool {
    e.len() == 7 && forall|i: int| 1 <= i < 7 ==> hex_value(#[trigger] e[i]) >= 0
}

pub open spec fn hex_byte(hi: u8, lo: u8) -> u8 {
    (hex_value(hi) * 16 + hex_value(lo)) as u8
}

/// The opaque colour that a well-formed entry names.
pub open spec fn entry_color(e: Seq<u8>) -> Color {
    Color { r: hex_byte(e[1], e[2]), g: hex_byte(e[3], e[4]), b: hex_byte(e[5], e[6]), a: 255 }
}

/// The error that the entry at `i` gives, when it is malformed.
pub open spec fn entry_error(e: Seq<u8>, i: usize) -> PaletteError {
    if e.len() != 7 {
        PaletteError::WrongLength(i)
    } else {
        PaletteError::NotHex(i)
    }
}

impl ColorPalette {
    pub closed spec fn view(&self) -> Seq<Color> {
        self.colors@
    }

    pub open spec fn wf(&self) -> bool {
        self@.len() == PITCH_CLASSES
    }

    /// The colour of pitch class `i`.
    pub fn get(&self, i: usize) -> (c: Color)
        requires
            self.wf(),
            i < PITCH_CLASSES,
        ensures
            c == self@[i as int],
    {
        self.colors[i]
    }

    /// Reads a palette from its twelve entries, each `#RRGGBB`. The first
    /// malformed entry decides the error.
    pub fn from_hex(entries: &Vec<Vec<u8>>) -> (r: Result<ColorPalette, PaletteError>)
        ensures
            palette_read(entries@.map_values(|e: Vec<u8>| e@), r),
    {
        let ghost es = entries@.map_values(|e: Vec<u8>| e@);
        assert forall|i: int| 0 <= i < entries.len() implies #[trigger] es[i] == entries[i]@ by {}
        if entries.len() != PITCH_CLASSES {
            return Err(PaletteError::WrongCount);
        }
        let mut colors: Vec<Color> = Vec::new();
        let mut i: usize = 0;
        while i < entries.len()
            invariant
                i <= entries.len(),
                entries.len() == PITCH_CLASSES,
                es == entries@.map_values(|e: Vec<u8>| e@),
                colors.len() == i,
                forall|j: int| 0 <= j < i ==> entry_ok(#[trigger] entries[j]@),
                forall|j: int| 0 <= j < i ==> colors[j] == entry_color(#[trigger] entries[j]@),
            decreases entries.len() - i,
        {
            let e = &entries[i];
            if e.len() != 7 {
                assert(!entry_ok(entries[i as int]@));
                proof {
                    lemma_first_bad(es, entries@, i);
                }
                return Err(PaletteError::WrongLength(i));
            }
            let mut k: usize = 1;
            while k < 7
                invariant
                    1 <= k <= 7,
                    i < entries.len(),
                    entries.len() == PITCH_CLASSES,
                    es == entries@.map_values(|e: Vec<u8>| e@),
                    forall|j: int| 0 <= j < i ==> entry_ok(#[trigger] entries[j]@),
                    e@ == entries[i as int]@,
                    e.len() == 7,
                    forall|m: int| 1 <= m < k ==> hex_value(#[trigger] e@[m]) >= 0,
                decreases 7 - k,
            {
                if hex_digit(e[k]).is_none() {
                    assert(hex_value(e@[k as int]) < 0);
                    assert(!entry_ok(entries[i as int]@));
                    proof {
                        lemma_first_bad(es, entries@, i);
                    }
                    return Err(PaletteError::NotHex(i));
                }
                k = k + 1;
            }
            let r = hex_pair(e[1], e[2]);
            let g = hex_pair(e[3], e[4]);
            let b = hex_pair(e[5], e[6]);
            colors.push(Color { r, g, b, a: 255 });
            i = i + 1;
        }
        Ok(ColorPalette { colors })
    }
}

proof fn lemma_first_bad(es: Seq<Seq<u8>>, entries: Seq<Vec<u8>>, i: usize)
    requires
        es == entries.map_values(|e: Vec<u8>| e@),
        i < entries.len(),
        !entry_ok(entries[i as int]@),
        forall|j: int| 0 <= j < i ==> entry_ok(#[trigger] entries[j]@),
    ensures
        !entry_ok(es[i as int]),
        es[i as int] == entries[i as int]@,
        forall|j: int| 0 <= j < i ==> entry_ok(#[trigger] es[j]),
{
    assert forall|j: int| 0 <= j < i implies entry_ok(#[trigger] es[j]) by {
        assert(es[j] == entries[j]@);
    }
}

impl ColorPalette {
    /// Reads a palette from YAML text: a list of twelve strings `#RRGGBB`.
    pub fn from_yaml(text: &Vec<u8>) -> (r: Result<ColorPalette, PaletteError>)
        ensures
            yaml_string_list(text@) is None ==> r == Err::<ColorPalette, PaletteError>(
                PaletteError::NotAList,
            ),
            yaml_string_list(text@) matches Some(es) ==> palette_read(es, r),
    {
        match read_yaml_list(text) {
            Some(entries) => ColorPalette::from_hex(&entries),
            None => Err(PaletteError::NotAList),
        }
    }
}

/// The value of an ASCII hex digit.
pub fn hex_digit(c: u8) -> (r: Option<u8>)
    ensures
        r is Some <==> hex_value(c) >= 0,
        r matches Some(v) ==> v == hex_value(c),
{
    if 48 <= c && c <= 57 {
        Some(c - 48)
    } else if 97 <= c && c <= 102 {
        Some(c - 87)
    } else if 65 <= c && c <= 70 {
        Some(c - 55)
    } else {
        None
    }
}

/// The byte that two hex digits spell.
fn hex_pair(hi: u8, lo: u8) -> (r: u8)
    requires
        hex_value(hi) >= 0,
        hex_value(lo) >= 0,
    ensures
        r == hex_byte(hi, lo),
{
    let h = hex_digit(hi).unwrap();
    let l = hex_digit(lo).unwrap();
    h * 16 + l
}

/// The span of MIDI units in an octave.
pub const OCTAVE: i32 = 120000;

/// `r` is the integer square root of `n`.
pub open spec fn is_isqrt(r: int, n: int) -> bool {
    0 <= r && r * r <= n < (r + 1) * (r + 1)
}

/// The integer square root of `n`.
pub open spec fn isqrt(n: int) -> int {
    choose|r: int| is_isqrt(r, n)
}

proof fn lemma_isqrt_unique(r: int, s: int, n: int)
    requires
        is_isqrt(r, n),
        is_isqrt(s, n),
    ensures
        r == s,
{
    if r < s {
        assert((r + 1) * (r + 1) <= s * s) by (nonlinear_arith)
            requires
                0 <= r,
                r + 1 <= s,
        ;
    } else if s < r {
        assert((s + 1) * (s + 1) <= r * r) by (nonlinear_arith)
            requires
                0 <= s,
                s + 1 <= r,
        ;
    }
}

/// The integer square root of `n`, by bisection.
pub fn integer_sqrt(n: u32) -> (r: u32)
    ensures
        r == isqrt(n as int),
        r <= 65535,
{
    let mut lo: u64 = 0;
    let mut hi: u64 = 65536;
    while hi - lo > 1
        invariant
            lo < hi <= 65536,
            lo * lo <= n,
            n < hi * hi,
        decreases hi - lo,
    {
        let mid = lo + (hi - lo) / 2;
        assert(mid * mid <= 65536 * 65536) by (nonlinear_arith)
            requires
                mid < 65536,
        ;
        if mid * mid <= n as u64 {
            lo = mid;
        } else {
            hi = mid;
        }
    }
    proof {
        assert(is_isqrt(lo as int, n as int));
        lemma_isqrt_unique(lo as int, isqrt(n as int), n as int);
    }
    lo as u32
}

/// One channel blended between `a` (weight `w`) and `b` (weight `MIDI_SCALE -
/// w`), in ten-thousandths, and truncated.
pub open spec fn lerp_channel(a: u8, b: u8, w: int) -> u8 {
    ((a * w + b * (MIDI_SCALE - w)) / MIDI_SCALE as int) as u8
}

pub open spec fn lerp(a: Color, b: Color, w: int) -> Color {
    Color {
        r: lerp_channel(a.r, b.r, w),
        g: lerp_channel(a.g, b.g, w),
        b: lerp_channel(a.b, b.b, w),
        a: lerp_channel(a.a, b.a, w),
    }
}

/// The palette's colour at `k + w / MIDI_SCALE` pitch classes: pitch class
/// `k` blended toward the next one, which after B is C again.
pub open spec fn interpolated(p: Seq<Color>, k: int, w: int) -> Color {
    lerp(p[(k + 1) % 12], p[k], w)
}

/// One channel blended toward zero, the channel's weight being `s / 2000`,
/// truncated and clamped to a byte.
pub open spec fn fade_channel(c: u8, s: int) -> u8 {
    if c * s / 2000 > 255 {
        255
    } else {
        (c * s / 2000) as u8
    }
}

pub open spec fn faded(c: Color, s: int) -> Color {
    Color {
        r: fade_channel(c.r, s),
        g: fade_channel(c.g, s),
        b: fade_channel(c.b, s),
        a: fade_channel(c.a, s),
    }
}

/// Two thousand times the weight `sqrt(amplitude) / 2` of a colour, for an
/// amplitude in millionths; none for an amplitude that is not positive.
pub open spec fn loudness(amplitude: int) -> int {
    if amplitude > 0 {
        isqrt(amplitude)
    } else {
        0
    }
}

/// The colour of a note of the given MIDI number and amplitude: its pitch
/// class `midi mod 12` read off the palette with interpolation, then faded
/// toward transparent black by its loudness.
pub open spec fn color_for(p: Seq<Color>, midi: int, amplitude: int) -> Color {
    let d = midi % (OCTAVE as int);
    faded(interpolated(p, d / (MIDI_SCALE as int), d % (MIDI_SCALE as int)), loudness(amplitude))
}

fn lerp_byte(a: u8, b: u8, w: u32) -> (r: u8)
    requires
        w <= MIDI_SCALE,
    ensures
        r == lerp_channel(a, b, w as int),
{
    let s = MIDI_SCALE as u32;
    assert((a as u32) * w + (b as u32) * (s - w) <= 255 * s) by (nonlinear_arith)
        requires
            w <= s,
            a <= 255,
            b <= 255,
    ;
    (((a as u32) * w + (b as u32) * (s - w)) / s) as u8
}

/// The blend of `a` (weight `w / MIDI_SCALE`) and `b`.
pub fn lerp_color(a: Color, b: Color, w: u32) -> (r: Color)
    requires
        w <= MIDI_SCALE,
    ensures
        r == lerp(a, b, w as int),
{
    Color {
        r: lerp_byte(a.r, b.r, w),
        g: lerp_byte(a.g, b.g, w),
        b: lerp_byte(a.b, b.b, w),
        a: lerp_byte(a.a, b.a, w),
    }
}

fn fade_byte(c: u8, s: u32) -> (r: u8)
    requires
        s <= 65535,
    ensures
        r == fade_channel(c, s as int),
{
    assert((c as u32) * s <= 255 * 65535) by (nonlinear_arith)
        requires
            s <= 65535,
            c <= 255,
    ;
    let v = (c as u32) * s / 2000;
    if v > 255 {
        255
    } else {
        v as u8
    }
}

/// `c` faded by the weight `s / 2000`.
pub fn fade_color(c: Color, s: u32) -> (r: Color)
    requires
        s <= 65535,
    ensures
        r == faded(c, s as int),
{
    Color { r: fade_byte(c.r, s), g: fade_byte(c.g, s), b: fade_byte(c.b, s), a: fade_byte(c.a, s) }
}

/// The colour of a note of the given MIDI number and amplitude.
pub fn color_of(palette: &ColorPalette, midi: i32, amplitude: i32) -> (r: Color)
    requires
        palette.wf(),
    ensures
        r == color_for(palette@, midi as int, amplitude as int),
{
    let m = midi as i64 % OCTAVE as i64;
    let d: i64 = if m < 0 {
        m + OCTAVE as i64
    } else {
        m
    };
    assert(d == midi as int % (OCTAVE as int));
    let floor = (d / MIDI_SCALE as i64) as usize;
    let frac = (d % MIDI_SCALE as i64) as u32;
    let ceil = (floor + 1) % PITCH_CLASSES;
    let base = lerp_color(palette.get(ceil), palette.get(floor), frac);
    let s = if amplitude > 0 {
        integer_sqrt(amplitude as u32)
    } else {
        0
    };
    fade_color(base, s)
}

/// The colour sweeps continuously round the octave: at each palette entry
/// the blend coming from below (full weight on the next entry) meets the
/// entry itself, and from B it returns to C.
pub proof fn lemma_palette_continuous(p: Seq<Color>, k: int)
    requires
        p.len() == 12,
        0 <= k < 12,
    ensures
        interpolated(p, k, MIDI_SCALE as int) == interpolated(p, (k + 1) % 12, 0),
        interpolated(p, 11, MIDI_SCALE as int) == interpolated(p, 0, 0),
        interpolated(p, 0, 0) == p[0],
{
}

/// A note's colour depends on its pitch class alone: a MIDI number an octave
/// up gives the same colour.
pub proof fn lemma_color_octave(p: Seq<Color>, midi: int, amplitude: int)
    ensures
        color_for(p, midi + OCTAVE as int, amplitude) == color_for(p, midi, amplitude),
{
    assert((midi + OCTAVE as int) % (OCTAVE as int) == midi % (OCTAVE as int));
}

/// Two bytes that differ by at most one.
pub open spec fn near(x: u8, y: u8) -> bool {
    -1 <= x - y <= 1
}

/// Two colours whose channels each differ by at most one.
pub open spec fn near_colors(c: Color, d: Color) -> bool {
    near(c.r, d.r) && near(c.g, d.g) && near(c.b, d.b) && near(c.a, d.a)
}

proof fn lemma_isqrt_exists(n: int)
    requires
        n >= 0,
    ensures
        is_isqrt(isqrt(n), n),
    decreases n,
{
    if n == 0 {
        assert(is_isqrt(0, 0));
    } else {
        lemma_isqrt_exists(n - 1);
        let r = isqrt(n - 1);
        if (r + 1) * (r + 1) <= n {
            assert((r + 2) * (r + 2) == (r + 1) * (r + 1) + 2 * r + 3) by (nonlinear_arith);
            assert(is_isqrt(r + 1, n));
        } else {
            assert(is_isqrt(r, n));
        }
    }
}

/// Up to an amplitude of 4 (in millionths), the loudness weight is at most one.
proof fn lemma_loudness_bound(amplitude: int)
    requires
        amplitude <= 4_000_000,
    ensures
        0 <= loudness(amplitude) <= 2000,
{
    if amplitude > 0 {
        lemma_isqrt_exists(amplitude);
        let r = isqrt(amplitude);
        if r > 2000 {
            assert(r * r > 2000 * 2000) by (nonlinear_arith)
                requires
                    r > 2000,
            ;
        }
    }
}

proof fn lemma_lerp_channel_step(a: u8, b: u8, w: int)
    requires
        0 <= w < MIDI_SCALE,
    ensures
        near(lerp_channel(a, b, w), lerp_channel(a, b, w + 1)),
{
    let s = MIDI_SCALE as int;
    let n0 = a * w + b * (s - w);
    let n1 = a * (w + 1) + b * (s - (w + 1));
    assert(n1 == n0 + a - b) by (nonlinear_arith)
        requires
            n0 == a * w + b * (s - w),
            n1 == a * (w + 1) + b * (s - (w + 1)),
    ;
    assert(0 <= n0 <= 255 * s) by (nonlinear_arith)
        requires
            n0 == a * w + b * (s - w),
            0 <= w <= s,
            0 <= a <= 255,
            0 <= b <= 255,
    ;
    assert(0 <= n1 <= 255 * s) by (nonlinear_arith)
        requires
            n1 == a * (w + 1) + b * (s - (w + 1)),
            0 <= w + 1 <= s,
            0 <= a <= 255,
            0 <= b <= 255,
    ;
    assert(-1 <= n1 / s - n0 / s <= 1) by (nonlinear_arith)
        requires
            s == 10000,
            n1 - n0 <= 255,
            n0 - n1 <= 255,
            0 <= n0,
            0 <= n1,
    ;
}

proof fn lemma_fade_channel_step(c: u8, d: u8, s: int)
    requires
        near(c, d),
        0 <= s <= 2000,
    ensures
        near(fade_channel(c, s), fade_channel(d, s)),
{
    assert(c * s / 2000 <= 255) by (nonlinear_arith)
        requires
            0 <= c <= 255,
            0 <= s <= 2000,
    ;
    assert(d * s / 2000 <= 255) by (nonlinear_arith)
        requires
            0 <= d <= 255,
            0 <= s <= 2000,
    ;
    assert(-1 <= c * s / 2000 - d * s / 2000 <= 1) by (nonlinear_arith)
        requires
            -1 <= c - d <= 1,
            0 <= c,
            0 <= d,
            0 <= s <= 2000,
    ;
}

/// The colour is continuous in pitch: one step up the MIDI scale (a
/// ten-thousandth of a semitone) changes no channel by more than one, for
/// amplitudes up to 4; this holds across each palette entry and across the
/// wrap from B back to C at every octave.
pub proof fn lemma_color_step(p: Seq<Color>, midi: int, amplitude: int)
    requires
        p.len() == 12,
        amplitude <= 4_000_000,
    ensures
        near_colors(color_for(p, midi, amplitude), color_for(p, midi + 1, amplitude)),
{
    let o = OCTAVE as int;
    let s = MIDI_SCALE as int;
    let d = midi % o;
    let e = (midi + 1) % o;
    assert(0 <= d < o);
    assert(e == if d == o - 1 { 0 } else { d + 1 });
    let k = d / s;
    let w = d % s;
    assert(0 <= k < 12 && 0 <= w < s);
    let c0 = interpolated(p, k, w);
    let up = interpolated(p, k, w + 1);
    lemma_lerp_channel_step(p[(k + 1) % 12].r, p[k].r, w);
    lemma_lerp_channel_step(p[(k + 1) % 12].g, p[k].g, w);
    lemma_lerp_channel_step(p[(k + 1) % 12].b, p[k].b, w);
    lemma_lerp_channel_step(p[(k + 1) % 12].a, p[k].a, w);
    if w + 1 == s {
        lemma_palette_continuous(p, k);
        assert(e / s == (k + 1) % 12 && e % s == 0);
    } else {
        assert(e / s == k && e % s == w + 1);
    }
    assert(interpolated(p, e / s, e % s) == up);
    let l = loudness(amplitude);
    lemma_loudness_bound(amplitude);
    lemma_fade_channel_step(c0.r, up.r, l);
    lemma_fade_channel_step(c0.g, up.g, l);
    lemma_fade_channel_step(c0.b, up.b, l);
    lemma_fade_channel_step(c0.a, up.a, l);
}

/// Channel `i` of a colour: red, green, blue, then alpha.
pub open spec fn channel(c: Color, i: int) -> u8 {
    if i == 0 {
        c.r
    } else if i == 1 {
        c.g
    } else if i == 2 {
        c.b
    } else {
        c.a
    }
}

/// Channel `i` of the palette blend at `midi`, before the division by
/// `MIDI_SCALE` that truncates it.
pub open spec fn blend_numerator(p: Seq<Color>, midi: int, i: int) -> int {
    let d = midi % (OCTAVE as int);
    let k = d / (MIDI_SCALE as int);
    let w = d % (MIDI_SCALE as int);
    channel(p[(k + 1) % 12], i) * w + channel(p[k], i) * (MIDI_SCALE - w)
}

proof fn lemma_numerator_step(p: Seq<Color>, midi: int, i: int)
    requires
        p.len() == 12,
    ensures
        -255 <= blend_numerator(p, midi + 1, i) - blend_numerator(p, midi, i) <= 255,
{
    let o = OCTAVE as int;
    let s = MIDI_SCALE as int;
    let d = midi % o;
    let e = (midi + 1) % o;
    assert(e == if d == o - 1 { 0 } else { d + 1 });
    let k = d / s;
    let w = d % s;
    let a = channel(p[(k + 1) % 12], i) as int;
    let b = channel(p[k], i) as int;
    let n0 = a * w + b * (s - w);
    if w + 1 == s {
        assert(e / s == (k + 1) % 12 && e % s == 0);
        let k2 = (k + 1) % 12;
        let n1 = channel(p[(k2 + 1) % 12], i) * 0 + channel(p[k2], i) * (s - 0);
        assert(n1 == a * s);
        assert(n1 - n0 == a - b) by (nonlinear_arith)
            requires
                n0 == a * w + b * (s - w),
                n1 == a * s,
                w + 1 == s,
        ;
    } else {
        assert(e / s == k && e % s == w + 1);
        let n1 = a * (w + 1) + b * (s - (w + 1));
        assert(n1 - n0 == a - b) by (nonlinear_arith)
            requires
                n0 == a * w + b * (s - w),
                n1 == a * (w + 1) + b * (s - (w + 1)),
        ;
    }
}

proof fn lemma_numerator_lipschitz(p: Seq<Color>, midi: int, n: nat, i: int)
    requires
        p.len() == 12,
    ensures
        -255 * n <= blend_numerator(p, midi + n, i) - blend_numerator(p, midi, i) <= 255 * n,
    decreases n,
{
    if n > 0 {
        lemma_numerator_lipschitz(p, midi, (n - 1) as nat, i);
        lemma_numerator_step(p, midi + n - 1, i);
    }
}

proof fn lemma_channel_of_color(p: Seq<Color>, midi: int, amplitude: int, i: int)
    requires
        p.len() == 12,
        0 <= i < 4,
    ensures
        channel(color_for(p, midi, amplitude), i) == fade_channel(
            (blend_numerator(p, midi, i) / MIDI_SCALE as int) as u8,
            loudness(amplitude),
        ),
        0 <= blend_numerator(p, midi, i) <= 255 * MIDI_SCALE,
{
    let d = midi % (OCTAVE as int);
    let s = MIDI_SCALE as int;
    let k = d / s;
    let w = d % s;
    let a = channel(p[(k + 1) % 12], i) as int;
    let b = channel(p[k], i) as int;
    assert(0 <= a * w + b * (s - w) <= 255 * s) by (nonlinear_arith)
        requires
            0 <= w <= s,
            0 <= a <= 255,
            0 <= b <= 255,
    ;
}

/// The colour is Lipschitz in pitch: between two MIDI numbers `n` steps
/// apart (a step being a ten-thousandth of a semitone), each channel differs
/// by less than `255 * n / 10000 + 1`, for amplitudes up to 4; across palette
/// entries and across the wrap from B to C alike.
pub proof fn lemma_color_lipschitz(p: Seq<Color>, midi: int, n: nat, amplitude: int, i: int)
    requires
        p.len() == 12,
        amplitude <= 4_000_000,
        0 <= i < 4,
    ensures
        MIDI_SCALE * (channel(color_for(p, midi + n, amplitude), i) - channel(
            color_for(p, midi, amplitude),
            i,
        )) < 255 * n + MIDI_SCALE,
        MIDI_SCALE * (channel(color_for(p, midi, amplitude), i) - channel(
            color_for(p, midi + n, amplitude),
            i,
        )) < 255 * n + MIDI_SCALE,
{
    let s = MIDI_SCALE as int;
    lemma_numerator_lipschitz(p, midi, n, i);
    lemma_channel_of_color(p, midi, amplitude, i);
    lemma_channel_of_color(p, midi + n, amplitude, i);
    lemma_loudness_bound(amplitude);
    let n0 = blend_numerator(p, midi, i);
    let n1 = blend_numerator(p, midi + n, i);
    let l0 = n0 / s;
    let l1 = n1 / s;
    assert(s * l1 - s * l0 < 255 * n + s && s * l0 - s * l1 < 255 * n + s) by (nonlinear_arith)
        requires
            s == 10000,
            l0 == n0 / s,
            l1 == n1 / s,
            0 <= n0,
            0 <= n1,
            -255 * n <= n1 - n0 <= 255 * n,
    ;
    let q = loudness(amplitude);
    assert(0 <= l0 <= 255 && 0 <= l1 <= 255);
    if l0 >= l1 {
        lemma_fade_monotone_gap(l0 as u8, l1 as u8, q);
    } else {
        lemma_fade_monotone_gap(l1 as u8, l0 as u8, q);
    }
}

proof fn lemma_fade_monotone_gap(c: u8, d: u8, s: int)
    requires
        c >= d,
        0 <= s <= 2000,
    ensures
        0 <= fade_channel(c, s) - fade_channel(d, s) <= c - d,
{
    assert(c * s / 2000 <= 255 && d * s / 2000 <= 255) by (nonlinear_arith)
        requires
            0 <= c <= 255,
            0 <= d <= 255,
            0 <= s <= 2000,
    ;
    assert(0 <= c * s / 2000 - d * s / 2000 <= c - d) by (nonlinear_arith)
        requires
            0 <= d <= c,
            0 <= s <= 2000,
    ;
}

} // verus!
