use vstd::prelude::*;
use crate::pitch::{Pitch, MIDI_SCALE};
use crate::color::{color_for, color_of, Color, ColorPalette};
use crate::raster::{
    blank_canvas, blank_raster, canvas_size, fill_polygon, overlaid, overlay_canvas,
    polygon_filled, raster, Canvas,
};

verus! {

/// A closed interval `[start, end]` of fixed-point values.
#[derive(Debug, Clone, Copy, PartialEq, Eq, Structural)]
pub struct Span {
    pub start: i32,
    pub end: i32,
}

impl Span {
    pub open spec fn wf(self) -> bool {
        self.start <= self.end
    }

    pub open spec fn contains_spec(self, v: int) -> bool {
        self.start <= v <= self.end
    }

    pub open spec fn len_spec(self) -> int {
        self.end - self.start
    }

    /// The gap from `v` to the nearer bound, zero inside the span.
    pub open spec fn dist_spec(self, v: int) -> int {
        if v < self.start {
            self.start - v
        } else if v > self.end {
            v - self.end
        } else {
            0
        }
    }

    /// The span grown minimally, by its nearer bound, to hold `v`.
    pub open spec fn extended(self, v: i32) -> Span {
        if v < self.start {
            Span { start: v, end: self.end }
        } else if v > self.end {
            Span { start: self.start, end: v }
        } else {
            self
        }
    }

    /// The span that holds `v` alone.
    pub fn point(v: i32) -> (r: Span)
        ensures
            r == (Span { start: v, end: v }),
    {
        Span { start: v, end: v }
    }
}

/// The gap from `v` to the nearer bound of `r`, zero inside it.
pub fn dist_from_range_bounds(v: i32, r: &Span) -> (d: i64)
    requires
        r.wf(),
    ensures
        d == r.dist_spec(v as int),
        d >= 0,
{
    if v < r.start {
        r.start as i64 - v as i64
    } else if v > r.end {
        v as i64 - r.end as i64
    } else {
        0
    }
}

/// Grows `r` by its nearer bound until it holds `v`.
pub fn include_in_range(v: i32, r: &mut Span)
    ensures
        *final(r) == old(r).extended(v),
{
    if v < r.start {
        r.start = v;
    } else if v > r.end {
        r.end = v;
    }
}

/// The width of `r`.
pub fn range_len(r: &Span) -> (l: i64)
    ensures
        l == r.len_spec(),
{
    r.end as i64 - r.start as i64
}

/// The error of an inclusion that would widen a note past its limits.
#[derive(Debug, Clone, Copy, PartialEq, Eq, Structural)]
pub struct SoundInclusionError;

/// One perceived tone of a frame: the spectral bins it has absorbed, with the
/// loudest of them as its peak.
#[derive(Debug, Clone, Copy)]
pub struct Note {
    pub peak_pitch: Pitch,
    /// In millionths.
    pub peak_amplitude: i32,
    /// In millionths.
    pub amp_range: Span,
    /// In ten-thousandths of a semitone.
    pub midi_range: Span,
}

/// The width of a frame, in pixels.
pub const FRAME_WIDTH: u32 = 1600;

/// The height of a frame, in pixels.
pub const FRAME_HEIGHT: u32 = 900;

/// The highest MIDI number, which maps to the right edge of a frame.
pub const MIDI_TOP: i64 = 127;

/// A glyph's height for an amplitude in millionths: `ceil(amplitude * 100) + 3`,
/// a negative product counting as zero.
pub open spec fn glyph_height(amplitude: int) -> int {
    if amplitude <= 0 {
        3
    } else {
        (amplitude + 9999) / 10000 + 3
    }
}

/// A glyph's width: `(2500 / height) * 2`.
pub open spec fn glyph_width(amplitude: int) -> int {
    (2500int / glyph_height(amplitude)) * 2
}

/// `n / d` rounded to the nearest integer, halves away from zero.
pub open spec fn round_div(n: int, d: int) -> int {
    if n >= 0 {
        (2 * n + d) / (2 * d)
    } else {
        -((-2 * n + d) / (2 * d))
    }
}

/// A glyph's horizontal centre: `round(FRAME_WIDTH * midi / 127)`.
pub open spec fn glyph_x(midi: int) -> int {
    round_div(FRAME_WIDTH * midi, MIDI_TOP * MIDI_SCALE)
}

/// A glyph's vertical centre: the middle of the frame.
pub open spec fn glyph_y() -> int {
    FRAME_HEIGHT as int / 2
}

/// The corners of a diamond of the given size: left, top, right, bottom.
pub open spec fn diamond(w: int, h: int) -> Seq<(i32, i32)> {
    seq![(0i32, (h / 2) as i32), ((w / 2) as i32, 0i32), (w as i32, (h / 2) as i32), ((w / 2) as i32, h as i32)]
}

/// The canvas after a note of this peak and amplitude is painted on it: a
/// diamond in the note's colour, centred on its position and blended over
/// what is there; nothing for a glyph of zero size.
pub open spec fn painted(
    canvas: Seq<u8>,
    size: (u32, u32),
    note: Note,
    palette: Seq<Color>,
) -> Seq<u8> {
    let a = note.peak_amplitude as int;
    let w = glyph_width(a);
    let h = glyph_height(a);
    if w == 0 {
        canvas
    } else {
        let glyph = polygon_filled(
            blank_raster(w as u32, h as u32),
            (w as u32, h as u32),
            diamond(w, h),
            color_for(palette, note.peak_pitch.midi_spec() as int, a),
        );
        overlaid(
            canvas,
            size,
            glyph,
            (w as u32, h as u32),
            (glyph_x(note.peak_pitch.midi_spec() as int) - w / 2) as i64,
            (glyph_y() - h / 2) as i64,
        )
    }
}

/// The widest a note's MIDI range may grow: one semitone.
pub const MAX_MIDI_RANGE: i32 = 10000;

/// The widest a note's amplitude range may grow: a quarter.
pub const MAX_AMPLITUDE_RANGE: i32 = 250000;

impl Note {
    /// Both ranges are ordered, within their limits, and hold the peak.
    pub open spec fn wf(self) -> bool {
        &&& self.midi_range.wf()
        &&& self.amp_range.wf()
        &&& self.midi_range.len_spec() <= MAX_MIDI_RANGE
        &&& self.amp_range.len_spec() <= MAX_AMPLITUDE_RANGE
        &&& self.midi_range.contains_spec(self.peak_pitch.midi_spec() as int)
        &&& self.amp_range.contains_spec(self.peak_amplitude as int)
    }

    /// Whether a bin of the given MIDI number and amplitude may be absorbed.
    pub open spec fn admits(self, midi: int, amplitude: int) -> bool {
        &&& self.midi_range.dist_spec(midi) + self.midi_range.len_spec() <= MAX_MIDI_RANGE
        &&& self.amp_range.dist_spec(amplitude) + self.amp_range.len_spec() <= MAX_AMPLITUDE_RANGE
    }

    /// The note after absorbing an admitted bin.
    pub open spec fn absorbed(self, pitch: Pitch, amplitude: i32) -> Note {
        let louder = amplitude > self.peak_amplitude;
        Note {
            peak_pitch: if louder { pitch } else { self.peak_pitch },
            peak_amplitude: if louder { amplitude } else { self.peak_amplitude },
            amp_range: self.amp_range.extended(amplitude),
            midi_range: self.midi_range.extended(pitch.midi_spec()),
        }
    }

    pub open spec fn new_spec(pitch: Pitch, amplitude: i32) -> Note {
        Note {
            peak_pitch: pitch,
            peak_amplitude: amplitude,
            amp_range: Span { start: amplitude, end: amplitude },
            midi_range: Span { start: pitch.midi_spec(), end: pitch.midi_spec() },
        }
    }

    /// A note of zero width made of one bin.
    pub fn new(pitch: Pitch, amplitude: i32) -> (r: Note)
        ensures
            r == Note::new_spec(pitch, amplitude),
            r.wf(),
    {
        Note {
            peak_pitch: pitch,
            peak_amplitude: amplitude,
            amp_range: Span::point(amplitude),
            midi_range: Span::point(pitch.midi()),
        }
    }

    pub fn midi(&self) -> (r: i32)
        ensures
            r == self.peak_pitch.midi_spec(),
    {
        self.peak_pitch.midi()
    }

    pub fn frequency(&self) -> (r: u32)
        ensures
            r == self.peak_pitch.frequency_spec(),
    {
        self.peak_pitch.frequency()
    }

    pub fn amplitude(&self) -> (r: i32)
        ensures
            r == self.peak_amplitude,
    {
        self.peak_amplitude
    }

    /// The glyph's width in pixels.
    pub fn width(&self) -> (r: u32)
        ensures
            r == glyph_width(self.peak_amplitude as int),
            r <= 1666,
    {
        let h = self.height();
        assert(2500u32 / h <= 833) by (nonlinear_arith)
            requires
                h >= 3,
        ;
        (2500 / h) * 2
    }

    /// The glyph's height in pixels.
    pub fn height(&self) -> (r: u32)
        ensures
            r == glyph_height(self.peak_amplitude as int),
            r >= 3,
    {
        if self.peak_amplitude <= 0 {
            3
        } else {
            ((self.peak_amplitude as i64 + 9999) / 10000 + 3) as u32
        }
    }

    /// The glyph's horizontal centre in pixels.
    pub fn x(&self) -> (r: i32)
        ensures
            r == glyph_x(self.peak_pitch.midi_spec() as int),
    {
        let n = FRAME_WIDTH as i64 * self.midi() as i64;
        let d = MIDI_TOP * MIDI_SCALE as i64;
        if n >= 0 {
            let m = 2 * n + d;
            assert(m / 2540000 <= 3_000_000) by (nonlinear_arith)
                requires
                    0 <= m <= 7_000_000_000_000i64,
            ;
            (m / (2 * d)) as i32
        } else {
            let m = -2 * n + d;
            assert(m / 2540000 <= 3_000_000) by (nonlinear_arith)
                requires
                    0 <= m <= 7_000_000_000_000i64,
            ;
            -((m / (2 * d)) as i32)
        }
    }

    /// The glyph's vertical centre in pixels.
    pub fn y(&self) -> (r: i32)
        ensures
            r == glyph_y(),
    {
        (FRAME_HEIGHT / 2) as i32
    }

    /// The note's colour: its pitch class read off the palette, faded by
    /// its loudness.
    pub fn color(&self, palette: &ColorPalette) -> (r: Color)
        requires
            palette.wf(),
        ensures
            r == color_for(palette@, self.peak_pitch.midi_spec() as int, self.peak_amplitude as int),
    {
        color_of(palette, self.midi(), self.peak_amplitude)
    }

    /// Paints the note's glyph on the canvas.
    pub fn paint(&self, canvas: &mut Canvas, palette: &ColorPalette)
        requires
            palette.wf(),
        ensures
            canvas_size(*final(canvas)) == canvas_size(*old(canvas)),
            raster(*final(canvas)) == painted(raster(*old(canvas)), canvas_size(*old(canvas)), *self, palette@),
    {
        let width = self.width();
        let height = self.height();
        if width == 0 {
            return;
        }
        let w = width as i32;
        let h = height as i32;
        let points: Vec<(i32, i32)> = vec![(0, h / 2), (w / 2, 0), (w, h / 2), (w / 2, h)];
        assert(points@ == diamond(width as int, height as int));
        let x = self.x() as i64 - (w / 2) as i64;
        let y = self.y() as i64 - (h / 2) as i64;
        assert(height <= 2500) by (nonlinear_arith)
            requires
                width == (2500u32 / height) * 2,
                width != 0,
                height >= 3,
        ;
        assert(width * height * 4 <= 1666 * 2500 * 4) by (nonlinear_arith)
            requires
                width <= 1666,
                height <= 2500,
        ;
        let mut star = blank_canvas(width, height);
        fill_polygon(&mut star, &points, self.color(palette));
        overlay_canvas(canvas, &star, x, y);
    }

    /// The gap from `midi` to this note's MIDI range.
    pub fn distance_from_midi(&self, midi: i32) -> (d: i64)
        requires
            self.wf(),
        ensures
            d == self.midi_range.dist_spec(midi as int),
    {
        dist_from_range_bounds(midi, &self.midi_range)
    }

    /// Absorbs a bin when both ranges stay within their limits; otherwise
    /// rejects it and leaves the note as it was.
    pub fn try_include(&mut self, pitch: Pitch, amplitude: i32) -> (r: Result<(), SoundInclusionError>)
        requires
            old(self).wf(),
        ensures
            r is Ok <==> old(self).admits(pitch.midi_spec() as int, amplitude as int),
            r is Ok ==> *final(self) == old(self).absorbed(pitch, amplitude),
            r is Err ==> *final(self) == *old(self),
            final(self).wf(),
    {
        if dist_from_range_bounds(pitch.midi(), &self.midi_range) + range_len(&self.midi_range)
            > MAX_MIDI_RANGE as i64 || dist_from_range_bounds(amplitude, &self.amp_range)
            + range_len(&self.amp_range) > MAX_AMPLITUDE_RANGE as i64 {
            Err(SoundInclusionError)
        } else {
            include_in_range(amplitude, &mut self.amp_range);
            include_in_range(pitch.midi(), &mut self.midi_range);
            if amplitude > self.peak_amplitude {
                self.peak_amplitude = amplitude;
                self.peak_pitch = pitch;
            }
            Ok(())
        }
    }
}

/// Absorbing an admitted bin keeps a note well formed: both ranges stay
/// within their limits and still hold the peak, so this holds after any run
/// of successful inclusions.
pub proof fn lemma_absorb_keeps_ranges(n: Note, pitch: Pitch, amplitude: i32)
    requires
        n.wf(),
        n.admits(pitch.midi_spec() as int, amplitude as int),
    ensures
        n.absorbed(pitch, amplitude).wf(),
{
}

} // verus!
