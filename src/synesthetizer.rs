use vstd::prelude::*;
use crate::color::{Color, ColorPalette};
use crate::note::{painted, Note, FRAME_HEIGHT, FRAME_WIDTH};
use crate::raster::{blank_canvas, blank_raster, canvas_size, copy_canvas, raster, Canvas};
use crate::sampler::{is_frame_size, samples_in_window, samples_per_frame};
use crate::settings::Settings;
use crate::tones::{ascending, find_tones, tones_of, Bin};

verus! {

/// The canvas after painting each note in turn.
pub open spec fn painted_all(
    canvas: Seq<u8>,
    size: (u32, u32),
    notes: Seq<Note>,
    palette: Seq<Color>,
) -> Seq<u8>
    decreases notes.len(),
{
    if notes.len() == 0 {
        canvas
    } else {
        painted(painted_all(canvas, size, notes.drop_last(), palette), size, notes.last(), palette)
    }
}

/// The raster of an empty frame.
pub open spec fn blank_frame() -> Seq<u8> {
    blank_raster(FRAME_WIDTH, FRAME_HEIGHT)
}

/// One frame's output: the image, and the path it is to be saved under when a
/// snapshot was asked for.
pub struct Frame {
    pub canvas: Canvas,
    pub snapshot: Option<String>,
}

/// The pipeline from a track's spectrum to a frame: it holds the analysis
/// window's size, the notes of the last frame, the palette, the frame that
/// overlay mode builds on, and the pending snapshot request.
pub struct Synesthetizer {
    samples_per_frame: usize,
    current_notes: Vec<Note>,
    palette: ColorPalette,
    previous_image: Canvas,
    is_overlay: bool,
    snapshot_request: Option<String>,
}

impl Synesthetizer {
    pub closed spec fn frame_size_spec(&self) -> usize {
        self.samples_per_frame
    }

    pub closed spec fn notes_spec(&self) -> Seq<Note> {
        self.current_notes@
    }

    pub closed spec fn palette_spec(&self) -> Seq<Color> {
        self.palette@
    }

    /// The raster that overlay mode builds on.
    pub closed spec fn previous_spec(&self) -> Seq<u8> {
        raster(self.previous_image)
    }

    pub closed spec fn is_overlay_spec(&self) -> bool {
        self.is_overlay
    }

    /// The path of the pending snapshot request.
    pub closed spec fn pending_snapshot(&self) -> Option<String> {
        self.snapshot_request
    }

    /// The palette has its twelve colours, the kept frame has the frame's
    /// size and is blank while overlay mode is off, and the notes are
    /// well formed.
    pub closed spec fn wf(&self) -> bool {
        &&& self.palette.wf()
        &&& canvas_size(self.previous_image) == (FRAME_WIDTH, FRAME_HEIGHT)
        &&& !self.is_overlay ==> raster(self.previous_image) == blank_frame()
        &&& forall|i: int| 0 <= i < self.current_notes.len() ==> (#[trigger] self.current_notes[i]).wf()
    }

    /// The canvas that a frame starts from: the kept frame in overlay mode,
    /// else a blank one.
    pub open spec fn start_canvas(&self, overlay: bool) -> Seq<u8> {
        if overlay {
            self.previous_spec()
        } else {
            blank_frame()
        }
    }

    pub fn new(palette: ColorPalette) -> (r: Synesthetizer)
        requires
            palette.wf(),
        ensures
            r.wf(),
            r.frame_size_spec() == 0,
            r.notes_spec().len() == 0,
            r.palette_spec() == palette@,
            r.previous_spec() == blank_frame(),
            !r.is_overlay_spec(),
            r.pending_snapshot() is None,
    {
        Synesthetizer {
            samples_per_frame: 0,
            current_notes: Vec::new(),
            palette,
            previous_image: blank_canvas(FRAME_WIDTH, FRAME_HEIGHT),
            is_overlay: false,
            snapshot_request: None,
        }
    }

    /// Forgets the frame that overlay mode builds on.
    pub fn clear_overlay(&mut self)
        requires
            old(self).wf(),
        ensures
            final(self).wf(),
            final(self).previous_spec() == blank_frame(),
            final(self).frame_size_spec() == old(self).frame_size_spec(),
            final(self).notes_spec() == old(self).notes_spec(),
            final(self).palette_spec() == old(self).palette_spec(),
            final(self).is_overlay_spec() == old(self).is_overlay_spec(),
            final(self).pending_snapshot() == old(self).pending_snapshot(),
    {
        self.previous_image = blank_canvas(FRAME_WIDTH, FRAME_HEIGHT);
    }

    /// Sizes the analysis window for a track of the given sample rate.
    pub fn load_music(&mut self, sample_rate: u32)
        requires
            old(self).wf(),
        ensures
            final(self).wf(),
            is_frame_size(sample_rate as int, final(self).frame_size_spec() as int),
            final(self).notes_spec() == old(self).notes_spec(),
            final(self).palette_spec() == old(self).palette_spec(),
            final(self).previous_spec() == old(self).previous_spec(),
            final(self).is_overlay_spec() == old(self).is_overlay_spec(),
            final(self).pending_snapshot() == old(self).pending_snapshot(),
    {
        self.samples_per_frame = samples_per_frame(sample_rate);
    }

    /// The number of samples in an analysis window.
    pub fn samples_per_frame(&self) -> (r: usize)
        ensures
            r == self.frame_size_spec(),
    {
        self.samples_per_frame
    }

    /// How many samples the window at `start` takes from a track of `total`
    /// samples; the rest of the window is silence.
    pub fn window_len(&self, start: usize, total: usize) -> (n: usize)
        ensures
            start >= total ==> n == 0,
            start < total ==> n == if self.frame_size_spec() <= total - start {
                self.frame_size_spec() as int
            } else {
                total - start
            },
    {
        samples_in_window(start, self.samples_per_frame, total)
    }

    /// Asks for the next frame to be saved under `path`, in place of any
    /// earlier request that is still pending.
    pub fn request_snapshot(&mut self, path: String)
        requires
            old(self).wf(),
        ensures
            final(self).wf(),
            final(self).pending_snapshot() == Some(path),
            final(self).frame_size_spec() == old(self).frame_size_spec(),
            final(self).notes_spec() == old(self).notes_spec(),
            final(self).palette_spec() == old(self).palette_spec(),
            final(self).previous_spec() == old(self).previous_spec(),
            final(self).is_overlay_spec() == old(self).is_overlay_spec(),
    {
        self.snapshot_request = Some(path);
    }

    /// Replaces the current notes by those that the spectrum forms.
    pub fn find_tones(&mut self, spectrum: &Vec<Bin>)
        requires
            old(self).wf(),
        ensures
            final(self).wf(),
            final(self).notes_spec() == tones_of(spectrum@),
            ascending(final(self).notes_spec()),
            forall|i: int|
                0 <= i < final(self).notes_spec().len() ==> (#[trigger] final(self).notes_spec()[i]).wf(),
            final(self).frame_size_spec() == old(self).frame_size_spec(),
            final(self).palette_spec() == old(self).palette_spec(),
            final(self).previous_spec() == old(self).previous_spec(),
            final(self).is_overlay_spec() == old(self).is_overlay_spec(),
            final(self).pending_snapshot() == old(self).pending_snapshot(),
    {
        self.current_notes = find_tones(spectrum);
    }

    /// The current notes, in ascending order of peak amplitude.
    pub fn notes(&self) -> (r: &Vec<Note>)
        ensures
            r@ == self.notes_spec(),
    {
        &self.current_notes
    }

    /// Builds one frame. Turning overlay mode off forgets the kept frame.
    /// The frame starts from the kept one in overlay mode, else blank; when a
    /// spectrum is given (a track is playing), its notes are painted on it
    /// from the quietest up. In overlay mode the result is kept for the next
    /// frame. A pending snapshot request is handed out with the frame and
    /// cleared.
    pub fn new_frame(&mut self, spectrum: Option<&Vec<Bin>>, settings: &Settings) -> (r: Frame)
        requires
            old(self).wf(),
        ensures
            final(self).wf(),
            final(self).is_overlay_spec() == settings.is_overlay,
            forall|i: int|
                0 <= i < final(self).notes_spec().len() ==> (#[trigger] final(self).notes_spec()[i]).wf(),
            final(self).notes_spec() == match spectrum {
                Some(s) => tones_of(s@),
                None => old(self).notes_spec(),
            },
            canvas_size(r.canvas) == (FRAME_WIDTH, FRAME_HEIGHT),
            raster(r.canvas) == match spectrum {
                Some(s) => painted_all(
                    old(self).start_canvas(settings.is_overlay),
                    (FRAME_WIDTH, FRAME_HEIGHT),
                    tones_of(s@),
                    old(self).palette_spec(),
                ),
                None => old(self).start_canvas(settings.is_overlay),
            },
            final(self).previous_spec() == if settings.is_overlay {
                raster(r.canvas)
            } else {
                blank_frame()
            },
            r.snapshot == old(self).pending_snapshot(),
            final(self).pending_snapshot() is None,
            final(self).frame_size_spec() == old(self).frame_size_spec(),
            final(self).palette_spec() == old(self).palette_spec(),
    {
        if settings.is_overlay != self.is_overlay {
            if !settings.is_overlay {
                self.clear_overlay();
            }
            self.is_overlay = settings.is_overlay;
        }
        let mut canvas = if self.is_overlay {
            copy_canvas(&self.previous_image)
        } else {
            blank_canvas(FRAME_WIDTH, FRAME_HEIGHT)
        };
        let ghost start = raster(canvas);
        match spectrum {
            Some(bins) => {
                self.find_tones(bins);
                let mut i: usize = 0;
                while i < self.current_notes.len()
                    invariant
                        self.wf(),
                        i <= self.current_notes.len(),
                        canvas_size(canvas) == (FRAME_WIDTH, FRAME_HEIGHT),
                        raster(canvas) == painted_all(
                            start,
                            (FRAME_WIDTH, FRAME_HEIGHT),
                            self.current_notes@.subrange(0, i as int),
                            self.palette@,
                        ),
                    decreases self.current_notes.len() - i,
                {
                    proof {
                        assert(self.current_notes@.subrange(0, i + 1).drop_last()
                            == self.current_notes@.subrange(0, i as int));
                    }
                    self.current_notes[i].paint(&mut canvas, &self.palette);
                    i = i + 1;
                }
                assert(self.current_notes@.subrange(0, self.current_notes.len() as int)
                    == self.current_notes@);
            },
            None => {},
        }
        if self.is_overlay {
            self.previous_image = copy_canvas(&canvas);
        }
        let snapshot = self.snapshot_request.take();
        Frame { canvas, snapshot }
    }
}

/// In overlay mode a frame starts from exactly what the frame before it put
/// out (which `new_frame` keeps as `previous_spec`), and while overlay mode
/// is off the kept frame is blank, so turning it back on starts blank.
pub proof fn lemma_overlay_trail(s: Synesthetizer, output: Seq<u8>)
    requires
        s.wf(),
        s.is_overlay_spec() ==> s.previous_spec() == output,
    ensures
        s.is_overlay_spec() ==> s.start_canvas(true) == output,
        !s.is_overlay_spec() ==> s.start_canvas(true) == blank_frame(),
{
}

} // verus!
