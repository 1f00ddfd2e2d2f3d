use vstd::prelude::*;
use crate::pitch::Pitch;
use crate::note::Note;

verus! {

/// One bin of a spectrum: the pitch of its frequency and its amplitude (in
/// millionths).
#[derive(Debug, Clone, Copy)]
pub struct Bin {
    pub pitch: Pitch,
    pub amplitude: i32,
}

/// The index of the first note, among the first `n`, whose MIDI range is
/// nearest to `midi`.
pub open spec fn closest_prefix(notes: Seq<Note>, midi: int, n: int) -> int
    decreases n,
{
    if n <= 1 {
        0
    } else {
        let k = closest_prefix(notes, midi, n - 1);
        if notes[n - 1].midi_range.dist_spec(midi) < notes[k].midi_range.dist_spec(midi) {
            n - 1
        } else {
            k
        }
    }
}

/// The notes after one bin: the nearest note absorbs it if it admits it,
/// otherwise the bin starts a note of its own.
pub open spec fn cluster_step(notes: Seq<Note>, bin: Bin) -> Seq<Note> {
    let midi = bin.pitch.midi_spec() as int;
    if notes.len() == 0 {
        notes.push(Note::new_spec(bin.pitch, bin.amplitude))
    } else {
        let k = closest_prefix(notes, midi, notes.len() as int);
        if notes[k].admits(midi, bin.amplitude as int) {
            notes.update(k, notes[k].absorbed(bin.pitch, bin.amplitude))
        } else {
            notes.push(Note::new_spec(bin.pitch, bin.amplitude))
        }
    }
}

/// The notes that the bins form, taken in their order, before sorting.
pub open spec fn cluster(bins: Seq<Bin>) -> Seq<Note>
    decreases bins.len(),
{
    if bins.len() == 0 {
        Seq::empty()
    } else {
        cluster_step(cluster(bins.drop_last()), bins.last())
    }
}

/// `x` placed after every note of `s` whose peak amplitude is not above its own.
pub open spec fn insert_by_amplitude(s: Seq<Note>, x: Note) -> Seq<Note>
    decreases s.len(),
{
    if s.len() == 0 {
        seq![x]
    } else if s.last().peak_amplitude <= x.peak_amplitude {
        s.push(x)
    } else {
        insert_by_amplitude(s.drop_last(), x).push(s.last())
    }
}

/// The notes in ascending order of peak amplitude, equal ones in their order.
pub open spec fn sort_by_amplitude(s: Seq<Note>) -> Seq<Note>
    decreases s.len(),
{
    if s.len() == 0 {
        s
    } else {
        insert_by_amplitude(sort_by_amplitude(s.drop_last()), s.last())
    }
}

/// The notes of a frame: the bins clustered, then sorted by peak amplitude.
pub open spec fn tones_of(bins: Seq<Bin>) -> Seq<Note> {
    sort_by_amplitude(cluster(bins))
}

pub open spec fn ascending(s: Seq<Note>) -> bool {
    forall|i: int, j: int| 0 <= i < j < s.len() ==> s[i].peak_amplitude <= s[j].peak_amplitude
}

/// The index of the first note nearest to `midi`.
fn closest_note(notes: &Vec<Note>, midi: i32) -> (k: usize)
    requires
        notes.len() > 0,
        forall|i: int| 0 <= i < notes.len() ==> (#[trigger] notes[i]).wf(),
    ensures
        k == closest_prefix(notes@, midi as int, notes.len() as int),
        k < notes.len(),
{
    let mut k: usize = 0;
    let mut best = notes[0].distance_from_midi(midi);
    let mut j: usize = 1;
    while j < notes.len()
        invariant
            1 <= j <= notes.len(),
            k < j,
            k == closest_prefix(notes@, midi as int, j as int),
            best == notes[k as int].midi_range.dist_spec(midi as int),
            forall|i: int| 0 <= i < notes.len() ==> (#[trigger] notes[i]).wf(),
        decreases notes.len() - j,
    {
        let d = notes[j].distance_from_midi(midi);
        if d < best {
            k = j;
            best = d;
        }
        j = j + 1;
    }
    k
}

/// Inserts `x` after every note whose peak amplitude is not above its own.
fn insert_sorted(v: &mut Vec<Note>, x: Note)
    ensures
        final(v)@ == insert_by_amplitude(old(v)@, x),
{
    let ghost s = v@;
    let mut i: usize = v.len();
    assert(s.subrange(0, s.len() as int) == s);
    assert(insert_by_amplitude(s, x) == insert_by_amplitude(s, x) + s.subrange(s.len() as int, s.len() as int));
    while i > 0 && v[i - 1].peak_amplitude > x.peak_amplitude
        invariant
            i <= v.len(),
            v@ == s,
            insert_by_amplitude(s, x) == insert_by_amplitude(s.subrange(0, i as int), x)
                + s.subrange(i as int, s.len() as int),
        decreases i,
    {
        proof {
            let p = s.subrange(0, i as int);
            assert(p.drop_last() == s.subrange(0, i - 1));
            assert(p.last() == s[i - 1]);
            assert(s.subrange(i - 1, s.len() as int) == seq![s[i - 1]] + s.subrange(i as int, s.len() as int));
            assert(insert_by_amplitude(s.subrange(0, i - 1), x).push(s[i - 1]) + s.subrange(i as int, s.len() as int)
                == insert_by_amplitude(s.subrange(0, i - 1), x) + s.subrange(i - 1, s.len() as int));
        }
        i = i - 1;
    }
    proof {
        let p = s.subrange(0, i as int);
        if i > 0 {
            assert(p.drop_last() == s.subrange(0, i - 1));
        }
        assert(insert_by_amplitude(p, x) == p.push(x));
        assert(s.insert(i as int, x) == p.push(x) + s.subrange(i as int, s.len() as int));
    }
    v.insert(i, x);
}

/// The notes that a spectrum forms: each bin joins the nearest note (the
/// first of equally near ones) if that note admits it, else starts a new one;
/// the notes come out in ascending order of peak amplitude.
pub fn find_tones(bins: &Vec<Bin>) -> (r: Vec<Note>)
    ensures
        r@ == tones_of(bins@),
        ascending(r@),
        forall|i: int| 0 <= i < r.len() ==> (#[trigger] r[i]).wf(),
{
    let mut notes: Vec<Note> = Vec::new();
    let mut i: usize = 0;
    while i < bins.len()
        invariant
            i <= bins.len(),
            notes@ == cluster(bins@.subrange(0, i as int)),
            forall|j: int| 0 <= j < notes.len() ==> (#[trigger] notes[j]).wf(),
        decreases bins.len() - i,
    {
        let bin = bins[i];
        proof {
            assert(bins@.subrange(0, i + 1).drop_last() == bins@.subrange(0, i as int));
        }
        if notes.len() == 0 {
            notes.push(Note::new(bin.pitch, bin.amplitude));
        } else {
            let k = closest_note(&notes, bin.pitch.midi());
            let mut note = notes[k];
            match note.try_include(bin.pitch, bin.amplitude) {
                Ok(()) => {
                    notes.set(k, note);
                },
                Err(_) => {
                    notes.push(Note::new(bin.pitch, bin.amplitude));
                },
            }
        }
        i = i + 1;
    }
    assert(bins@.subrange(0, bins.len() as int) == bins@);
    let mut sorted: Vec<Note> = Vec::new();
    let mut j: usize = 0;
    while j < notes.len()
        invariant
            j <= notes.len(),
            notes@ == cluster(bins@),
            sorted@ == sort_by_amplitude(notes@.subrange(0, j as int)),
            forall|i: int| 0 <= i < notes.len() ==> (#[trigger] notes[i]).wf(),
            forall|i: int| 0 <= i < sorted.len() ==> (#[trigger] sorted[i]).wf(),
        decreases notes.len() - j,
    {
        proof {
            assert(notes@.subrange(0, j + 1).drop_last() == notes@.subrange(0, j as int));
            lemma_insert_members(sorted@, notes[j as int]);
        }
        insert_sorted(&mut sorted, notes[j]);
        j = j + 1;
    }
    assert(notes@.subrange(0, notes.len() as int) == notes@);
    proof {
        lemma_tones_ascending(bins@);
    }
    sorted
}

/// Every note of the insertion is `x` or a note of `s`.
proof fn lemma_insert_members(s: Seq<Note>, x: Note)
    ensures
        insert_by_amplitude(s, x).len() == s.len() + 1,
        forall|i: int| 0 <= i < insert_by_amplitude(s, x).len() ==>
            #[trigger] insert_by_amplitude(s, x)[i] == x || s.contains(insert_by_amplitude(s, x)[i]),
    decreases s.len(),
{
    if s.len() > 0 && s.last().peak_amplitude > x.peak_amplitude {
        lemma_insert_members(s.drop_last(), x);
        let t = insert_by_amplitude(s.drop_last(), x);
        assert forall|i: int| 0 <= i < t.push(s.last()).len() implies
            #[trigger] t.push(s.last())[i] == x || s.contains(t.push(s.last())[i]) by {
            if i < t.len() {
                if t[i] != x {
                    let k = choose|k: int| 0 <= k < s.drop_last().len() && s.drop_last()[k] == t[i];
                    assert(s[k] == t[i]);
                }
            } else {
                assert(s[s.len() - 1] == s.last());
            }
        }
    } else if s.len() > 0 {
        assert forall|i: int| 0 <= i < s.push(x).len() implies
            #[trigger] s.push(x)[i] == x || s.contains(s.push(x)[i]) by {
            if i < s.len() {
                assert(s[i] == s.push(x)[i]);
            }
        }
    }
}

proof fn lemma_insert_ascending(s: Seq<Note>, x: Note)
    requires
        ascending(s),
    ensures
        ascending(insert_by_amplitude(s, x)),
    decreases s.len(),
{
    if s.len() > 0 {
        if s.last().peak_amplitude <= x.peak_amplitude {
            assert forall|i: int, j: int| 0 <= i < j < s.push(x).len() implies
                s.push(x)[i].peak_amplitude <= s.push(x)[j].peak_amplitude by {
                if j == s.len() {
                    assert(s[i].peak_amplitude <= s[s.len() - 1].peak_amplitude);
                }
            }
        } else {
            let d = s.drop_last();
            assert(ascending(d));
            lemma_insert_ascending(d, x);
            lemma_insert_members(d, x);
            let t = insert_by_amplitude(d, x);
            assert forall|i: int, j: int| 0 <= i < j < t.push(s.last()).len() implies
                t.push(s.last())[i].peak_amplitude <= t.push(s.last())[j].peak_amplitude by {
                if j == t.len() {
                    assert(t[i] == x || d.contains(t[i]));
                    if t[i] != x {
                        let k = choose|k: int| 0 <= k < d.len() && d[k] == t[i];
                        assert(s[k] == t[i]);
                        assert(s[k].peak_amplitude <= s[s.len() - 1].peak_amplitude);
                    }
                }
            }
        }
    }
}

proof fn lemma_sort_ascending(s: Seq<Note>)
    ensures
        ascending(sort_by_amplitude(s)),
    decreases s.len(),
{
    if s.len() > 0 {
        lemma_sort_ascending(s.drop_last());
        lemma_insert_ascending(sort_by_amplitude(s.drop_last()), s.last());
    }
}

/// The notes of a frame come out in ascending order of peak amplitude, so
/// that louder ones are painted last.
pub proof fn lemma_tones_ascending(bins: Seq<Bin>)
    ensures
        ascending(tones_of(bins)),
{
    lemma_sort_ascending(cluster(bins));
}

/// Clustering is deterministic: the same bins in the same order give the
/// same notes, whatever was clustered before.
pub proof fn lemma_clustering_deterministic(a: Seq<Bin>, b: Seq<Bin>)
    requires
        a == b,
    ensures
        tones_of(a) == tones_of(b),
        cluster(a) == cluster(b),
{
}

} // verus!
