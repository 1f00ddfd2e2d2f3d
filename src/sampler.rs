use vstd::prelude::*;

verus! {

/// The frame rate that the analysis window is sized for, in frames per second.
pub const TARGET_FPS: u64 = 12;

pub open spec fn pow2(k: nat) -> nat
    decreases k,
{
    if k == 0 {
        1
    } else {
        2 * pow2((k - 1) as nat)
    }
}

pub open spec fn abs(x: int) -> int {
    if x < 0 {
        -x
    } else {
        x
    }
}

/// Whether doubling a window of `size` samples brings the frame rate
/// `rate / size` strictly nearer to the target: `|rate/(2 size) - 12| <
/// |rate/size - 12|`, both sides multiplied by `2 size`.
pub open spec fn doubling_improves(rate: int, size: int) -> bool {
    abs(rate - TARGET_FPS * (2 * size)) < 2 * abs(rate - TARGET_FPS * size)
}

/// `size` is the window that starts at two and doubles while doubling brings
/// the frame rate nearer to the target.
pub open spec fn is_frame_size(rate: int, size: int) -> bool {
    exists|k: nat|
        #![trigger pow2(k)]
        k >= 1 && size == pow2(k) && !doubling_improves(rate, size) && forall|j: nat|
            1 <= j < k ==> doubling_improves(rate, #[trigger] pow2(j) as int)
}

/// The number of samples per analysis window for a track of the given sample
/// rate: a power of two whose frame rate is nearest the target.
pub fn samples_per_frame(sample_rate: u32) -> (r: usize)
    ensures
        is_frame_size(sample_rate as int, r as int),
{
    let mut size: u64 = 2;
    let ghost mut k: nat = 1;
    let rate = sample_rate as u64;
    assert(pow2(1) == 2 * pow2(0));
    loop
        invariant
            k >= 1,
            rate == sample_rate as u64,
            size == pow2(k),
            2 <= size <= 0x4000_0000,
            forall|j: nat| 1 <= j < k ==> doubling_improves(rate as int, #[trigger] pow2(j) as int),
        decreases 0x8000_0000 - size,
    {
        let current = if rate >= TARGET_FPS * size {
            rate - TARGET_FPS * size
        } else {
            TARGET_FPS * size - rate
        };
        let doubled = if rate >= TARGET_FPS * (2 * size) {
            rate - TARGET_FPS * (2 * size)
        } else {
            TARGET_FPS * (2 * size) - rate
        };
        if doubled < 2 * current {
            assert(TARGET_FPS * size < rate);
            proof {
                assert forall|j: nat| 1 <= j < k + 1 implies doubling_improves(rate as int, #[trigger] pow2(j) as int) by {
                    if j == k {
                    }
                }
            }
            size = size * 2;
            proof {
                assert(pow2(k + 1) == 2 * pow2(k));
                k = k + 1;
            }
        } else {
            assert(!doubling_improves(rate as int, size as int));
            return size as usize;
        }
    }
}

/// How many samples a window takes from position `start` of a track of
/// `total` samples: `min(size, total - start)`, none past the end.
pub fn samples_in_window(start: usize, size: usize, total: usize) -> (n: usize)
    ensures
        start >= total ==> n == 0,
        start < total ==> n == if size <= total - start { size as int } else { total - start },
{
    if start >= total {
        0
    } else if size <= total - start {
        size
    } else {
        total - start
    }
}

} // verus!
