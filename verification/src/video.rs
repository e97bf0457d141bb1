//! Pairing the frames of a video for optical flow.
use vstd::prelude::*;

verus! {

/// The frame pairs of a video of `frame_count` frames on which the flow is
/// computed: each frame with the next one. The flow stored for frame `k` is the
/// motion from frame `k` to frame `k + 1`, so the last frame gets none.
pub fn flow_frame_pairs(frame_count: usize) -> (pairs: Vec<(usize, usize)>)
    requires
        frame_count >= 1,
    ensures
        pairs@.len() == frame_count - 1,
        forall|k: int| 0 <= k < pairs@.len() ==> #[trigger] pairs@[k] == (k as usize, (k + 1) as usize),
{
    let mut pairs: Vec<(usize, usize)> = Vec::new();
    let mut k: usize = 0;
    while k < frame_count - 1
        invariant
            frame_count >= 1,
            k <= frame_count - 1,
            pairs@.len() == k,
            forall|m: int| 0 <= m < k ==> #[trigger] pairs@[m] == (m as usize, (m + 1) as usize),
        decreases frame_count - 1 - k,
    {
        pairs.push((k, k + 1));
        k = k + 1;
    }
    pairs
}

} // verus!
