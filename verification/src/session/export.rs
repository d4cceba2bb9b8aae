use vstd::prelude::*;

verus! {

/// Whether any track of the project is soloed.
pub open spec fn any_solo(track_solo: Seq<bool>) -> bool {
    exists|i: int| 0 <= i < track_solo.len() && track_solo[i]
}

/// Applies the solo rule of an offline mixdown to the voices that were
/// loaded: when any track of the project is soloed, the voice at position
/// `i` is muted exactly when track `i` is not soloed; voices past the last
/// track keep their flag. Without any solo nothing changes.
pub fn apply_export_solo(voice_muted: &mut Vec<bool>, track_solo: &Vec<bool>)
    ensures
        !any_solo(track_solo@) ==> final(voice_muted)@ == old(voice_muted)@,
        any_solo(track_solo@) ==> {
            &&& final(voice_muted)@.len() == old(voice_muted)@.len()
            &&& forall|i: int| 0 <= i < old(voice_muted)@.len() ==>
                #[trigger] final(voice_muted)@[i] == if i < track_solo@.len() {
                    !track_solo@[i]
                } else {
                    old(voice_muted)@[i]
                }
        },
{
    let mut any = false;
    let mut k: usize = 0;
    while k < track_solo.len()
        invariant
            0 <= k <= track_solo@.len(),
            any == exists|i: int| 0 <= i < k && track_solo@[i],
        decreases track_solo@.len() - k,
    {
        if track_solo[k] {
            any = true;
        }
        k = k + 1;
    }
    if !any {
        return;
    }
    let n = voice_muted.len();
    let mut i: usize = 0;
    while i < n
        invariant
            n == old(voice_muted)@.len(),
            voice_muted@.len() == n,
            0 <= i <= n,
            forall|j: int| 0 <= j < i ==> #[trigger] voice_muted@[j] == if j < track_solo@.len() {
                !track_solo@[j]
            } else {
                old(voice_muted)@[j]
            },
            forall|j: int| i <= j < n ==> #[trigger] voice_muted@[j] == old(voice_muted)@[j],
        decreases n - i,
    {
        if i < track_solo.len() {
            voice_muted[i] = !track_solo[i];
        }
        i = i + 1;
    }
}

/// What a mixdown voice does next while it fills its stereo output buffer.
#[derive(Clone, Copy, Debug, PartialEq, Eq, Structural)]
pub enum VoiceStep {
    /// Enough output is buffered, or the file is done and nothing is staged.
    Stop,
    /// Read and decode the next packet of the voice's track into the staging
    /// buffer.
    Fetch,
    /// Resample one full chunk from the staging buffer into the output.
    ResampleChunk,
    /// Resample what is left in the staging buffer at the end of the file,
    /// then clear it.
    FlushPartial,
    /// Without a resampler: move everything staged into the output.
    MoveAll,
}

/// The steps at the top of a voice's fill loop: stop once enough output is
/// buffered or the file is done with nothing staged; read a packet while the
/// file goes on and there is no full chunk to resample (always, without a
/// resampler); otherwise go straight on to processing what is staged.
pub open spec fn top_decision(
    finished: bool,
    input_len: usize,
    output_len: usize,
    frames_needed: usize,
    chunk_frames: Option<usize>,
) -> VoiceStep {
    if output_len >= 2 * frames_needed || (finished && input_len == 0) {
        VoiceStep::Stop
    } else if !finished && match chunk_frames {
        None => true,
        Some(c) => input_len < 2 * c,
    } {
        VoiceStep::Fetch
    } else {
        match process_decision(finished, input_len, chunk_frames) {
            Some(s) => s,
            None => VoiceStep::Stop,
        }
    }
}

/// The steps that process what is staged after a read: without a resampler,
/// move it all to the output; with one, resample every full chunk, then, at
/// the end of the file, flush what is left. `None` when nothing is left to
/// do, and the loop goes back to its top.
pub open spec fn process_decision(finished: bool, input_len: usize, chunk_frames: Option<usize>) -> Option<VoiceStep> {
    match chunk_frames {
        None => Some(VoiceStep::MoveAll),
        Some(c) => if input_len >= 2 * c {
            Some(VoiceStep::ResampleChunk)
        } else if finished && input_len > 0 {
            Some(VoiceStep::FlushPartial)
        } else {
            None
        },
    }
}

/// The next step of a voice that has `input_len` staged and `output_len`
/// output samples (both interleaved stereo), needs `frames_needed` frames,
/// has read its whole file when `finished`, and resamples in chunks of
/// `chunk_frames` frames when it has a resampler. While `draining`, the voice
/// is processing what its last read staged, and finishes that before it
/// looks at how much output it has.
pub open spec fn voice_decision(
    draining: bool,
    finished: bool,
    input_len: usize,
    output_len: usize,
    frames_needed: usize,
    chunk_frames: Option<usize>,
) -> VoiceStep {
    if draining {
        match process_decision(finished, input_len, chunk_frames) {
            Some(s) => s,
            None => top_decision(finished, input_len, output_len, frames_needed, chunk_frames),
        }
    } else {
        top_decision(finished, input_len, output_len, frames_needed, chunk_frames)
    }
}

/// Whether the voice is still processing what it staged after step `s`: a
/// read and a full chunk are followed by more processing; a flush or a move
/// ends it.
pub open spec fn drains_after(s: VoiceStep) -> bool {
    s == VoiceStep::Fetch || s == VoiceStep::ResampleChunk
}

fn process_step(finished: bool, input_len: usize, chunk_frames: Option<usize>) -> (s: Option<VoiceStep>)
    ensures
        s == process_decision(finished, input_len, chunk_frames),
{
    match chunk_frames {
        None => Some(VoiceStep::MoveAll),
        Some(c) => if input_len / 2 >= c {
            Some(VoiceStep::ResampleChunk)
        } else if finished && input_len > 0 {
            Some(VoiceStep::FlushPartial)
        } else {
            None
        },
    }
}

fn top_step(
    finished: bool,
    input_len: usize,
    output_len: usize,
    frames_needed: usize,
    chunk_frames: Option<usize>,
) -> (s: VoiceStep)
    ensures
        s == top_decision(finished, input_len, output_len, frames_needed, chunk_frames),
{
    if output_len / 2 >= frames_needed || (finished && input_len == 0) {
        return VoiceStep::Stop;
    }
    let short = match chunk_frames {
        None => true,
        Some(c) => input_len / 2 < c,
    };
    if !finished && short {
        return VoiceStep::Fetch;
    }
    match process_step(finished, input_len, chunk_frames) {
        Some(s) => s,
        None => VoiceStep::Stop,
    }
}

/// Decides the next step of a mixdown voice that fills its output buffer,
/// and whether it is still draining after that step.
pub fn voice_step(
    draining: bool,
    finished: bool,
    input_len: usize,
    output_len: usize,
    frames_needed: usize,
    chunk_frames: Option<usize>,
) -> (r: (VoiceStep, bool))
    ensures
        r.0 == voice_decision(draining, finished, input_len, output_len, frames_needed, chunk_frames),
        r.1 == drains_after(r.0),
{
    let s = if draining {
        match process_step(finished, input_len, chunk_frames) {
            Some(s) => s,
            None => top_step(finished, input_len, output_len, frames_needed, chunk_frames),
        }
    } else {
        top_step(finished, input_len, output_len, frames_needed, chunk_frames)
    };
    let drains = match s {
        VoiceStep::Fetch | VoiceStep::ResampleChunk => true,
        _ => false,
    };
    (s, drains)
}

/// Output is interleaved stereo, so a voice stops for having enough only
/// once it holds `2 * frames_needed` samples. Otherwise it stops only when
/// the file is done and nothing is staged; short of output, with the file
/// going on and nothing staged, it reads the next packet. A voice that is
/// not draining and already has enough stops.
pub proof fn lemma_voice_stops_only_when_served(
    draining: bool,
    finished: bool,
    input_len: usize,
    output_len: usize,
    frames_needed: usize,
    chunk_frames: Option<usize>,
)
    ensures
        voice_decision(draining, finished, input_len, output_len, frames_needed, chunk_frames) == VoiceStep::Stop
            ==> output_len >= 2 * frames_needed || (finished && input_len == 0),
        (!draining && output_len >= 2 * frames_needed)
            ==> voice_decision(draining, finished, input_len, output_len, frames_needed, chunk_frames) == VoiceStep::Stop,
        (!draining && !finished && input_len == 0 && output_len < 2 * frames_needed && chunk_frames != Some(0usize))
            ==> voice_decision(draining, finished, input_len, output_len, frames_needed, chunk_frames) == VoiceStep::Fetch,
{
}

/// What each step needs: a chunk is resampled only when a full chunk
/// (`2 * c` samples) is staged; a remainder is flushed only at the end of the
/// file with something staged and less than a chunk; a packet is read only
/// while the file goes on; everything is moved only without a resampler.
pub proof fn lemma_voice_steps_need_their_input(
    draining: bool,
    finished: bool,
    input_len: usize,
    output_len: usize,
    frames_needed: usize,
    chunk_frames: Option<usize>,
)
    ensures
        ({
            let s = voice_decision(draining, finished, input_len, output_len, frames_needed, chunk_frames);
            &&& s == VoiceStep::ResampleChunk ==> (chunk_frames matches Some(c) && input_len >= 2 * c)
            &&& s == VoiceStep::FlushPartial ==> (chunk_frames matches Some(c) && finished && 0 < input_len < 2 * c)
            &&& s == VoiceStep::Fetch ==> !finished
            &&& s == VoiceStep::MoveAll ==> chunk_frames is None
        }),
{
}

} // verus!
