use vstd::prelude::*;

verus! {

/// How a decoded packet's channels are fitted to the format the analyzer
/// locked.
#[derive(Clone, Copy, Debug, PartialEq, Eq, Structural)]
pub enum ChannelFit {
    /// Same channel count: the samples are appended as they are.
    Copy,
    /// A mono packet in a stereo stream: each sample is appended twice.
    Duplicate,
    /// A stereo packet in a mono stream: each pair is averaged.
    Downmix,
    /// Any other mismatch: the packet is dropped.
    Drop,
}

/// What a whole-file analysis (the tempo detector, the waveform overview)
/// does with a decoded packet of its track.
#[derive(Clone, Copy, Debug, PartialEq, Eq, Structural)]
pub enum AnalyzerStep {
    /// The format is not locked yet and the packet holds no frames: skip it.
    Wait,
    /// Append the packet to the analysed audio, whose format is now
    /// `rate` Hz and `channels` channels, fitting its channels by `fit`.
    Append { rate: u32, channels: usize, fit: ChannelFit },
}

/// The fit of a packet with `packet_channels` channels to a stream of
/// `channels` channels.
pub open spec fn channel_fit(packet_channels: usize, channels: usize) -> ChannelFit {
    if packet_channels == channels {
        ChannelFit::Copy
    } else if packet_channels == 1 && channels == 2 {
        ChannelFit::Duplicate
    } else if packet_channels == 2 && channels == 1 {
        ChannelFit::Downmix
    } else {
        ChannelFit::Drop
    }
}

/// The analyzer's decision on a packet of `frames` frames at `rate` Hz with
/// `packet_channels` channels, given the format it locked so far: the first
/// packet with frames locks its own format, and every packet after it is
/// fitted to that format.
pub open spec fn analyzer_decision(locked: Option<(u32, usize)>, rate: u32, packet_channels: usize, frames: usize) -> AnalyzerStep {
    match locked {
        None => if frames == 0 {
            AnalyzerStep::Wait
        } else {
            AnalyzerStep::Append { rate, channels: packet_channels, fit: ChannelFit::Copy }
        },
        Some((r, c)) => AnalyzerStep::Append { rate: r, channels: c, fit: channel_fit(packet_channels, c) },
    }
}

/// Decides what a whole-file analysis does with a decoded packet.
pub fn analyzer_step(locked: Option<(u32, usize)>, rate: u32, packet_channels: usize, frames: usize) -> (s: AnalyzerStep)
    ensures
        s == analyzer_decision(locked, rate, packet_channels, frames),
{
    match locked {
        None => if frames == 0 {
            AnalyzerStep::Wait
        } else {
            AnalyzerStep::Append { rate, channels: packet_channels, fit: ChannelFit::Copy }
        },
        Some((r, c)) => {
            let fit = if packet_channels == c {
                ChannelFit::Copy
            } else if packet_channels == 1 && c == 2 {
                ChannelFit::Duplicate
            } else if packet_channels == 2 && c == 1 {
                ChannelFit::Downmix
            } else {
                ChannelFit::Drop
            };
            AnalyzerStep::Append { rate: r, channels: c, fit }
        },
    }
}

/// The format the analysed audio is reported in: the locked one, or 44100 Hz
/// stereo when no packet had frames.
pub fn analysed_format(locked: Option<(u32, usize)>) -> (f: (u32, usize))
    ensures
        f == match locked {
            Some(l) => l,
            None => (44100u32, 2usize),
        },
{
    match locked {
        Some(l) => l,
        None => (44100, 2),
    }
}

/// Once the analyzer has locked a format, no later packet changes it.
pub proof fn lemma_lock_is_kept(r: u32, c: usize, rate: u32, packet_channels: usize, frames: usize)
    ensures
        analyzer_decision(Some((r, c)), rate, packet_channels, frames) matches AnalyzerStep::Append { rate: r2, channels: c2, .. }
            && r2 == r && c2 == c,
{
}

/// Once a format with `c` channels is locked, a packet is appended as it is
/// exactly when it has `c` channels, for every `c`, mono included; a mono
/// packet is doubled only into stereo, a stereo packet averaged only into
/// mono, and any other mismatch is dropped.
pub proof fn lemma_locked_fit(r: u32, c: usize, rate: u32, packet_channels: usize, frames: usize)
    ensures
        match analyzer_decision(Some((r, c)), rate, packet_channels, frames) {
            AnalyzerStep::Append { fit, .. } => {
                &&& (fit == ChannelFit::Copy) == (packet_channels == c)
                &&& (fit == ChannelFit::Duplicate) == (packet_channels == 1 && c == 2)
                &&& (fit == ChannelFit::Downmix) == (packet_channels == 2 && c == 1)
                &&& (fit == ChannelFit::Drop) == (packet_channels != c
                    && !(packet_channels == 1 && c == 2) && !(packet_channels == 2 && c == 1))
            },
            AnalyzerStep::Wait => false,
        },
{
}

/// Before a format is locked, a packet without frames is skipped and the
/// first packet with frames locks its own rate and channel count and is
/// appended as it is.
pub proof fn lemma_first_packet_locks(rate: u32, packet_channels: usize, frames: usize)
    ensures
        (analyzer_decision(None, rate, packet_channels, frames) == AnalyzerStep::Wait) == (frames == 0),
        frames > 0 ==> analyzer_decision(None, rate, packet_channels, frames)
            == (AnalyzerStep::Append { rate, channels: packet_channels, fit: ChannelFit::Copy }),
{
}

} // verus!
