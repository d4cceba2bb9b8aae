use vstd::prelude::*;
use std::time::Duration;
use crate::decoder::dsp::fade_samples_ms;

verus! {

/// Commands the decoder thread handles.
pub enum DecoderCmd {
    Seek(Duration),
}

/// How decoding a packet failed.
#[derive(Clone, Copy, Debug, PartialEq, Eq, Structural)]
pub enum DecodeFailure {
    /// A read error inside the packet: the packet is skipped.
    Io,
    /// Corrupt data: the packet is skipped.
    Corrupt,
    /// Anything else: decoding cannot go on.
    Fatal,
}

/// What the decoder thread just met.
#[derive(Clone, Copy, Debug, PartialEq, Eq, Structural)]
pub enum DecodeEvent {
    /// A seek command was carried out on the file.
    Seek,
    /// The file gave no further packet (end of stream or a read error).
    NoPacket,
    /// A packet of another track.
    OtherTrack,
    /// A packet of the track decoded to audio with this many channels.
    Decoded { channels: usize },
    /// A packet of the track failed to decode.
    DecodeFailed(DecodeFailure),
}

/// What the decoder thread does next.
#[derive(Clone, Copy, Debug, PartialEq, Eq, Structural)]
pub enum DecodeAction {
    /// Drop the staged and buffered audio, reset the resampler, and fade the
    /// next `fade_samples` samples in.
    ResetForSeek { fade_samples: usize },
    /// Go on with the next packet.
    Skip,
    /// Stop decoding and flush what is staged.
    Stop,
    /// Stage the decoded audio for the resampler, remixing its channels to
    /// the output's first when `remix` holds.
    Stage { remix: bool },
    /// Push the decoded audio to the output, remixing its channels first
    /// when `remix` holds.
    Push { remix: bool },
}

/// The decoder thread's decision on `ev`, for an output of `out_channels`
/// channels at `out_rate`, with or without a resampler: a seek fades in over
/// 10 ms of every channel; an end of packets or a fatal decode error stops;
/// read and data errors and packets of other tracks are skipped; decoded
/// audio is staged (when resampling) or pushed, remixed when its channel
/// count differs from the output's.
pub open spec fn decode_decision(out_rate: u32, out_channels: usize, resampling: bool, ev: DecodeEvent) -> DecodeAction {
    match ev {
        DecodeEvent::Seek => DecodeAction::ResetForSeek {
            fade_samples: ((((out_rate as u64 * 10) / 1000) as usize) * out_channels) as usize,
        },
        DecodeEvent::NoPacket => DecodeAction::Stop,
        DecodeEvent::OtherTrack => DecodeAction::Skip,
        DecodeEvent::Decoded { channels } => if resampling {
            DecodeAction::Stage { remix: channels != out_channels }
        } else {
            DecodeAction::Push { remix: channels != out_channels }
        },
        DecodeEvent::DecodeFailed(f) => match f {
            DecodeFailure::Io => DecodeAction::Skip,
            DecodeFailure::Corrupt => DecodeAction::Skip,
            DecodeFailure::Fatal => DecodeAction::Stop,
        },
    }
}

/// Whether a seek's fade length fits in `usize`.
pub open spec fn seek_fade_fits(out_rate: u32, out_channels: usize) -> bool {
    (((out_rate as u64 * 10) / 1000) as usize) * out_channels <= usize::MAX
}

/// Decides what the decoder thread does on `ev`.
pub fn decoder_step(out_rate: u32, out_channels: usize, resampling: bool, ev: DecodeEvent) -> (a: DecodeAction)
    requires
        ev == DecodeEvent::Seek ==> seek_fade_fits(out_rate, out_channels),
    ensures
        a == decode_decision(out_rate, out_channels, resampling, ev),
{
    match ev {
        DecodeEvent::Seek => {
            let fade = fade_samples_ms(out_rate, 10);
            DecodeAction::ResetForSeek { fade_samples: fade * out_channels }
        },
        DecodeEvent::NoPacket => DecodeAction::Stop,
        DecodeEvent::OtherTrack => DecodeAction::Skip,
        DecodeEvent::Decoded { channels } => {
            let remix = channels != out_channels;
            if resampling {
                DecodeAction::Stage { remix }
            } else {
                DecodeAction::Push { remix }
            }
        },
        DecodeEvent::DecodeFailed(DecodeFailure::Io) => DecodeAction::Skip,
        DecodeEvent::DecodeFailed(DecodeFailure::Corrupt) => DecodeAction::Skip,
        DecodeEvent::DecodeFailed(DecodeFailure::Fatal) => DecodeAction::Stop,
    }
}

/// Decoded audio is remixed exactly when its channel count differs from
/// the output's, whether it is staged for the resampler or pushed as it is;
/// it is staged exactly when a resampler is in use.
pub proof fn lemma_decoded_audio_fits_the_output(out_rate: u32, out_channels: usize, resampling: bool, channels: usize)
    ensures
        match decode_decision(out_rate, out_channels, resampling, DecodeEvent::Decoded { channels }) {
            DecodeAction::Stage { remix } => resampling && remix == (channels != out_channels),
            DecodeAction::Push { remix } => !resampling && remix == (channels != out_channels),
            _ => false,
        },
{
}

/// Only a seek resets the decoder, and its fade lasts 10 ms of every output
/// channel; decoding stops only at the end of the packets or on a fatal
/// decode error, and every other failure or foreign packet is skipped.
pub proof fn lemma_decoder_events(out_rate: u32, out_channels: usize, resampling: bool, ev: DecodeEvent)
    ensures
        ({
            let a = decode_decision(out_rate, out_channels, resampling, ev);
            &&& (a is ResetForSeek) == (ev is Seek)
            &&& ev is Seek ==> a == DecodeAction::ResetForSeek {
                fade_samples: ((((out_rate as u64 * 10) / 1000) as usize) * out_channels) as usize,
            }
            &&& (a is Stop) == (ev is NoPacket || ev == DecodeEvent::DecodeFailed(DecodeFailure::Fatal))
            &&& (a is Skip) == (ev is OtherTrack || ev == DecodeEvent::DecodeFailed(DecodeFailure::Io)
                || ev == DecodeEvent::DecodeFailed(DecodeFailure::Corrupt))
        }),
{
}

} // verus!
