use daw_modules::bpm::{analysed_format, analyzer_step, AnalyzerStep, ChannelFit};

#[test]
fn first_packet_with_frames_locks_the_format() {
    assert_eq!(analyzer_step(None, 48_000, 2, 0), AnalyzerStep::Wait);
    assert_eq!(
        analyzer_step(None, 48_000, 1, 1024),
        AnalyzerStep::Append { rate: 48_000, channels: 1, fit: ChannelFit::Copy }
    );
}

#[test]
fn later_packets_fit_the_locked_format() {
    let locked = Some((44_100u32, 2usize));
    assert_eq!(
        analyzer_step(locked, 22_050, 2, 0),
        AnalyzerStep::Append { rate: 44_100, channels: 2, fit: ChannelFit::Copy }
    );
    assert_eq!(
        analyzer_step(locked, 44_100, 1, 10),
        AnalyzerStep::Append { rate: 44_100, channels: 2, fit: ChannelFit::Duplicate }
    );
    assert_eq!(
        analyzer_step(Some((44_100, 1)), 44_100, 2, 10),
        AnalyzerStep::Append { rate: 44_100, channels: 1, fit: ChannelFit::Downmix }
    );
    assert_eq!(
        analyzer_step(locked, 44_100, 6, 10),
        AnalyzerStep::Append { rate: 44_100, channels: 2, fit: ChannelFit::Drop }
    );
}

#[test]
fn unlocked_analysis_reports_cd_stereo() {
    assert_eq!(analysed_format(None), (44_100, 2));
    assert_eq!(analysed_format(Some((8_000, 1))), (8_000, 1));
}
