use nicaiemu::audio_engine::{
    is_mp3, is_wav, parse_wav, resample_to_stereo, AudioEngine, AudioError, AudioFormat, AUDIO_SAMPLE_RATE,
    MAX_QUEUED_SAMPLES,
};

fn sine_wav(frames: u32, rate: u32) -> Vec<u8> {
    let data_len = frames as usize * 2;
    let mut out = Vec::new();
    out.extend_from_slice(b"RIFF");
    out.extend_from_slice(&(36 + data_len as u32).to_le_bytes());
    out.extend_from_slice(b"WAVE");
    out.extend_from_slice(b"fmt ");
    out.extend_from_slice(&16u32.to_le_bytes());
    out.extend_from_slice(&1u16.to_le_bytes());
    out.extend_from_slice(&1u16.to_le_bytes());
    out.extend_from_slice(&rate.to_le_bytes());
    out.extend_from_slice(&(rate * 2).to_le_bytes());
    out.extend_from_slice(&2u16.to_le_bytes());
    out.extend_from_slice(&16u16.to_le_bytes());
    out.extend_from_slice(b"data");
    out.extend_from_slice(&(data_len as u32).to_le_bytes());
    for index in 0..frames {
        let value = ((index as f32 / frames as f32 * std::f32::consts::TAU * 4.0).sin()
            * 8000.0) as i16;
        out.extend_from_slice(&value.to_le_bytes());
    }
    out
}

#[test]
fn wav_decode_resamples_to_stereo_output_rate() {
    let wav = sine_wav(100, 8000);
    let pcm = parse_wav(&wav).unwrap();
    assert_eq!(pcm.channels, 1);
    assert_eq!(pcm.sample_rate, 8000);
    assert_eq!(pcm.samples.len(), 100);

    let output = resample_to_stereo(&pcm.samples, pcm.channels as usize, pcm.sample_rate, AUDIO_SAMPLE_RATE);
    let expected_frames = (100u64 * AUDIO_SAMPLE_RATE as u64).div_ceil(8000) as usize;
    assert_eq!(output.len(), expected_frames * 2);
    assert!(output.iter().any(|sample| *sample != 0));
}

#[test]
fn volume_scales_pulled_output() {
    let wav = sine_wav(200, 8000);
    let mut loud = AudioEngine::new();
    loud.play_bytes(&wav).unwrap();
    let loud_samples = loud.pull_samples(100);

    let mut quiet = AudioEngine::new();
    quiet.set_volume(50);
    quiet.play_bytes(&wav).unwrap();
    let quiet_samples = quiet.pull_samples(100);

    assert_eq!(loud_samples.len(), quiet_samples.len());
    for (left, right) in loud_samples.iter().zip(quiet_samples.iter()) {
        assert_eq!(*right, (*left as i32 * 50 / 100) as i16);
    }
}

#[test]
fn pause_resume_stop_control_state() {
    let wav = sine_wav(200, 8000);
    let mut engine = AudioEngine::new();
    assert_eq!(engine.state(), 0);
    engine.play_bytes(&wav).unwrap();
    assert_eq!(engine.state(), 1);
    engine.pause();
    assert_eq!(engine.state(), 2);
    assert!(engine.pull_samples(10).is_empty());
    engine.resume();
    assert_eq!(engine.state(), 1);
    assert!(!engine.pull_samples(10).is_empty());
    engine.stop();
    assert_eq!(engine.state(), 0);
}

#[test]
fn unknown_data_is_rejected() {
    let mut engine = AudioEngine::new();
    assert_eq!(engine.submit(b"not audio"), Err(AudioError::Unrecognized));
    assert_eq!(engine.queue_decoded(vec![7]), Err(AudioError::NoSamples));
    assert_eq!(engine.state(), 0);
}

#[test]
fn formats_are_told_apart_by_their_magic() {
    assert!(is_wav(&sine_wav(4, 8000)));
    assert!(!is_wav(b"RIFF0000AVI "));
    assert!(is_mp3(b"ID3\x04"));
    assert!(is_mp3(&[0xFF, 0xFB, 0x90]));
    assert!(!is_mp3(&[0xFF, 0x1B]));
    let mut engine = AudioEngine::new();
    assert_eq!(engine.submit(b"ID3\x04\x00"), Ok(AudioFormat::Mp3));
}

#[test]
fn wav_errors_name_the_problem() {
    assert_eq!(parse_wav(b"not a wav").err(), Some(AudioError::NotWav));
    let mut eight_bit = sine_wav(4, 8000);
    eight_bit[34] = 8;
    assert_eq!(parse_wav(&eight_bit).err(), Some(AudioError::UnsupportedBitDepth(8)));
    let mut float = sine_wav(4, 8000);
    float[20] = 3;
    assert_eq!(parse_wav(&float).err(), Some(AudioError::UnsupportedFormat(3)));
    let mut no_rate = sine_wav(4, 8000);
    no_rate[24..28].copy_from_slice(&0u32.to_le_bytes());
    assert_eq!(parse_wav(&no_rate).err(), Some(AudioError::ZeroChannelsOrRate));
    let header_only = sine_wav(0, 8000)[..36].to_vec();
    assert_eq!(parse_wav(&header_only).err(), Some(AudioError::MissingChunk));
}

#[test]
fn volume_is_clamped_and_scales_toward_zero() {
    let mut engine = AudioEngine::new();
    engine.set_volume(250);
    assert_eq!(engine.volume(), 100);
    engine.set_volume(33);
    engine.queue_decoded(vec![-100, 100, 3, -3]).unwrap();
    assert_eq!(engine.pull_samples(2), vec![-33, 33, 0, 0]);
}

#[test]
fn underflow_gives_nothing_and_overflow_drops_the_oldest() {
    let mut engine = AudioEngine::new();
    engine.queue_decoded(vec![1, 2]).unwrap();
    assert_eq!(engine.pull_samples(4), vec![1, 2]);
    assert!(engine.pull_samples(4).is_empty());

    let mut full = AudioEngine::new();
    let mut samples = vec![0i16; MAX_QUEUED_SAMPLES];
    samples[2] = 5;
    full.queue_decoded(samples).unwrap();
    full.queue_decoded(vec![9, 9]).unwrap();
    assert_eq!(full.pull_samples(1), vec![5, 0]);
}

#[test]
fn resampling_blends_neighbouring_frames_and_feeds_mono_to_both_sides() {
    // Two mono frames at 1 Hz resampled to 2 Hz: the middle frame is the
    // average, and full scale is written back at 32767 steps.
    let output = resample_to_stereo(&[0, 16384], 1, 1, 2);
    assert_eq!(output, vec![0, 0, 8191, 8191, 16383, 16383, 16383, 16383]);
    // Stereo input keeps its channels apart.
    let stereo = resample_to_stereo(&[100, -100, 200, -200], 2, 1, 1);
    assert_eq!(stereo, vec![99, -99, 199, -199]);
    assert!(resample_to_stereo(&[], 1, 8000, 44_100).is_empty());
    assert!(resample_to_stereo(&[1, 2], 0, 8000, 44_100).is_empty());
}

#[test]
fn queued_audio_stays_in_whole_frames_and_diagnostics_report_it() {
    let mut engine = AudioEngine::new();
    engine.queue_decoded(vec![3, -4, 5]).unwrap();
    let diagnostics = engine.diagnostics();
    assert_eq!(diagnostics.queued_samples, 2);
    assert_eq!(diagnostics.sum_squares, 25);
    assert_eq!(diagnostics.decoded_frames, 1);
    assert_eq!(diagnostics.sample_rate, AUDIO_SAMPLE_RATE);
    assert_eq!(diagnostics.channels, 2);
    let mut other = AudioEngine::new();
    other.queue_decoded(vec![3, -4]).unwrap();
    assert_eq!(other.diagnostics().pcm_crc32, diagnostics.pcm_crc32);
    assert_ne!(AudioEngine::new().diagnostics().pcm_crc32, diagnostics.pcm_crc32);
}

#[test]
fn play_bytes_queues_resampled_wav_and_refuses_other_data() {
    let wav = sine_wav(100, 8000);
    let mut engine = AudioEngine::new();
    engine.play_bytes(&wav).unwrap();
    let pcm = parse_wav(&wav).unwrap();
    let expected = resample_to_stereo(&pcm.samples, 1, 8000, AUDIO_SAMPLE_RATE);
    let diagnostics = engine.diagnostics();
    assert_eq!(diagnostics.queued_samples, expected.len() as u64);
    assert_eq!(diagnostics.decoded_frames, expected.len() as u64 / 2);
    assert_eq!(diagnostics.submitted_bytes, wav.len() as u64);
    assert_eq!(engine.state(), 1);

    let mut refused = AudioEngine::new();
    assert_eq!(refused.play_bytes(b"not audio"), Err(AudioError::Unrecognized));
    assert_eq!(refused.diagnostics().rejected_writes, 1);
    assert_eq!(refused.play_bytes(b"ID3\x04\x00"), Err(AudioError::Mp3Unsupported));
    assert_eq!(refused.diagnostics().rejected_writes, 1);
    let mut broken = sine_wav(4, 8000);
    broken[34] = 8;
    assert_eq!(refused.play_bytes(&broken), Err(AudioError::UnsupportedBitDepth(8)));
    assert_eq!(refused.state(), 0);
    assert_eq!(refused.diagnostics().queued_samples, 0);
}

#[test]
fn diagnostics_are_deterministic_and_reject_unknown_data() {
    let wav = sine_wav(300, 8000);
    let mut first = AudioEngine::new();
    first.play_bytes(&wav).unwrap();
    first.pull_samples(100);
    let mut second = AudioEngine::new();
    second.play_bytes(&wav).unwrap();
    second.pull_samples(100);
    assert_eq!(first.diagnostics(), second.diagnostics());
    assert!(first.diagnostics().nonzero_samples > 0);

    let mut rejected = AudioEngine::new();
    assert!(rejected.play_bytes(b"not audio").is_err());
    assert_eq!(rejected.diagnostics().rejected_writes, 1);
}
