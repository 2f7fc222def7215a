use ut::audio::recorder::{
    buffer_frames, capture_reserve, channels_of, finish, frame_count, DeviceSearch,
};
use ut::audio::trim::{
    first_active_sample, last_active_sample, ms_to_samples, trim_leading, trim_silence,
    trim_trailing, windows, Loudness, STEP, WINDOW,
};
use ut::audio::vad::{frames_in, SpeechHold, HANGOVER_FRAMES};
use ut::audio::{encode_wav_bytes, TARGET_CHANNELS, TARGET_SAMPLE_RATE};
use ut::config::RecordingConfig;

fn rms(samples: &[f32]) -> f32 {
    let sum: f32 = samples.iter().map(|sample| sample * sample).sum();
    (sum / samples.len() as f32).sqrt()
}

fn measure(samples: &[f32]) -> Loudness {
    let count = windows(samples.len());
    let loud = |start: usize| rms(&samples[start..start + WINDOW]) > 0.01;
    Loudness {
        active: samples.iter().map(|sample| sample.abs() > 0.005).collect(),
        leading: (0..count).map(|window| loud(window * STEP)).collect(),
        trailing: (0..count).map(|window| loud(samples.len() - WINDOW - window * STEP)).collect(),
    }
}

fn trimmed(samples: &[f32], config: &RecordingConfig) -> Vec<f32> {
    let (from, upto) = trim_silence(&measure(samples), config);
    samples[from..upto].to_vec()
}

fn hundred_ms() -> RecordingConfig {
    RecordingConfig { max_seconds: 29, trim_silence: true, trim_padding_ms: 100 }
}

#[test]
fn encodes_wav_header() {
    let wav = encode_wav_bytes(&[0, 32_767], TARGET_SAMPLE_RATE);
    assert_eq!(&wav[..4], b"RIFF");
    assert_eq!(&wav[8..12], b"WAVE");
    assert_eq!(&wav[12..16], b"fmt ");
    assert_eq!(&wav[36..40], b"data");
}

#[test]
fn encodes_every_byte_of_a_wav_file() {
    let wav = encode_wav_bytes(&[0, 32_767, -2], TARGET_SAMPLE_RATE);
    let mut expected: Vec<u8> = Vec::new();
    expected.extend_from_slice(b"RIFF");
    expected.extend_from_slice(&42u32.to_le_bytes());
    expected.extend_from_slice(b"WAVEfmt ");
    expected.extend_from_slice(&16u32.to_le_bytes());
    expected.extend_from_slice(&1u16.to_le_bytes());
    expected.extend_from_slice(&TARGET_CHANNELS.to_le_bytes());
    expected.extend_from_slice(&16_000u32.to_le_bytes());
    expected.extend_from_slice(&32_000u32.to_le_bytes());
    expected.extend_from_slice(&2u16.to_le_bytes());
    expected.extend_from_slice(&16u16.to_le_bytes());
    expected.extend_from_slice(b"data");
    expected.extend_from_slice(&6u32.to_le_bytes());
    expected.extend_from_slice(&[0, 0, 0xff, 0x7f, 0xfe, 0xff]);
    assert_eq!(wav, expected);
}

#[test]
fn trims_leading_and_trailing_silence() {
    let config = RecordingConfig { max_seconds: 29, trim_silence: true, trim_padding_ms: 100 };

    let mut samples = vec![0.0; 1_000];
    samples.extend(vec![0.2; 1_000]);
    samples.extend(vec![0.0; 1_000]);

    let trimmed = trimmed(&samples, &config);
    assert!(trimmed.len() < samples.len());
    assert!(trimmed.iter().any(|sample| sample.abs() > 0.1));
    // 100 ms are 1600 samples: of less silence than that, half is kept.
    assert_eq!(trimmed, samples[500..2_500]);
}

#[test]
fn padding_is_kept_where_there_is_that_much_silence() {
    let speech = |before: usize, behind: usize| {
        let mut samples = vec![0.0; before];
        samples.extend(vec![0.2; 1_000]);
        samples.extend(vec![0.0; behind]);
        trimmed(&samples, &hundred_ms()).len() - 1_000
    };
    assert_eq!(speech(1_600, 1_600), 3_200);
    assert_eq!(speech(1_601, 5_000), 3_200);
    assert_eq!(speech(1_599, 1), 799);
    assert_eq!(speech(0, 0), 0);

    let narrow = RecordingConfig { trim_padding_ms: 10, ..hundred_ms() };
    let mut samples = vec![0.0; 1_000];
    samples.extend(vec![0.2; 1_000]);
    samples.extend(vec![0.0; 1_000]);
    assert_eq!(trimmed(&samples, &narrow), samples[840..2_160]);
}

#[test]
fn keeps_padding_on_both_sides_of_detected_speech() {
    let sample_rate = TARGET_SAMPLE_RATE as usize;
    let padding_samples = sample_rate / 10;
    let config = hundred_ms();

    let mut samples = vec![0.0; sample_rate / 5];
    samples.extend(vec![0.2; sample_rate / 5]);
    samples.extend(vec![0.0; sample_rate / 5]);

    let trimmed = trimmed(&samples, &config);

    assert!(trimmed.len() > sample_rate / 5);
    assert!(trimmed[..padding_samples].iter().all(|sample| sample.abs() < 0.001));
    assert!(trimmed[trimmed.len() - padding_samples..].iter().all(|sample| sample.abs() < 0.001));
    assert_eq!(trimmed.len(), sample_rate / 5 + 2 * padding_samples);
}

#[test]
fn silence_is_cut_to_nothing_and_short_clips_too() {
    assert!(trimmed(&[0.0; 5_000], &hundred_ms()).is_empty());
    assert!(trimmed(&[0.5; 319], &hundred_ms()).is_empty());
    assert_eq!(trimmed(&[0.5; 320], &hundred_ms()).len(), 320);
    assert!(trimmed(&[], &hundred_ms()).is_empty());
    let off = RecordingConfig { trim_silence: false, ..hundred_ms() };
    assert_eq!(trimmed(&[0.0; 5_000], &off).len(), 5_000);
}

#[test]
fn speech_is_found_by_windows_and_samples() {
    let mut active = vec![false; 700];
    active[350] = true;
    active[400] = true;
    let loudness = Loudness {
        active: active.clone(),
        leading: vec![false, true, false],
        trailing: vec![true, false, false],
    };
    assert_eq!(windows(700), 3);
    assert_eq!(trim_leading(&loudness, 0), 350);
    assert_eq!(trim_leading(&loudness, 100), 250);
    assert_eq!(trim_leading(&loudness, 1_000), 175);
    assert_eq!(trim_trailing(&loudness, 0), 401);
    assert_eq!(trim_trailing(&loudness, 100), 501);
    assert_eq!(trim_trailing(&loudness, 1_000), 550);
    assert_eq!(first_active_sample(&active, 100, 200), 100);
    assert_eq!(last_active_sample(&active, 100, 200), 200);
    assert_eq!(first_active_sample(&active, 100, 500), 350);
    assert_eq!(last_active_sample(&active, 100, 500), 401);
}

#[test]
fn milliseconds_make_samples() {
    assert_eq!(ms_to_samples(500, 16_000), 8_000);
    assert_eq!(ms_to_samples(1, 16_000), 16);
    assert_eq!(ms_to_samples(3, 333), 0);
}

#[test]
fn speech_is_held_for_thirty_frames() {
    let mut hold = SpeechHold::new();
    assert!(!hold.integrate(false));
    assert!(hold.integrate(true));
    for _ in 0..HANGOVER_FRAMES {
        assert!(hold.integrate(false));
    }
    assert!(!hold.integrate(false));
    assert!(hold.integrate(true));
    assert!(hold.integrate(false));
    assert_eq!(SpeechHold::default(), SpeechHold::new());
}

#[test]
fn samples_make_frames() {
    assert_eq!(frames_in(100), (0, 100));
    assert_eq!(frames_in(480), (1, 0));
    assert_eq!(frames_in(48_001), (100, 1));
}

#[test]
fn capture_buffer_has_room() {
    assert_eq!(buffer_frames(48_000, 16, 20_000), 9_600);
    assert_eq!(buffer_frames(48_000, 16, 4_096), 4_096);
    assert_eq!(buffer_frames(8_000, 2_048, 4_096), 2_048);
    assert_eq!(capture_reserve(48_000, 2), 5_760_000);
    assert_eq!(capture_reserve(16_000, 0), 960_000);
    assert_eq!(channels_of(0), 1);
    assert_eq!(channels_of(2), 2);
    assert_eq!(frame_count(7, 2), 3);
    assert_eq!(frame_count(7, 0), 7);
}

#[test]
fn device_search_tells_what_was_tried() {
    let mut search = DeviceSearch::new();
    assert_eq!(search.error(), "failed to find a usable input device: ");
    search.default_failed("mic", "busy");
    search.device_failed("line", "gone");
    assert_eq!(
        search.error(),
        "failed to find a usable input device: default device mic: busy; input device line: gone"
    );
    let mut search = DeviceSearch::new();
    search.no_default();
    assert_eq!(
        search.error(),
        "failed to find a usable input device: no default input device available"
    );
}

#[test]
fn recordings_are_mono_at_the_target_rate() {
    let payload = finish(vec![1, -1]);
    assert_eq!(payload.sample_rate, 16_000);
    assert_eq!(payload.channels, 1);
    assert_eq!(payload.samples, vec![1, -1]);
}
