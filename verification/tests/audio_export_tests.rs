use sfx_board::audio::decoder::{
    audio_format_of_extension, audio_format_of_path, buffer_duration_us, check_mp3_frames,
    decode_mp3_bytes, decode_wav_bytes, wav_int_full_scale, AudioFormat, Mp3Frame,
    Mp3StreamFormat, WavSamples,
};
use sfx_board::audio::mixer::normalize_gain;
use sfx_board::clock::UtcTime;
use sfx_board::export::{
    build_timeline_export, count_usage, format_time, mix_frame_count, mix_start_frame,
    ms_to_frames, project_from_state, EXPORT_SAMPLE_RATE,
};
use sfx_board::models::project::ProjectSettings;
use sfx_board::models::slot::Slot;
use sfx_board::models::timeline::TimelineEvent;

fn event(id: &str, slot_id: &str, time_us: i64, duration_us: i64) -> TimelineEvent {
    TimelineEvent {
        event_id: id.to_string(),
        time_us,
        slot_id: slot_id.to_string(),
        audio_path: "/sfx/door slam.wav".to_string(),
        label: "Door".to_string(),
        shortcut: "Ctrl+D".to_string(),
        gain_milli: 900,
        duration_us,
    }
}

fn slot(id: &str) -> Slot {
    Slot {
        id: id.to_string(),
        position: 0,
        label: "Door".to_string(),
        audio_path: "/sfx/door slam.wav".to_string(),
        image_data_url: None,
        icon_name: None,
        shortcut: "Ctrl+D".to_string(),
        gain_milli: 900,
        duration_us: 500_000,
        color: "#FF6B6B".to_string(),
        created_at_ms: 0,
    }
}

#[test]
fn time_is_formatted_as_minutes_seconds_millis() {
    assert_eq!(format_time(0), "00:00.000");
    assert_eq!(format_time(-5_000), "00:00.000");
    assert_eq!(format_time(61_234_000), "01:01.234");
    assert_eq!(format_time(1_999), "00:00.001");
    assert_eq!(format_time(999), "00:00.000");
    assert_eq!(format_time(5_420_500), "00:05.420");
    assert_eq!(format_time(6_000_000_000), "100:00.000");
}

#[test]
fn frames_are_rounded() {
    assert_eq!(ms_to_frames(1_000_000, 30), 30);
    assert_eq!(ms_to_frames(1_016_667, 30), 31);
    assert_eq!(ms_to_frames(16_666, 30), 0);
    assert_eq!(ms_to_frames(16_667, 30), 1);
    assert_eq!(ms_to_frames(0, 24), 0);
    assert_eq!(ms_to_frames(-2_000_000, 30), 0);
    assert_eq!(EXPORT_SAMPLE_RATE, 44_100);
}

#[test]
fn usage_is_counted_per_slot() {
    let events = vec![event("e1", "a", 0, 1), event("e2", "b", 0, 1), event("e3", "a", 5, 1)];
    assert_eq!(count_usage(&events, &"a".to_string()), 2);
    assert_eq!(count_usage(&events, &"z".to_string()), 0);
}

#[test]
fn timeline_export_describes_events_and_slots() {
    let mut settings = ProjectSettings::default();
    settings.frame_rate = 25;
    let events = vec![event("e1", "a", 2_000_000, 500_000), event("e2", "a", 3_000_000, 500_000)];
    let project = project_from_state(
        "Show",
        UtcTime { secs: 1, nanos: 0 },
        UtcTime { secs: 2, nanos: 0 },
        &settings,
        &vec![slot("a")],
        &events,
        3_500_000,
    );
    let export = build_timeline_export(&project);
    assert_eq!(export.export_version, "1.0.0");
    assert_eq!(export.project_name, "Show");
    assert_eq!(export.frame_rate, 25);
    assert_eq!(export.timeline.total_duration_us, 3_500_000);
    assert_eq!(export.timeline.total_duration_frames, 88);
    assert_eq!(export.timeline.event_count, 2);
    let e = &export.timeline.events[0];
    assert_eq!(e.event_id, "e1");
    assert_eq!(e.time_frames, 50);
    assert_eq!(e.time_formatted, "00:02.000");
    assert_eq!(e.audio_file, "door slam.wav");
    assert_eq!(e.duration_frames, 13);
    assert_eq!(e.gain_milli, 900);
    assert_eq!(export.slots.len(), 1);
    assert_eq!(export.slots[0].usage_count, 2);
    assert_eq!(export.slots[0].audio_file, "door slam.wav");
}

#[test]
fn audio_format_by_extension() {
    assert!(matches!(audio_format_of_extension("WAV"), Ok(AudioFormat::Wav)));
    assert!(matches!(audio_format_of_extension("mP3"), Ok(AudioFormat::Mp3)));
    assert_eq!(
        audio_format_of_extension("OGG").err().unwrap(),
        "unsupported audio format: .ogg"
    );
    assert!(matches!(audio_format_of_path("/x/y.Wav"), Ok(AudioFormat::Wav)));
    assert_eq!(audio_format_of_path("/x/noext").err().unwrap(), "unsupported file type: /x/noext");
}

#[test]
fn decoder_is_picked_by_the_path_extension() {
    assert!(matches!(audio_format_of_path("sounds/boom.MP3"), Ok(AudioFormat::Mp3)));
    assert!(matches!(audio_format_of_path("a.b/take.2.wav"), Ok(AudioFormat::Wav)));
    assert_eq!(
        audio_format_of_path("/x/y.flac").err().unwrap(),
        "unsupported audio format: .flac"
    );
    assert_eq!(
        audio_format_of_path("/x/.hidden").err().unwrap(),
        "unsupported file type: /x/.hidden"
    );
    assert_eq!(
        audio_format_of_path("/x.d/wav").err().unwrap(),
        "unsupported file type: /x.d/wav"
    );
    assert_eq!(audio_format_of_path("x.").err().unwrap(), "unsupported audio format: .");
}

#[test]
fn mp3_frames_must_agree() {
    let mut f = Mp3StreamFormat::new();
    assert_eq!(f.finish("a.mp3").unwrap_err(), "no audio frames found in a.mp3");
    f.accept_frame(44_100, 2, "a.mp3").unwrap();
    f.accept_frame(44_100, 2, "a.mp3").unwrap();
    assert_eq!(f.finish("a.mp3").unwrap(), (44_100, 2));
    assert_eq!(
        f.accept_frame(48_000, 2, "a.mp3").unwrap_err(),
        "unsupported variable sample rate MP3 in a.mp3"
    );
    assert_eq!(
        f.accept_frame(44_100, 1, "a.mp3").unwrap_err(),
        "unsupported variable channel count MP3 in a.mp3"
    );
    assert_eq!(
        Mp3StreamFormat::new().accept_frame(-1, 2, "b.mp3").unwrap_err(),
        "invalid MP3 sample rate in b.mp3"
    );
    assert_eq!(
        Mp3StreamFormat::new().accept_frame(8_000, 70_000, "b.mp3").unwrap_err(),
        "invalid MP3 channel count in b.mp3"
    );
}

#[test]
fn wav_full_scale_by_bit_depth() {
    assert_eq!(wav_int_full_scale(16, "x.wav").unwrap(), 32_767);
    assert_eq!(wav_int_full_scale(24, "x.wav").unwrap(), 8_388_607);
    assert_eq!(wav_int_full_scale(8, "x.wav").unwrap(), 127);
    assert_eq!(wav_int_full_scale(2, "x.wav").unwrap(), 1);
    assert_eq!(wav_int_full_scale(1, "x.wav").unwrap_err(), "invalid WAV bit depth for x.wav");
    assert_eq!(wav_int_full_scale(0, "x.wav").unwrap_err(), "invalid WAV bit depth for x.wav");
    assert_eq!(wav_int_full_scale(64, "x.wav").unwrap(), i64::MAX);
}

#[test]
fn buffer_duration_and_errors() {
    assert_eq!(buffer_duration_us(88_200, 44_100, 2).unwrap(), 1_000_000);
    assert_eq!(buffer_duration_us(1, 3, 1).unwrap(), 333_333);
    assert_eq!(buffer_duration_us(2, 3, 1).unwrap(), 666_667);
    assert_eq!(buffer_duration_us(10, 44_100, 0).unwrap_err(), "audio channels cannot be zero");
    assert_eq!(buffer_duration_us(10, 0, 2).unwrap_err(), "sample rate cannot be zero");
    assert_eq!(buffer_duration_us(0, 44_100, 2).unwrap_err(), "audio file produced no samples");
}

#[test]
fn gain_is_shared_among_simultaneous_sounds() {
    assert_eq!(normalize_gain(1500, 1), 1500);
    assert_eq!(normalize_gain(2500, 0), 2000);
    assert_eq!(normalize_gain(-1, 1), 0);
    assert_eq!(normalize_gain(1000, 4), 500);
    assert_eq!(normalize_gain(2000, 2), 1000);
    assert_eq!(normalize_gain(1000, 2), 707);
    assert_eq!(normalize_gain(1000, 3), 577);
}

#[test]
fn mix_length_and_start_frames() {
    assert_eq!(mix_frame_count(&vec![]), 44_100);
    let events = vec![event("e1", "a", 2_000_000, 500_000), event("e2", "a", 0, 10)];
    assert_eq!(mix_frame_count(&events), 154_350);
    assert_eq!(mix_frame_count(&vec![event("e", "a", 0, 1)]), 44_101);
    assert_eq!(mix_start_frame(1_000_000), 44_100);
    assert_eq!(mix_start_frame(11), 0);
    assert_eq!(mix_start_frame(12), 1);
    assert_eq!(mix_start_frame(-5_000_000), 0);
}

#[test]
fn export_example_event_is_described() {
    let mut settings = ProjectSettings::default();
    settings.frame_rate = 30;
    let mut e = event("uuid-event-1", "a", 5_420_500, 1_250_000);
    e.audio_path = "/audio/explosion.wav".to_string();
    let project = project_from_state(
        "My SFX Session",
        UtcTime { secs: 0, nanos: 0 },
        UtcTime { secs: 0, nanos: 0 },
        &settings,
        &vec![],
        &vec![e],
        6_670_500,
    );
    let x = build_timeline_export(&project);
    let d = &x.timeline.events[0];
    assert_eq!(d.time_frames, 163);
    assert_eq!(d.time_formatted, "00:05.420");
    assert_eq!(d.duration_frames, 38);
    assert_eq!(d.audio_file, "explosion.wav");
}

fn wav_bytes(bits: u16, float: bool, samples: &[i32]) -> Vec<u8> {
    let spec = hound::WavSpec {
        channels: 2,
        sample_rate: 8_000,
        bits_per_sample: bits,
        sample_format: if float { hound::SampleFormat::Float } else { hound::SampleFormat::Int },
    };
    let mut out = std::io::Cursor::new(Vec::new());
    {
        let mut writer = hound::WavWriter::new(&mut out, spec).unwrap();
        for s in samples {
            if float {
                writer.write_sample(*s as f32 / 10.0).unwrap();
            } else {
                writer.write_sample(*s as i16).unwrap();
            }
        }
        writer.finalize().unwrap();
    }
    out.into_inner()
}

#[test]
fn wav_bytes_decode_to_integer_samples_and_scale() {
    let bytes = wav_bytes(16, false, &[1, -2, 300, -32768]);
    let audio = decode_wav_bytes(&bytes, "k.wav").unwrap();
    assert_eq!((audio.channels, audio.sample_rate), (2, 8_000));
    match audio.samples {
        WavSamples::Int { full_scale, samples } => {
            assert_eq!(full_scale, 32_767);
            assert_eq!(samples, vec![1, -2, 300, -32768]);
        }
        WavSamples::Float => panic!("integer file read as float"),
    }
}

#[test]
fn float_wav_is_left_to_the_float_reader() {
    let bytes = wav_bytes(32, true, &[1, 2]);
    let audio = decode_wav_bytes(&bytes, "f.wav").unwrap();
    assert!(matches!(audio.samples, WavSamples::Float));
    assert_eq!(audio.channels, 2);
}

#[test]
fn unreadable_wav_reports_the_path() {
    let err = decode_wav_bytes(b"not a wav file at all", "bad.wav").err().unwrap();
    assert!(err.starts_with("failed to open WAV file bad.wav: "), "{err}");
}

fn frame(rate: i32, channels: usize, data: Vec<i16>) -> Mp3Frame {
    Mp3Frame { sample_rate: rate, channels, data }
}

#[test]
fn mp3_frames_are_joined_when_their_format_agrees() {
    let frames = vec![frame(44_100, 2, vec![1, 2]), frame(44_100, 2, vec![3, 4, 5, 6])];
    assert_eq!(check_mp3_frames(&frames, None, "a.mp3").unwrap(), (44_100, 2, vec![1, 2, 3, 4, 5, 6]));
}

#[test]
fn mp3_frame_checks_come_in_order() {
    let varying = vec![frame(44_100, 2, vec![1]), frame(48_000, 2, vec![2])];
    assert_eq!(
        check_mp3_frames(&varying, Some("IO error: x".to_string()), "a.mp3").err().unwrap(),
        "unsupported variable sample rate MP3 in a.mp3"
    );
    let mono = vec![frame(44_100, 2, vec![1]), frame(44_100, 1, vec![2])];
    assert_eq!(
        check_mp3_frames(&mono, None, "a.mp3").err().unwrap(),
        "unsupported variable channel count MP3 in a.mp3"
    );
    assert_eq!(
        check_mp3_frames(&vec![frame(44_100, 1, vec![1])], Some("IO error: x".to_string()), "a.mp3")
            .err()
            .unwrap(),
        "failed to decode MP3 frame in a.mp3: IO error: x"
    );
    assert_eq!(check_mp3_frames(&vec![], None, "a.mp3").err().unwrap(), "no audio frames found in a.mp3");
}

#[test]
fn mp3_bytes_without_frames_are_refused() {
    assert_eq!(decode_mp3_bytes(&[], "e.mp3").err().unwrap(), "no audio frames found in e.mp3");
    assert_eq!(
        decode_mp3_bytes(&[0u8; 4096], "z.mp3").err().unwrap(),
        "no audio frames found in z.mp3"
    );
}
