use carcetti::binary64::Binary64;
use carcetti::config::VideoConfig;
use carcetti::log::log_entry;
use carcetti::processing::{
    after_clips, drains_on, input_file, keep_temp, melt_step, output_file, task_step, Ellipsis,
    MeltEvent, MeltStep, ProcessAction, ProcessError, ProcessEvent, ProcessStep, Processing,
    TaskEvent, TaskStep,
};
use carcetti::random::{drawn, random_number, RandomError};
use carcetti::tempdir::{directory_name, drawn_directory_name, random_directory_name, TempDir};
use carcetti::ui::state::{UiDirective, UiMessage};
use carcetti::ui::subscriber::Level;
use carcetti::video::clips::Clip;
use carcetti::video_info::sample::{
    decode_planes, decode_samples, ty_is_planar, SampleError, SampleFormat, SampleType, SampleValue,
};
use carcetti::video_info::{
    best_streams, decoder_step, emits, join_results, known_frame_rate, record_volume, resampler_step, route, AudioVolume,
    DecodeError, DecoderStep, ImageMotion, Motions, Rational, ResamplerStep, Route,
};
use std::collections::HashSet;
use std::path::PathBuf;

#[test]
fn the_initial_configuration() {
    let c = VideoConfig::initial();
    assert_eq!(f64::from_bits(c.silence_threshold.bits), 1.0);
    assert_eq!(f64::from_bits(c.silence_degrade.bits), 1.1);
    assert_eq!(c.silence_time, 1_000_000);
    assert_eq!(c.time_limit, 15_000_000);
}

#[test]
fn messages_of_libav_are_forwarded() {
    let m = || Some("m".to_string());
    assert_eq!(log_entry(8, m()), (Level::Error, "m".to_string()));
    assert_eq!(log_entry(16, m()), (Level::Error, "m".to_string()));
    assert_eq!(log_entry(24, m()), (Level::Warn, "m".to_string()));
    assert_eq!(log_entry(32, m()), (Level::Info, "m".to_string()));
    assert_eq!(log_entry(40, m()), (Level::Debug, "m".to_string()));
    assert_eq!(log_entry(48, m()), (Level::Debug, "m".to_string()));
    assert_eq!(log_entry(56, m()), (Level::Trace, "m".to_string()));
    assert_eq!(log_entry(0, m()), (Level::Error, "unknown level: m".to_string()));
    assert_eq!(log_entry(16, None), (Level::Error, "FFMPEG: unknown error".to_string()));
}

#[test]
fn directories_are_numbered() {
    assert_eq!(directory_name(0), "carcetti-0");
    assert_eq!(directory_name(u64::MAX), "carcetti-18446744073709551615");
    let name = random_directory_name().unwrap();
    let number: u64 = name.strip_prefix("carcetti-").unwrap().parse().unwrap();
    assert_eq!(directory_name(number), name);
    assert_ne!(random_directory_name().unwrap(), name);
}

#[test]
fn random_numbers_differ() {
    // the bytes of the number are filled: two draws do not both stay at zero
    let a = random_number().unwrap();
    let b = random_number().unwrap();
    assert_ne!(a, b);
}

#[test]
fn a_failed_draw_is_reported() {
    let error = getrandom::Error::UNSUPPORTED;
    assert_eq!(drawn(Ok(()), 42).unwrap(), 42);
    let RandomError::Source(e) = drawn(Err(error), 42).unwrap_err();
    assert_eq!(e, error);
    assert_eq!(drawn_directory_name(Ok(42)).unwrap(), "carcetti-42");
    let RandomError::Source(e) = drawn_directory_name(Err(RandomError::Source(error))).unwrap_err();
    assert_eq!(e, error);
}

#[test]
fn directories_are_removed_once() {
    let mut d = TempDir::at(PathBuf::from("/tmp/x"));
    assert_eq!(d.path(), &PathBuf::from("/tmp/x"));
    assert!(d.needs_removal());
    assert_eq!(d.delete(), &PathBuf::from("/tmp/x"));
    assert!(!d.needs_removal());
    assert_eq!(d.path(), &PathBuf::from("/tmp/x"));
}

#[test]
fn files_come_from_the_arguments() {
    let a = PathBuf::from("a");
    let b = PathBuf::from("b");
    assert_eq!(input_file(Some(a.clone())), Ok(a.clone()));
    assert_eq!(input_file(None), Err(ProcessError::NoInputFile));
    assert_eq!(output_file(Some(a.clone()), Some(b.clone())), Ok(a));
    assert_eq!(output_file(None, Some(b.clone())), Ok(b));
    assert_eq!(output_file(None, None), Err(ProcessError::NoOutputPath));
    assert_eq!(ProcessError::NoInputFile.message(), "Please provide an input file");
    assert_eq!(ProcessError::NoOutputPath.message(), "Please provide a video output path");
    assert_eq!(ProcessError::UserStop.message(), "User requested stop");
    assert_eq!(ProcessError::UserExit.message(), "User requested exit");
}

#[test]
fn the_directory_is_kept_on_request() {
    let args = |a: &[&str]| a.iter().map(|s| s.to_string()).collect::<Vec<String>>();
    assert!(keep_temp(&args(&["carcetti", "in", "--keep-temp"])));
    assert!(!keep_temp(&args(&["carcetti", "in", "--keep-temp-not"])));
    assert!(!keep_temp(&args(&[])));
}

#[test]
fn the_user_decides_what_comes_after_the_clips() {
    let c = VideoConfig::initial();
    assert_eq!(after_clips(UiMessage::Halt), ProcessStep::Stop);
    assert_eq!(after_clips(UiMessage::RerunVideoProcess(c)), ProcessStep::Again(c));
    assert_eq!(after_clips(UiMessage::GoForIt), ProcessStep::Render);
}

fn some_clips(n: i64) -> Vec<Clip> {
    (0..n).map(|i| Clip { start: i, end: i, priority: Binary64::zero() }).collect()
}

fn clipped(n: i64) -> ProcessEvent {
    ProcessEvent::Clipped { clips: some_clips(n), indices: HashSet::from([0]) }
}

fn answered(message: UiMessage, active: usize) -> ProcessEvent {
    ProcessEvent::Answered { message, active: HashSet::from([active]) }
}

fn shows(action: Option<ProcessAction>, n: i64, with: VideoConfig) {
    match action {
        Some(ProcessAction::Show(UiDirective::Clips { clips, indices, config })) => {
            assert_eq!(clips, some_clips(n));
            assert_eq!(indices, HashSet::from([0]));
            assert_eq!(config, with);
        }
        _ => panic!("no clips"),
    }
}

#[test]
fn each_round_has_its_own_configuration() {
    let first = VideoConfig::initial();
    let second = VideoConfig { time_limit: 7, ..first };
    let third = VideoConfig { silence_time: 8, ..first };
    let (mut p, action) = Processing::start();
    assert!(matches!(action, ProcessAction::Cut(c) if c == first));
    shows(p.step(clipped(1)), 1, first);
    let action = p.step(answered(UiMessage::RerunVideoProcess(second), 5));
    assert!(matches!(action, Some(ProcessAction::Cut(c)) if c == second));
    shows(p.step(clipped(2)), 2, second);
    let action = p.step(answered(UiMessage::RerunVideoProcess(third), 5));
    assert!(matches!(action, Some(ProcessAction::Cut(c)) if c == third));
    shows(p.step(clipped(3)), 3, third);
    match p.step(answered(UiMessage::GoForIt, 2)) {
        Some(ProcessAction::Render { clips, active }) => {
            assert_eq!(clips, some_clips(3));
            assert_eq!(active, HashSet::from([2]));
        }
        _ => panic!("no video"),
    }
    assert!(matches!(p.step(ProcessEvent::Rendered), Some(ProcessAction::ReadArguments)));
    let action = p.step(ProcessEvent::Arguments(vec!["--keep-temp".to_string()]));
    assert!(matches!(action, Some(ProcessAction::Keep)));
    assert!(p.step(clipped(1)).is_none());
}

#[test]
fn a_halt_makes_no_video() {
    let (mut p, _) = Processing::start();
    assert!(p.step(ProcessEvent::Rendered).is_none());
    shows(p.step(clipped(1)), 1, VideoConfig::initial());
    assert!(p.step(clipped(2)).is_none());
    assert!(p.step(ProcessEvent::Arguments(vec![])).is_none());
    let action = p.step(answered(UiMessage::Halt, 0));
    assert!(matches!(action, Some(ProcessAction::ReadArguments)));
    assert!(p.step(answered(UiMessage::GoForIt, 0)).is_none());
    let action = p.step(ProcessEvent::Arguments(vec!["in".to_string()]));
    assert!(matches!(action, Some(ProcessAction::Remove)));
}

#[test]
fn only_a_halt_breaks_a_task_off() {
    assert_eq!(task_step(TaskEvent::Done), TaskStep::Return);
    assert_eq!(task_step(TaskEvent::Message(Some(UiMessage::Halt))), TaskStep::Abort);
    assert_eq!(task_step(TaskEvent::Message(Some(UiMessage::GoForIt))), TaskStep::Wait);
    assert_eq!(task_step(TaskEvent::Message(None)), TaskStep::Wait);
}

#[test]
fn melt_is_watched() {
    assert_eq!(melt_step(MeltEvent::Exited), MeltStep::Drain);
    assert_eq!(melt_step(MeltEvent::Message(UiMessage::Halt)), MeltStep::Kill);
    assert_eq!(melt_step(MeltEvent::Message(UiMessage::GoForIt)), MeltStep::Wait);
    assert_eq!(melt_step(MeltEvent::Output), MeltStep::LogOutput);
    assert_eq!(melt_step(MeltEvent::ErrorOutput), MeltStep::LogError);
    assert!(drains_on(true, &"line".to_string()));
    assert!(!drains_on(true, &String::new()));
    assert!(!drains_on(false, &"line".to_string()));
}

#[test]
fn dots_go_round() {
    let mut e = Ellipsis::new("Loading");
    let shown: Vec<String> = (0..5).map(|_| e.update()).collect();
    assert_eq!(shown, vec!["Loading...", "Loading.", "Loading..", "Loading...", "Loading."]);
}

#[test]
fn packets_go_to_their_decoder() {
    assert_eq!(route(2, 2, 5), Route::Video);
    assert_eq!(route(5, 2, 5), Route::Audio);
    assert_eq!(route(3, 2, 5), Route::Skip);
    assert_eq!(route(2, 2, 2), Route::Video);
    assert!(emits(0));
    assert!(emits(3000));
    assert!(!emits(999));
    assert_eq!(decoder_step(true), DecoderStep::Feed);
    assert_eq!(decoder_step(false), DecoderStep::Finish);
    assert_eq!(resampler_step(true), ResamplerStep::Flush);
    assert_eq!(resampler_step(false), ResamplerStep::Next);
}

#[test]
fn a_recording_has_pictures_and_sound() {
    assert_eq!(best_streams(Some(3), Some(1)), Ok((3, 1)));
    assert_eq!(best_streams(None, Some(1)), Err(DecodeError::NoVideoStream));
    assert_eq!(best_streams(Some(3), None), Err(DecodeError::NoAudioStream));
    assert_eq!(best_streams(None, None), Err(DecodeError::NoVideoStream));
    let rate = Rational { numerator: 30000, denominator: 1001 };
    assert_eq!(known_frame_rate(Some(rate)), Ok(rate));
    assert_eq!(known_frame_rate(None), Err(DecodeError::NoFrameRate));
}

#[test]
fn failed_decoders_have_found_nothing() {
    let results = vec![Some(vec![1, 2]), None, Some(vec![]), Some(vec![3])];
    assert_eq!(join_results(results), vec![1, 2, 3]);
    assert_eq!(join_results::<u8>(vec![None]), vec![]);
    assert_eq!(join_results::<u8>(vec![]), vec![]);
}

#[test]
fn pictures_are_recorded() {
    let mut m = Motions::new();
    assert_eq!(m.record(2, 1, vec![1, 2, 3, 4, 5, 6], Some(7)), Ok(()));
    assert_eq!(m.motions, vec![ImageMotion { timestamp: 7 }]);
    assert_eq!(m.last_image, Some(vec![1, 2, 3, 4, 5, 6]));
    // too few pixels: nothing changes
    assert_eq!(m.record(2, 1, vec![1, 2, 3, 4, 5], Some(8)), Err(DecodeError::NoImage));
    assert_eq!(m.last_image, Some(vec![1, 2, 3, 4, 5, 6]));
    // no time: the pixels are kept
    assert_eq!(m.record(1, 1, vec![9, 9, 9, 9], None), Err(DecodeError::NoTimestamp));
    assert_eq!(m.last_image, Some(vec![9, 9, 9, 9]));
    assert_eq!(m.motions.len(), 1);
    assert_eq!(m.record(u32::MAX, u32::MAX, vec![0], Some(1)), Err(DecodeError::NoImage));
}

#[test]
fn sound_is_recorded() {
    let mut v: Vec<AudioVolume> = vec![];
    let peak = Binary64::from_bits(0.5f64.to_bits());
    assert_eq!(record_volume(&mut v, Some(3), peak), Ok(()));
    assert_eq!(record_volume(&mut v, None, peak), Err(DecodeError::NoTimestamp));
    assert_eq!(v, vec![AudioVolume { timestamp: 3, average_volume: peak }]);
}

#[test]
fn errors_of_decoding_have_messages() {
    assert_eq!(DecodeError::NoVideoStream.message(), "No video stream found");
    assert_eq!(DecodeError::NoAudioStream.message(), "No audio stream found");
    assert_eq!(DecodeError::NoFrameRate.message(), "Could not get video frame rate");
    assert_eq!(DecodeError::NoImage.message(), "Failed to create RGB image");
    assert_eq!(DecodeError::NoTimestamp.message(), "Failed to get timestamp");
    assert_eq!(SampleError::NoFormat.message(), "Cannot decode samples of type `None`");
}

fn bytes_of<T, const N: usize>(values: &[T], f: impl Fn(&T) -> [u8; N]) -> Vec<u8> {
    values.iter().flat_map(|v| f(v)).collect()
}

#[test]
fn samples_are_decoded() {
    let p = SampleType::Packed;
    assert_eq!(
        decode_samples(&[0, 128, 255], SampleFormat::U8(p)).unwrap(),
        vec![SampleValue::Unsigned8(0), SampleValue::Unsigned8(128), SampleValue::Unsigned8(255)]
    );
    let ints = [0i16, 1, -1, 258, i16::MIN, i16::MAX];
    assert_eq!(
        decode_samples(&bytes_of(&ints, |v| v.to_ne_bytes()), SampleFormat::I16(p)).unwrap(),
        ints.iter().map(|v| SampleValue::Signed16(*v)).collect::<Vec<_>>()
    );
    let ints = [0i32, 1, -1, 16_909_060, i32::MIN, i32::MAX];
    assert_eq!(
        decode_samples(&bytes_of(&ints, |v| v.to_ne_bytes()), SampleFormat::I32(p)).unwrap(),
        ints.iter().map(|v| SampleValue::Signed32(*v)).collect::<Vec<_>>()
    );
    let ints = [0i64, 1, -1, 72_623_859_790_382_856, i64::MIN, i64::MAX];
    assert_eq!(
        decode_samples(&bytes_of(&ints, |v| v.to_ne_bytes()), SampleFormat::I64(p)).unwrap(),
        ints.iter().map(|v| SampleValue::Signed64(*v)).collect::<Vec<_>>()
    );
    let reals = [0.0f32, 1.5, -2.25];
    assert_eq!(
        decode_samples(&bytes_of(&reals, |v| v.to_ne_bytes()), SampleFormat::F32(p)).unwrap(),
        reals.iter().map(|v| SampleValue::Single(v.to_bits())).collect::<Vec<_>>()
    );
    let reals = [0.0f64, 1.1, -2.25];
    assert_eq!(
        decode_samples(&bytes_of(&reals, |v| v.to_ne_bytes()), SampleFormat::F64(p)).unwrap(),
        reals.iter().map(|v| SampleValue::Double(v.to_bits())).collect::<Vec<_>>()
    );
}

#[test]
fn there_are_as_many_samples_as_fit() {
    let f = SampleFormat::I32(SampleType::Planar);
    assert_eq!(decode_samples(&[0; 11], f).unwrap().len(), 2);
    assert_eq!(decode_samples(&[0; 3], f).unwrap().len(), 0);
    assert_eq!(decode_samples(&[], f).unwrap().len(), 0);
    assert_eq!(decode_samples(&[0; 12], f).unwrap().len(), 3);
}

#[test]
fn samples_need_a_format() {
    assert_eq!(decode_samples(&[1], SampleFormat::Unknown), Err(SampleError::NoFormat));
    assert!(ty_is_planar(&SampleType::Planar));
    assert!(!ty_is_planar(&SampleType::Packed));
}

#[test]
fn planes_are_decoded_one_after_the_other() {
    let planes = vec![vec![1, 2, 3, 4], vec![5], vec![6, 7]];
    let f = SampleFormat::U8(SampleType::Planar);
    assert_eq!(
        decode_planes(&planes, 2, f),
        vec![
            SampleValue::Unsigned8(1),
            SampleValue::Unsigned8(2),
            SampleValue::Unsigned8(6),
            SampleValue::Unsigned8(7)
        ]
    );
    assert_eq!(decode_planes(&planes, 2, SampleFormat::Unknown), vec![]);
    assert_eq!(decode_planes(&vec![], 2, f), vec![]);
}
