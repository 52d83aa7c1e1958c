use carcetti::binary64::Binary64;
use carcetti::random::RandomError;
use carcetti::sort_clips::{can_sort, sort_clips};
use carcetti::video::clips::{
    can_clip, clip_video, drawn_clips, prioritize_clips, Clip, ClipError, ClipVideoError, Clipset,
    UnprioritizedClip,
};
use carcetti::video::{Frame, Video, Volume};
use carcetti::video_info::{AudioVolume, ImageMotion, Rational, VideoInfo};

fn b(x: f64) -> Binary64 {
    Binary64::from_bits(x.to_bits())
}

fn raw(start: i64, end: i64, relatively_silent: bool) -> UnprioritizedClip {
    UnprioritizedClip { start, end, relatively_silent }
}

fn clip(start: i64, end: i64, priority: f64) -> Clip {
    Clip { start, end, priority: b(priority) }
}

fn video(volumes: &[(i64, f64)], frames: &[i64]) -> Video {
    Video {
        volumes: volumes
            .iter()
            .map(|v| Volume { microseconds: v.0, max_amplitude: b(v.1) })
            .collect(),
        frames: frames.iter().map(|f| Frame { microseconds: *f }).collect(),
        width: 640,
        height: 480,
        fps: b(30.0),
    }
}

fn set(clips: Vec<UnprioritizedClip>) -> Clipset {
    Clipset { clips }
}

fn tiles(clips: &[UnprioritizedClip], lo: i64, hi: i64) {
    assert_eq!(clips[0].start, lo);
    assert_eq!(clips[clips.len() - 1].end, hi);
    for pair in clips.windows(2) {
        assert_eq!(pair[0].end + 1, pair[1].start);
    }
    assert_eq!(clips.iter().map(|c| c.len()).sum::<i64>(), hi - lo + 1);
}

#[test]
fn a_new_clipset_is_one_silent_clip() {
    assert_eq!(Clipset::new(3, 9).into_clips(), vec![raw(3, 9, true)]);
}

#[test]
fn clips_know_their_length_and_range() {
    let c = raw(10, 19, false);
    assert_eq!(c.len(), 10);
    assert!(c.contains(10));
    assert!(c.contains(19));
    assert!(!c.contains(9));
    assert!(!c.contains(20));
    assert_eq!(clip(10, 19, 0.5).len(), 10);
    assert!(clip(10, 9, 0.5).is_wf());
    assert!(!clip(10, 8, 0.5).is_wf());
    assert!(!clip(i64::MIN, i64::MAX, 0.5).is_wf());
}

#[test]
fn merging_keeps_the_first_kind() {
    let mut c = raw(0, 9, true);
    c.merge_from(raw(10, 99, false));
    assert_eq!(c, raw(0, 99, true));
    let mut c = raw(50, 49, true);
    c.merge_from(raw(0, 99, false));
    assert_eq!(c, raw(50, 99, false));
}

#[test]
fn splitting_cuts_the_clip_that_contains_the_time() {
    let mut s = Clipset::new(0, 99);
    assert_eq!(s.split(40, false), Ok(()));
    assert_eq!(s.split(70, true), Ok(()));
    assert_eq!(s.split(0, false), Ok(()));
    tiles(&s.clips, 0, 99);
    assert_eq!(
        s.into_clips(),
        vec![raw(0, -1, true), raw(0, 39, false), raw(40, 69, false), raw(70, 99, true)]
    );
}

#[test]
fn splitting_takes_the_last_clip_that_contains_the_time() {
    let mut s = set(vec![raw(0, 9, true), raw(5, 9, false)]);
    assert_eq!(s.split(7, true), Ok(()));
    assert_eq!(s.into_clips(), vec![raw(0, 9, true), raw(5, 6, false), raw(7, 9, true)]);
}

#[test]
fn splitting_outside_is_an_error() {
    let mut s = Clipset::new(0, 99);
    assert_eq!(s.split(100, true), Err(ClipError::NotInAnyClip { time: 100 }));
    assert_eq!(s.split(-1, true), Err(ClipError::NotInAnyClip { time: -1 }));
    assert_eq!(s.into_clips(), vec![raw(0, 99, true)]);
    assert_eq!(
        ClipError::NotInAnyClip { time: 100 }.message(),
        "time 100 is not in any clip"
    );
}

#[test]
fn small_pairs_are_merged() {
    // 749 999 microseconds together are merged, 750 000 are not
    let mut s = set(vec![raw(0, 399_999, false), raw(400_000, 749_998, true)]);
    assert_eq!(s.merge_and_split_clips(), Ok(()));
    assert_eq!(s.into_clips(), vec![raw(0, 749_998, false)]);
    let mut s = set(vec![raw(0, 399_999, false), raw(400_000, 749_999, true)]);
    assert_eq!(s.merge_and_split_clips(), Ok(()));
    assert_eq!(s.into_clips(), vec![raw(0, 399_999, false), raw(400_000, 749_999, true)]);
}

#[test]
fn very_short_clips_are_merged() {
    let mut s = set(vec![raw(0, 99_998, true), raw(99_999, 9_999_999, false)]);
    assert_eq!(s.merge_and_split_clips(), Ok(()));
    assert_eq!(s.into_clips(), vec![raw(0, 4_999_999, true), raw(5_000_000, 9_999_999, true)]);
    let mut s = set(vec![raw(0, 99_999, true), raw(100_000, 9_999_999, false)]);
    assert_eq!(s.merge_and_split_clips(), Ok(()));
    assert_eq!(s.into_clips(), vec![raw(0, 99_999, true), raw(100_000, 9_999_999, false)]);
}

#[test]
fn a_clip_takes_in_one_other_at_most() {
    let mut s = set(vec![raw(0, 9, true), raw(10, 19, false), raw(20, 29, false)]);
    assert_eq!(s.merge_and_split_clips(), Ok(()));
    assert_eq!(s.into_clips(), vec![raw(0, 19, true), raw(20, 29, false)]);
}

#[test]
fn a_long_silence_at_the_end_is_split_up() {
    let mut s = set(vec![raw(0, 12_000_000, true)]);
    assert_eq!(s.merge_and_split_clips(), Ok(()));
    tiles(&s.clips, 0, 12_000_000);
    assert_eq!(
        s.into_clips(),
        vec![
            raw(0, 4_999_999, true),
            raw(5_000_000, 9_999_999, true),
            raw(10_000_000, 12_000_000, true)
        ]
    );
}

#[test]
fn a_long_silence_before_noise_is_split_up() {
    let mut s = Clipset::new(0, 13_999_999);
    assert_eq!(s.split(12_000_000, false), Ok(()));
    assert_eq!(s.merge_and_split_clips(), Ok(()));
    assert_eq!(
        s.into_clips(),
        vec![
            raw(0, 4_999_999, true),
            raw(5_000_000, 9_999_999, true),
            raw(10_000_000, 11_999_999, true),
            raw(12_000_000, 13_999_999, false)
        ]
    );
}

#[test]
fn noise_is_not_split_up() {
    let all = vec![raw(0, 999_999, true), raw(1_000_000, 29_999_999, false)];
    let mut s = set(all.clone());
    assert_eq!(s.merge_and_split_clips(), Ok(()));
    assert_eq!(s.into_clips(), all);
}

#[test]
fn five_seconds_are_not_split_up() {
    let mut s = set(vec![raw(0, 4_999_999, true)]);
    assert_eq!(s.merge_and_split_clips(), Ok(()));
    assert_eq!(s.into_clips(), vec![raw(0, 4_999_999, true)]);
}

#[test]
fn recordings_are_cut_at_noises_and_long_silences() {
    let v = video(
        &[
            (0, 0.1),
            (1_000_000, 0.9),
            (1_500_000, 0.9),
            (2_000_000, 0.1),
            (2_600_000, 0.1),
            (5_000_000, 0.8),
        ],
        &[-10, 6_000_000],
    );
    let silences = vec![1_000_000; 7];
    let s = Clipset::initial_clipset(&v, b(0.5), &silences).unwrap();
    assert_eq!(
        s.clips,
        vec![
            raw(-10, 999_999, true),
            raw(1_000_000, 2_599_999, false),
            raw(2_600_000, 4_999_999, true),
            raw(5_000_000, 6_000_000, false)
        ]
    );
    tiles(&s.clips, -10, 6_000_000);
}

#[test]
fn a_silence_has_to_be_longer_than_the_standard() {
    let v = video(&[(0, 0.9), (1_000_000, 0.1), (1_000_001, 0.1)], &[2_000_000]);
    let s = Clipset::initial_clipset(&v, b(0.5), &vec![1_000_000; 4]).unwrap();
    assert_eq!(
        s.clips,
        vec![raw(0, -1, true), raw(0, 1_000_000, false), raw(1_000_001, 2_000_000, true)]
    );
}

#[test]
fn a_long_noise_lowers_the_standard() {
    // the third sample comes one second after the first: the standard is lowered once
    let volumes = [(0, 0.9), (500_000, 0.9), (1_000_000, 0.9), (1_600_000, 0.1)];
    let v = video(&volumes, &[3_000_000]);
    let s = Clipset::initial_clipset(&v, b(0.5), &vec![1_000_000, 500_000, 1, 1, 1]).unwrap();
    assert_eq!(
        s.clips,
        vec![raw(0, -1, true), raw(0, 1_599_999, false), raw(1_600_000, 3_000_000, true)]
    );
    let s = Clipset::initial_clipset(&v, b(0.5), &vec![1_000_000; 5]).unwrap();
    assert_eq!(s.clips, vec![raw(0, -1, true), raw(0, 3_000_000, false)]);
}

#[test]
fn nothing_is_below_a_threshold_that_is_not_a_number() {
    let v = video(&[(0, 0.1), (5_000_000, 0.0)], &[]);
    let s = Clipset::initial_clipset(&v, b(f64::NAN), &vec![1; 3]).unwrap();
    assert_eq!(s.clips, vec![raw(0, -1, true), raw(0, 5_000_000, false)]);
}

#[test]
fn an_empty_recording_has_no_range() {
    let v = video(&[], &[]);
    assert!(!can_clip(&v));
    let s = Clipset::initial_clipset(&v, b(0.5), &vec![1]).unwrap();
    assert_eq!(s.clips, vec![raw(i64::MAX, i64::MIN, true)]);
}

#[test]
fn noise_and_silence_alternate() {
    let volumes: Vec<(i64, f64)> = (0..400)
        .map(|i| (i * 100_000, if (i / 17) % 3 == 0 { 0.9 } else { 0.1 }))
        .collect();
    let v = video(&volumes, &[]);
    let s = Clipset::initial_clipset(&v, b(0.5), &vec![1_000_000; 401]).unwrap();
    tiles(&s.clips, 0, 39_900_000);
    assert!(s.clips.len() > 4);
    for (i, c) in s.clips.iter().enumerate() {
        assert_eq!(c.relatively_silent, i % 2 == 0);
    }
}

#[test]
fn clipping_covers_the_whole_recording() {
    let volumes: Vec<(i64, f64)> = (0..600)
        .map(|i| (i * 70_000, if (i / 13) % 4 == 1 { 0.9 } else { 0.1 }))
        .collect();
    let v = video(&volumes, &[42_000_000]);
    assert!(can_clip(&v));
    let silences = vec![300_000; 601];
    let (clips, seed) = clip_video(&v, b(0.5), &silences).unwrap();
    tiles(&clips, 0, 42_000_000);
    assert!(clips.iter().all(|c| !c.relatively_silent || c.len() <= 5_000_000));
    assert_eq!(clips, Clipset::of(&v, b(0.5), &silences).unwrap().into_clips());
    let (again, other) = v.make_clips(b(0.5), &silences).unwrap();
    assert_eq!(clips, again);
    // two draws of sixty-four random bits
    assert_ne!(seed, other);
}

#[test]
fn the_seed_is_the_one_that_was_drawn() {
    let clips = vec![raw(0, 9, true)];
    assert_eq!(drawn_clips(clips.clone(), Ok(42)).unwrap(), (clips.clone(), 42));
    let error = getrandom::Error::UNSUPPORTED;
    match drawn_clips(clips, Err(RandomError::Source(error))) {
        Err(ClipVideoError::Random(RandomError::Source(e))) => assert_eq!(e, error),
        _ => panic!("no error"),
    }
}

#[test]
fn the_longest_range_can_be_cut() {
    let v = video(&[(0, 0.9), (i64::MAX, 0.1)], &[]);
    assert!(!can_clip(&v));
    let s = Clipset::initial_clipset(&v, b(0.5), &vec![1; 3]).unwrap();
    assert_eq!(
        s.clips,
        vec![raw(0, -1, true), raw(0, i64::MAX - 1, false), raw(i64::MAX, i64::MAX, true)]
    );
}

#[test]
fn ranges_that_cannot_be_counted_are_noticed() {
    assert!(!can_clip(&video(&[(i64::MIN, 0.0)], &[])));
    assert!(!can_clip(&video(&[(-1, 0.0)], &[i64::MAX - 1])));
    assert!(can_clip(&video(&[(0, 0.0)], &[i64::MAX - 1])));
}

#[test]
fn priorities_come_from_the_samples_inside() {
    let v = video(&[(0, 0.1), (10, 0.2), (20, 0.3), (21, 0.4)], &[]);
    let c = raw(10, 20, false);
    assert_eq!(c.amplitudes(&v.volumes), vec![b(0.2), b(0.3)]);
    assert_eq!(c.prioritize(b(0.25)), clip(10, 20, 0.25));
    assert_eq!(
        prioritize_clips(&vec![c, raw(21, 30, true)], &vec![b(1.0), b(2.0)]),
        vec![clip(10, 20, 1.0), clip(21, 30, 2.0)]
    );
}

fn sorted(s: std::collections::HashSet<usize>) -> Vec<usize> {
    let mut v: Vec<usize> = s.into_iter().collect();
    v.sort();
    v
}

#[test]
fn the_best_clips_are_picked() {
    let clips = vec![
        clip(0, 9, 0.3),
        clip(10, 19, 0.9),
        clip(20, 29, -1.0),
        clip(30, 39, 0.5),
        clip(40, 49, 0.7),
    ];
    assert_eq!(sorted(sort_clips(&clips, 25)), vec![1, 3, 4]);
    assert_eq!(sorted(sort_clips(&clips, 20)), vec![1, 4]);
    assert_eq!(sorted(sort_clips(&clips, 1)), vec![1]);
    assert_eq!(sorted(sort_clips(&clips, 50)), vec![0, 1, 2, 3, 4]);
}

#[test]
fn no_time_limit_picks_nothing() {
    let clips = vec![clip(0, 9, 0.3)];
    assert!(sort_clips(&clips, 0).is_empty());
    assert!(sort_clips(&clips, -5).is_empty());
    assert!(sort_clips(&vec![], 0).is_empty());
}

#[test]
fn empty_clips_fill_nothing() {
    let clips = vec![clip(0, 9, 0.3), clip(10, 9, 0.9), clip(10, 19, 0.1)];
    assert_eq!(sorted(sort_clips(&clips, 5)), vec![0, 1]);
}

#[test]
fn many_clips_are_picked_by_priority() {
    let n = 257i64;
    let clips: Vec<Clip> =
        (0..n).map(|i| clip(i * 10, i * 10 + 9, ((i * 101) % n) as f64)).collect();
    let picked = sort_clips(&clips, 1000);
    assert_eq!(picked.len(), 100);
    for (i, c) in clips.iter().enumerate() {
        let p = f64::from_bits(c.priority.bits);
        assert_eq!(picked.contains(&i), p >= (n - 100) as f64);
    }
}

#[test]
fn what_cannot_be_sorted_is_noticed() {
    let clips = vec![clip(0, 9, 0.3), clip(10, 19, 0.9)];
    assert!(can_sort(&clips, 20));
    assert!(!can_sort(&clips, 21));
    assert!(can_sort(&clips, -1));
    assert!(!can_sort(&vec![clip(0, 9, 0.3), clip(10, 19, f64::NAN)], 5));
    assert!(can_sort(&vec![clip(0, 9, f64::NAN)], 5));
    assert!(!can_sort(&vec![clip(0, -5, 0.3)], 0));
    assert!(can_sort(&vec![], 0));
    assert!(!can_sort(&vec![], 1));
}

#[test]
fn a_recording_is_what_was_learned_of_it() {
    let info = VideoInfo {
        video_timebase: Rational { numerator: 1, denominator: 15360 },
        audio_timebase: Rational { numerator: 1, denominator: 48000 },
        frame_motion: vec![ImageMotion { timestamp: 512 }],
        audio_volume: vec![
            AudioVolume { timestamp: 0, average_volume: b(0.5) },
            AudioVolume { timestamp: 1024, average_volume: b(0.25) },
        ],
        width: 320,
        height: 200,
        frame_rate: Rational { numerator: 30, denominator: 1 },
    };
    let v = Video::from_info(&info, &vec![0, 21_333], &vec![33_333], b(30.0));
    assert_eq!(v.volumes.len(), 2);
    assert_eq!(v.volumes[1].microseconds, 21_333);
    assert_eq!(v.volumes[1].max_amplitude, b(0.25));
    assert_eq!(v.volumes[0].max_amplitude, b(0.5));
    assert_eq!(v.frames.len(), 1);
    assert_eq!(v.frames[0].microseconds, 33_333);
    assert_eq!((v.width, v.height, v.fps), (320, 200, b(30.0)));
}
