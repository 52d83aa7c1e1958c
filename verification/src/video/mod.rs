//! A recording as the clipping works on it: when samples were taken, and how loud they were.

pub mod clips;

use vstd::prelude::*;

use crate::binary64::Binary64;
use crate::video_info::VideoInfo;

verus! {

/// The loudness of the recording at one moment.
#[derive(Debug, Clone, Copy)]
pub struct Volume {
    /// When the sample was taken, in microseconds.
    pub microseconds: i64,
    /// The peak of the sample.
    pub max_amplitude: Binary64,
}

/// A picture of the recording.
#[derive(Debug, Clone, Copy)]
pub struct Frame {
    /// When the picture is shown, in microseconds.
    pub microseconds: i64,
}

/// A decoded recording.
#[derive(Debug, Clone)]
pub struct Video {
    /// The loudness, sample by sample.
    pub volumes: Vec<Volume>,
    /// The pictures.
    pub frames: Vec<Frame>,
    /// Width of a picture.
    pub width: u32,
    /// Height of a picture.
    pub height: u32,
    /// Pictures per second.
    pub fps: Binary64,
}

impl Video {
    /// The recording that `info` describes. `volume_times` and `frame_times` hold, in
    /// microseconds, when the sound and the pictures of `info` belong, and `fps` is its frame
    /// rate as one number.
    pub fn from_info(
        info: &VideoInfo,
        volume_times: &Vec<i64>,
        frame_times: &Vec<i64>,
        fps: Binary64,
    ) -> (r: Video)
        requires
            volume_times@.len() == info.audio_volume@.len(),
            frame_times@.len() == info.frame_motion@.len(),
        ensures
            r.volumes@ == Seq::new(
                info.audio_volume@.len(),
                |i: int|
                    Volume {
                        microseconds: volume_times@[i],
                        max_amplitude: info.audio_volume@[i].average_volume,
                    },
            ),
            r.frames@ == Seq::new(
                info.frame_motion@.len(),
                |i: int| Frame { microseconds: frame_times@[i] },
            ),
            r.width == info.width,
            r.height == info.height,
            r.fps == fps,
    {
        let mut volumes: Vec<Volume> = Vec::new();
        for i in 0..volume_times.len()
            invariant
                volume_times@.len() == info.audio_volume@.len(),
                volumes@.len() == i,
                forall|j: int|
                    0 <= j < i ==> #[trigger] volumes@[j] == (Volume {
                        microseconds: volume_times@[j],
                        max_amplitude: info.audio_volume@[j].average_volume,
                    }),
        {
            volumes.push(
                Volume {
                    microseconds: volume_times[i],
                    max_amplitude: info.audio_volume[i].average_volume,
                },
            );
        }
        let mut frames: Vec<Frame> = Vec::new();
        for i in 0..frame_times.len()
            invariant
                frames@.len() == i,
                forall|j: int|
                    0 <= j < i ==> #[trigger] frames@[j] == (Frame {
                        microseconds: frame_times@[j],
                    }),
        {
            frames.push(Frame { microseconds: frame_times[i] });
        }
        Video { volumes, frames, width: info.width, height: info.height, fps }
    }
}

/// A recording has the loudness and the pictures that were learned of it, all of them and in order,
/// each at the time that was given for it.
pub proof fn a_recording_is_what_was_learned(
    info: VideoInfo,
    volume_times: Vec<i64>,
    frame_times: Vec<i64>,
    fps: Binary64,
    video: Video,
)
    requires
        volume_times@.len() == info.audio_volume@.len(),
        frame_times@.len() == info.frame_motion@.len(),
        call_ensures(Video::from_info, (&info, &volume_times, &frame_times, fps), video),
    ensures
        video.volumes@.len() == info.audio_volume@.len(),
        forall|i: int|
            0 <= i < video.volumes@.len() ==> (#[trigger] video.volumes@[i]).microseconds
                == volume_times@[i] && video.volumes@[i].max_amplitude
                == info.audio_volume@[i].average_volume,
        video.frames@.len() == info.frame_motion@.len(),
        forall|i: int|
            0 <= i < video.frames@.len() ==> (#[trigger] video.frames@[i]).microseconds
                == frame_times@[i],
        video.width == info.width && video.height == info.height && video.fps == fps,
{
}

} // verus!
