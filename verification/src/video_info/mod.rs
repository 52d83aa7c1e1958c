//! What is learned from a recording while it is decoded.

pub mod sample;

use image::RgbImage;
use vstd::prelude::*;

use crate::binary64::Binary64;

verus! {

/// A fraction.
#[derive(Debug, Clone, Copy, PartialEq, Eq, Structural)]
pub struct Rational {
    pub numerator: i32,
    pub denominator: i32,
}

/// When a picture is shown, in the time base of the pictures.
#[derive(Debug, Clone, Copy, PartialEq, Eq, Structural)]
pub struct ImageMotion {
    pub timestamp: i64,
}

/// How loud it is at a moment, in the time base of the sound.
#[derive(Debug, Clone, Copy, PartialEq, Eq, Structural)]
pub struct AudioVolume {
    pub timestamp: i64,
    /// The peak of the samples.
    pub average_volume: Binary64,
}

/// What is learned from a recording.
#[derive(Debug)]
pub struct VideoInfo {
    /// How many seconds a unit of time is, for the pictures.
    pub video_timebase: Rational,
    /// How many seconds a unit of time is, for the sound.
    pub audio_timebase: Rational,
    /// The pictures.
    pub frame_motion: Vec<ImageMotion>,
    /// The loudness.
    pub audio_volume: Vec<AudioVolume>,
    /// Width of a picture.
    pub width: u32,
    /// Height of a picture.
    pub height: u32,
    /// Pictures per second.
    pub frame_rate: Rational,
}

/// Why a recording could not be decoded.
#[derive(Debug, Clone, Copy, PartialEq, Eq, Structural)]
pub enum DecodeError {
    /// There are no pictures in it.
    NoVideoStream,
    /// There is no sound in it.
    NoAudioStream,
    /// It is not known how many pictures there are in a second.
    NoFrameRate,
    /// The pixels are too few for a picture.
    NoImage,
    /// It is not known when a picture or a sound belongs.
    NoTimestamp,
}

/// The streams to decode: the best one of pictures and the best one of sound, given by their
/// indices. Both have to be there; the pictures are looked for first.
pub fn best_streams(video: Option<usize>, audio: Option<usize>) -> (r: Result<
    (usize, usize),
    DecodeError,
>)
    ensures
        r == match (video, audio) {
            (Some(v), Some(a)) => Ok::<(usize, usize), DecodeError>((v, a)),
            (None, _) => Err::<(usize, usize), DecodeError>(DecodeError::NoVideoStream),
            (_, None) => Err::<(usize, usize), DecodeError>(DecodeError::NoAudioStream),
        },
{
    match video {
        Some(v) => match audio {
            Some(a) => Ok((v, a)),
            None => Err(DecodeError::NoAudioStream),
        },
        None => Err(DecodeError::NoVideoStream),
    }
}

/// The frame rate that the decoder of the pictures reports. It has to be known.
pub fn known_frame_rate(rate: Option<Rational>) -> (r: Result<Rational, DecodeError>)
    ensures
        r == match rate {
            Some(rate) => Ok::<Rational, DecodeError>(rate),
            None => Err::<Rational, DecodeError>(DecodeError::NoFrameRate),
        },
{
    match rate {
        Some(rate) => Ok(rate),
        None => Err(DecodeError::NoFrameRate),
    }
}

/// Where a packet of the recording goes.
#[derive(Debug, Clone, Copy, PartialEq, Eq, Structural)]
pub enum Route {
    /// To the decoder of the pictures.
    Video,
    /// To the decoder of the sound.
    Audio,
    /// Nowhere.
    Skip,
}

/// Progress is reported once in this many packets.
pub const EMIT_EVERY: usize = 1000;

/// Determines where a packet of the stream at `index` goes.
pub fn route(index: usize, video_index: usize, audio_index: usize) -> (r: Route)
    ensures
        r == if index == video_index {
            Route::Video
        } else if index == audio_index {
            Route::Audio
        } else {
            Route::Skip
        },
{
    if index == video_index {
        Route::Video
    } else if index == audio_index {
        Route::Audio
    } else {
        Route::Skip
    }
}

/// Whether progress is reported at the packet with the given number.
pub open spec fn reported(packet: int) -> bool {
    packet % EMIT_EVERY as int == 0
}

/// Whether progress is reported at the packet with the given number.
pub fn emits(packet: usize) -> (r: bool)
    ensures
        r == (packet as int % EMIT_EVERY as int == 0),
        r == reported(packet as int),
{
    packet % EMIT_EVERY == 0
}

/// What the decoders that have not failed have found, one after the other.
pub open spec fn joined<T>(results: Seq<Option<Vec<T>>>) -> Seq<T>
    decreases results.len(),
{
    if results.len() == 0 {
        seq![]
    } else {
        joined(results.drop_last()) + match results.last() {
            Some(found) => found@,
            None => seq![],
        }
    }
}

/// Collects what the decoders have found. A decoder that has failed has found nothing.
pub fn join_results<T>(results: Vec<Option<Vec<T>>>) -> (r: Vec<T>)
    ensures
        r@ == joined(results@),
{
    let mut results = results;
    let ghost all = results@;
    let mut tail: Vec<T> = Vec::new();
    assert(joined(results@) + tail@ =~= joined(all));
    while results.len() > 0
        invariant
            joined(all) == joined(results@) + tail@,
        decreases results@.len(),
    {
        let ghost before = results@;
        let ghost after = tail@;
        if let Some(last) = results.pop() {
            assert(results@ == before.drop_last());
            if let Some(found) = last {
                let mut found = found;
                let ghost f = found@;
                found.append(&mut tail);
                assert(joined(results@) + f + after =~= joined(results@) + (f + after));
                tail = found;
            } else {
                assert(joined(results@) + Seq::<T>::empty() =~= joined(results@));
            }
        }
    }
    assert(joined(results@) + tail@ =~= tail@);
    tail
}

/// Whether there are at least three bytes for each pixel of an image, and those of a row can be
/// counted.
pub open spec fn enough_pixels(width: u32, height: u32, bytes: int) -> bool {
    3 * width <= usize::MAX && 3 * width * height <= bytes
}

/// `image::RgbImage::from_vec`, and the pixels back: there is an image exactly if there are at
/// least three bytes for each pixel, and it keeps the bytes.
#[verifier::external_body]
fn rgb_image(width: u32, height: u32, data: Vec<u8>) -> (r: Option<Vec<u8>>)
    ensures
        r is Some == enough_pixels(width, height, data@.len() as int),
        r matches Some(pixels) ==> pixels@ == data@,
{
    RgbImage::from_vec(width, height, data).map(|image| image.into_vec())
}

/// The pictures that were decoded so far.
#[derive(Debug)]
pub struct Motions {
    /// The pixels of the last picture.
    pub last_image: Option<Vec<u8>>,
    /// When the pictures are shown.
    pub motions: Vec<ImageMotion>,
}

impl Motions {
    /// No picture was decoded yet.
    pub fn new() -> (r: Motions)
        ensures
            r.last_image is None,
            r.motions@.len() == 0,
    {
        Motions { last_image: None, motions: Vec::new() }
    }

    /// A picture was decoded: its pixels become the last ones, and its time is noted. Nothing
    /// happens if the pixels are too few; if only the time is missing, the pixels are kept.
    pub fn record(&mut self, width: u32, height: u32, data: Vec<u8>, pts: Option<i64>) -> (r:
        Result<(), DecodeError>)
        ensures
            if !enough_pixels(width, height, data@.len() as int) {
                &&& r == Err::<(), DecodeError>(DecodeError::NoImage)
                &&& *final(self) == *old(self)
            } else {
                &&& final(self).last_image matches Some(pixels) && pixels@ == data@
                &&& match pts {
                    Some(timestamp) => r is Ok && final(self).motions@ == old(self).motions@.push(
                        ImageMotion { timestamp },
                    ),
                    None => {
                        &&& r == Err::<(), DecodeError>(DecodeError::NoTimestamp)
                        &&& final(self).motions@ == old(self).motions@
                    },
                }
            },
    {
        match rgb_image(width, height, data) {
            Some(pixels) => {
                self.last_image = Some(pixels);
                match pts {
                    Some(timestamp) => {
                        self.motions.push(ImageMotion { timestamp });
                        Ok(())
                    },
                    None => Err(DecodeError::NoTimestamp),
                }
            },
            None => Err(DecodeError::NoImage),
        }
    }
}

/// Sound was decoded: its time and its peak are noted. Fails if the time is missing.
pub fn record_volume(volumes: &mut Vec<AudioVolume>, pts: Option<i64>, peak: Binary64) -> (r:
    Result<(), DecodeError>)
    ensures
        match pts {
            Some(timestamp) => r is Ok && final(volumes)@ == old(volumes)@.push(
                AudioVolume { timestamp, average_volume: peak },
            ),
            None => r == Err::<(), DecodeError>(DecodeError::NoTimestamp) && final(volumes)@
                == old(volumes)@,
        },
{
    match pts {
        Some(timestamp) => {
            volumes.push(AudioVolume { timestamp, average_volume: peak });
            Ok(())
        },
        None => Err(DecodeError::NoTimestamp),
    }
}

/// What a decoder is told.
#[derive(Debug, Clone, Copy, PartialEq, Eq, Structural)]
pub enum DecoderStep {
    /// To take the packet, hand out what it has, and wait for the next one.
    Feed,
    /// To finish, and hand out what it has.
    Finish,
}

/// Determines what a decoder is told: packets are fed to it as long as there are any.
pub fn decoder_step(has_packet: bool) -> (r: DecoderStep)
    ensures
        r == if has_packet {
            DecoderStep::Feed
        } else {
            DecoderStep::Finish
        },
{
    if has_packet {
        DecoderStep::Feed
    } else {
        DecoderStep::Finish
    }
}

/// What the resampler in front of an encoder is told after a frame was encoded.
#[derive(Debug, Clone, Copy, PartialEq, Eq, Structural)]
pub enum ResamplerStep {
    /// To hand out more of the same frame.
    Flush,
    /// To take the next frame.
    Next,
}

/// Determines what the resampler is told: as long as it holds something back, to hand it out.
pub fn resampler_step(holds_back: bool) -> (r: ResamplerStep)
    ensures
        r == if holds_back {
            ResamplerStep::Flush
        } else {
            ResamplerStep::Next
        },
{
    if holds_back {
        ResamplerStep::Flush
    } else {
        ResamplerStep::Next
    }
}

/// What decoders have found is all there, in order: what several have found is one after the other,
/// what one has found is unchanged, and one that has failed has found nothing.
pub proof fn findings_follow_one_another<T>(
    a: Seq<Option<Vec<T>>>,
    b: Seq<Option<Vec<T>>>,
    found: Vec<T>,
)
    ensures
        joined(a + b) == joined(a) + joined(b),
        joined(seq![Some(found)]) == found@,
        joined(seq![None::<Vec<T>>]) == Seq::<T>::empty(),
        joined(Seq::<Option<Vec<T>>>::empty()) == Seq::<T>::empty(),
    decreases b.len(),
{
    if b.len() == 0 {
        assert(a + b =~= a);
        assert(joined(a) + Seq::<T>::empty() =~= joined(a));
    } else {
        findings_follow_one_another(a, b.drop_last(), found);
        assert((a + b).drop_last() =~= a + b.drop_last());
        let last = match b.last() {
            Some(v) => v@,
            None => seq![],
        };
        assert(joined(a) + joined(b.drop_last()) + last =~= joined(a) + (joined(b.drop_last())
            + last));
    }
    reveal_with_fuel(joined, 2);
    assert(seq![Some(found)].drop_last() =~= seq![]);
    assert(Seq::<T>::empty() + found@ =~= found@);
    assert(seq![None::<Vec<T>>].drop_last() =~= seq![]);
    assert(Seq::<T>::empty() + Seq::<T>::empty() =~= Seq::<T>::empty());
}

/// Progress is reported at the first packet, and from then on a thousand packets after the last
/// report and not before.
pub proof fn reports_are_a_thousand_packets_apart(packet: int, later: int)
    requires
        0 <= packet,
        0 < later <= 1000,
    ensures
        reported(0),
        reported(packet) ==> (reported(packet + later) <==> later == 1000),
{
}

/// What [`route`] returns: a packet of the stream of the pictures goes to their decoder, one of the
/// stream of the sound to its own, and any other one nowhere.
pub proof fn packets_go_where_they_belong(index: usize, video: usize, audio: usize, r: Route)
    requires
        call_ensures(route, (index, video, audio), r),
    ensures
        r == Route::Video <==> index == video,
        r == Route::Skip <==> index != video && index != audio,
{
}

/// What [`join_results`] returns of one decoder is all that it has found.
pub proof fn nothing_is_lost<T>(found: Vec<T>, results: Vec<Option<Vec<T>>>, r: Vec<T>)
    requires
        results@ == seq![Some(found)],
        call_ensures(join_results::<T>, (results,), r),
    ensures
        r@ == found@,
{
    findings_follow_one_another::<T>(seq![], seq![], found);
}

/// What [`Motions::record`] and [`record_volume`] do with a time: they add an entry with just this
/// time, behind all others, and the pixels or the peak that belong to it are kept.
pub proof fn times_are_noted(
    pictures: &mut Motions,
    width: u32,
    height: u32,
    data: Vec<u8>,
    volumes: &mut Vec<AudioVolume>,
    peak: Binary64,
    time: i64,
    r: Result<(), DecodeError>,
    s: Result<(), DecodeError>,
)
    requires
        3 * width * height <= data@.len(),
        3 * width <= usize::MAX,
        call_ensures(Motions::record, (pictures, width, height, data, Some(time)), r),
        call_ensures(record_volume, (volumes, Some(time), peak), s),
    ensures
        r is Ok && s is Ok,
        final(pictures).motions@.len() == old(pictures).motions@.len() + 1,
        final(pictures).motions@.drop_last() == old(pictures).motions@,
        final(pictures).motions@.last().timestamp == time,
        final(pictures).last_image is Some && final(pictures).last_image->Some_0@ == data@,
        final(volumes)@.len() == old(volumes)@.len() + 1,
        final(volumes)@.drop_last() == old(volumes)@,
        final(volumes)@.last().timestamp == time && final(volumes)@.last().average_volume == peak,
{
    assert(final(pictures).motions@.drop_last() =~= old(pictures).motions@);
    assert(final(volumes)@.drop_last() =~= old(volumes)@);
}

/// What [`best_streams`] and [`known_frame_rate`] return: what was found, as it was found, and an
/// error that tells what is missing if something is. A missing picture is told first.
pub proof fn what_was_found_is_passed_on(
    video: Option<usize>,
    audio: Option<usize>,
    r: Result<(usize, usize), DecodeError>,
    rate: Option<Rational>,
    s: Result<Rational, DecodeError>,
)
    requires
        call_ensures(best_streams, (video, audio), r),
        call_ensures(known_frame_rate, (rate,), s),
    ensures
        r is Ok <==> video is Some && audio is Some,
        r is Ok ==> Some(r->Ok_0.0) == video && Some(r->Ok_0.1) == audio,
        video is None ==> r->Err_0 is NoVideoStream,
        video is Some && audio is None ==> r->Err_0 is NoAudioStream,
        s is Ok <==> rate is Some,
        s is Ok ==> Some(s->Ok_0) == rate,
        s is Err ==> s->Err_0 is NoFrameRate,
{
}

/// How two results of [`emits`] relate: after a report, the next one comes a thousand packets later.
pub proof fn reports_come_in_turn(packet: usize, later: usize, r: bool, s: bool)
    requires
        0 < later - packet <= 1000,
        call_ensures(emits, (packet,), r),
        call_ensures(emits, (later,), s),
    ensures
        packet == 0 ==> r,
        r ==> (s <==> later - packet == 1000),
{
    reports_are_a_thousand_packets_apart(packet as int, later - packet);
}

} // verus!
