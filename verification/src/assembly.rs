//! From the chosen clips to the input file of MELT.

use std::collections::HashSet;
use std::path::PathBuf;

use vstd::prelude::*;

use crate::melt::playlist::{
    an_entry_tells_its_frames, entries_stand_in_order, item_event, playlist_events,
    playlist_is_well_nested, PlaylistItem, PlaylistItemView,
};
use crate::melt::producer::{
    a_producer_plays_its_resource, producer_events, producer_is_well_nested,
};
use crate::melt::tractor::{tracks_stand_in_order, tractor_events, tractor_is_well_nested};
use crate::melt::xml::{views, well_nested, well_nested_concat, XmlView};
use crate::melt::{Melt, MeltError};
use crate::paths::path_text;
use crate::sort_clips::{
    active_time, active_time_is_bounded, each_active_clip_counts_once, prefix_time_is_bounded,
    total_time,
};
use crate::text::signed_number;
use crate::video::clips::Clip;
use crate::video::Video;

verus! {

/// Whether the lengths of the active clips can be added up, one after the other.
pub open spec fn countable_clips(clips: Seq<Clip>, active: Set<usize>) -> bool {
    &&& clips.len() <= usize::MAX
    &&& forall|i: int|
        0 <= i < clips.len() && active.contains(i as usize) ==> (#[trigger] clips[i]).measurable()
    &&& forall|n: int|
        0 <= n <= clips.len() ==> i64::MIN <= active_time(#[trigger] clips.take(n), active)
            <= i64::MAX
}

/// Clips that do not end before they start, and are together no longer than an `i64` can tell, can
/// be added up whichever of them are active. The clips of a recording are such.
pub proof fn clips_of_a_recording_are_countable(clips: Seq<Clip>, active: Set<usize>)
    requires
        clips.len() <= usize::MAX,
        forall|i: int| 0 <= i < clips.len() ==> (#[trigger] clips[i]).wf(),
        total_time(clips) <= i64::MAX,
    ensures
        countable_clips(clips, active),
{
    assert forall|n: int| 0 <= n <= clips.len() implies i64::MIN <= active_time(
        #[trigger] clips.take(n),
        active,
    ) <= i64::MAX by {
        let front = clips.take(n);
        assert forall|i: int| 0 <= i < front.len() implies (#[trigger] front[i]).wf() by {
            assert(clips[i].wf());
        }
        prefix_time_is_bounded(clips, n);
        active_time_is_bounded(front, active);
    }
}

/// Whether the lengths of the active clips can be added up.
pub fn can_count(clips: &Vec<Clip>, active: &HashSet<usize>) -> (r: bool)
    ensures
        r == countable_clips(clips@, active@),
{
    broadcast use vstd::std_specs::hash::group_hash_axioms;

    let mut sum: i64 = 0;
    assert(clips@.take(0) =~= Seq::<Clip>::empty());
    for i in 0..clips.len()
        invariant
            forall|j: int|
                0 <= j < i && active@.contains(j as usize) ==> (#[trigger] clips@[j]).measurable(),
            forall|n: int|
                0 <= n <= i ==> i64::MIN <= active_time(#[trigger] clips@.take(n), active@)
                    <= i64::MAX,
            sum == active_time(clips@.take(i as int), active@),
    {
        assert(clips@.take(i + 1).drop_last() =~= clips@.take(i as int));
        assert(clips@.take(i + 1).last() == clips@[i as int]);
        if active.contains(&i) {
            if !clips[i].is_measurable() {
                assert(!clips@[i as int].measurable());
                return false;
            }
            let next: i128 = sum as i128 + clips[i].len() as i128;
            assert(next == active_time(clips@.take(i + 1), active@));
            if next < i64::MIN as i128 || next > i64::MAX as i128 {
                return false;
            }
            sum = next as i64;
        }
    }
    true
}

/// How long the active clips are together, in microseconds.
pub fn active_duration(clips: &Vec<Clip>, active: &HashSet<usize>) -> (r: i64)
    requires
        countable_clips(clips@, active@),
    ensures
        r == active_time(clips@, active@),
{
    broadcast use vstd::std_specs::hash::group_hash_axioms;

    let mut sum: i64 = 0;
    assert(clips@.take(0) =~= Seq::<Clip>::empty());
    for i in 0..clips.len()
        invariant
            countable_clips(clips@, active@),
            sum == active_time(clips@.take(i as int), active@),
    {
        assert(clips@.take(i + 1).drop_last() =~= clips@.take(i as int));
        assert(clips@.take(i + 1).last() == clips@[i as int]);
        if active.contains(&i) {
            sum = sum + clips[i].len();
        }
    }
    assert(clips@.take(clips@.len() as int) =~= clips@);
    sum
}

/// The playlist entries of the active clips, in the order of the recording. `frames` holds the
/// first and the last frame of each clip.
pub open spec fn active_entries(frames: Seq<(i64, i64)>, active: Set<usize>) -> Seq<
    PlaylistItemView,
>
    decreases frames.len(),
{
    if frames.len() == 0 {
        seq![]
    } else {
        let before = active_entries(frames.drop_last(), active);
        if active.contains((frames.len() - 1) as usize) {
            before.push(
                PlaylistItemView::Entry {
                    id: "source"@,
                    start: frames.last().0 as int,
                    end: frames.last().1 as int,
                },
            )
        } else {
            before
        }
    }
}

/// The playlist entries of the active clips.
fn entries(frames: &Vec<(i64, i64)>, active: &HashSet<usize>) -> (r: Vec<PlaylistItem>)
    ensures
        r@.map_values(|i: PlaylistItem| i@) == active_entries(frames@, active@),
{
    broadcast use vstd::std_specs::hash::group_hash_axioms;

    let mut out: Vec<PlaylistItem> = Vec::new();
    assert(frames@.take(0) =~= Seq::<(i64, i64)>::empty());
    assert(out@.map_values(|i: PlaylistItem| i@) =~= seq![]);
    for i in 0..frames.len()
        invariant
            out@.map_values(|i: PlaylistItem| i@) == active_entries(
                frames@.take(i as int),
                active@,
            ),
    {
        assert(frames@.take(i + 1).drop_last() =~= frames@.take(i as int));
        assert(frames@.take(i + 1).last() == frames@[i as int]);
        if active.contains(&i) {
            let ghost before = out@;
            let item = PlaylistItem::Entry {
                id: "source".to_owned(),
                start: frames[i].0,
                end: frames[i].1,
            };
            out.push(item);
            assert(out@.map_values(|i: PlaylistItem| i@) =~= before.map_values(
                |i: PlaylistItem| i@,
            ).push(item@));
        }
    }
    assert(frames@.take(frames@.len() as int) =~= frames@);
    out
}

/// What the assembly of the active clips holds: the recording as a producer, the active clips
/// as a playlist, and a tractor with the playlist as its only track.
pub open spec fn assembly_events(
    source: Seq<char>,
    frames: Seq<(i64, i64)>,
    active: Set<usize>,
) -> Seq<XmlView> {
    producer_events(source, "source"@) + playlist_events(
        active_entries(frames, active),
        "main_video"@,
    ) + tractor_events(seq!["main_video"@], "main_tractor"@)
}

/// The name of the tractor that plays the assembly.
pub fn main_tractor() -> (r: &'static str)
    ensures
        r@ == "main_tractor"@,
{
    "main_tractor"
}

/// Assembles the active clips. `frames` holds the first and the last frame of each clip of the
/// recording, `duration` is how many frames the active ones have together, and `frame_rate_num`
/// how many pictures there are in a million seconds. Fails if one of the paths is not valid
/// UTF-8.
pub fn assemble(
    video: &Video,
    input_file: &PathBuf,
    melt_path: &PathBuf,
    output_path: &PathBuf,
    frames: &Vec<(i64, i64)>,
    active: &HashSet<usize>,
    frame_rate_num: u64,
    duration: i64,
) -> (r: Result<Melt, MeltError>)
    ensures
        match r {
            Ok(m) => {
                &&& path_text(*melt_path) == Some(m.path@)
                &&& path_text(*output_path) == Some(m.output_path@)
                &&& m.video_size == (video.width, video.height)
                &&& m.frame_rate_num == frame_rate_num
                &&& m.duration == duration
                &&& path_text(*input_file) is Some
                &&& views(m.events@) == assembly_events(
                    path_text(*input_file)->Some_0,
                    frames@,
                    active@,
                )
            },
            Err(e) => e == MeltError::NotUtf8,
        },
        r is Ok <==> path_text(*melt_path) is Some && path_text(*output_path) is Some && path_text(
            *input_file,
        ) is Some,
{
    let mut melt = match Melt::new(melt_path, output_path, video, frame_rate_num, duration) {
        Ok(m) => m,
        Err(e) => {
            return Err(e);
        },
    };
    assert(views(melt.events@) =~= seq![]);
    match melt.producer(input_file, "source") {
        Ok(_) => {},
        Err(e) => {
            return Err(e);
        },
    }
    let items = entries(frames, active);
    match melt.playlist(&items, "main_video") {
        Ok(_) => {},
        Err(e) => {
            return Err(e);
        },
    }
    let mut tracks: Vec<String> = Vec::new();
    tracks.push("main_video".to_owned());
    assert(tracks@.map_values(|t: String| t@) =~= seq!["main_video"@]);
    match melt.tractor(&tracks, "main_tractor") {
        Ok(_) => {},
        Err(e) => {
            return Err(e);
        },
    }
    assert(views(melt.events@) =~= assembly_events(
        path_text(*input_file)->Some_0,
        frames@,
        active@,
    ));
    Ok(melt)
}

/// How many of the first `n` clips are active.
pub open spec fn active_before(active: Set<usize>, n: int) -> int
    decreases n,
{
    if n <= 0 {
        0
    } else {
        active_before(active, n - 1) + if active.contains((n - 1) as usize) {
            1int
        } else {
            0
        }
    }
}

/// The playlist plays each active clip once, and the active clips in the order of the recording:
/// as many entries stand before the one of a clip as there are active clips before it.
pub proof fn active_clips_play_in_order(frames: Seq<(i64, i64)>, active: Set<usize>)
    requires
        frames.len() <= usize::MAX,
    ensures
        active_entries(frames, active).len() == active_before(active, frames.len() as int),
        forall|i: int|
            0 <= i < frames.len() && active.contains(i as usize) ==> {
                &&& 0 <= #[trigger] active_before(active, i) < active_entries(frames, active).len()
                &&& active_entries(frames, active)[active_before(active, i)]
                    == (PlaylistItemView::Entry {
                    id: "source"@,
                    start: frames[i].0 as int,
                    end: frames[i].1 as int,
                })
            },
    decreases frames.len(),
{
    if frames.len() > 0 {
        let rest = frames.drop_last();
        active_clips_play_in_order(rest, active);
        assert forall|i: int| 0 <= i < frames.len() && active.contains(i as usize) implies {
            &&& 0 <= #[trigger] active_before(active, i) < active_entries(frames, active).len()
            &&& active_entries(frames, active)[active_before(active, i)]
                == (PlaylistItemView::Entry {
                id: "source"@,
                start: frames[i].0 as int,
                end: frames[i].1 as int,
            })
        } by {
            if i < rest.len() {
                assert(rest[i] == frames[i]);
            }
        }
    }
}

/// An assembly closes every tag that it opens.
pub proof fn assembly_is_well_nested(
    source: Seq<char>,
    frames: Seq<(i64, i64)>,
    active: Set<usize>,
)
    ensures
        well_nested(assembly_events(source, frames, active)),
{
    let producer = producer_events(source, "source"@);
    let playlist = playlist_events(active_entries(frames, active), "main_video"@);
    producer_is_well_nested(source, "source"@);
    playlist_is_well_nested(active_entries(frames, active), "main_video"@);
    tractor_is_well_nested(seq!["main_video"@], "main_tractor"@);
    well_nested_concat(producer, playlist);
    well_nested_concat(
        producer + playlist,
        tractor_events(seq!["main_video"@], "main_tractor"@),
    );
}

/// Every active clip is an entry of the assembly: of the recording, and with frames that read back
/// as the first and the last one of the clip. The entries stand behind the five events of the
/// producer and the opening tag of the playlist, in the order of the recording, and there are no
/// others.
pub proof fn every_active_clip_is_an_entry(
    source: Seq<char>,
    frames: Seq<(i64, i64)>,
    active: Set<usize>,
)
    requires
        frames.len() <= usize::MAX,
    ensures
        ({
            let events = assembly_events(source, frames, active);
            &&& events.len() == 12 + active_before(active, frames.len() as int)
            &&& events[2] == XmlView::Text(source)
            &&& forall|i: int|
                0 <= i < frames.len() && active.contains(i as usize) ==> {
                    let at = 6 + #[trigger] active_before(active, i);
                    let entry = events[at]->Empty_0;
                    &&& 6 <= at < events.len() - 6
                    &&& events[at] is Empty
                    &&& entry.name == "entry"@
                    &&& entry.attributes.len() == 3
                    &&& entry.attributes[0] == ("producer"@, "source"@)
                    &&& signed_number(entry.attributes[1].1) == frames[i].0
                    &&& signed_number(entry.attributes[2].1) == frames[i].1
                }
        }),
{
    let items = active_entries(frames, active);
    let events = assembly_events(source, frames, active);
    active_clips_play_in_order(frames, active);
    a_producer_plays_its_resource(source, "source"@);
    entries_stand_in_order(items, "main_video"@);
    tracks_stand_in_order(seq!["main_video"@], "main_tractor"@);
    assert forall|i: int| 0 <= i < frames.len() && active.contains(i as usize) implies {
        let at = 6 + #[trigger] active_before(active, i);
        let entry = events[at]->Empty_0;
        &&& 6 <= at < events.len() - 6
        &&& events[at] is Empty
        &&& entry.name == "entry"@
        &&& entry.attributes.len() == 3
        &&& entry.attributes[0] == ("producer"@, "source"@)
        &&& signed_number(entry.attributes[1].1) == frames[i].0
        &&& signed_number(entry.attributes[2].1) == frames[i].1
    } by {
        let k = active_before(active, i);
        assert(events[6 + k] == playlist_events(items, "main_video"@)[k + 1]);
        assert(playlist_events(items, "main_video"@)[k + 1] == item_event(items[k]));
        an_entry_tells_its_frames("source"@, frames[i].0 as int, frames[i].1 as int, 0);
    }
}

/// How two results of [`active_duration`] relate: with one more active clip, the time is longer by
/// that from the start to the end of this clip, both included.
pub proof fn one_more_active_clip(
    clips: Vec<Clip>,
    active: HashSet<usize>,
    more: HashSet<usize>,
    x: usize,
    r: i64,
    s: i64,
)
    requires
        countable_clips(clips@, active@),
        countable_clips(clips@, more@),
        x < clips@.len(),
        !active@.contains(x),
        more@ == active@.insert(x),
        call_ensures(active_duration, (&clips, &active), r),
        call_ensures(active_duration, (&clips, &more), s),
    ensures
        s == r + clips@[x as int].end - clips@[x as int].start + 1,
{
    each_active_clip_counts_once(clips@, active@, x);
}

/// What [`assemble`] returns plays each active clip with its frames. It fails exactly if a path is
/// not text.
pub proof fn an_assembly_plays_the_active_clips(
    video: Video,
    input_file: PathBuf,
    melt_path: PathBuf,
    output_path: PathBuf,
    frames: Vec<(i64, i64)>,
    active: HashSet<usize>,
    frame_rate_num: u64,
    duration: i64,
    r: Result<Melt, MeltError>,
    i: int,
)
    requires
        call_ensures(
            assemble,
            (
                &video,
                &input_file,
                &melt_path,
                &output_path,
                &frames,
                &active,
                frame_rate_num,
                duration,
            ),
            r,
        ),
    ensures
        r is Ok <==> path_text(input_file) is Some && path_text(melt_path) is Some && path_text(
            output_path,
        ) is Some,
        r is Ok ==> {
            let events = r->Ok_0.events@;
            &&& events.len() == 12 + active_before(active@, frames@.len() as int)
            &&& path_text(input_file) == Some(events[2]@->Text_0)
            &&& path_text(melt_path) == Some(r->Ok_0.path@)
            &&& path_text(output_path) == Some(r->Ok_0.output_path@)
            &&& r->Ok_0.video_size == (video.width, video.height)
            &&& r->Ok_0.duration == duration
            &&& r->Ok_0.frame_rate_num == frame_rate_num
        },
        r is Ok && 0 <= i < frames@.len() <= usize::MAX && active@.contains(i as usize) ==> {
            let events = r->Ok_0.events@;
            let at = 6 + active_before(active@, i);
            let entry = events[at]@->Empty_0;
            &&& 6 <= at < events.len() - 6
            &&& events[at]@ is Empty
            &&& entry.name == "entry"@
            &&& signed_number(entry.attributes[1].1) == frames@[i].0
            &&& signed_number(entry.attributes[2].1) == frames@[i].1
        },
{
    let events = r->Ok_0.events@;
    let source = path_text(input_file)->Some_0;
    assert(frames@.len() == frames.len());
    every_active_clip_is_an_entry(source, frames@, active@);
    assert(views(events).len() == events.len());
    if r is Ok {
        assert(views(events)[2] == events[2]@);
        if 0 <= i < frames@.len() && active@.contains(i as usize) {
            let at = 6 + active_before(active@, i);
            assert(views(events)[at] == events[at]@);
        }
    }
}

} // verus!
