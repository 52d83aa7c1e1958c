//! Cutting a recording into clips.

use vstd::prelude::*;

use crate::binary64::Binary64;
use crate::random::{random_number, RandomError};
use crate::video::{Frame, Video, Volume};

verus! {

/// A stretch of the recording that has no priority yet. The range is inclusive.
#[derive(Debug, Clone, Copy, PartialEq, Eq, Structural)]
pub struct UnprioritizedClip {
    /// First microsecond.
    pub start: i64,
    /// Last microsecond.
    pub end: i64,
    /// Whether the clip is quiet compared to the rest of the recording.
    pub relatively_silent: bool,
}

impl UnprioritizedClip {
    /// Length in microseconds.
    pub open spec fn length(self) -> int {
        self.end - self.start + 1
    }

    /// Whether `time` lies in the clip.
    pub open spec fn covers(self, time: int) -> bool {
        self.start <= time <= self.end
    }

    /// This clip with its end moved to that of `other`. It counts as silent if this clip does,
    /// unless `other` starts before it: then as `other` does.
    pub open spec fn merged(self, other: UnprioritizedClip) -> UnprioritizedClip {
        UnprioritizedClip {
            start: self.start,
            end: other.end,
            relatively_silent: if other.start < self.start {
                other.relatively_silent
            } else {
                self.relatively_silent
            },
        }
    }

    /// Length in microseconds.
    pub fn len(self) -> (r: i64)
        requires
            i64::MIN <= self.length() <= i64::MAX,
            self.end - self.start >= i64::MIN,
        ensures
            r == self.length(),
    {
        self.end - self.start + 1
    }
}

/// The clips, in order, leave no gap and do not overlap. A clip may be empty.
pub open spec fn tiling(clips: Seq<UnprioritizedClip>) -> bool {
    &&& clips.len() > 0
    &&& forall|i: int| 0 <= i < clips.len() ==> (#[trigger] clips[i]).length() >= 0
    &&& forall|i: int, j: int|
        0 <= i && j == i + 1 && j < clips.len() ==> (#[trigger] clips[i]).end + 1 == (
        #[trigger] clips[j]).start
}

/// The clips cover every microsecond from `lo` through `hi` exactly once.
pub open spec fn spans(clips: Seq<UnprioritizedClip>, lo: int, hi: int) -> bool {
    &&& tiling(clips)
    &&& clips[0].start == lo
    &&& clips.last().end == hi
}

/// The index of the last clip that `time` lies in, or -1 if there is none.
pub open spec fn last_cover(clips: Seq<UnprioritizedClip>, time: int) -> int
    decreases clips.len(),
{
    if clips.len() == 0 {
        -1
    } else if clips.last().covers(time) {
        clips.len() - 1
    } else {
        last_cover(clips.drop_last(), time)
    }
}

/// The clips with the one at `k` replaced by two: what lies before `time`, and what starts there.
pub open spec fn cut_at(
    clips: Seq<UnprioritizedClip>,
    k: int,
    time: i64,
    silent: bool,
) -> Seq<UnprioritizedClip> {
    let left = UnprioritizedClip { end: (time - 1) as i64, ..clips[k] };
    let right = UnprioritizedClip { start: time, relatively_silent: silent, ..clips[k] };
    clips.update(k, left).insert(k + 1, right)
}

/// The result of cutting at each of the given times, one after the other. Each time comes with
/// whether what starts there is silent.
pub open spec fn cut_all(
    clips: Seq<UnprioritizedClip>,
    cuts: Seq<(i64, bool)>,
) -> Seq<UnprioritizedClip>
    decreases cuts.len(),
{
    if cuts.len() == 0 {
        clips
    } else {
        let before = cut_all(clips, cuts.drop_last());
        cut_at(before, last_cover(before, cuts.last().0 as int), cuts.last().0, cuts.last().1)
    }
}

/// Why a recording could not be cut.
#[derive(Debug, Clone, Copy, PartialEq, Eq, Structural)]
pub enum ClipError {
    /// The time lies in none of the clips.
    NotInAnyClip { time: i64 },
}

/// The clips of a recording, in order.
#[derive(Debug, Clone)]
pub struct Clipset {
    /// At least one clip.
    pub clips: Vec<UnprioritizedClip>,
}

proof fn lemma_last_cover(clips: Seq<UnprioritizedClip>, time: int)
    ensures
        ({
            let k = last_cover(clips, time);
            &&& -1 <= k < clips.len()
            &&& k >= 0 ==> clips[k].covers(time)
            &&& forall|j: int| k < j < clips.len() ==> !(#[trigger] clips[j]).covers(time)
        }),
    decreases clips.len(),
{
    if clips.len() > 0 && !clips.last().covers(time) {
        lemma_last_cover(clips.drop_last(), time);
        let k = last_cover(clips, time);
        assert forall|j: int| k < j < clips.len() implies !(#[trigger] clips[j]).covers(time) by {
            if j < clips.len() - 1 {
                assert(clips.drop_last()[j] == clips[j]);
            }
        }
    }
}

proof fn lemma_last_cover_is(clips: Seq<UnprioritizedClip>, time: int, k: int)
    requires
        -1 <= k < clips.len(),
        k >= 0 ==> clips[k].covers(time),
        forall|j: int| k < j < clips.len() ==> !(#[trigger] clips[j]).covers(time),
    ensures
        last_cover(clips, time) == k,
{
    lemma_last_cover(clips, time);
    let m = last_cover(clips, time);
    if m > k {
        assert(clips[m].covers(time));
    }
}

/// Lengths add up: where a clip is followed by another without a gap, the two are together as long
/// as the range from the start of the first to the end of the second, and a clip of one
/// microsecond has length one.
pub proof fn lengths_add_up(a: UnprioritizedClip, b: UnprioritizedClip, both: UnprioritizedClip)
    requires
        a.end + 1 == b.start,
        both.start == a.start,
        both.end == b.end,
    ensures
        both.length() == a.length() + b.length(),
        a.start == a.end ==> a.length() == 1,
{
}

/// The last clip that a time lies in: the time lies between its start and its end, both included,
/// and outside of all clips behind it. If there is no such clip, the time lies outside of all.
pub proof fn last_cover_is_the_last(clips: Seq<UnprioritizedClip>, time: int)
    ensures
        -1 <= last_cover(clips, time) < clips.len(),
        last_cover(clips, time) >= 0 ==> clips[last_cover(clips, time)].start <= time
            <= clips[last_cover(clips, time)].end,
        forall|j: int|
            last_cover(clips, time) < j < clips.len() ==> time < (#[trigger] clips[j]).start || time
                > clips[j].end,
{
    lemma_last_cover(clips, time);
    assert forall|j: int| last_cover(clips, time) < j < clips.len() implies time < (
    #[trigger] clips[j]).start || time > clips[j].end by {
        assert(!clips[j].covers(time));
    }
}

/// A cut changes one clip only. It ends right before the cut and keeps its start and its kind; the
/// new one goes from the cut to where the old one has ended, and has the kind that was asked for.
pub proof fn a_cut_replaces_one_clip(
    clips: Seq<UnprioritizedClip>,
    k: int,
    time: i64,
    silent: bool,
)
    requires
        0 <= k < clips.len(),
        time > i64::MIN,
    ensures
        ({
            let after = cut_at(clips, k, time, silent);
            &&& after.len() == clips.len() + 1
            &&& forall|i: int| 0 <= i < k ==> #[trigger] after[i] == clips[i]
            &&& after[k].start == clips[k].start
            &&& after[k].end == time - 1
            &&& after[k].relatively_silent == clips[k].relatively_silent
            &&& after[k + 1].start == time
            &&& after[k + 1].end == clips[k].end
            &&& after[k + 1].relatively_silent == silent
            &&& forall|i: int| k + 1 < i < after.len() ==> #[trigger] after[i] == clips[i - 1]
        }),
{
}

/// Later clips of a tiling start where earlier ones have ended.
pub proof fn tiling_is_in_order(clips: Seq<UnprioritizedClip>, i: int, j: int)
    requires
        tiling(clips),
        0 <= i <= j < clips.len(),
    ensures
        i < j ==> clips[i].end < clips[j].start,
        clips[i].start <= clips[j].start,
        clips[i].end <= clips[j].end,
    decreases j - i,
{
    if i < j {
        tiling_is_in_order(clips, i, j - 1);
        assert(clips[j - 1].end + 1 == clips[j].start);
        assert(clips[j - 1].length() >= 0 && clips[j].length() >= 0);
    }
}

/// Every moment of the range that a tiling spans lies in one of its clips, and in one only.
pub proof fn tiling_covers_each_moment_once(
    clips: Seq<UnprioritizedClip>,
    lo: int,
    hi: int,
    time: int,
)
    requires
        spans(clips, lo, hi),
        lo <= time <= hi,
    ensures
        0 <= last_cover(clips, time) < clips.len(),
        forall|i: int|
            0 <= i < clips.len() && (#[trigger] clips[i]).covers(time) ==> i == last_cover(
                clips,
                time,
            ),
    decreases clips.len(),
{
    lemma_last_cover(clips, time);
    let k = last_cover(clips, time);
    if clips.last().covers(time) {
    } else if clips.len() > 1 {
        let rest = clips.drop_last();
        let n = clips.len() - 1;
        assert(clips[n - 1].end + 1 == clips[n].start);
        assert forall|i: int| 0 <= i < rest.len() implies (#[trigger] rest[i]).length() >= 0 by {
            assert(clips[i].length() >= 0);
        }
        assert forall|i: int, j: int| 0 <= i && j == i + 1 && j < rest.len() implies (
        #[trigger] rest[i]).end + 1 == (#[trigger] rest[j]).start by {
            assert(clips[i].end + 1 == clips[j].start);
        }
        tiling_covers_each_moment_once(rest, lo, rest.last().end as int, time);
    }
    assert forall|i: int| 0 <= i < clips.len() && (#[trigger] clips[i]).covers(time) implies i
        == k by {
        if i < k {
            tiling_is_in_order(clips, i, k);
        }
    }
}

/// Cutting a clip in two keeps the range that is spanned.
proof fn lemma_cut_spans(
    clips: Seq<UnprioritizedClip>,
    lo: int,
    hi: int,
    k: int,
    time: i64,
    silent: bool,
)
    requires
        spans(clips, lo, hi),
        0 <= k < clips.len(),
        clips[k].covers(time as int),
        time > i64::MIN,
    ensures
        spans(cut_at(clips, k, time, silent), lo, hi),
        cut_at(clips, k, time, silent).len() == clips.len() + 1,
{
    let out = cut_at(clips, k, time, silent);
    assert forall|i: int| 0 <= i < out.len() implies (#[trigger] out[i]).length() >= 0 by {
        if i < k {
            assert(clips[i].length() >= 0);
        } else if i > k + 1 {
            assert(clips[i - 1].length() >= 0);
        }
    }
    assert forall|i: int, j: int| 0 <= i && j == i + 1 && j < out.len() implies (
    #[trigger] out[i]).end + 1 == (#[trigger] out[j]).start by {
        if j < k {
            assert(clips[i].end + 1 == clips[j].start);
        } else if j == k {
            assert(clips[i].end + 1 == clips[k].start);
        } else if i == k {
        } else {
            assert(clips[i - 1].end + 1 == clips[j - 1].start);
        }
    }
}

impl UnprioritizedClip {
    /// Whether `time` lies in the clip.
    pub fn contains(&self, time: i64) -> (r: bool)
        ensures
            r == self.covers(time as int),
    {
        time >= self.start && time <= self.end
    }

    /// Takes in `other`, which follows this clip.
    pub fn merge_from(&mut self, other: UnprioritizedClip)
        requires
            i64::MIN < other.length() <= i64::MAX,
            i64::MIN < other.end - old(self).start + 1 <= i64::MAX,
        ensures
            *final(self) == old(self).merged(other),
    {
        self.end = other.end;
        if self.len() < other.len() {
            self.relatively_silent = other.relatively_silent;
        }
    }
}

impl Clipset {
    /// One silent clip from `start` through `end`.
    pub fn new(start: i64, end: i64) -> (r: Clipset)
        ensures
            r.clips@ == seq![UnprioritizedClip { start, end, relatively_silent: true }],
            start <= end + 1 ==> spans(r.clips@, start as int, end as int),
    {
        let mut clips: Vec<UnprioritizedClip> = Vec::new();
        clips.push(UnprioritizedClip { start, end, relatively_silent: true });
        Clipset { clips }
    }

    /// Hands out the clips.
    pub fn into_clips(self) -> (r: Vec<UnprioritizedClip>)
        ensures
            r@ == self.clips@,
    {
        self.clips
    }

    /// Splits the last clip that contains `time`: a new clip starts there, and is silent as
    /// `silent` says. Fails, and changes nothing, if no clip contains `time`.
    pub fn split(&mut self, time: i64, silent: bool) -> (r: Result<(), ClipError>)
        requires
            last_cover(old(self).clips@, time as int) >= 0 ==> time > i64::MIN,
        ensures
            last_cover(old(self).clips@, time as int) >= 0 ==> r is Ok && final(self).clips@
                == cut_at(old(self).clips@, last_cover(old(self).clips@, time as int), time, silent),
            last_cover(old(self).clips@, time as int) < 0 ==> r == Err::<(), ClipError>(
                ClipError::NotInAnyClip { time },
            ) && final(self).clips@ == old(self).clips@,
            forall|lo: int, hi: int|
                #![trigger spans(old(self).clips@, lo, hi)]
                spans(old(self).clips@, lo, hi) && lo <= time <= hi ==> r is Ok && spans(
                    final(self).clips@,
                    lo,
                    hi,
                ),
    {
        let ghost before = self.clips@;
        let mut i: usize = self.clips.len();
        while i > 0
            invariant
                i <= self.clips.len(),
                self.clips@ == before,
                forall|j: int| i <= j < before.len() ==> !(#[trigger] before[j]).covers(time as int),
                last_cover(before, time as int) >= 0 ==> time > i64::MIN,
                before == old(self).clips@,
            decreases i,
        {
            let k: usize = i - 1;
            let clip = self.clips[k];
            if clip.contains(time) {
                proof {
                    lemma_last_cover_is(before, time as int, k as int);
                }
                let left = UnprioritizedClip {
                    start: clip.start,
                    end: time - 1,
                    relatively_silent: clip.relatively_silent,
                };
                let right = UnprioritizedClip {
                    start: time,
                    end: clip.end,
                    relatively_silent: silent,
                };
                self.clips[k] = left;
                self.clips.insert(k + 1, right);
                proof {
                    assert(self.clips@ =~= cut_at(before, k as int, time, silent));
                    assert forall|lo: int, hi: int|
                        #![trigger spans(before, lo, hi)]
                        spans(before, lo, hi) && lo <= time <= hi implies spans(
                        self.clips@,
                        lo,
                        hi,
                    ) by {
                        lemma_cut_spans(before, lo, hi, k as int, time, silent);
                    }
                }
                return Ok(());
            }
            i = k;
        }
        proof {
            lemma_last_cover_is(before, time as int, -1);
            assert forall|lo: int, hi: int|
                #![trigger spans(before, lo, hi)]
                spans(before, lo, hi) && lo <= time <= hi implies false by {
                tiling_covers_each_moment_once(before, lo, hi, time as int);
            }
        }
        Err(ClipError::NotInAnyClip { time })
    }
}

/// Two clips that last less than this together are merged, in microseconds.
pub const SMALL_PAIR: i64 = 750_000;

/// A clip shorter than this is merged with the next one, in microseconds.
pub const VERY_SHORT: i64 = 100_000;

/// A silent clip that is longer than this is split up, in microseconds.
pub const VERY_LONG: i64 = 5_000_000;

/// Whether a clip takes in the one that follows it.
pub open spec fn mergeable(clip: UnprioritizedClip, next: UnprioritizedClip) -> bool {
    clip.length() + next.length() < SMALL_PAIR || clip.length() < VERY_SHORT
}

/// A clip, split into pieces of [`VERY_LONG`] and a remainder if it is silent and longer than
/// that.
pub open spec fn chopped(clip: UnprioritizedClip) -> Seq<UnprioritizedClip>
    decreases clip.length(),
{
    if clip.length() > VERY_LONG && clip.relatively_silent {
        seq![UnprioritizedClip { end: (clip.start + VERY_LONG - 1) as i64, ..clip }] + chopped(
            UnprioritizedClip { start: (clip.start + VERY_LONG) as i64, ..clip },
        )
    } else {
        seq![clip]
    }
}

/// The clips after one pass that goes from left to right: a clip that is [`mergeable`] takes in
/// the next one, what has become of it is [`chopped`], and the pass goes on behind it.
pub open spec fn settled(clips: Seq<UnprioritizedClip>) -> Seq<UnprioritizedClip>
    decreases clips.len(),
{
    if clips.len() == 0 {
        seq![]
    } else if clips.len() > 1 && mergeable(clips[0], clips[1]) {
        chopped(clips[0].merged(clips[1])) + settled(clips.skip(2))
    } else {
        chopped(clips[0]) + settled(clips.skip(1))
    }
}

/// Merging a clip with the next one keeps the range that is spanned.
proof fn lemma_merge_spans(clips: Seq<UnprioritizedClip>, lo: int, hi: int, k: int)
    requires
        spans(clips, lo, hi),
        0 <= k,
        k + 1 < clips.len(),
    ensures
        spans(clips.update(k, clips[k].merged(clips[k + 1])).remove(k + 1), lo, hi),
{
    let out = clips.update(k, clips[k].merged(clips[k + 1])).remove(k + 1);
    assert(clips[k].end + 1 == clips[k + 1].start);
    assert(clips[k].length() >= 0 && clips[k + 1].length() >= 0);
    assert forall|i: int| 0 <= i < out.len() implies (#[trigger] out[i]).length() >= 0 by {
        if i < k {
            assert(clips[i].length() >= 0);
        } else if i > k {
            assert(clips[i + 1].length() >= 0);
        }
    }
    assert forall|i: int, j: int| 0 <= i && j == i + 1 && j < out.len() implies (
    #[trigger] out[i]).end + 1 == (#[trigger] out[j]).start by {
        if i < k {
            assert(clips[i].end + 1 == clips[j].start);
        } else {
            assert(clips[i + 1].end + 1 == clips[j + 1].start);
        }
    }
}

/// No piece of a silent clip that was split up is longer than [`VERY_LONG`], and all but the
/// last piece last exactly that long.
pub proof fn chopped_pieces_are_short(clip: UnprioritizedClip)
    requires
        clip.relatively_silent,
        clip.length() >= 0,
    ensures
        chopped(clip).len() > 0,
        forall|i: int|
            0 <= i < chopped(clip).len() ==> (#[trigger] chopped(clip)[i]).length() <= VERY_LONG,
        forall|i: int|
            0 <= i < chopped(clip).len() - 1 ==> (#[trigger] chopped(clip)[i]).length()
                == VERY_LONG,
    decreases clip.length(),
{
    if clip.length() > VERY_LONG {
        let rest = UnprioritizedClip { start: (clip.start + VERY_LONG) as i64, ..clip };
        chopped_pieces_are_short(rest);
        assert forall|i: int| 0 < i < chopped(clip).len() implies #[trigger] chopped(clip)[i]
            == chopped(rest)[i - 1] by {}
    }
}

/// What the pass makes of a single clip: if it is silent and lasts more than five seconds, its
/// first five seconds become a clip of their own, and the rest is treated the same way. Any other
/// clip stays as it is.
pub proof fn a_long_silence_loses_five_seconds(clip: UnprioritizedClip)
    ensures
        settled(seq![clip]) == if clip.relatively_silent && clip.end - clip.start + 1 > 5_000_000 {
            seq![
                UnprioritizedClip {
                    start: clip.start,
                    end: (clip.start + 4_999_999) as i64,
                    relatively_silent: true,
                },
            ] + settled(
                seq![
                    UnprioritizedClip {
                        start: (clip.start + 5_000_000) as i64,
                        end: clip.end,
                        relatively_silent: true,
                    },
                ],
            )
        } else {
            seq![clip]
        },
        settled(seq![]) == Seq::<UnprioritizedClip>::empty(),
{
    lemma_settled_single(clip);
    if clip.relatively_silent && clip.end - clip.start + 1 > 5_000_000 {
        let rest = UnprioritizedClip { start: (clip.start + 5_000_000) as i64, ..clip };
        lemma_settled_single(rest);
    }
}

proof fn lemma_settled_single(clip: UnprioritizedClip)
    ensures
        settled(seq![clip]) == chopped(clip),
{
    reveal_with_fuel(settled, 2);
    assert(seq![clip].skip(1) =~= seq![]);
    assert(chopped(clip) + Seq::<UnprioritizedClip>::empty() =~= chopped(clip));
}

/// What the pass makes of the clip that it comes to, if another one follows: the two become one,
/// of the kind of the first, if and only if the first lasts less than a tenth of a second or both
/// together last less than three quarters of a second. What lies behind does not matter for this,
/// and the pass goes on there.
pub proof fn small_clips_become_one(clips: Seq<UnprioritizedClip>)
    requires
        clips.len() > 1,
        clips[0].start <= clips[0].end + 1,
        clips[0].end + 1 == clips[1].start,
        clips[1].start <= clips[1].end + 1,
    ensures
        clips[0].end - clips[0].start + 1 < 100_000 || clips[1].end - clips[0].start + 1 < 750_000
            ==> settled(clips) == settled(
            seq![
                UnprioritizedClip {
                    start: clips[0].start,
                    end: clips[1].end,
                    relatively_silent: clips[0].relatively_silent,
                },
            ],
        ) + settled(clips.skip(2)),
        clips[0].end - clips[0].start + 1 >= 100_000 && clips[1].end - clips[0].start + 1 >= 750_000
            ==> settled(clips) == settled(seq![clips[0]]) + settled(clips.skip(1)),
{
    lemma_settled_single(clips[0]);
    lemma_settled_single(clips[0].merged(clips[1]));
}

/// A clip, moved on the clock.
pub open spec fn moved(clip: UnprioritizedClip, by: int) -> UnprioritizedClip {
    UnprioritizedClip {
        start: (clip.start + by) as i64,
        end: (clip.end + by) as i64,
        relatively_silent: clip.relatively_silent,
    }
}

/// Clips, all moved by the same time.
pub open spec fn all_moved(clips: Seq<UnprioritizedClip>, by: int) -> Seq<UnprioritizedClip> {
    Seq::new(clips.len(), |i: int| moved(clips[i], by))
}

/// Whether clips stay on the clock when they are moved.
pub open spec fn can_move(clips: Seq<UnprioritizedClip>, by: int) -> bool {
    forall|i: int|
        0 <= i < clips.len() ==> i64::MIN <= (#[trigger] clips[i]).start + by <= i64::MAX && i64::MIN
            <= clips[i].end + by <= i64::MAX
}

proof fn lemma_chopped_moves(clip: UnprioritizedClip, by: int)
    requires
        i64::MIN <= clip.start + by <= i64::MAX,
        i64::MIN <= clip.end + by <= i64::MAX,
    ensures
        chopped(moved(clip, by)) == all_moved(chopped(clip), by),
    decreases clip.length(),
{
    if clip.length() > VERY_LONG && clip.relatively_silent {
        let first = UnprioritizedClip { end: (clip.start + VERY_LONG - 1) as i64, ..clip };
        let rest = UnprioritizedClip { start: (clip.start + VERY_LONG) as i64, ..clip };
        lemma_chopped_moves(rest, by);
        assert(all_moved(seq![first] + chopped(rest), by) =~= seq![moved(first, by)] + all_moved(
            chopped(rest),
            by,
        ));
    } else {
        assert(all_moved(seq![clip], by) =~= seq![moved(clip, by)]);
    }
}

/// The pass does not depend on where on the clock the recording lies: if all clips are moved by the
/// same time, so is the result.
pub proof fn the_clock_does_not_matter(clips: Seq<UnprioritizedClip>, by: int)
    requires
        can_move(clips, by),
    ensures
        settled(all_moved(clips, by)) == all_moved(settled(clips), by),
    decreases clips.len(),
{
    let there = all_moved(clips, by);
    if clips.len() > 0 {
        let merging = clips.len() > 1 && mergeable(clips[0], clips[1]);
        let (first, used) = if merging {
            (clips[0].merged(clips[1]), 2int)
        } else {
            (clips[0], 1int)
        };
        assert(i64::MIN <= clips[0].start + by <= i64::MAX);
        assert(i64::MIN <= clips[used - 1].end + by <= i64::MAX);
        assert(there[0] == moved(clips[0], by));
        if clips.len() > 1 {
            assert(i64::MIN <= clips[1].start + by <= i64::MAX);
            assert(there[1] == moved(clips[1], by));
        }
        let rest = clips.skip(used);
        assert forall|i: int| 0 <= i < rest.len() implies i64::MIN <= (#[trigger] rest[i]).start
            + by <= i64::MAX && i64::MIN <= rest[i].end + by <= i64::MAX by {
            assert(rest[i] == clips[i + used]);
        }
        the_clock_does_not_matter(rest, by);
        lemma_chopped_moves(first, by);
        assert(there.skip(used) =~= all_moved(rest, by));
        assert(settled(clips) == chopped(first) + settled(rest));
        assert(all_moved(chopped(first) + settled(rest), by) =~= all_moved(chopped(first), by)
            + all_moved(settled(rest), by));
    } else {
        assert(there =~= seq![]);
        assert(all_moved(settled(clips), by) =~= seq![]);
    }
}

/// After the pass no silent clip is longer than [`VERY_LONG`].
pub proof fn large_silent_clips_are_split_up(clips: Seq<UnprioritizedClip>)
    requires
        tiling(clips),
    ensures
        forall|i: int|
            0 <= i < settled(clips).len() && (#[trigger] settled(clips)[i]).relatively_silent
                ==> settled(clips)[i].length() <= VERY_LONG,
{
    assert forall|i: int, j: int| 0 <= i <= j < clips.len() implies (#[trigger] clips[i]).start <= (
    #[trigger] clips[j]).end + 1 by {
        tiling_is_in_order(clips, i, j);
        assert(clips[j].length() >= 0);
    }
    lemma_settled_silences(clips);
}

proof fn lemma_settled_silences(clips: Seq<UnprioritizedClip>)
    requires
        forall|i: int, j: int|
            0 <= i <= j < clips.len() ==> (#[trigger] clips[i]).start <= (#[trigger] clips[j]).end
                + 1,
    ensures
        forall|i: int|
            0 <= i < settled(clips).len() && (#[trigger] settled(clips)[i]).relatively_silent
                ==> settled(clips)[i].length() <= VERY_LONG,
    decreases clips.len(),
{
    if clips.len() > 0 {
        let merging = clips.len() > 1 && mergeable(clips[0], clips[1]);
        let (first, used) = if merging {
            (clips[0].merged(clips[1]), 2int)
        } else {
            (clips[0], 1int)
        };
        assert(clips[0].start <= clips[used - 1].end + 1);
        if first.relatively_silent {
            chopped_pieces_are_short(first);
        }
        let rest = clips.skip(used);
        assert forall|i: int, j: int| 0 <= i <= j < rest.len() implies (#[trigger] rest[i]).start
            <= (#[trigger] rest[j]).end + 1 by {
            assert(clips[i + used].start <= clips[j + used].end + 1);
        }
        lemma_settled_silences(rest);
        let out = settled(clips);
        assert(out == chopped(first) + settled(rest));
        assert forall|i: int| 0 <= i < out.len() && (
        #[trigger] out[i]).relatively_silent implies out[i].length() <= VERY_LONG by {
            if i >= chopped(first).len() {
                assert(out[i] == settled(rest)[i - chopped(first).len()]);
            } else {
                assert(out[i] == chopped(first)[i]);
            }
        }
    }
}

impl Clipset {
    /// Whether the clips tile a range whose length is an `i64`.
    pub open spec fn wf(self) -> bool {
        &&& tiling(self.clips@)
        &&& self.clips@.last().end - self.clips@[0].start < i64::MAX
    }

    /// Merges small clips together and splits up large silent clips.
    pub fn merge_and_split_clips(&mut self) -> (r: Result<(), ClipError>)
        requires
            old(self).wf(),
        ensures
            r is Ok,
            final(self).clips@ == settled(old(self).clips@),
            final(self).wf(),
            final(self).clips@[0].start == old(self).clips@[0].start,
            final(self).clips@.last().end == old(self).clips@.last().end,
            forall|i: int|
                0 <= i < final(self).clips@.len() && (
                #[trigger] final(self).clips@[i]).relatively_silent
                    ==> final(self).clips@[i].length() <= VERY_LONG,
    {
        let ghost before = self.clips@;
        let ghost lo = before[0].start as int;
        let ghost hi = before.last().end as int;
        let mut i: usize = 0;
        assert(self.clips@.skip(0) =~= before);
        assert(self.clips@.take(0) + settled(before) =~= settled(before));
        while i < self.clips.len()
            invariant
                i <= self.clips@.len(),
                spans(self.clips@, lo, hi),
                hi - lo < i64::MAX,
                settled(before) == self.clips@.take(i as int) + settled(self.clips@.skip(i as int)),
            decreases self.clips@.len() - i,
        {
            let ghost now = self.clips@;
            let ghost tail = now.skip(i as int);
            proof {
                tiling_is_in_order(now, 0, i as int);
                tiling_is_in_order(now, i as int, now.len() - 1);
                assert(tail[0] == now[i as int]);
                assert(now[i as int].length() >= 0);
            }
            let mut merge: bool = false;
            if i + 1 < self.clips.len() {
                let next_clip = self.clips[i + 1];
                proof {
                    tiling_is_in_order(now, i + 1, now.len() - 1);
                    assert(now[i as int].end + 1 == now[i + 1].start);
                    assert(now[i + 1].length() >= 0);
                    assert(tail[1] == now[i + 1]);
                }
                merge = self.clips[i].len() + next_clip.len() < SMALL_PAIR || self.clips[i].len()
                    < VERY_SHORT;
                if merge {
                    let mut clip = self.clips[i];
                    clip.merge_from(next_clip);
                    self.clips[i] = clip;
                    self.clips.remove(i + 1);
                    proof {
                        lemma_merge_spans(now, lo, hi, i as int);
                        assert(self.clips@ =~= now.update(
                            i as int,
                            now[i as int].merged(now[i + 1]),
                        ).remove(i + 1));
                        assert(self.clips@.skip(i + 1) =~= tail.skip(2));
                    }
                }
            }
            proof {
                if !merge {
                    assert(self.clips@.skip(i + 1) =~= tail.skip(1));
                }
                assert(self.clips@.take(i as int) =~= now.take(i as int));
                assert(self.clips@.take(i as int) + (chopped(self.clips@[i as int]) + settled(
                    self.clips@.skip(i + 1),
                )) =~= self.clips@.take(i as int) + chopped(self.clips@[i as int]) + settled(
                    self.clips@.skip(i + 1),
                ));
                tiling_is_in_order(self.clips@, 0, i as int);
                tiling_is_in_order(self.clips@, i as int, self.clips@.len() - 1);
            }
            let ghost left_over = self.clips@.len() - i;
            while self.clips[i].len() > VERY_LONG && self.clips[i].relatively_silent
                invariant
                    i < self.clips.len(),
                    self.clips@.len() - i == left_over,
                    spans(self.clips@, lo, hi),
                    hi - lo < i64::MAX,
                    lo <= self.clips@[i as int].start,
                    self.clips@[i as int].end <= hi,
                    self.clips@[i as int].length() >= 0,
                    settled(before) == self.clips@.take(i as int) + chopped(self.clips@[i as int])
                        + settled(self.clips@.skip(i + 1)),
                decreases self.clips@[i as int].length(),
            {
                let ghost whole = self.clips@;
                let clip = self.clips[i];
                let time: i64 = clip.start + VERY_LONG;
                proof {
                    tiling_covers_each_moment_once(whole, lo, hi, time as int);
                    assert(whole[i as int].covers(time as int));
                }
                let res = self.split(time, true);
                proof {
                    assert(spans(whole, lo, hi));
                    let left = UnprioritizedClip { end: (time - 1) as i64, ..clip };
                    let right = UnprioritizedClip { start: time, ..clip };
                    assert(self.clips@[i + 1] == right);
                    assert(self.clips@.skip(i + 2) =~= whole.skip(i + 1));
                    assert(self.clips@.take(i + 1) =~= whole.take(i as int) + seq![left]);
                    assert(whole.take(i as int) + (seq![left] + chopped(right)) + settled(
                        whole.skip(i + 1),
                    ) =~= self.clips@.take(i + 1) + chopped(right) + settled(
                        self.clips@.skip(i + 2),
                    ));
                }
                match res {
                    Ok(_) => {},
                    Err(e) => {
                        return Err(e);
                    },
                }
                i += 1;
            }
            proof {
                assert(self.clips@.take(i + 1) =~= self.clips@.take(i as int) + seq![
                    self.clips@[i as int],
                ]);
            }
            i += 1;
        }
        proof {
            assert(self.clips@.skip(i as int) =~= seq![]);
            assert(self.clips@.take(i as int) =~= self.clips@);
            assert(self.clips@ + settled(seq![]) =~= self.clips@);
            large_silent_clips_are_split_up(before);
        }
        Ok(())
    }
}

/// A noise that lasts at least this long lowers what counts as a long silence, in microseconds.
pub const LONG_NOISE: i64 = 1_000_000;

/// When the samples and the pictures of the recording were taken.
pub open spec fn moments(video: Video) -> Seq<i64> {
    video.volumes@.map_values(|v: Volume| v.microseconds) + video.frames@.map_values(
        |f: Frame| f.microseconds,
    )
}

/// The least of the given times, or the largest `i64` if there is none.
pub open spec fn earliest(times: Seq<i64>) -> i64
    decreases times.len(),
{
    if times.len() == 0 {
        i64::MAX
    } else if times.last() < earliest(times.drop_last()) {
        times.last()
    } else {
        earliest(times.drop_last())
    }
}

/// The greatest of the given times, or the smallest `i64` if there is none.
pub open spec fn latest(times: Seq<i64>) -> i64
    decreases times.len(),
{
    if times.len() == 0 {
        i64::MIN
    } else if times.last() > latest(times.drop_last()) {
        times.last()
    } else {
        latest(times.drop_last())
    }
}

/// What is known after listening to a stretch of the recording.
pub struct Scan {
    /// Where to cut, in the order of discovery, and whether what starts there is silent.
    pub cuts: Seq<(i64, bool)>,
    /// When the current noise has begun.
    pub noise_start: Option<i64>,
    /// When noise was last heard.
    pub last_noise: Option<i64>,
    /// How many times the standard for a long silence has been lowered.
    pub lowered: nat,
}

impl Scan {
    /// Nothing was heard yet.
    pub open spec fn start() -> Scan {
        Scan { cuts: seq![], noise_start: None, last_noise: None, lowered: 0 }
    }

    /// Listens to one more sample. A sample below the threshold is quiet: if the last noise is
    /// farther back than the current standard for a long silence, a silent clip starts here and
    /// the standard is reset. Any other sample is noise: the first one starts a noisy clip, and
    /// one that comes [`LONG_NOISE`] after the first or later lowers the standard once more.
    pub open spec fn hear(self, volume: Volume, threshold: Binary64, silences: Seq<i64>) -> Scan {
        let now = volume.microseconds;
        if volume.max_amplitude.less(threshold) {
            match self.last_noise {
                Some(t) if now - t > silences[self.lowered as int] => Scan {
                    cuts: self.cuts.push((now, true)),
                    noise_start: None,
                    last_noise: None,
                    lowered: 0,
                },
                _ => self,
            }
        } else {
            let begun = match self.noise_start {
                Some(t) => t,
                None => now,
            };
            Scan {
                cuts: if self.noise_start is None {
                    self.cuts.push((now, false))
                } else {
                    self.cuts
                },
                noise_start: Some(begun),
                last_noise: Some(now),
                lowered: if now - begun >= LONG_NOISE {
                    self.lowered + 1
                } else {
                    self.lowered
                },
            }
        }
    }
}

/// What is known after listening to all of `volumes`. `silences[k]` is how long a silence has to
/// last to be a long one, after the standard was lowered `k` times.
pub open spec fn scan(volumes: Seq<Volume>, threshold: Binary64, silences: Seq<i64>) -> Scan
    decreases volumes.len(),
{
    if volumes.len() == 0 {
        Scan::start()
    } else {
        scan(volumes.drop_last(), threshold, silences).hear(volumes.last(), threshold, silences)
    }
}

/// The clips between the noises and the long silences of a recording, before any is merged.
pub open spec fn initial_clips(
    video: Video,
    threshold: Binary64,
    silences: Seq<i64>,
) -> Seq<UnprioritizedClip> {
    cut_all(
        seq![
            UnprioritizedClip {
                start: earliest(moments(video)),
                end: latest(moments(video)),
                relatively_silent: true,
            },
        ],
        scan(video.volumes@, threshold, silences).cuts,
    )
}

/// Whether the time between any two moments of the recording can be computed.
pub open spec fn measurable(video: Video) -> bool {
    moments(video).len() > 0 ==> {
        &&& earliest(moments(video)) > i64::MIN
        &&& latest(moments(video)) - earliest(moments(video)) <= i64::MAX
    }
}

/// Whether the time from the first to the last moment of the recording, both included, can be
/// counted.
pub open spec fn countable(video: Video) -> bool {
    moments(video).len() > 0 ==> {
        &&& earliest(moments(video)) > i64::MIN
        &&& latest(moments(video)) - earliest(moments(video)) < i64::MAX
    }
}

/// Noise and silence alternate, and noise comes first: every other cut starts a silence. While a
/// noise goes on, it is known when it has begun and when it was last heard.
pub proof fn cuts_alternate(volumes: Seq<Volume>, threshold: Binary64, silences: Seq<i64>)
    ensures
        ({
            let s = scan(volumes, threshold, silences);
            &&& forall|i: int|
                0 <= i < s.cuts.len() ==> (#[trigger] s.cuts[i]).1 == (i % 2 == 1)
            &&& s.noise_start is Some <==> s.cuts.len() % 2 == 1
            &&& s.last_noise is Some <==> s.noise_start is Some
        }),
    decreases volumes.len(),
{
    if volumes.len() > 0 {
        cuts_alternate(volumes.drop_last(), threshold, silences);
    }
}

/// The recording is cut at samples only. A silence starts at a sample below the threshold, a
/// noise at one that is not.
pub proof fn cuts_are_at_samples(volumes: Seq<Volume>, threshold: Binary64, silences: Seq<i64>)
    ensures
        forall|i: int|
            0 <= i < scan(volumes, threshold, silences).cuts.len() ==> exists|j: int|
                0 <= j < volumes.len() && (#[trigger] volumes[j]).microseconds == (#[trigger] scan(
                    volumes,
                    threshold,
                    silences,
                ).cuts[i]).0 && volumes[j].max_amplitude.less(threshold) == scan(
                    volumes,
                    threshold,
                    silences,
                ).cuts[i].1,
    decreases volumes.len(),
{
    if volumes.len() > 0 {
        let rest = volumes.drop_last();
        cuts_are_at_samples(rest, threshold, silences);
        let before = scan(rest, threshold, silences).cuts;
        let after = scan(volumes, threshold, silences).cuts;
        assert forall|i: int| 0 <= i < after.len() implies exists|j: int|
            0 <= j < volumes.len() && (#[trigger] volumes[j]).microseconds == (
            #[trigger] after[i]).0 && volumes[j].max_amplitude.less(threshold) == after[i].1 by {
            if i < before.len() {
                assert(after[i] == before[i]);
                let j = choose|j: int|
                    0 <= j < rest.len() && (#[trigger] rest[j]).microseconds == before[i].0
                        && rest[j].max_amplitude.less(threshold) == before[i].1;
                assert(volumes[j] == rest[j]);
            } else {
                assert(volumes[volumes.len() - 1] == volumes.last());
            }
        }
    }
}

/// How many samples from the one at `begun` on, of the first `n`, are not quiet and come a second or
/// more after it.
pub open spec fn late_noises(
    volumes: Seq<Volume>,
    threshold: Binary64,
    begun: int,
    n: int,
) -> int
    decreases n - begun,
{
    if n <= begun {
        0
    } else {
        late_noises(volumes, threshold, begun, n - 1) + if !volumes[n - 1].max_amplitude.less(
            threshold,
        ) && volumes[n - 1].microseconds - volumes[begun].microseconds >= 1_000_000 {
            1int
        } else {
            0
        }
    }
}

proof fn lemma_late_noises(
    a: Seq<Volume>,
    b: Seq<Volume>,
    threshold: Binary64,
    begun: int,
    n: int,
)
    requires
        0 <= begun,
        begun < n ==> n <= a.len() && n <= b.len(),
        forall|i: int| 0 <= i < n ==> #[trigger] a[i] == b[i],
    ensures
        late_noises(a, threshold, begun, n) == late_noises(b, threshold, begun, n),
    decreases n - begun,
{
    if begun < n {
        lemma_late_noises(a, b, threshold, begun, n - 1);
        assert(a[n - 1] == b[n - 1]);
        assert(a[begun] == b[begun]);
    }
}

proof fn lemma_quiet_start(volumes: Seq<Volume>, threshold: Binary64, silences: Seq<i64>)
    ensures
        scan(volumes, threshold, silences).noise_start is None ==> scan(
            volumes,
            threshold,
            silences,
        ).lowered == 0,
    decreases volumes.len(),
{
    if volumes.len() > 0 {
        lemma_quiet_start(volumes.drop_last(), threshold, silences);
    }
}

proof fn lemma_cuts_grow(volumes: Seq<Volume>, threshold: Binary64, silences: Seq<i64>, n: int)
    requires
        0 <= n <= volumes.len(),
    ensures
        scan(volumes.take(n), threshold, silences).cuts.len() <= scan(
            volumes,
            threshold,
            silences,
        ).cuts.len(),
    decreases volumes.len(),
{
    if n == volumes.len() {
        assert(volumes.take(n) =~= volumes);
    } else {
        assert(volumes.drop_last().take(n) =~= volumes.take(n));
        lemma_cuts_grow(volumes.drop_last(), threshold, silences, n);
    }
}

/// Whether the sample at `begun` has begun the noise that goes on at the end of `volumes`: the last
/// cut was made there, and it starts a noise.
pub open spec fn noise_goes_on(
    volumes: Seq<Volume>,
    threshold: Binary64,
    silences: Seq<i64>,
    begun: int,
) -> bool {
    let cuts = scan(volumes, threshold, silences).cuts;
    &&& 0 <= begun < volumes.len()
    &&& cuts.len() > 0
    &&& !cuts.last().1
    &&& scan(volumes.take(begun), threshold, silences).cuts.len() < cuts.len()
    &&& scan(volumes.take(begun + 1), threshold, silences).cuts.len() == cuts.len()
}

/// Whether the sample at `j` is the last one that is not quiet.
pub open spec fn last_heard(volumes: Seq<Volume>, threshold: Binary64, j: int) -> bool {
    &&& 0 <= j < volumes.len()
    &&& !volumes[j].max_amplitude.less(threshold)
    &&& forall|k: int|
        j < k < volumes.len() ==> (#[trigger] volumes[k]).max_amplitude.less(threshold)
}

proof fn lemma_noise(
    volumes: Seq<Volume>,
    threshold: Binary64,
    silences: Seq<i64>,
    begun: int,
    j: int,
)
    requires
        noise_goes_on(volumes, threshold, silences, begun),
        last_heard(volumes, threshold, j),
    ensures
        ({
            let s = scan(volumes, threshold, silences);
            &&& s.noise_start == Some(volumes[begun].microseconds)
            &&& s.last_noise == Some(volumes[j].microseconds)
            &&& s.lowered == late_noises(volumes, threshold, begun, volumes.len() as int)
        }),
    decreases volumes.len(),
{
    let n = volumes.len() as int;
    let rest = volumes.drop_last();
    let s = scan(volumes, threshold, silences);
    let before = scan(rest, threshold, silences);
    cuts_alternate(volumes, threshold, silences);
    cuts_alternate(rest, threshold, silences);
    lemma_quiet_start(rest, threshold, silences);
    assert(s.cuts[s.cuts.len() - 1].1 == ((s.cuts.len() - 1) % 2 == 1));
    assert(late_noises(volumes, threshold, begun, begun) == 0);
    if begun == n - 1 {
        assert(volumes.take(begun) =~= rest);
        assert(before.cuts.len() < s.cuts.len());
    } else {
        assert(rest.take(begun) =~= volumes.take(begun));
        assert(rest.take(begun + 1) =~= volumes.take(begun + 1));
        lemma_cuts_grow(rest, threshold, silences, begun + 1);
        assert(before.cuts.len() == s.cuts.len());
        assert(before.cuts == s.cuts);
        lemma_late_noises(rest, volumes, threshold, begun, n - 1);
        if volumes.last().max_amplitude.less(threshold) {
            assert(j < n - 1);
            assert(rest[j] == volumes[j]);
            assert forall|k: int| j < k < rest.len() implies (
            #[trigger] rest[k]).max_amplitude.less(threshold) by {
                assert(volumes[k].max_amplitude.less(threshold));
            }
            lemma_noise(rest, threshold, silences, begun, j);
        } else {
            let l = lemma_some_noise(rest, threshold, silences);
            lemma_noise(rest, threshold, silences, begun, l);
            if j < n - 1 {
                assert(volumes[n - 1].max_amplitude.less(threshold));
            }
        }
        assert(rest[begun] == volumes[begun]);
    }
}

proof fn lemma_some_noise(volumes: Seq<Volume>, threshold: Binary64, silences: Seq<i64>) -> (j: int)
    requires
        scan(volumes, threshold, silences).cuts.len() > 0,
    ensures
        last_heard(volumes, threshold, j),
    decreases volumes.len(),
{
    let rest = volumes.drop_last();
    if !volumes.last().max_amplitude.less(threshold) {
        volumes.len() - 1
    } else {
        cuts_alternate(rest, threshold, silences);
        let j = lemma_some_noise(rest, threshold, silences);
        assert forall|k: int| j < k < volumes.len() implies (
        #[trigger] volumes[k]).max_amplitude.less(threshold) by {
            if k < rest.len() {
                assert(rest[k] == volumes[k]);
            }
        }
        assert(rest[j] == volumes[j]);
        j
    }
}

/// Where a recording is not cut, and where a noise starts. Nothing is cut before the first sample.
/// While no noise goes on, a sample that is not quiet starts one and is a cut, and a quiet one is
/// none. While a noise goes on, a sample that is not quiet is no cut.
pub proof fn where_a_noise_starts(volumes: Seq<Volume>, threshold: Binary64, silences: Seq<i64>)
    ensures
        volumes.len() == 0 ==> scan(volumes, threshold, silences).cuts.len() == 0,
        volumes.len() > 0 ==> {
            let before = scan(volumes.drop_last(), threshold, silences).cuts;
            let after = scan(volumes, threshold, silences).cuts;
            let quiet = volumes.last().max_amplitude.less(threshold);
            let noisy = before.len() > 0 && !before.last().1;
            &&& !noisy && !quiet ==> after == before.push((volumes.last().microseconds, false))
            &&& !noisy && quiet ==> after == before
            &&& noisy && !quiet ==> after == before
        },
{
    if volumes.len() > 0 {
        let s = scan(volumes.drop_last(), threshold, silences);
        cuts_alternate(volumes.drop_last(), threshold, silences);
        if s.cuts.len() > 0 {
            assert(s.cuts[s.cuts.len() - 1].1 == ((s.cuts.len() - 1) % 2 == 1));
        }
    }
}

/// When a silence is a long one. While a noise goes on that the sample at `begun` has begun, and of
/// which the sample at `j` was heard last, a quiet sample is a cut exactly if it comes later after
/// that one than the standard says. The standard was lowered once for each sample of this noise
/// that came a second or more after its beginning, and for nothing else: what was heard before
/// this noise does not matter.
pub proof fn when_a_silence_is_long(
    volumes: Seq<Volume>,
    threshold: Binary64,
    silences: Seq<i64>,
    begun: int,
    j: int,
)
    requires
        volumes.len() > 0,
        volumes.last().max_amplitude.less(threshold),
        noise_goes_on(volumes.drop_last(), threshold, silences, begun),
        last_heard(volumes.drop_last(), threshold, j),
    ensures
        ({
            let before = scan(volumes.drop_last(), threshold, silences).cuts;
            let after = scan(volumes, threshold, silences).cuts;
            let now = volumes.last().microseconds;
            let standard = silences[late_noises(volumes, threshold, begun, volumes.len() - 1)];
            after == if now - volumes[j].microseconds > standard {
                before.push((now, true))
            } else {
                before
            }
        }),
{
    let rest = volumes.drop_last();
    lemma_noise(rest, threshold, silences, begun, j);
    lemma_late_noises(rest, volumes, threshold, begun, rest.len() as int);
    assert(rest[j] == volumes[j]);
}

/// A long silence makes a new beginning: what comes after it is cut as if listening began there. If
/// the last sample of `a` starts a silence, the cuts of `a` and `b` together are those of `a`
/// followed by those of `b`.
pub proof fn a_silence_is_a_new_beginning(
    a: Seq<Volume>,
    b: Seq<Volume>,
    threshold: Binary64,
    silences: Seq<i64>,
)
    requires
        a.len() > 0,
        scan(a, threshold, silences).cuts.len() > scan(
            a.drop_last(),
            threshold,
            silences,
        ).cuts.len(),
        scan(a, threshold, silences).cuts.last().1,
    ensures
        scan(a + b, threshold, silences).cuts == scan(a, threshold, silences).cuts + scan(
            b,
            threshold,
            silences,
        ).cuts,
{
    lemma_new_beginning(a, b, threshold, silences);
}

proof fn lemma_new_beginning(
    a: Seq<Volume>,
    b: Seq<Volume>,
    threshold: Binary64,
    silences: Seq<i64>,
)
    requires
        a.len() > 0,
        scan(a, threshold, silences).cuts.len() > scan(
            a.drop_last(),
            threshold,
            silences,
        ).cuts.len(),
        scan(a, threshold, silences).cuts.last().1,
    ensures
        ({
            let both = scan(a + b, threshold, silences);
            let second = scan(b, threshold, silences);
            &&& both.cuts == scan(a, threshold, silences).cuts + second.cuts
            &&& both.noise_start == second.noise_start
            &&& both.last_noise == second.last_noise
            &&& both.lowered == second.lowered
        }),
    decreases b.len(),
{
    let first = scan(a, threshold, silences).cuts;
    if b.len() == 0 {
        assert(a + b =~= a);
        assert(first + Seq::<(i64, bool)>::empty() =~= first);
    } else {
        lemma_new_beginning(a, b.drop_last(), threshold, silences);
        assert((a + b).drop_last() =~= a + b.drop_last());
        assert((a + b).last() == b.last());
        let rest = scan(b.drop_last(), threshold, silences);
        let now = b.last().microseconds;
        assert((first + rest.cuts).push((now, true)) =~= first + rest.cuts.push((now, true)));
        assert((first + rest.cuts).push((now, false)) =~= first + rest.cuts.push((now, false)));
    }
}

/// Whether the samples come in the order of time.
pub open spec fn in_order(volumes: Seq<Volume>) -> bool {
    forall|i: int, j: int|
        0 <= i <= j < volumes.len() ==> (#[trigger] volumes[i]).microseconds <= (
        #[trigger] volumes[j]).microseconds
}

proof fn lemma_cuts_in_order(volumes: Seq<Volume>, threshold: Binary64, silences: Seq<i64>)
    requires
        in_order(volumes),
    ensures
        ({
            let cuts = scan(volumes, threshold, silences).cuts;
            &&& forall|i: int, j: int|
                0 <= i <= j < cuts.len() ==> (#[trigger] cuts[i]).0 <= (#[trigger] cuts[j]).0
            &&& forall|i: int|
                0 <= i < cuts.len() ==> volumes.len() > 0 && (#[trigger] cuts[i]).0
                    <= volumes.last().microseconds
        }),
    decreases volumes.len(),
{
    if volumes.len() > 0 {
        let rest = volumes.drop_last();
        assert forall|i: int, j: int| 0 <= i <= j < rest.len() implies (
        #[trigger] rest[i]).microseconds <= (#[trigger] rest[j]).microseconds by {
            assert(volumes[i].microseconds <= volumes[j].microseconds);
        }
        lemma_cuts_in_order(rest, threshold, silences);
        if rest.len() > 0 {
            assert(volumes[rest.len() - 1].microseconds <= volumes[rest.len() as int].microseconds);
        }
    }
}

proof fn lemma_cut_in_order(whole: UnprioritizedClip, cuts: Seq<(i64, bool)>)
    requires
        whole.start > i64::MIN,
        whole.length() >= 0,
        forall|i: int|
            0 <= i < cuts.len() ==> whole.start <= (#[trigger] cuts[i]).0 <= whole.end,
        forall|i: int, j: int|
            0 <= i <= j < cuts.len() ==> (#[trigger] cuts[i]).0 <= (#[trigger] cuts[j]).0,
    ensures
        ({
            let clips = cut_all(seq![whole], cuts);
            &&& clips.len() == cuts.len() + 1
            &&& clips[0].start == whole.start
            &&& clips[0].relatively_silent == whole.relatively_silent
            &&& forall|i: int|
                0 < i < clips.len() ==> (#[trigger] clips[i]).start == cuts[i - 1].0
                    && clips[i].relatively_silent == cuts[i - 1].1
            &&& forall|i: int| 0 <= i < cuts.len() ==> (#[trigger] clips[i]).end + 1 == cuts[i].0
            &&& clips.last().end == whole.end
        }),
    decreases cuts.len(),
{
    if cuts.len() > 0 {
        let fewer = cuts.drop_last();
        assert forall|i: int| 0 <= i < fewer.len() implies whole.start <= (#[trigger] fewer[i]).0
            <= whole.end by {
            assert(cuts[i] == fewer[i]);
        }
        assert forall|i: int, j: int| 0 <= i <= j < fewer.len() implies (#[trigger] fewer[i]).0 <= (
        #[trigger] fewer[j]).0 by {
            assert(cuts[i].0 <= cuts[j].0);
        }
        lemma_cut_in_order(whole, fewer);
        let before = cut_all(seq![whole], fewer);
        let n = fewer.len() as int;
        assert(cuts[n] == cuts.last());
        if n > 0 {
            assert(cuts[n - 1].0 <= cuts[n].0);
            assert(before[n].start == fewer[n - 1].0);
        }
        assert(before.last().covers(cuts.last().0 as int));
        let after = cut_all(seq![whole], cuts);
        assert(after =~= cut_at(before, n, cuts.last().0, cuts.last().1));
        assert forall|i: int| 0 < i < after.len() implies (#[trigger] after[i]).start == cuts[i
            - 1].0 && after[i].relatively_silent == cuts[i - 1].1 by {
            if i <= n {
                assert(after[i].start == before[i].start);
                assert(after[i].relatively_silent == before[i].relatively_silent);
                assert(fewer[i - 1] == cuts[i - 1]);
            }
        }
        assert forall|i: int| 0 <= i < cuts.len() implies (#[trigger] after[i]).end + 1
            == cuts[i].0 by {
            if i < n {
                assert(after[i].end == before[i].end);
                assert(fewer[i] == cuts[i]);
            }
        }
    }
}

/// If the samples come in the order of time, silent and noisy clips alternate before any are
/// merged: the first one is silent, each later one starts at a cut, and each lasts until the next
/// one starts.
pub proof fn clips_alternate(video: Video, threshold: Binary64, silences: Seq<i64>)
    requires
        moments(video).len() > 0,
        measurable(video),
        in_order(video.volumes@),
    ensures
        ({
            let cuts = scan(video.volumes@, threshold, silences).cuts;
            let clips = initial_clips(video, threshold, silences);
            &&& clips.len() == cuts.len() + 1
            &&& forall|i: int|
                0 <= i < clips.len() ==> (#[trigger] clips[i]).relatively_silent == (i % 2 == 0)
            &&& forall|i: int| 0 < i < clips.len() ==> (#[trigger] clips[i]).start == cuts[i - 1].0
            &&& forall|i: int| 0 <= i < cuts.len() ==> (#[trigger] clips[i]).end + 1 == cuts[i].0
            &&& clips[0].start == earliest(moments(video))
            &&& clips.last().end == latest(moments(video))
        }),
{
    let ms = moments(video);
    let volumes = video.volumes@;
    let cuts = scan(volumes, threshold, silences).cuts;
    let whole = UnprioritizedClip {
        start: earliest(ms),
        end: latest(ms),
        relatively_silent: true,
    };
    lemma_bounds(ms);
    cuts_alternate(volumes, threshold, silences);
    lemma_cuts_in_order(volumes, threshold, silences);
    assert forall|i: int| 0 <= i < cuts.len() implies whole.start <= (#[trigger] cuts[i]).0
        <= whole.end by {
        cuts_are_at_samples(volumes, threshold, silences);
        let j = choose|j: int|
            0 <= j < volumes.len() && (#[trigger] volumes[j]).microseconds == cuts[i].0;
        assert(ms[j] == volumes[j].microseconds);
    }
    lemma_cut_in_order(whole, cuts);
    let clips = initial_clips(video, threshold, silences);
    assert forall|i: int| 0 <= i < clips.len() implies (#[trigger] clips[i]).relatively_silent == (i
        % 2 == 0) by {
        if i > 0 {
            assert(cuts[i - 1].1 == ((i - 1) % 2 == 1));
        }
    }
}

proof fn lemma_bounds(times: Seq<i64>)
    ensures
        forall|i: int|
            0 <= i < times.len() ==> earliest(times) <= #[trigger] times[i] <= latest(times),
        times.len() > 0 ==> earliest(times) <= latest(times),
    decreases times.len(),
{
    if times.len() > 0 {
        lemma_bounds(times.drop_last());
        assert forall|i: int| 0 <= i < times.len() implies earliest(times) <= #[trigger] times[i]
            <= latest(times) by {
            if i < times.len() - 1 {
                assert(times.drop_last()[i] == times[i]);
            }
        }
    }
}

/// The range of a recording is that of its samples and its pictures: none lies outside, and there is
/// one at each end.
pub proof fn the_range_is_that_of_the_moments(video: Video)
    requires
        video.volumes@.len() > 0 || video.frames@.len() > 0,
    ensures
        ({
            let lo = earliest(moments(video));
            let hi = latest(moments(video));
            &&& forall|i: int|
                0 <= i < video.volumes@.len() ==> lo <= (#[trigger] video.volumes@[i]).microseconds
                    <= hi
            &&& forall|i: int|
                0 <= i < video.frames@.len() ==> lo <= (#[trigger] video.frames@[i]).microseconds
                    <= hi
            &&& (exists|i: int|
                0 <= i < video.volumes@.len() && (#[trigger] video.volumes@[i]).microseconds == lo)
                || (exists|i: int|
                0 <= i < video.frames@.len() && (#[trigger] video.frames@[i]).microseconds == lo)
            &&& (exists|i: int|
                0 <= i < video.volumes@.len() && (#[trigger] video.volumes@[i]).microseconds == hi)
                || (exists|i: int|
                0 <= i < video.frames@.len() && (#[trigger] video.frames@[i]).microseconds == hi)
        }),
{
    let ms = moments(video);
    let n = video.volumes@.len() as int;
    lemma_bounds(ms);
    assert forall|i: int| 0 <= i < n implies earliest(ms) <= (
    #[trigger] video.volumes@[i]).microseconds <= latest(ms) by {
        assert(ms[i] == video.volumes@[i].microseconds);
    }
    assert forall|i: int| 0 <= i < video.frames@.len() implies earliest(ms) <= (
    #[trigger] video.frames@[i]).microseconds <= latest(ms) by {
        assert(ms[n + i] == video.frames@[i].microseconds);
    }
    lemma_ends(ms);
    let a = choose|a: int| 0 <= a < ms.len() && ms[a] == earliest(ms);
    let b = choose|b: int| 0 <= b < ms.len() && ms[b] == latest(ms);
    if a < n {
        assert(video.volumes@[a].microseconds == earliest(ms));
    } else {
        assert(video.frames@[a - n].microseconds == earliest(ms));
    }
    if b < n {
        assert(video.volumes@[b].microseconds == latest(ms));
    } else {
        assert(video.frames@[b - n].microseconds == latest(ms));
    }
}

proof fn lemma_ends(times: Seq<i64>)
    requires
        times.len() > 0,
    ensures
        times.contains(earliest(times)),
        times.contains(latest(times)),
    decreases times.len(),
{
    let rest = times.drop_last();
    assert(times[times.len() - 1] == times.last());
    if rest.len() > 0 {
        lemma_ends(rest);
        let a = choose|a: int| 0 <= a < rest.len() && rest[a] == earliest(rest);
        let b = choose|b: int| 0 <= b < rest.len() && rest[b] == latest(rest);
        assert(times[a] == rest[a] && times[b] == rest[b]);
    } else {
        assert(earliest(rest) == i64::MAX && latest(rest) == i64::MIN);
    }
}

/// However the cuts lie, one more clip than there are cuts comes of them, every cut is the start of
/// a clip, and the range stays the same.
pub proof fn every_cut_starts_a_clip(whole: UnprioritizedClip, cuts: Seq<(i64, bool)>)
    requires
        whole.start > i64::MIN,
        whole.start <= whole.end,
        forall|i: int|
            0 <= i < cuts.len() ==> whole.start <= (#[trigger] cuts[i]).0 <= whole.end,
    ensures
        ({
            let clips = cut_all(seq![whole], cuts);
            &&& clips.len() == cuts.len() + 1
            &&& clips[0].start == whole.start
            &&& clips.last().end == whole.end
            &&& forall|i: int, j: int|
                0 <= i && j == i + 1 && j < clips.len() ==> (#[trigger] clips[i]).end + 1 == (
                #[trigger] clips[j]).start
            &&& forall|i: int|
                0 <= i < cuts.len() ==> exists|k: int|
                    0 <= k < clips.len() && (#[trigger] clips[k]).start == (#[trigger] cuts[i]).0
        }),
{
    lemma_every_cut(whole, cuts);
}

proof fn lemma_every_cut(whole: UnprioritizedClip, cuts: Seq<(i64, bool)>)
    requires
        whole.start > i64::MIN,
        whole.start <= whole.end,
        forall|i: int|
            0 <= i < cuts.len() ==> whole.start <= (#[trigger] cuts[i]).0 <= whole.end,
    ensures
        ({
            let clips = cut_all(seq![whole], cuts);
            &&& clips.len() == cuts.len() + 1
            &&& spans(clips, whole.start as int, whole.end as int)
            &&& forall|i: int|
                0 <= i < cuts.len() ==> exists|k: int|
                    0 <= k < clips.len() && (#[trigger] clips[k]).start == (#[trigger] cuts[i]).0
        }),
    decreases cuts.len(),
{
    let lo = whole.start as int;
    let hi = whole.end as int;
    if cuts.len() == 0 {
        assert(cut_all(seq![whole], cuts) =~= seq![whole]);
    } else {
        let fewer = cuts.drop_last();
        assert forall|i: int| 0 <= i < fewer.len() implies whole.start <= (#[trigger] fewer[i]).0
            <= whole.end by {
            assert(cuts[i] == fewer[i]);
        }
        lemma_every_cut(whole, fewer);
        let before = cut_all(seq![whole], fewer);
        let cut = cuts.last();
        assert(cuts[cuts.len() - 1] == cut);
        let k = last_cover(before, cut.0 as int);
        tiling_covers_each_moment_once(before, lo, hi, cut.0 as int);
        lemma_last_cover(before, cut.0 as int);
        lemma_cut_spans(before, lo, hi, k, cut.0, cut.1);
        let after = cut_all(seq![whole], cuts);
        assert(after == cut_at(before, k, cut.0, cut.1));
        assert forall|i: int| 0 <= i < cuts.len() implies exists|m: int|
            0 <= m < after.len() && (#[trigger] after[m]).start == (#[trigger] cuts[i]).0 by {
            if i < fewer.len() {
                assert(fewer[i] == cuts[i]);
                let m = choose|m: int|
                    0 <= m < before.len() && (#[trigger] before[m]).start == fewer[i].0;
                if m <= k {
                    assert(after[m].start == before[m].start);
                } else {
                    assert(after[m + 1].start == before[m].start);
                }
            } else {
                assert(after[k + 1].start == cut.0);
            }
        }
    }
}

/// The first and the last moment of the recording.
fn video_range(video: &Video) -> (r: (i64, i64))
    ensures
        r == (earliest(moments(*video)), latest(moments(*video))),
{
    let ghost ms = moments(*video);
    let mut lo: i64 = i64::MAX;
    let mut hi: i64 = i64::MIN;
    let n: usize = video.volumes.len();
    assert(ms.take(0) =~= Seq::<i64>::empty());
    for i in 0..n
        invariant
            n == video.volumes@.len(),
            ms == moments(*video),
            lo == earliest(ms.take(i as int)),
            hi == latest(ms.take(i as int)),
    {
        let t: i64 = video.volumes[i].microseconds;
        assert(ms.take(i + 1).drop_last() =~= ms.take(i as int));
        assert(ms.take(i + 1).last() == t);
        if t < lo {
            lo = t;
        }
        if t > hi {
            hi = t;
        }
    }
    let m: usize = video.frames.len();
    for i in 0..m
        invariant
            n == video.volumes@.len(),
            m == video.frames@.len(),
            ms == moments(*video),
            lo == earliest(ms.take(n + i)),
            hi == latest(ms.take(n + i)),
    {
        let t: i64 = video.frames[i].microseconds;
        assert(ms.take(n + i + 1).drop_last() =~= ms.take(n + i));
        assert(ms.take(n + i + 1).last() == t);
        if t < lo {
            lo = t;
        }
        if t > hi {
            hi = t;
        }
    }
    assert(ms.take(n + m) =~= ms);
    (lo, hi)
}

impl Clipset {
    /// Cuts a recording at its noises and its long silences. Samples below `threshold` are
    /// quiet; `silences[k]` is how long a silence has to last to be a long one, after the
    /// standard was lowered `k` times.
    pub fn initial_clipset(video: &Video, threshold: Binary64, silences: &Vec<i64>) -> (r: Result<
        Clipset,
        ClipError,
    >)
        requires
            measurable(*video),
            silences@.len() > video.volumes@.len(),
        ensures
            r matches Ok(c) && c.clips@ == initial_clips(*video, threshold, silences@),
            moments(*video).len() > 0 ==> spans(
                r->Ok_0.clips@,
                earliest(moments(*video)) as int,
                latest(moments(*video)) as int,
            ),
    {
        let ghost ms = moments(*video);
        let n: usize = video.volumes.len();
        let (lo, hi) = video_range(video);
        proof {
            lemma_bounds(ms);
            assert forall|j: int| 0 <= j < n implies lo <= (
            #[trigger] video.volumes@[j]).microseconds <= hi by {
                assert(ms[j] == video.volumes@[j].microseconds);
            }
        }

        let mut clipset = Clipset::new(lo, hi);
        let ghost whole = clipset.clips@;
        let mut noise_start: Option<i64> = None;
        let mut last_noise: Option<i64> = None;
        let mut lowered: usize = 0;
        assert(video.volumes@.take(0) =~= Seq::<Volume>::empty());
        for i in 0..n
            invariant
                n == video.volumes@.len(),
                n > 0 ==> spans(clipset.clips@, lo as int, hi as int) && lo > i64::MIN && hi - lo
                    <= i64::MAX,
                ms.len() > 0 ==> spans(clipset.clips@, lo as int, hi as int),
                forall|j: int|
                    0 <= j < n ==> lo <= (#[trigger] video.volumes@[j]).microseconds <= hi,
                noise_start matches Some(t) ==> lo <= t <= hi,
                last_noise matches Some(t) ==> lo <= t <= hi,
                lowered <= i,
                silences@.len() > n,
                ({
                    let s = scan(video.volumes@.take(i as int), threshold, silences@);
                    &&& s.noise_start == noise_start
                    &&& s.last_noise == last_noise
                    &&& s.lowered == lowered
                    &&& clipset.clips@ == cut_all(whole, s.cuts)
                }),
        {
            let volume = video.volumes[i];
            let now: i64 = volume.microseconds;
            let ghost before = scan(video.volumes@.take(i as int), threshold, silences@);
            let ghost after = before.hear(volume, threshold, silences@);
            assert(video.volumes@.take(i + 1).drop_last() =~= video.volumes@.take(i as int));
            assert(scan(video.volumes@.take(i + 1), threshold, silences@) == after);
            assert(spans(clipset.clips@, lo as int, hi as int));
            proof {
                tiling_covers_each_moment_once(clipset.clips@, lo as int, hi as int, now as int);
                assert(before.cuts.push((now, true)).drop_last() =~= before.cuts);
                assert(before.cuts.push((now, false)).drop_last() =~= before.cuts);
            }
            if volume.max_amplitude.less_than(&threshold) {
                if let Some(t) = last_noise {
                    if now - t > silences[lowered] {
                        noise_start = None;
                        last_noise = None;
                        match clipset.split(now, true) {
                            Ok(_) => {},
                            Err(e) => {
                                return Err(e);
                            },
                        }
                        lowered = 0;
                    }
                }
            } else {
                let begun: i64 = match noise_start {
                    Some(t) => t,
                    None => {
                        noise_start = Some(now);
                        match clipset.split(now, false) {
                            Ok(_) => {},
                            Err(e) => {
                                return Err(e);
                            },
                        }
                        now
                    },
                };
                last_noise = Some(now);
                if now - begun >= LONG_NOISE {
                    lowered = lowered + 1;
                }
            }
        }
        assert(video.volumes@.take(n as int) =~= video.volumes@);
        Ok(clipset)
    }

    /// The clips of a recording: cut at noises and long silences, then merged and split up.
    pub fn of(video: &Video, threshold: Binary64, silences: &Vec<i64>) -> (r: Result<
        Clipset,
        ClipError,
    >)
        requires
            moments(*video).len() > 0,
            countable(*video),
            silences@.len() > video.volumes@.len(),
        ensures
            r matches Ok(c) && c.clips@ == settled(initial_clips(*video, threshold, silences@)),
            spans(
                r->Ok_0.clips@,
                earliest(moments(*video)) as int,
                latest(moments(*video)) as int,
            ),
            r->Ok_0.wf(),
            forall|i: int|
                0 <= i < r->Ok_0.clips@.len() && (
                #[trigger] r->Ok_0.clips@[i]).relatively_silent ==> r->Ok_0.clips@[i].length()
                    <= VERY_LONG,
    {
        let mut clipset = match Clipset::initial_clipset(video, threshold, silences) {
            Ok(c) => c,
            Err(e) => {
                return Err(e);
            },
        };
        match clipset.merge_and_split_clips() {
            Ok(_) => Ok(clipset),
            Err(e) => Err(e),
        }
    }
}

/// A clip of the recording, ready to be ranked.
#[derive(Debug, Clone, Copy, PartialEq, Eq, Structural)]
pub struct Clip {
    /// First microsecond.
    pub start: i64,
    /// Last microsecond.
    pub end: i64,
    /// How much the clip is worth keeping. Greater is better.
    pub priority: Binary64,
}

impl Clip {
    /// Length in microseconds.
    pub open spec fn length(self) -> int {
        self.end - self.start + 1
    }

    /// Whether the length can be computed.
    pub open spec fn measurable(self) -> bool {
        i64::MIN < self.length() <= i64::MAX
    }

    /// Whether the clip does not end before it starts, and its length is an `i64`.
    pub open spec fn wf(self) -> bool {
        0 <= self.length() <= i64::MAX
    }

    /// Length in microseconds.
    pub fn len(self) -> (r: i64)
        requires
            self.measurable(),
        ensures
            r == self.length(),
    {
        self.end - self.start + 1
    }

    /// Whether the length can be computed.
    pub fn is_measurable(&self) -> (r: bool)
        ensures
            r == self.measurable(),
    {
        let length: i128 = self.end as i128 - self.start as i128 + 1;
        (i64::MIN as i128) < length && length <= i64::MAX as i128
    }

    /// Whether the clip does not end before it starts, and its length is an `i64`.
    pub fn is_wf(&self) -> (r: bool)
        ensures
            r == self.wf(),
    {
        let length: i128 = self.end as i128 - self.start as i128 + 1;
        0 <= length && length <= i64::MAX as i128
    }
}

/// The amplitudes of those samples that `clip` covers, in order.
pub open spec fn covered_amplitudes(clip: UnprioritizedClip, volumes: Seq<Volume>) -> Seq<Binary64>
    decreases volumes.len(),
{
    if volumes.len() == 0 {
        seq![]
    } else {
        let before = covered_amplitudes(clip, volumes.drop_last());
        if clip.covers(volumes.last().microseconds as int) {
            before.push(volumes.last().max_amplitude)
        } else {
            before
        }
    }
}

/// How many of the first `n` samples lie between `lo` and `hi`, both included.
pub open spec fn samples_within(volumes: Seq<Volume>, n: int, lo: int, hi: int) -> int
    decreases n,
{
    if n <= 0 {
        0
    } else {
        samples_within(volumes, n - 1, lo, hi) + if lo <= volumes[n - 1].microseconds <= hi {
            1int
        } else {
            0
        }
    }
}

proof fn lemma_within_front(volumes: Seq<Volume>, n: int, lo: int, hi: int)
    requires
        n < volumes.len(),
    ensures
        samples_within(volumes.drop_last(), n, lo, hi) == samples_within(volumes, n, lo, hi),
        samples_within(volumes, n, lo, hi) >= 0,
    decreases n,
{
    if n > 0 {
        lemma_within_front(volumes, n - 1, lo, hi);
    }
}

/// The amplitudes of a clip are those of all samples between its start and its end, whatever its
/// kind, each once and in order: as many stand before that of a sample as there are samples of the
/// clip before it.
pub proof fn amplitudes_are_those_of_the_samples_within(
    clip: UnprioritizedClip,
    volumes: Seq<Volume>,
)
    ensures
        covered_amplitudes(clip, volumes).len() == samples_within(
            volumes,
            volumes.len() as int,
            clip.start as int,
            clip.end as int,
        ),
        forall|i: int|
            0 <= i < volumes.len() && clip.start <= volumes[i].microseconds <= clip.end ==> {
                let at = #[trigger] samples_within(
                    volumes,
                    i,
                    clip.start as int,
                    clip.end as int,
                );
                &&& 0 <= at < covered_amplitudes(clip, volumes).len()
                &&& covered_amplitudes(clip, volumes)[at] == volumes[i].max_amplitude
            },
    decreases volumes.len(),
{
    let lo = clip.start as int;
    let hi = clip.end as int;
    if volumes.len() > 0 {
        let rest = volumes.drop_last();
        let n = rest.len() as int;
        amplitudes_are_those_of_the_samples_within(clip, rest);
        lemma_within_front(volumes, n, lo, hi);
        assert forall|i: int|
            0 <= i < volumes.len() && clip.start <= volumes[i].microseconds <= clip.end implies {
            let at = #[trigger] samples_within(volumes, i, lo, hi);
            &&& 0 <= at < covered_amplitudes(clip, volumes).len()
            &&& covered_amplitudes(clip, volumes)[at] == volumes[i].max_amplitude
        } by {
            lemma_within_front(volumes, i, lo, hi);
            if i < n {
                assert(rest[i] == volumes[i]);
                assert(samples_within(rest, i, lo, hi) == samples_within(volumes, i, lo, hi));
            }
        }
    }
}

/// How many amplitudes the given clips have together.
pub open spec fn amplitude_count(clips: Seq<UnprioritizedClip>, volumes: Seq<Volume>) -> int
    decreases clips.len(),
{
    if clips.len() == 0 {
        0
    } else {
        amplitude_count(clips.drop_last(), volumes) + covered_amplitudes(
            clips.last(),
            volumes,
        ).len()
    }
}

proof fn lemma_within_parts(volumes: Seq<Volume>, n: int, lo: int, mid: int, hi: int)
    requires
        lo <= mid + 1 <= hi + 1,
    ensures
        samples_within(volumes, n, lo, hi) == samples_within(volumes, n, lo, mid) + samples_within(
            volumes,
            n,
            mid + 1,
            hi,
        ),
    decreases n,
{
    if n > 0 {
        lemma_within_parts(volumes, n - 1, lo, mid, hi);
    }
}

/// Over clips without gap or overlap each sample of their range counts once.
pub proof fn each_sample_counts_once(clips: Seq<UnprioritizedClip>, volumes: Seq<Volume>)
    requires
        clips.len() > 0,
        forall|i: int| 0 <= i < clips.len() ==> (#[trigger] clips[i]).start <= clips[i].end + 1,
        forall|i: int, j: int|
            0 <= i && j == i + 1 && j < clips.len() ==> (#[trigger] clips[i]).end + 1 == (
            #[trigger] clips[j]).start,
    ensures
        amplitude_count(clips, volumes) == samples_within(
            volumes,
            volumes.len() as int,
            clips[0].start as int,
            clips.last().end as int,
        ),
        clips[0].start <= clips.last().end + 1,
    decreases clips.len(),
{
    let n = clips.len() - 1;
    let last = clips.last();
    assert(clips[n].start <= clips[n].end + 1);
    amplitudes_are_those_of_the_samples_within(last, volumes);
    let rest = clips.drop_last();
    if n > 0 {
        assert forall|i: int| 0 <= i < rest.len() implies (#[trigger] rest[i]).start <= rest[i].end
            + 1 by {
            assert(clips[i].start <= clips[i].end + 1);
        }
        assert forall|i: int, j: int| 0 <= i && j == i + 1 && j < rest.len() implies (
        #[trigger] rest[i]).end + 1 == (#[trigger] rest[j]).start by {
            assert(clips[i].end + 1 == clips[j].start);
        }
        each_sample_counts_once(rest, volumes);
        assert(clips[n - 1].end + 1 == clips[n].start);
        lemma_within_parts(
            volumes,
            volumes.len() as int,
            clips[0].start as int,
            clips[n - 1].end as int,
            last.end as int,
        );
    } else {
        assert(amplitude_count(rest, volumes) == 0);
    }
}

impl UnprioritizedClip {
    /// The amplitudes that the priority of the clip is computed from: those of the samples
    /// inside it.
    pub fn amplitudes(&self, volumes: &Vec<Volume>) -> (r: Vec<Binary64>)
        ensures
            r@ == covered_amplitudes(*self, volumes@),
    {
        let mut out: Vec<Binary64> = Vec::new();
        assert(volumes@.take(0) =~= Seq::<Volume>::empty());
        for i in 0..volumes.len()
            invariant
                out@ == covered_amplitudes(*self, volumes@.take(i as int)),
        {
            assert(volumes@.take(i + 1).drop_last() =~= volumes@.take(i as int));
            if self.contains(volumes[i].microseconds) {
                out.push(volumes[i].max_amplitude);
            }
        }
        assert(volumes@.take(volumes@.len() as int) =~= volumes@);
        out
    }

    /// The clip with its priority.
    pub fn prioritize(self, priority: Binary64) -> (r: Clip)
        ensures
            r == (Clip { start: self.start, end: self.end, priority }),
    {
        Clip { start: self.start, end: self.end, priority }
    }
}

/// Whether there is anything in the recording, and the time from its first to its last moment
/// can be counted.
pub fn can_clip(video: &Video) -> (r: bool)
    ensures
        r == (moments(*video).len() > 0 && countable(*video)),
{
    if video.volumes.len() == 0 && video.frames.len() == 0 {
        return false;
    }
    let (lo, hi) = video_range(video);
    lo > i64::MIN && (hi as i128 - lo as i128) < i64::MAX as i128
}

/// Why a recording could not be clipped.
#[derive(Debug, Clone, Copy)]
pub enum ClipVideoError {
    /// The recording could not be cut.
    Clip(ClipError),
    /// There is no random number to seed the noise of the priorities with.
    Random(RandomError),
}

/// The clips with the seed that was drawn for the noise of their priorities. Fails exactly if the
/// draw has failed, and with its error.
pub fn drawn_clips(clips: Vec<UnprioritizedClip>, drawn: Result<u64, RandomError>) -> (r: Result<
    (Vec<UnprioritizedClip>, u64),
    ClipVideoError,
>)
    ensures
        r == match drawn {
            Ok(seed) => Ok::<(Vec<UnprioritizedClip>, u64), ClipVideoError>((clips, seed)),
            Err(e) => Err::<(Vec<UnprioritizedClip>, u64), ClipVideoError>(
                ClipVideoError::Random(e),
            ),
        },
{
    match drawn {
        Ok(seed) => Ok((clips, seed)),
        Err(e) => Err(ClipVideoError::Random(e)),
    }
}

/// Determines what parts of the recording should be clips, and draws the seed for the noise
/// that is added to their priorities: what [`drawn_clips`] makes of the clips and a draw. Any seed
/// may come back; only the random source can fail.
pub fn clip_video(video: &Video, threshold: Binary64, silences: &Vec<i64>) -> (r: Result<
    (Vec<UnprioritizedClip>, u64),
    ClipVideoError,
>)
    requires
        moments(*video).len() > 0,
        countable(*video),
        silences@.len() > video.volumes@.len(),
    ensures
        match r {
            Ok((clips, _)) => {
                &&& clips@ == settled(initial_clips(*video, threshold, silences@))
                &&& spans(
                    clips@,
                    earliest(moments(*video)) as int,
                    latest(moments(*video)) as int,
                )
            },
            Err(e) => e is Random,
        },
{
    let clips = match Clipset::of(video, threshold, silences) {
        Ok(clipset) => clipset.into_clips(),
        Err(e) => {
            return Err(ClipVideoError::Clip(e));
        },
    };
    drawn_clips(clips, random_number())
}

/// Gives each clip its priority.
pub fn prioritize_clips(clips: &Vec<UnprioritizedClip>, priorities: &Vec<Binary64>) -> (r: Vec<
    Clip,
>)
    requires
        clips@.len() == priorities@.len(),
    ensures
        r@.len() == clips@.len(),
        forall|i: int|
            0 <= i < r@.len() ==> #[trigger] r@[i] == (Clip {
                start: clips@[i].start,
                end: clips@[i].end,
                priority: priorities@[i],
            }),
{
    let mut out: Vec<Clip> = Vec::new();
    for i in 0..clips.len()
        invariant
            clips@.len() == priorities@.len(),
            out@.len() == i,
            forall|j: int|
                0 <= j < i ==> #[trigger] out@[j] == (Clip {
                    start: clips@[j].start,
                    end: clips@[j].end,
                    priority: priorities@[j],
                }),
    {
        out.push(clips[i].prioritize(priorities[i]));
    }
    out
}

impl Video {
    /// Determines what parts of the recording should be clips, as [`clip_video`] does.
    pub fn make_clips(&self, threshold: Binary64, silences: &Vec<i64>) -> (r: Result<
        (Vec<UnprioritizedClip>, u64),
        ClipVideoError,
    >)
        requires
            moments(*self).len() > 0,
            countable(*self),
            silences@.len() > self.volumes@.len(),
        ensures
            match r {
                Ok((clips, _)) => {
                    &&& clips@ == settled(initial_clips(*self, threshold, silences@))
                    &&& spans(
                        clips@,
                        earliest(moments(*self)) as int,
                        latest(moments(*self)) as int,
                    )
                },
                Err(e) => e is Random,
            },
    {
        clip_video(self, threshold, silences)
    }
}

/// What [`UnprioritizedClip::amplitudes`] returns: the amplitudes of all samples between the start
/// and the end of the clip, whatever its kind, each once and in order.
pub proof fn amplitudes_are_complete(
    clip: UnprioritizedClip,
    volumes: Vec<Volume>,
    r: Vec<Binary64>,
    i: int,
)
    requires
        call_ensures(UnprioritizedClip::amplitudes, (&clip, &volumes), r),
    ensures
        r@.len() == samples_within(
            volumes@,
            volumes@.len() as int,
            clip.start as int,
            clip.end as int,
        ),
        0 <= i < volumes@.len() && clip.start <= volumes@[i].microseconds <= clip.end ==> {
            let at = samples_within(volumes@, i, clip.start as int, clip.end as int);
            0 <= at < r@.len() && r@[at] == volumes@[i].max_amplitude
        },
{
    amplitudes_are_those_of_the_samples_within(clip, volumes@);
    if 0 <= i < volumes@.len() && clip.start <= volumes@[i].microseconds <= clip.end {
        assert(samples_within(volumes@, i, clip.start as int, clip.end as int) >= 0);
    }
}

/// What [`prioritize_clips`] returns: the same clips, in order, each with the priority that was given
/// for it.
pub proof fn clips_keep_their_range(
    clips: Vec<UnprioritizedClip>,
    priorities: Vec<Binary64>,
    r: Vec<Clip>,
    i: int,
)
    requires
        clips@.len() == priorities@.len(),
        call_ensures(prioritize_clips, (&clips, &priorities), r),
    ensures
        r@.len() == clips@.len(),
        0 <= i < clips@.len() ==> r@[i].start == clips@[i].start && r@[i].end == clips@[i].end
            && r@[i].priority == priorities@[i],
{
}

/// What [`Clipset::initial_clipset`] returns of a recording whose samples come in the order of time:
/// clips from its first to its last moment, a silent one first, then a noisy and a silent one in
/// turn, each of which starts where the recording is cut.
pub proof fn a_recording_is_cut_at_its_cuts(
    video: Video,
    threshold: Binary64,
    silences: Vec<i64>,
    r: Result<Clipset, ClipError>,
    i: int,
)
    requires
        moments(video).len() > 0,
        measurable(video),
        in_order(video.volumes@),
        silences@.len() > video.volumes@.len(),
        call_ensures(Clipset::initial_clipset, (&video, threshold, &silences), r),
    ensures
        r is Ok,
        ({
            let cuts = scan(video.volumes@, threshold, silences@).cuts;
            let clips = r->Ok_0.clips@;
            &&& clips.len() == cuts.len() + 1
            &&& 0 <= i < clips.len() ==> clips[i].relatively_silent == (i % 2 == 0)
            &&& 0 < i < clips.len() ==> clips[i].start == cuts[i - 1].0
            &&& 0 <= i < cuts.len() ==> clips[i].end + 1 == cuts[i].0
            &&& clips[0].start == earliest(moments(video))
            &&& clips.last().end == latest(moments(video))
        }),
{
    clips_alternate(video, threshold, silences@);
}

/// What [`clip_video`] returns, if it succeeds: clips that follow one another without a gap from the
/// first to the last moment of the recording, none of them silent for more than five seconds.
pub proof fn clips_cover_the_recording(
    video: Video,
    threshold: Binary64,
    silences: Vec<i64>,
    r: Result<(Vec<UnprioritizedClip>, u64), ClipVideoError>,
    i: int,
)
    requires
        moments(video).len() > 0,
        countable(video),
        silences@.len() > video.volumes@.len(),
        call_ensures(clip_video, (&video, threshold, &silences), r)
            || call_ensures(Video::make_clips, (&video, threshold, &silences), r),
        r is Ok,
    ensures
        ({
            let clips = r->Ok_0.0@;
            &&& clips.len() > 0
            &&& clips[0].start == earliest(moments(video))
            &&& clips.last().end == latest(moments(video))
            &&& 0 <= i < clips.len() ==> clips[i].start <= clips[i].end + 1
            &&& 0 < i < clips.len() ==> clips[i - 1].end + 1 == clips[i].start
            &&& 0 <= i < clips.len() && clips[i].relatively_silent ==> clips[i].end
                - clips[i].start + 1 <= 5_000_000
        }),
{
    let first = initial_clips(video, threshold, silences@);
    let clips = r->Ok_0.0@;
    lemma_initial_tiling(video, threshold, silences@);
    large_silent_clips_are_split_up(first);
    if 0 <= i < clips.len() {
        assert(clips[i].length() >= 0);
        assert(clips[i] == settled(first)[i]);
        if i > 0 {
            assert(clips[i - 1].end + 1 == clips[i].start);
        }
    }
}

proof fn lemma_initial_tiling(video: Video, threshold: Binary64, silences: Seq<i64>)
    requires
        moments(video).len() > 0,
        measurable(video),
    ensures
        tiling(initial_clips(video, threshold, silences)),
{
    let ms = moments(video);
    let volumes = video.volumes@;
    let cuts = scan(volumes, threshold, silences).cuts;
    let whole = UnprioritizedClip {
        start: earliest(ms),
        end: latest(ms),
        relatively_silent: true,
    };
    lemma_bounds(ms);
    assert forall|i: int| 0 <= i < cuts.len() implies whole.start <= (#[trigger] cuts[i]).0
        <= whole.end by {
        cuts_are_at_samples(volumes, threshold, silences);
        let j = choose|j: int|
            0 <= j < volumes.len() && (#[trigger] volumes[j]).microseconds == cuts[i].0;
        assert(ms[j] == volumes[j].microseconds);
    }
    lemma_every_cut(whole, cuts);
}

/// What [`Clipset::merge_and_split_clips`] does, for clips that follow one another without a gap: it
/// makes nothing of the clip that it comes to but what it would make of it alone, or of it and its
/// successor as one if one of them is too small, and goes on with the rest.
pub proof fn the_pass_takes_one_clip_at_a_time(clipset: &mut Clipset, r: Result<(), ClipError>)
    requires
        old(clipset).wf(),
        old(clipset).clips@.len() > 1,
        call_ensures(Clipset::merge_and_split_clips, (clipset,), r),
    ensures
        r is Ok,
        ({
            let before = old(clipset).clips@;
            let after = final(clipset).clips@;
            let merge = before[0].end - before[0].start + 1 < 100_000 || before[1].end
                - before[0].start + 1 < 750_000;
            let both = UnprioritizedClip {
                start: before[0].start,
                end: before[1].end,
                relatively_silent: before[0].relatively_silent,
            };
            &&& merge ==> after == settled(seq![both]) + settled(before.skip(2))
            &&& !merge ==> after == settled(seq![before[0]]) + settled(before.skip(1))
        }),
{
    let before = old(clipset).clips@;
    assert(before[0].length() >= 0 && before[1].length() >= 0);
    assert(before[0].end + 1 == before[1].start);
    small_clips_become_one(before);
}

/// How two results of [`Clipset::merge_and_split_clips`] relate: if the clips of one are those of the
/// other, moved on the clock, so are the results.
pub proof fn the_pass_moves_with_the_clock(
    here: &mut Clipset,
    there: &mut Clipset,
    by: int,
    r: Result<(), ClipError>,
    s: Result<(), ClipError>,
)
    requires
        old(here).wf(),
        old(there).wf(),
        can_move(old(here).clips@, by),
        old(there).clips@ == all_moved(old(here).clips@, by),
        call_ensures(Clipset::merge_and_split_clips, (here,), r),
        call_ensures(Clipset::merge_and_split_clips, (there,), s),
    ensures
        final(there).clips@ == all_moved(final(here).clips@, by),
{
    the_clock_does_not_matter(old(here).clips@, by);
}

/// What [`Clipset::split`] does to clips that follow one another without a gap: the one that holds
/// the time ends right before it, and a new one goes on from there.
pub proof fn a_split_makes_two_of_one(
    clipset: &mut Clipset,
    time: i64,
    silent: bool,
    k: int,
    r: Result<(), ClipError>,
)
    requires
        old(clipset).wf(),
        0 <= k < old(clipset).clips@.len(),
        old(clipset).clips@[k].start <= time <= old(clipset).clips@[k].end,
        time > i64::MIN,
        call_ensures(Clipset::split, (clipset, time, silent), r),
    ensures
        r is Ok,
        ({
            let before = old(clipset).clips@;
            let after = final(clipset).clips@;
            &&& after.len() == before.len() + 1
            &&& after.take(k) == before.take(k)
            &&& after.skip(k + 2) == before.skip(k + 1)
            &&& after[k].start == before[k].start && after[k].end == time - 1
            &&& after[k].relatively_silent == before[k].relatively_silent
            &&& after[k + 1].start == time && after[k + 1].end == before[k].end
            &&& after[k + 1].relatively_silent == silent
        }),
{
    let before = old(clipset).clips@;
    let lo = before[0].start as int;
    let hi = before.last().end as int;
    tiling_is_in_order(before, 0, k);
    tiling_is_in_order(before, k, before.len() - 1);
    tiling_covers_each_moment_once(before, lo, hi, time as int);
    assert(before[k].covers(time as int));
    a_cut_replaces_one_clip(before, k, time, silent);
    assert(final(clipset).clips@.take(k) =~= before.take(k));
    assert(final(clipset).clips@.skip(k + 2) =~= before.skip(k + 1));
}

/// What [`UnprioritizedClip::merge_from`] does to a clip that another one follows: it reaches to the
/// end of the other one, and keeps its start and its kind.
pub proof fn merging_keeps_the_kind(clip: &mut UnprioritizedClip, other: UnprioritizedClip)
    requires
        i64::MIN < other.end - other.start + 1 <= i64::MAX,
        i64::MIN < other.end - old(clip).start + 1 <= i64::MAX,
        old(clip).start <= other.start,
        call_ensures(UnprioritizedClip::merge_from, (clip, other), ()),
    ensures
        final(clip).start == old(clip).start,
        final(clip).end == other.end,
        final(clip).relatively_silent == old(clip).relatively_silent,
{
}

/// Every recording can be clipped that has a sample or a picture, none of them at the earliest time
/// there is, and all within a time that can be counted.
pub proof fn recordings_can_be_clipped(video: Video, lo: int, hi: int, r: bool)
    requires
        video.volumes@.len() > 0 || video.frames@.len() > 0,
        i64::MIN < lo,
        hi - lo < i64::MAX,
        forall|i: int|
            0 <= i < video.volumes@.len() ==> lo <= (#[trigger] video.volumes@[i]).microseconds
                <= hi,
        forall|i: int|
            0 <= i < video.frames@.len() ==> lo <= (#[trigger] video.frames@[i]).microseconds <= hi,
        call_ensures(can_clip, (&video,), r),
    ensures
        r,
        countable(video),
        measurable(video),
{
    the_range_is_that_of_the_moments(video);
    lemma_bounds(moments(video));
}

/// What the small questions about a clip are answered: it is as long as the times in it are many, it
/// holds those from its start to its end, and it keeps its range when it gets a priority.
pub proof fn a_clip_holds_its_range(
    clip: UnprioritizedClip,
    length: i64,
    time: i64,
    held: bool,
    priority: Binary64,
    r: Clip,
    its_length: i64,
)
    requires
        call_ensures(UnprioritizedClip::len, (clip,), length),
        call_ensures(UnprioritizedClip::contains, (&clip, time), held),
        call_ensures(UnprioritizedClip::prioritize, (clip, priority), r),
        call_ensures(Clip::len, (r,), its_length),
    ensures
        length == clip.end - clip.start + 1,
        held <==> clip.start <= time && time <= clip.end,
        r.start == clip.start && r.end == clip.end && r.priority == priority,
        its_length == length,
{
}

} // verus!
