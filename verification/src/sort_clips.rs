//! Picking the clips that make up the finished video.

use std::collections::HashSet;

use vstd::prelude::*;

use crate::video::clips::{spans, tiling_is_in_order, Clip, UnprioritizedClip};

verus! {

/// How long the clips are together.
pub open spec fn total_time(clips: Seq<Clip>) -> int
    decreases clips.len(),
{
    if clips.len() == 0 {
        0
    } else {
        total_time(clips.drop_last()) + clips.last().length()
    }
}

/// How long those clips are together whose index is in `active`.
pub open spec fn active_time(clips: Seq<Clip>, active: Set<usize>) -> int
    decreases clips.len(),
{
    if clips.len() == 0 {
        0
    } else {
        active_time(clips.drop_last(), active) + if active.contains((clips.len() - 1) as usize) {
            clips.last().length()
        } else {
            0
        }
    }
}

/// Whether `order` lists the indices from `lo` up to `hi`, each once, by rising priority.
pub open spec fn ranks(order: Seq<usize>, clips: Seq<Clip>, lo: int, hi: int) -> bool {
    &&& order.len() == hi - lo
    &&& order.no_duplicates()
    &&& forall|i: int| 0 <= i < order.len() ==> lo <= #[trigger] order[i] < hi
    &&& forall|x: usize| lo <= x < hi ==> order.contains(x)
    &&& forall|i: int, j: int|
        0 <= i < j < order.len() ==> !clips[#[trigger] order[j] as int].priority.less(
            clips[#[trigger] order[i] as int].priority,
        )
}

/// The last `k` entries of `order`, as a set.
pub open spec fn top(order: Seq<usize>, k: int) -> Set<usize> {
    order.skip(order.len() - k).to_set()
}

/// Whether `active` is what picking gives: the `k` best clips of some order by priority, where
/// `k` is the least number of clips that fills the time limit.
pub open spec fn picked(
    clips: Seq<Clip>,
    time_limit: int,
    active: Set<usize>,
    order: Seq<usize>,
    k: int,
) -> bool {
    &&& ranks(order, clips, 0, clips.len() as int)
    &&& 0 <= k <= order.len()
    &&& active == top(order, k)
    &&& active_time(clips, active) >= time_limit
    &&& forall|j: int| 0 <= j < k ==> active_time(clips, #[trigger] top(order, j)) < time_limit
}

/// Whether no clip has a negative length, and all priorities can be compared.
pub open spec fn rankable(clips: Seq<Clip>) -> bool {
    &&& clips.len() <= usize::MAX
    &&& forall|i: int| 0 <= i < clips.len() ==> (#[trigger] clips[i]).wf()
    &&& clips.len() > 1 ==> forall|i: int|
        0 <= i < clips.len() ==> !(#[trigger] clips[i]).priority.nan()
}

proof fn lemma_active_insert(clips: Seq<Clip>, active: Set<usize>, x: usize)
    requires
        clips.len() <= usize::MAX,
        !active.contains(x),
    ensures
        active_time(clips, active.insert(x)) == active_time(clips, active) + if x < clips.len() {
            clips[x as int].length()
        } else {
            0
        },
    decreases clips.len(),
{
    if clips.len() > 0 {
        lemma_active_insert(clips.drop_last(), active, x);
    }
}

proof fn lemma_active_none(clips: Seq<Clip>)
    ensures
        active_time(clips, Set::empty()) == 0,
    decreases clips.len(),
{
    if clips.len() > 0 {
        lemma_active_none(clips.drop_last());
    }
}

/// If every clip is active, the active time is the whole time.
pub proof fn all_active_is_total(clips: Seq<Clip>, active: Set<usize>)
    requires
        clips.len() <= usize::MAX,
        forall|x: usize| x < clips.len() ==> active.contains(x),
    ensures
        active_time(clips, active) == total_time(clips),
    decreases clips.len(),
{
    if clips.len() > 0 {
        all_active_is_total(clips.drop_last(), active);
    }
}

/// The active time lies between nothing and the whole time.
pub proof fn active_time_is_bounded(clips: Seq<Clip>, active: Set<usize>)
    requires
        forall|i: int| 0 <= i < clips.len() ==> (#[trigger] clips[i]).wf(),
    ensures
        0 <= active_time(clips, active) <= total_time(clips),
    decreases clips.len(),
{
    if clips.len() > 0 {
        let rest = clips.drop_last();
        assert forall|i: int| 0 <= i < rest.len() implies (#[trigger] rest[i]).wf() by {
            assert(clips[i].wf());
        }
        assert(clips[clips.len() - 1].wf());
        active_time_is_bounded(rest, active);
    }
}

/// Merges two neighbouring stretches of indices, each ordered by rising priority.
fn merge_ranked(
    clips: &Vec<Clip>,
    left: &Vec<usize>,
    right: &Vec<usize>,
    Ghost(lo): Ghost<int>,
    Ghost(mid): Ghost<int>,
    Ghost(hi): Ghost<int>,
) -> (r: Vec<usize>)
    requires
        0 <= lo <= mid <= hi <= clips@.len(),
        ranks(left@, clips@, lo, mid),
        ranks(right@, clips@, mid, hi),
        forall|i: int| 0 <= i < clips@.len() ==> !(#[trigger] clips@[i]).priority.nan(),
    ensures
        ranks(r@, clips@, lo, hi),
{
    let mut out: Vec<usize> = Vec::new();
    let mut i: usize = 0;
    let mut j: usize = 0;
    while i < left.len() || j < right.len()
        invariant
            0 <= lo <= mid <= hi <= clips@.len(),
            ranks(left@, clips@, lo, mid),
            ranks(right@, clips@, mid, hi),
            forall|k: int| 0 <= k < clips@.len() ==> !(#[trigger] clips@[k]).priority.nan(),
            i <= left@.len(),
            j <= right@.len(),
            out@.len() == i + j,
            out@.no_duplicates(),
            forall|k: int| 0 <= k < out@.len() ==> lo <= #[trigger] out@[k] < hi,
            forall|k: int|
                0 <= k < out@.len() ==> left@.take(i as int).contains(#[trigger] out@[k])
                    || right@.take(j as int).contains(out@[k]),
            forall|k: int| 0 <= k < i ==> out@.contains(#[trigger] left@[k]),
            forall|k: int| 0 <= k < j ==> out@.contains(#[trigger] right@[k]),
            forall|k: int, l: int|
                0 <= k < out@.len() && i <= l < left@.len()
                    ==> !clips@[#[trigger] left@[l] as int].priority.less(
                    clips@[#[trigger] out@[k] as int].priority,
                ),
            forall|k: int, l: int|
                0 <= k < out@.len() && j <= l < right@.len()
                    ==> !clips@[#[trigger] right@[l] as int].priority.less(
                    clips@[#[trigger] out@[k] as int].priority,
                ),
            forall|k: int, l: int|
                0 <= k < l < out@.len() ==> !clips@[#[trigger] out@[l] as int].priority.less(
                    clips@[#[trigger] out@[k] as int].priority,
                ),
        decreases left@.len() + right@.len() - i - j,
    {
        let ghost before = out@;
        let take_left: bool = if i == left.len() {
            false
        } else if j == right.len() {
            true
        } else {
            !clips[right[j]].priority.less_than(&clips[left[i]].priority)
        };
        let next: usize = if take_left {
            left[i]
        } else {
            right[j]
        };
        proof {
            if before.contains(next) {
                let k = choose|k: int| 0 <= k < before.len() && before[k] == next;
                assert(out@[k] == next);
                if left@.take(i as int).contains(next) {
                    let a = choose|a: int| 0 <= a < i && left@.take(i as int)[a] == next;
                    assert(left@[a] == next);
                    if !take_left {
                        assert(right@[j as int] >= mid);
                    }
                } else {
                    let b = choose|b: int| 0 <= b < j && right@.take(j as int)[b] == next;
                    assert(right@[b] == next);
                    if take_left {
                        assert(left@[i as int] < mid);
                    }
                }
                assert(false);
            }
        }
        out.push(next);
        let ghost i0 = i as int;
        let ghost j0 = j as int;
        if take_left {
            i += 1;
        } else {
            j += 1;
        }
        proof {
            assert(out@.last() == next);
            assert forall|k: int| 0 <= k < out@.len() implies left@.take(i as int).contains(
                #[trigger] out@[k],
            ) || right@.take(j as int).contains(out@[k]) by {
                if k < before.len() {
                    assert(before[k] == out@[k]);
                    if left@.take(i0).contains(before[k]) {
                        let a = choose|a: int| 0 <= a < i0 && left@.take(i0)[a] == before[k];
                        assert(left@.take(i as int)[a] == out@[k]);
                    } else {
                        let b = choose|b: int| 0 <= b < j0 && right@.take(j0)[b] == before[k];
                        assert(right@.take(j as int)[b] == out@[k]);
                    }
                } else if take_left {
                    assert(left@.take(i as int)[i0] == out@[k]);
                } else {
                    assert(right@.take(j as int)[j0] == out@[k]);
                }
            }
            assert forall|k: int| 0 <= k < i implies out@.contains(#[trigger] left@[k]) by {
                if k < i0 {
                    assert(before.contains(left@[k]));
                    let m = choose|m: int| 0 <= m < before.len() && before[m] == left@[k];
                    assert(out@[m] == left@[k]);
                }
            }
            assert forall|k: int| 0 <= k < j implies out@.contains(#[trigger] right@[k]) by {
                if k < j0 {
                    assert(before.contains(right@[k]));
                    let m = choose|m: int| 0 <= m < before.len() && before[m] == right@[k];
                    assert(out@[m] == right@[k]);
                }
            }
            assert forall|k: int, l: int| 0 <= k < out@.len() && i <= l < left@.len() implies
                !clips@[#[trigger] left@[l] as int].priority.less(
                clips@[#[trigger] out@[k] as int].priority,
            ) by {
                if k < before.len() {
                    assert(before[k] == out@[k]);
                } else if !take_left {
                    assert(l == i0 || !clips@[left@[l] as int].priority.less(
                        clips@[left@[i0] as int].priority,
                    ));
                }
            }
            assert forall|k: int, l: int| 0 <= k < out@.len() && j <= l < right@.len() implies
                !clips@[#[trigger] right@[l] as int].priority.less(
                clips@[#[trigger] out@[k] as int].priority,
            ) by {
                if k < before.len() {
                    assert(before[k] == out@[k]);
                } else if take_left {
                    assert(l == j0 || !clips@[right@[l] as int].priority.less(
                        clips@[right@[j0] as int].priority,
                    ));
                }
            }
            assert forall|k: int, l: int| 0 <= k < l < out@.len() implies !clips@[
                #[trigger] out@[l] as int].priority.less(
                clips@[#[trigger] out@[k] as int].priority,
            ) by {
                assert(before[k] == out@[k]);
                if l < before.len() {
                    assert(before[l] == out@[l]);
                }
            }
        }
    }
    proof {
        assert forall|x: usize| lo <= x < hi implies out@.contains(x) by {
            if x < mid {
                assert(left@.contains(x));
                let k = choose|k: int| 0 <= k < left@.len() && left@[k] == x;
                assert(out@.contains(left@[k]));
            } else {
                assert(right@.contains(x));
                let k = choose|k: int| 0 <= k < right@.len() && right@[k] == x;
                assert(out@.contains(right@[k]));
            }
        }
    }
    out
}

/// The indices from `lo` up to `hi`, ordered by rising priority of their clips.
fn rank(clips: &Vec<Clip>, lo: usize, hi: usize) -> (r: Vec<usize>)
    requires
        lo <= hi <= clips@.len(),
        hi - lo > 1 ==> forall|i: int|
            0 <= i < clips@.len() ==> !(#[trigger] clips@[i]).priority.nan(),
    ensures
        ranks(r@, clips@, lo as int, hi as int),
    decreases hi - lo,
{
    if hi - lo == 0 {
        return Vec::new();
    }
    if hi - lo == 1 {
        let mut out: Vec<usize> = Vec::new();
        out.push(lo);
        assert(out@[0] == lo);
        return out;
    }
    let mid: usize = lo + (hi - lo) / 2;
    let left = rank(clips, lo, mid);
    let right = rank(clips, mid, hi);
    merge_ranked(
        clips,
        &left,
        &right,
        Ghost(lo as int),
        Ghost(mid as int),
        Ghost(hi as int),
    )
}

/// Determines which clips to activate: the ones of highest priority, taken until the time limit
/// is filled. Which of two clips of the same priority comes first is left open.
pub fn sort_clips(clips: &Vec<Clip>, time_limit: i64) -> (r: HashSet<usize>)
    requires
        rankable(clips@),
        time_limit <= 0 || time_limit <= total_time(clips@),
    ensures
        exists|order: Seq<usize>, k: int| picked(clips@, time_limit as int, r@, order, k),
{
    broadcast use vstd::std_specs::hash::group_hash_axioms;

    let order = rank(clips, 0, clips.len());
    let mut active: HashSet<usize> = HashSet::new();
    let mut remaining: i64 = time_limit;
    let mut left: usize = order.len();
    let ghost n = order@.len();
    proof {
        lemma_active_none(clips@);
        assert(top(order@, 0) =~= Set::empty());
    }
    while remaining > 0
        invariant
            rankable(clips@),
            time_limit <= 0 || time_limit <= total_time(clips@),
            ranks(order@, clips@, 0, clips@.len() as int),
            n == order@.len(),
            left <= n,
            remaining <= time_limit,
            active@ == top(order@, n - left),
            active_time(clips@, active@) == time_limit - remaining,
            forall|j: int|
                0 <= j < n - left ==> active_time(clips@, #[trigger] top(order@, j)) < time_limit,
        decreases left,
    {
        let ghost before = active@;
        proof {
            if left == 0 {
                assert forall|x: usize| x < clips@.len() implies active@.contains(x) by {
                    assert(order@.contains(x));
                    assert(order@.skip(0) =~= order@);
                }
                all_active_is_total(clips@, active@);
            }
        }
        left -= 1;
        let i: usize = order[left];
        proof {
            assert(clips@[i as int].wf());
            if before.contains(i) {
                let tail = order@.skip(left + 1);
                let m = choose|m: int| 0 <= m < tail.len() && tail[m] == i;
                assert(order@[left + 1 + m] == i);
            }
            lemma_active_insert(clips@, before, i);
            assert forall|x: usize| top(order@, n - left).contains(x) <==> before.insert(
                i,
            ).contains(x) by {
                let long = order@.skip(left as int);
                let short = order@.skip(left + 1);
                if long.contains(x) {
                    let m = choose|m: int| 0 <= m < long.len() && long[m] == x;
                    if m > 0 {
                        assert(short[m - 1] == x);
                    }
                }
                if short.contains(x) {
                    let m = choose|m: int| 0 <= m < short.len() && short[m] == x;
                    assert(long[m + 1] == x);
                }
                assert(long[0] == i);
            }
            assert(top(order@, n - left) =~= before.insert(i));
        }
        remaining -= clips[i].len();
        active.insert(i);
    }
    proof {
        assert(picked(clips@, time_limit as int, active@, order@, n - left));
    }
    active
}

/// The picked clips fill the time limit, and no clip that was left out has a higher priority
/// than one that was picked.
pub proof fn picked_clips_are_the_best(
    clips: Seq<Clip>,
    time_limit: int,
    active: Set<usize>,
    order: Seq<usize>,
    k: int,
    chosen: usize,
    other: usize,
)
    requires
        picked(clips, time_limit, active, order, k),
        active.contains(chosen),
        other < clips.len(),
        !active.contains(other),
    ensures
        chosen < clips.len(),
        active_time(clips, active) >= time_limit,
        !clips[chosen as int].priority.less(clips[other as int].priority),
{
    let tail = order.skip(order.len() - k);
    let m = choose|m: int| 0 <= m < tail.len() && tail[m] == chosen;
    let a = order.len() - k + m;
    assert(order[a] == chosen);
    assert(order.contains(other));
    let b = choose|b: int| 0 <= b < order.len() && order[b] == other;
    if b >= a {
        assert(tail[b - (order.len() - k)] == other);
    }
}

/// No clip is picked in vain: without the weakest of the picked clips the time limit is not
/// filled, and without a time limit nothing is picked.
pub proof fn picked_clips_are_needed(
    clips: Seq<Clip>,
    time_limit: int,
    active: Set<usize>,
    order: Seq<usize>,
    k: int,
)
    requires
        picked(clips, time_limit, active, order, k),
    ensures
        time_limit <= 0 ==> active == Set::<usize>::empty(),
        k > 0 ==> active_time(clips, active.remove(order[order.len() - k])) < time_limit,
{
    lemma_active_none(clips);
    assert(top(order, 0) =~= Set::empty());
    if k > 0 {
        let long = order.skip(order.len() - k);
        let short = order.skip(order.len() - k + 1);
        let first = order[order.len() - k];
        assert forall|x: usize| active.remove(first).contains(x) <==> top(order, k - 1).contains(
            x,
        ) by {
            if long.contains(x) && x != first {
                let m = choose|m: int| 0 <= m < long.len() && long[m] == x;
                assert(short[m - 1] == x);
            }
            if short.contains(x) {
                let m = choose|m: int| 0 <= m < short.len() && short[m] == x;
                assert(long[m + 1] == x);
            }
        }
        assert(active.remove(first) =~= top(order, k - 1));
    }
}

/// The first clips are together no longer than all of them.
pub proof fn prefix_time_is_bounded(clips: Seq<Clip>, n: int)
    requires
        forall|i: int| 0 <= i < clips.len() ==> (#[trigger] clips[i]).wf(),
        0 <= n <= clips.len(),
    ensures
        0 <= total_time(clips.take(n)) <= total_time(clips),
    decreases clips.len(),
{
    if n == clips.len() {
        assert(clips.take(n) =~= clips);
        active_time_is_bounded(clips, Set::empty());
    } else {
        let rest = clips.drop_last();
        assert forall|i: int| 0 <= i < rest.len() implies (#[trigger] rest[i]).wf() by {
            assert(clips[i].wf());
        }
        prefix_time_is_bounded(rest, n);
        assert(rest.take(n) =~= clips.take(n));
        assert(clips[clips.len() - 1].wf());
    }
}

/// Whether the clips can be ranked, and are long enough together to fill the time limit.
pub fn can_sort(clips: &Vec<Clip>, time_limit: i64) -> (r: bool)
    ensures
        r == (rankable(clips@) && (time_limit <= 0 || time_limit <= total_time(clips@))),
{
    for i in 0..clips.len()
        invariant
            forall|j: int| 0 <= j < i ==> (#[trigger] clips@[j]).wf(),
            clips@.len() > 1 ==> forall|j: int|
                0 <= j < i ==> !(#[trigger] clips@[j]).priority.nan(),
    {
        if !clips[i].is_wf() {
            assert(!clips@[i as int].wf());
            return false;
        }
        if clips.len() > 1 && clips[i].priority.is_nan() {
            assert(clips@[i as int].priority.nan());
            return false;
        }
    }
    let mut remaining: i64 = time_limit;
    assert(clips@.take(0) =~= Seq::<Clip>::empty());
    for i in 0..clips.len()
        invariant
            forall|j: int| 0 <= j < clips@.len() ==> (#[trigger] clips@[j]).wf(),
            rankable(clips@),
            remaining == time_limit - total_time(clips@.take(i as int)),
            remaining <= time_limit,
    {
        proof {
            prefix_time_is_bounded(clips@, i as int);
        }
        if remaining <= 0 {
            return true;
        }
        assert(clips@.take(i + 1).drop_last() =~= clips@.take(i as int));
        assert(clips@.take(i + 1).last() == clips@[i as int]);
        remaining = remaining - clips[i].len();
    }
    assert(clips@.take(clips@.len() as int) =~= clips@);
    remaining <= 0
}

proof fn lemma_tiled_time(ranges: Seq<UnprioritizedClip>, clips: Seq<Clip>)
    requires
        ranges.len() == clips.len(),
        ranges.len() > 0,
        forall|i: int|
            0 <= i < clips.len() ==> (#[trigger] clips[i]).start == ranges[i].start && clips[i].end
                == ranges[i].end,
        forall|i: int, j: int|
            0 <= i && j == i + 1 && j < ranges.len() ==> (#[trigger] ranges[i]).end + 1 == (
            #[trigger] ranges[j]).start,
    ensures
        total_time(clips) == ranges.last().end - ranges[0].start + 1,
    decreases clips.len(),
{
    let n = clips.len() - 1;
    assert(clips[n].start == ranges[n].start && clips[n].end == ranges[n].end);
    if n == 0 {
        assert(total_time(clips.drop_last()) == 0);
    } else {
        let fewer = ranges.drop_last();
        let rest = clips.drop_last();
        assert forall|i: int| 0 <= i < rest.len() implies (#[trigger] rest[i]).start
            == fewer[i].start && rest[i].end == fewer[i].end by {
            assert(clips[i].start == ranges[i].start && clips[i].end == ranges[i].end);
        }
        assert forall|i: int, j: int| 0 <= i && j == i + 1 && j < fewer.len() implies (
        #[trigger] fewer[i]).end + 1 == (#[trigger] fewer[j]).start by {
            assert(ranges[i].end + 1 == ranges[j].start);
        }
        lemma_tiled_time(fewer, rest);
        assert(ranges[n - 1].end + 1 == ranges[n].start);
    }
}

/// The clips of a recording are together exactly as long as the recording: nothing is lost or
/// counted twice when it is cut.
pub proof fn clips_fill_the_recording(
    ranges: Seq<UnprioritizedClip>,
    clips: Seq<Clip>,
    lo: int,
    hi: int,
)
    requires
        spans(ranges, lo, hi),
        hi - lo < i64::MAX,
        clips.len() == ranges.len(),
        forall|i: int|
            0 <= i < clips.len() ==> (#[trigger] clips[i]).start == ranges[i].start && clips[i].end
                == ranges[i].end,
    ensures
        total_time(clips) == hi - lo + 1,
        forall|i: int| 0 <= i < clips.len() ==> (#[trigger] clips[i]).wf(),
{
    lemma_tiled_time(ranges, clips);
    assert forall|i: int| 0 <= i < clips.len() implies (#[trigger] clips[i]).wf() by {
        assert(ranges[i].length() >= 0);
        tiling_is_in_order(ranges, 0, i);
        tiling_is_in_order(ranges, i, ranges.len() - 1);
    }
}

/// One more active clip makes the active time longer by the time from its start to its end, both
/// included, and by nothing else. Without an active clip there is no active time.
pub proof fn each_active_clip_counts_once(clips: Seq<Clip>, active: Set<usize>, x: usize)
    requires
        x < clips.len() <= usize::MAX,
        !active.contains(x),
    ensures
        active_time(clips, active.insert(x)) == active_time(clips, active) + clips[x as int].end
            - clips[x as int].start + 1,
        active_time(clips, Set::empty()) == 0,
{
    lemma_active_insert(clips, active, x);
    lemma_active_none(clips);
}

/// The whole time of clips that follow one another is that of the first ones and that of the rest,
/// and a single clip lasts from its start to its end, both included.
pub proof fn times_add_up(a: Seq<Clip>, b: Seq<Clip>, clip: Clip)
    ensures
        total_time(a + b) == total_time(a) + total_time(b),
        total_time(seq![clip]) == clip.end - clip.start + 1,
        total_time(seq![]) == 0,
    decreases b.len(),
{
    if b.len() == 0 {
        assert(a + b =~= a);
    } else {
        times_add_up(a, b.drop_last(), clip);
        assert((a + b).drop_last() =~= a + b.drop_last());
    }
    reveal_with_fuel(total_time, 2);
    assert(seq![clip].drop_last() =~= seq![]);
}

/// What [`sort_clips`] returns: clips that fill the time limit, none of them worse than one that was
/// left out, and none at all if there is no time to fill.
pub proof fn the_best_clips_fill_the_time(
    clips: Vec<Clip>,
    time_limit: i64,
    r: HashSet<usize>,
    chosen: usize,
    other: usize,
)
    requires
        rankable(clips@),
        time_limit <= 0 || time_limit <= total_time(clips@),
        call_ensures(sort_clips, (&clips, time_limit), r),
    ensures
        active_time(clips@, r@) >= time_limit,
        time_limit <= 0 ==> !r@.contains(chosen),
        r@.contains(chosen) ==> chosen < clips@.len(),
        r@.contains(chosen) && other < clips@.len() && !r@.contains(other)
            ==> !clips@[chosen as int].priority.less(clips@[other as int].priority),
{
    let (order, k) = choose|order: Seq<usize>, k: int|
        picked(clips@, time_limit as int, r@, order, k);
    picked_clips_are_needed(clips@, time_limit as int, r@, order, k);
    if r@.contains(chosen) {
        let tail = order.skip(order.len() - k);
        let m = choose|m: int| 0 <= m < tail.len() && tail[m] == chosen;
        assert(order[order.len() - k + m] == chosen);
        if other < clips@.len() && !r@.contains(other) {
            picked_clips_are_the_best(clips@, time_limit as int, r@, order, k, chosen, other);
        }
    }
}

/// Clips can be sorted, and `can_sort` says so, if none ends before it starts, all lengths can be
/// computed, all priorities are numbers, and together they fill the time limit.
pub proof fn clips_can_be_sorted(clips: Vec<Clip>, time_limit: i64, r: bool)
    requires
        forall|i: int|
            0 <= i < clips@.len() ==> 0 <= (#[trigger] clips@[i]).end - clips@[i].start + 1
                <= i64::MAX && !clips@[i].priority.nan(),
        time_limit <= total_time(clips@),
        call_ensures(can_sort, (&clips, time_limit), r),
    ensures
        r,
{
    assert(clips@.len() == clips.len());
    assert forall|i: int| 0 <= i < clips@.len() implies (#[trigger] clips@[i]).wf() by {
        assert(0 <= clips@[i].end - clips@[i].start + 1 <= i64::MAX);
    }
    assert forall|i: int| 0 <= i < clips@.len() implies !(
    #[trigger] clips@[i]).priority.nan() by {
        assert(0 <= clips@[i].end - clips@[i].start + 1 <= i64::MAX);
    }
}

} // verus!
