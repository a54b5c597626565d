//! The density histogram: one bin per pixel, counting the orbit points that
//! project onto it.
//!
//! Points arrive as pixel coordinates. A point outside the grid is dropped
//! without trace; a point on the grid raises its bin by one and lifts the
//! running maximum to the new count if that is larger.

use vstd::prelude::*;
use crate::config::ConfigError;
use crate::control::ControlBlock;

verus! {

/// Progress is reported after every this many points.
pub const PROGRESS_INTERVAL: usize = 100000;

/// What one accumulation pass works on.
pub struct AccumulationContext {
    /// Row-major bins, `width * height` of them.
    pub density_array: Vec<u32>,
    pub width: i32,
    pub height: i32,
    /// Whether the pass reports its own progress to the control block.
    pub update_progress: bool,
}

/// The pixel `(px, py)` lies on a grid of `width` by `height`.
pub open spec fn on_grid(px: int, py: int, width: int, height: int) -> bool {
    0 <= px < width && 0 <= py < height
}

/// Row-major position of the pixel `(px, py)`.
pub open spec fn bin_of(px: int, py: int, width: int) -> int {
    py * width + px
}

/// The point lies on the grid and its bin is `bin`.
pub open spec fn lands_in(point: (i32, i32), width: int, height: int, bin: int) -> bool {
    on_grid(point.0 as int, point.1 as int, width, height) && bin_of(
        point.0 as int,
        point.1 as int,
        width,
    ) == bin
}

/// How many of `points` land in `bin`.
pub open spec fn hits(points: Seq<(i32, i32)>, width: int, height: int, bin: int) -> nat
    decreases points.len(),
{
    if points.len() == 0 {
        0
    } else {
        let earlier = hits(points.drop_last(), width, height, bin);
        if lands_in(points.last(), width, height, bin) {
            earlier + 1
        } else {
            earlier
        }
    }
}

/// Whether a pass over `budget` points reports after its `done`-th point:
/// at every full interval, and after the final point.
pub open spec fn report_due(done: int, budget: int) -> bool {
    done % (PROGRESS_INTERVAL as int) == 0 || done == budget
}

/// The last of the points `1..=done` after which a pass over `budget` points
/// reports, or 0 if it has not reported by then.
pub open spec fn last_report(done: int, budget: int) -> int {
    if 0 < done && done == budget {
        budget
    } else {
        (done / (PROGRESS_INTERVAL as int)) * (PROGRESS_INTERVAL as int)
    }
}

/// The share of `budget` that `done` points make, in whole percent, rounded
/// down.
pub open spec fn percent_done(done: int, budget: int) -> int {
    (100 * done) / budget
}

/// The progress value a reporting pass leaves behind: the percentage at its
/// last report, or `previous` if it never reported.
pub open spec fn progress_after(previous: u32, done: int, budget: int) -> int {
    if last_report(done, budget) > 0 {
        percent_done(last_report(done, budget), budget)
    } else {
        previous as int
    }
}

/// Every bin of `after` is the bin of `before` plus the number of `points`
/// that land in it.
pub open spec fn grown_by_hits(
    before: Seq<u32>,
    after: Seq<u32>,
    points: Seq<(i32, i32)>,
    width: int,
    height: int,
) -> bool {
    &&& after.len() == before.len()
    &&& forall|bin: int|
        0 <= bin < before.len() ==> #[trigger] after[bin] == before[bin] + hits(
            points,
            width,
            height,
            bin,
        )
}

/// No bin of `after` is below the same bin of `before`.
pub open spec fn never_shrunk(before: Seq<u32>, after: Seq<u32>) -> bool {
    &&& after.len() == before.len()
    &&& forall|bin: int| 0 <= bin < before.len() ==> before[bin] <= #[trigger] after[bin]
}

/// `max` is the larger of `previous` and the largest count among the bins
/// that grew from `before` to `after`.
pub open spec fn is_running_max(max: u32, previous: u32, before: Seq<u32>, after: Seq<u32>) -> bool {
    &&& max >= previous
    &&& forall|bin: int|
        0 <= bin < before.len() && before[bin] < #[trigger] after[bin] ==> after[bin] <= max
    &&& (max == previous || exists|bin: int|
        0 <= bin < before.len() && before[bin] < #[trigger] after[bin] && after[bin] == max)
}

impl AccumulationContext {
    /// There is exactly one bin per pixel.
    pub open spec fn wf(&self) -> bool {
        self.density_array@.len() == self.width * self.height
    }

    /// No bin would pass `u32::MAX` if all of `points` were deposited.
    pub open spec fn has_room_for(&self, points: Seq<(i32, i32)>) -> bool {
        forall|bin: int|
            0 <= bin < self.density_array@.len() ==> self.density_array@[bin] + #[trigger] hits(
                points,
                self.width as int,
                self.height as int,
                bin,
            ) <= u32::MAX
    }
}

/// A point that lands in a bin lands in one that exists.
pub proof fn lemma_bin_in_range(px: int, py: int, width: int, height: int)
    requires
        on_grid(px, py, width, height),
    ensures
        0 <= bin_of(px, py, width) < width * height,
{
    assert(0 <= py * width && py * width + width <= height * width) by (nonlinear_arith)
        requires
            0 <= py < height,
            0 < width,
    ;
    assert(height * width == width * height) by (nonlinear_arith);
}

/// Two pixels on the grid share a bin only if they are the same pixel.
pub proof fn lemma_bin_of_injective(
    px: int,
    py: int,
    qx: int,
    qy: int,
    width: int,
    height: int,
)
    requires
        on_grid(px, py, width, height),
        on_grid(qx, qy, width, height),
        bin_of(px, py, width) == bin_of(qx, qy, width),
    ensures
        px == qx && py == qy,
{
    assert(py == qy) by (nonlinear_arith)
        requires
            0 <= px < width,
            0 <= qx < width,
            py * width + px == qy * width + qx,
    ;
}

/// Adding one point to the end of a list raises the count of the bin it
/// lands in by one and leaves every other bin's count alone.
pub proof fn lemma_hits_push(
    points: Seq<(i32, i32)>,
    point: (i32, i32),
    width: int,
    height: int,
    bin: int,
)
    ensures
        hits(points.push(point), width, height, bin) == hits(points, width, height, bin) + (
        if lands_in(point, width, height, bin) {
            1nat
        } else {
            0nat
        }),
{
    assert(points.push(point).drop_last() =~= points);
}

/// A point off the grid counts towards no bin.
pub proof fn lemma_off_grid_point_is_dropped(
    points: Seq<(i32, i32)>,
    point: (i32, i32),
    width: int,
    height: int,
)
    requires
        !on_grid(point.0 as int, point.1 as int, width, height),
    ensures
        forall|bin: int| #[trigger]
            hits(points.push(point), width, height, bin) == hits(points, width, height, bin),
{
    assert forall|bin: int| #[trigger]
        hits(points.push(point), width, height, bin) == hits(points, width, height, bin) by {
        lemma_hits_push(points, point, width, height, bin);
    }
}

/// Depositing a list in two parts counts the same as depositing it whole.
pub proof fn lemma_hits_concat(
    first: Seq<(i32, i32)>,
    second: Seq<(i32, i32)>,
    width: int,
    height: int,
    bin: int,
)
    ensures
        hits(first + second, width, height, bin) == hits(first, width, height, bin) + hits(
            second,
            width,
            height,
            bin,
        ),
    decreases second.len(),
{
    if second.len() == 0 {
        assert(first + second =~= first);
    } else {
        lemma_hits_concat(first, second.drop_last(), width, height, bin);
        assert((first + second).drop_last() =~= first + second.drop_last());
        assert((first + second).last() == second.last());
    }
}

/// However a list is continued, no bin has fewer hits from the longer list
/// than from the shorter: what successive passes have deposited in a bin
/// never falls.
pub proof fn lemma_hits_never_fall(
    first: Seq<(i32, i32)>,
    second: Seq<(i32, i32)>,
    width: int,
    height: int,
    bin: int,
)
    ensures
        hits(first, width, height, bin) <= hits(first + second, width, height, bin),
{
    lemma_hits_concat(first, second, width, height, bin);
}

/// No bin holds more hits than there are points.
pub proof fn lemma_hits_bounded(points: Seq<(i32, i32)>, width: int, height: int, bin: int)
    ensures
        hits(points, width, height, bin) <= points.len(),
    decreases points.len(),
{
    if points.len() > 0 {
        lemma_hits_bounded(points.drop_last(), width, height, bin);
    }
}

/// Bins that can each take as many points as a list is long have room for
/// the list.
pub proof fn lemma_headroom_is_room(context: AccumulationContext, points: Seq<(i32, i32)>)
    requires
        forall|bin: int|
            0 <= bin < context.density_array@.len() ==> #[trigger] context.density_array@[bin]
                + points.len() <= u32::MAX,
    ensures
        context.has_room_for(points),
{
    assert forall|bin: int| 0 <= bin < context.density_array@.len() implies context.density_array@[bin]
        + #[trigger] hits(points, context.width as int, context.height as int, bin)
        <= u32::MAX by {
        lemma_hits_bounded(points, context.width as int, context.height as int, bin);
    }
}

/// A percentage of a part never exceeds 100, and is 100 for the whole.
pub proof fn lemma_percent_done_bounds(done: int, budget: int)
    requires
        0 <= done <= budget,
        0 < budget,
    ensures
        0 <= percent_done(done, budget) <= 100,
        percent_done(budget, budget) == 100,
{
    assert(0 <= (100 * done) / budget <= 100) by (nonlinear_arith)
        requires
            0 <= done <= budget,
            0 < budget,
    ;
    assert((100 * budget) / budget == 100) by (nonlinear_arith)
        requires
            0 < budget,
    ;
}

/// A pass that is through all of its points has reported 100; one that had
/// no points has reported nothing.
pub proof fn lemma_whole_pass_reports_all(previous: u32, budget: int)
    requires
        0 <= budget,
    ensures
        progress_after(previous, budget, budget) == if budget > 0 {
            100
        } else {
            previous as int
        },
{
    if budget > 0 {
        lemma_percent_done_bounds(budget, budget);
    }
}

/// A pass that adds to each bin the hits it takes leaves no bin below where
/// it was.
pub proof fn lemma_bins_never_shrink(
    before: Seq<u32>,
    after: Seq<u32>,
    points: Seq<(i32, i32)>,
    width: int,
    height: int,
)
    requires
        grown_by_hits(before, after, points, width, height),
    ensures
        never_shrunk(before, after),
{
}

/// `last_report` is what its name says: a step at which a report is due, with
/// no later due step up to `done`; and 0 only if none is due by then.
pub proof fn lemma_last_report_is_last(done: int, budget: int)
    requires
        0 <= done <= budget,
    ensures
        0 <= last_report(done, budget) <= done,
        last_report(done, budget) > 0 ==> report_due(last_report(done, budget), budget),
        forall|step: int|
            last_report(done, budget) < step <= done ==> !#[trigger] report_due(step, budget),
{
    let interval = PROGRESS_INTERVAL as int;
    let last = last_report(done, budget);
    assert forall|step: int| last < step <= done implies !#[trigger] report_due(step, budget) by {
        if step % interval == 0 {
            assert(step / interval * interval == step);
            assert(done / interval >= step / interval);
        }
    }
}

/// How the last report moves when one more point is done: onto that point if
/// a report is due after it, and not at all otherwise.
pub proof fn lemma_last_report_step(done: int, budget: int)
    requires
        1 <= done <= budget,
    ensures
        report_due(done, budget) ==> last_report(done, budget) == done,
        !report_due(done, budget) ==> last_report(done, budget) == last_report(done - 1, budget),
{
    let interval = PROGRESS_INTERVAL as int;
    if done % interval == 0 {
        assert(done / interval * interval == done);
    } else {
        assert(done / interval == (done - 1) / interval);
    }
}

impl AccumulationContext {
    /// An empty histogram for a grid of `width` by `height` pixels. A grid
    /// whose pixel count is negative or beyond what memory can address is
    /// refused.
    pub fn new(width: i32, height: i32, update_progress: bool) -> (made: Result<
        AccumulationContext,
        ConfigError,
    >)
        ensures
            (width * height < 0 || width * height > usize::MAX) ==> made is Err && made->Err_0
                == ConfigError::InvalidDimensions,
            0 <= width * height <= usize::MAX ==> {
                &&& made is Ok
                &&& made->Ok_0.wf()
                &&& made->Ok_0.width == width
                &&& made->Ok_0.height == height
                &&& made->Ok_0.update_progress == update_progress
                &&& forall|bin: int|
                    0 <= bin < made->Ok_0.density_array@.len()
                        ==> #[trigger] made->Ok_0.density_array@[bin] == 0
            },
    {
        assert(-0x4000_0000_0000_0000 <= width * height <= 0x4000_0000_0000_0000)
            by (nonlinear_arith)
            requires
                -0x8000_0000 <= width <= 0x7fff_ffff,
                -0x8000_0000 <= height <= 0x7fff_ffff,
        ;
        let cells: i64 = (width as i64) * (height as i64);
        if cells < 0 || cells as u64 > usize::MAX as u64 {
            Err(ConfigError::InvalidDimensions)
        } else {
            let density_array: Vec<u32> = vec![0u32; cells as usize];
            Ok(AccumulationContext { density_array, width, height, update_progress })
        }
    }

    /// Whether every bin can take `count` more points without passing
    /// `u32::MAX`.
    pub fn has_headroom(&self, count: usize) -> (enough: bool)
        ensures
            enough == forall|bin: int|
                0 <= bin < self.density_array@.len() ==> #[trigger] self.density_array@[bin]
                    + count <= u32::MAX,
    {
        let bins: usize = self.density_array.len();
        let mut bin: usize = 0;
        while bin < bins
            invariant
                bin <= bins,
                bins == self.density_array@.len(),
                forall|seen: int|
                    0 <= seen < bin ==> #[trigger] self.density_array@[seen] + count <= u32::MAX,
            decreases bins - bin,
        {
            if (self.density_array[bin] as u128) + (count as u128) > (u32::MAX as u128) {
                return false;
            }
            bin = bin + 1;
        }
        true
    }

    /// Deposits one projected point. Off the grid nothing changes; on the
    /// grid its bin grows by one and the running maximum follows the new
    /// count.
    pub fn deposit_point(&mut self, info: &mut ControlBlock, px: i32, py: i32)
        requires
            old(self).wf(),
            on_grid(px as int, py as int, old(self).width as int, old(self).height as int)
                ==> old(self).density_array@[bin_of(
                px as int,
                py as int,
                old(self).width as int,
            )] < u32::MAX,
        ensures
            final(self).wf(),
            final(self).width == old(self).width,
            final(self).height == old(self).height,
            final(self).update_progress == old(self).update_progress,
            !on_grid(px as int, py as int, old(self).width as int, old(self).height as int) ==> {
                &&& final(self).density_array@ == old(self).density_array@
                &&& *final(info) == *old(info)
            },
            on_grid(px as int, py as int, old(self).width as int, old(self).height as int) ==> {
                let bin = bin_of(px as int, py as int, old(self).width as int);
                let count = (old(self).density_array@[bin] + 1) as u32;
                &&& final(self).density_array@ == old(self).density_array@.update(bin, count)
                &&& *final(info) == (ControlBlock {
                    max_density: if count > old(info).max_density {
                        count
                    } else {
                        old(info).max_density
                    },
                    ..*old(info)
                })
            },
    {
        if px >= 0 && px < self.width && py >= 0 && py < self.height {
            proof {
                assert(self.density_array.len() <= usize::MAX);
                lemma_bin_in_range(px as int, py as int, self.width as int, self.height as int);
                assert(0 <= py * self.width) by (nonlinear_arith)
                    requires
                        0 <= py,
                        0 < self.width,
                ;
            }
            let bin: usize = (py as usize) * (self.width as usize) + (px as usize);
            let count: u32 = self.density_array[bin] + 1;
            self.density_array[bin] = count;
            if count > info.max_density {
                info.max_density = count;
            }
        }
    }
}

/// The share of `budget` that `done` points make, in whole percent, rounded
/// down: the value a pass reports after its `done`-th point.
pub fn percent_of(done: usize, budget: usize) -> (percent: u32)
    requires
        done <= budget,
        0 < budget,
    ensures
        percent == percent_done(done as int, budget as int),
        percent <= 100,
{
    proof {
        lemma_percent_done_bounds(done as int, budget as int);
    }
    let scaled: u128 = (done as u128) * 100;
    (scaled / (budget as u128)) as u32
}

/// Deposits `points` in order, unless a stop was requested, in which case it
/// does nothing at all.
///
/// Each bin grows by the number of points that land in it. The running
/// maximum ends as the larger of its old value and the largest count among
/// the bins that were hit. With `update_progress` set, the pass reports its
/// progress after every 100000th point and after the final point, so a pass
/// over one or more points leaves the progress at 100 and a pass over none
/// leaves it alone.
pub fn accumulate_density(
    context: &mut AccumulationContext,
    info: &mut ControlBlock,
    points: &Vec<(i32, i32)>,
)
    requires
        old(context).wf(),
        !old(info).cancel_requested ==> old(context).has_room_for(points@),
    ensures
        final(context).wf(),
        final(context).width == old(context).width,
        final(context).height == old(context).height,
        final(context).update_progress == old(context).update_progress,
        final(info).cancel_requested == old(info).cancel_requested,
        final(info).reserved == old(info).reserved,
        old(info).cancel_requested ==> {
            &&& final(context).density_array@ == old(context).density_array@
            &&& *final(info) == *old(info)
        },
        !old(info).cancel_requested ==> {
            &&& grown_by_hits(
                old(context).density_array@,
                final(context).density_array@,
                points@,
                old(context).width as int,
                old(context).height as int,
            )
            &&& final(info).progress_percent == if old(context).update_progress {
                progress_after(
                    old(info).progress_percent,
                    points@.len() as int,
                    points@.len() as int,
                )
            } else {
                old(info).progress_percent as int
            }
            &&& final(info).progress_percent == if old(context).update_progress && points@.len()
                > 0 {
                100
            } else {
                old(info).progress_percent
            }
        },
        never_shrunk(old(context).density_array@, final(context).density_array@),
        is_running_max(
            final(info).max_density,
            old(info).max_density,
            old(context).density_array@,
            final(context).density_array@,
        ),
{
    let budget: usize = points.len();
    let mut done: usize = 0;
    let ghost width = context.width as int;
    let ghost height = context.height as int;
    let ghost start = context.density_array@;
    assert(points@.take(0) =~= Seq::<(i32, i32)>::empty());
    while done < budget && !info.cancel_requested
        invariant
            done <= budget,
            budget == points@.len(),
            context.wf(),
            context.width == width,
            context.height == height,
            context.update_progress == old(context).update_progress,
            start == old(context).density_array@,
            old(context).width == width,
            old(context).height == height,
            !old(info).cancel_requested ==> old(context).has_room_for(points@),
            info.cancel_requested == old(info).cancel_requested,
            info.reserved == old(info).reserved,
            old(info).cancel_requested ==> done == 0 && *info == *old(info),
            grown_by_hits(start, context.density_array@, points@.take(done as int), width, height),
            info.progress_percent == if context.update_progress {
                progress_after(old(info).progress_percent, done as int, budget as int)
            } else {
                old(info).progress_percent as int
            },
            is_running_max(info.max_density, old(info).max_density, start, context.density_array@),
        decreases budget - done,
    {
        let point: (i32, i32) = points[done];
        let ghost before = context.density_array@;
        let ghost max_before = info.max_density;
        proof {
            assert(points@.take(done + 1) =~= points@.take(done as int).push(point));
            if on_grid(point.0 as int, point.1 as int, width, height) {
                // the bin of this point still has room: its hits so far are
                // among the hits of the whole list
                let bin = bin_of(point.0 as int, point.1 as int, width);
                lemma_bin_in_range(point.0 as int, point.1 as int, width, height);
                lemma_hits_push(points@.take(done as int), point, width, height, bin);
                lemma_hits_concat(
                    points@.take(done + 1),
                    points@.skip(done + 1),
                    width,
                    height,
                    bin,
                );
                assert(points@.take(done + 1) + points@.skip(done + 1) =~= points@);
                assert(start[bin] + hits(points@, width, height, bin) <= u32::MAX);
            }
        }
        context.deposit_point(info, point.0, point.1);
        done = done + 1;
        proof {
            assert forall|bin: int| 0 <= bin < start.len() implies #[trigger] context.density_array@[bin]
                == start[bin] + hits(points@.take(done as int), width, height, bin) by {
                lemma_hits_push(points@.take(done - 1), point, width, height, bin);
            }
            if info.max_density != old(info).max_density {
                if info.max_density == max_before {
                    let kept = choose|bin: int|
                        0 <= bin < start.len() && start[bin] < #[trigger] before[bin] && before[bin]
                            == max_before;
                    assert(start[kept] < context.density_array@[kept]
                        && context.density_array@[kept] == info.max_density);
                } else {
                    let bin = bin_of(point.0 as int, point.1 as int, width);
                    assert(start[bin] < context.density_array@[bin] && context.density_array@[bin]
                        == info.max_density);
                }
            }
            lemma_last_report_step(done as int, budget as int);
        }
        if context.update_progress && (done % PROGRESS_INTERVAL == 0 || done == budget) {
            info.progress_percent = percent_of(done, budget);
        }
    }
    proof {
        assert(points@.take(budget as int) =~= points@);
        if budget > 0 {
            lemma_percent_done_bounds(budget as int, budget as int);
        }
    }
}

/// If the running maximum bounds every bin before a pass, it does so after.
pub proof fn lemma_max_bounds_every_bin(
    before: Seq<u32>,
    after: Seq<u32>,
    max_before: u32,
    max_after: u32,
)
    requires
        never_shrunk(before, after),
        is_running_max(max_after, max_before, before, after),
        forall|bin: int| 0 <= bin < before.len() ==> #[trigger] before[bin] <= max_before,
    ensures
        forall|bin: int| 0 <= bin < after.len() ==> #[trigger] after[bin] <= max_after,
{
    assert forall|bin: int| 0 <= bin < after.len() implies #[trigger] after[bin] <= max_after by {
        assert(before[bin] <= max_before);
    }
}

/// Two passes in a row leave the bins that one pass over both lists leaves.
pub proof fn lemma_passes_compose(
    start: Seq<u32>,
    middle: Seq<u32>,
    end: Seq<u32>,
    first: Seq<(i32, i32)>,
    second: Seq<(i32, i32)>,
    width: int,
    height: int,
)
    requires
        grown_by_hits(start, middle, first, width, height),
        grown_by_hits(middle, end, second, width, height),
    ensures
        grown_by_hits(start, end, first + second, width, height),
        never_shrunk(start, middle),
        never_shrunk(middle, end),
{
    assert forall|bin: int| 0 <= bin < start.len() implies #[trigger] end[bin] == start[bin]
        + hits(first + second, width, height, bin) by {
        lemma_hits_concat(first, second, width, height, bin);
        assert(middle[bin] == start[bin] + hits(first, width, height, bin));
    }
}

} // verus!
