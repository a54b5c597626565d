//! The state machine that paces a progressive render.
//!
//! A render of `point_budget` points is cut into `loops` passes of
//! `point_budget / loops` points each; what the division leaves over is not
//! drawn. The controller does no work itself. Each call of
//! [`LoopController::advance`] looks at the control block and answers with
//! the next thing to do: deposit a pass of points, repaint the image, or
//! stop. The caller does it and calls again.

use vstd::prelude::*;
use crate::config::ConfigError;
use crate::control::ControlBlock;

verus! {

/// Where a render stands, as the host sees it.
#[derive(Debug, Clone, Copy, PartialEq, Eq, Structural)]
pub enum RunState {
    Idle,
    Running,
    Completed,
    Cancelled,
}

/// Where a render stands, as the controller sees it.
#[derive(Debug, Clone, Copy, PartialEq, Eq, Structural)]
pub enum Phase {
    /// Nothing was asked for yet.
    Idle,
    /// A pass of points was asked for.
    Accumulating,
    /// A repaint was asked for.
    Redrawing,
    /// All passes are done.
    Completed,
    /// A stop request was seen.
    Cancelled,
}

/// What the caller is to do next.
#[derive(Debug, Clone, Copy, PartialEq, Eq, Structural)]
pub enum Action {
    /// Deposit this many orbit points.
    Accumulate(u32),
    /// Sweep the bins into the image and show it.
    Redraw,
    /// Nothing: the render is complete or cancelled.
    Stop,
}

/// `round(100 * done / total)`, halves rounded up.
pub open spec fn percent_rounded(done: nat, total: nat) -> nat {
    (200 * done + total) / (2 * total)
}

/// The controller as plain numbers.
pub struct LoopModel {
    pub phase: Phase,
    pub point_budget: nat,
    pub loops: nat,
    pub draw_at: nat,
    pub iterations_done: nat,
}

impl LoopModel {
    /// There is at least one pass, a redraw interval, and the phase agrees
    /// with the number of passes done.
    pub open spec fn wf(self) -> bool {
        &&& self.loops > 0
        &&& self.draw_at > 0
        &&& self.iterations_done <= self.loops
        &&& self.phase == Phase::Idle ==> self.iterations_done == 0
        &&& (self.phase == Phase::Accumulating || self.phase == Phase::Redrawing)
            ==> self.iterations_done < self.loops
        &&& self.phase == Phase::Completed ==> self.iterations_done == self.loops
    }

    /// Points in each pass.
    pub open spec fn points_per_loop(self) -> nat {
        self.point_budget / self.loops
    }

    /// Points asked for in the passes that are done.
    pub open spec fn points_done(self) -> nat {
        self.iterations_done * self.points_per_loop()
    }

    /// Whether the pass under way ends with a repaint: when the points done
    /// before it are a multiple of the redraw interval, and always in the
    /// last pass.
    pub open spec fn redraw_due(self) -> bool {
        self.points_done() % self.draw_at == 0 || self.iterations_done + 1 == self.loops
    }

    /// The state the host sees.
    pub open spec fn state(self) -> RunState {
        match self.phase {
            Phase::Idle => RunState::Idle,
            Phase::Accumulating | Phase::Redrawing => RunState::Running,
            Phase::Completed => RunState::Completed,
            Phase::Cancelled => RunState::Cancelled,
        }
    }

    /// Whether a call of `advance` that sees `cancel` closes the pass under
    /// way: after its points if no repaint is due, else after the repaint.
    pub open spec fn closes_pass(self, cancel: bool) -> bool {
        !cancel && (self.phase == Phase::Redrawing || (self.phase == Phase::Accumulating
            && !self.redraw_due()))
    }

    /// The controller with one more pass done.
    pub open spec fn pass_closed(self) -> LoopModel {
        LoopModel {
            phase: if self.iterations_done + 1 == self.loops {
                Phase::Completed
            } else {
                Phase::Accumulating
            },
            iterations_done: self.iterations_done + 1,
            ..self
        }
    }

    /// The controller after a call of `advance` that sees `cancel`.
    pub open spec fn step(self, cancel: bool) -> LoopModel {
        match self.phase {
            Phase::Idle => LoopModel { phase: Phase::Accumulating, ..self },
            Phase::Accumulating => if cancel {
                LoopModel { phase: Phase::Cancelled, ..self }
            } else if self.redraw_due() {
                LoopModel { phase: Phase::Redrawing, ..self }
            } else {
                self.pass_closed()
            },
            Phase::Redrawing => if cancel {
                LoopModel { phase: Phase::Cancelled, ..self }
            } else {
                self.pass_closed()
            },
            Phase::Completed | Phase::Cancelled => self,
        }
    }

    /// What a call of `advance` that sees `cancel` asks for.
    pub open spec fn action(self, cancel: bool) -> Action {
        match self.step(cancel).phase {
            Phase::Accumulating => Action::Accumulate(self.points_per_loop() as u32),
            Phase::Redrawing => Action::Redraw,
            _ => Action::Stop,
        }
    }

    /// The control block after a call of `advance`: the progress is written
    /// when a pass closes, and nothing else is ever touched.
    pub open spec fn info_after(self, info: ControlBlock) -> ControlBlock {
        if self.closes_pass(info.cancel_requested) {
            ControlBlock {
                progress_percent: percent_rounded(self.iterations_done + 1, self.loops) as u32,
                ..info
            }
        } else {
            info
        }
    }

    /// The controller after `count` calls of `advance` that all see `cancel`.
    pub open spec fn after_steps(self, count: nat, cancel: bool) -> LoopModel
        decreases count,
    {
        if count == 0 {
            self
        } else {
            self.step(cancel).after_steps((count - 1) as nat, cancel)
        }
    }
}

/// Paces one progressive render.
#[derive(Debug, Clone, Copy)]
pub struct LoopController {
    phase: Phase,
    point_budget: u32,
    loops: u32,
    draw_at: u32,
    iterations_done: u32,
}

impl View for LoopController {
    type V = LoopModel;

    closed spec fn view(&self) -> LoopModel {
        LoopModel {
            phase: self.phase,
            point_budget: self.point_budget as nat,
            loops: self.loops as nat,
            draw_at: self.draw_at as nat,
            iterations_done: self.iterations_done as nat,
        }
    }
}

/// A rounded percentage of a part is at most 100, is 100 for the whole, and
/// does not fall when the part grows.
pub proof fn lemma_percent_rounded_bounds(done: nat, total: nat)
    requires
        done <= total,
        0 < total,
    ensures
        percent_rounded(done, total) <= 100,
        percent_rounded(total, total) == 100,
        percent_rounded(0, total) == 0,
        done < total ==> percent_rounded(done, total) <= percent_rounded(done + 1, total),
{
    assert((200 * done + total) / (2 * total) <= 100) by (nonlinear_arith)
        requires
            done <= total,
            0 < total,
    ;
    assert((200 * total + total) / (2 * total) == 100) by (nonlinear_arith)
        requires
            0 < total,
    ;
    assert((200 * 0 + total) / (2 * total) == 0) by (nonlinear_arith)
        requires
            0 < total,
    ;
    assert((200 * done + total) / (2 * total) <= (200 * (done + 1) + total) / (2 * total))
        by (nonlinear_arith)
        requires
            0 < total,
    ;
}

/// The passes that are done never ask for more points than the budget.
pub proof fn lemma_points_done_within_budget(model: LoopModel)
    requires
        model.wf(),
    ensures
        model.points_done() <= model.point_budget,
        model.points_per_loop() <= model.point_budget,
{
    let per_loop = model.points_per_loop();
    assert(per_loop * model.loops <= model.point_budget && per_loop <= model.point_budget)
        by (nonlinear_arith)
        requires
            per_loop == model.point_budget / model.loops,
            model.loops > 0,
    ;
    assert(model.iterations_done * per_loop <= per_loop * model.loops) by (nonlinear_arith)
        requires
            model.iterations_done <= model.loops,
    ;
}

/// Every step keeps the controller well formed.
pub proof fn lemma_step_keeps_wf(model: LoopModel, cancel: bool)
    requires
        model.wf(),
    ensures
        model.step(cancel).wf(),
        model.step(cancel).point_budget == model.point_budget,
        model.step(cancel).loops == model.loops,
        model.step(cancel).draw_at == model.draw_at,
        model.step(cancel).iterations_done >= model.iterations_done,
{
}

/// A render that is complete or cancelled stays so, and asks for nothing.
pub proof fn lemma_terminal_states_absorb(model: LoopModel, count: nat, cancel: bool)
    requires
        model.phase == Phase::Completed || model.phase == Phase::Cancelled,
    ensures
        model.after_steps(count, cancel) == model,
        model.action(cancel) == Action::Stop,
        forall|info: ControlBlock| #[trigger] model.info_after(info) == info,
    decreases count,
{
    if count > 0 {
        lemma_terminal_states_absorb(model, (count - 1) as nat, cancel);
    }
}

/// Once a stop request is seen, a running render is cancelled at the next
/// call: no repaint is asked for and the progress is not written.
pub proof fn lemma_cancel_stops_running(model: LoopModel, info: ControlBlock)
    requires
        model.wf(),
        model.state() == RunState::Running,
        info.cancel_requested,
    ensures
        model.step(true).phase == Phase::Cancelled,
        model.action(true) == Action::Stop,
        model.info_after(info) == info,
{
}

/// With a stop request standing from the beginning, a render asks for one
/// pass of points (which then deposits none, for the same request) and is
/// cancelled at the call after that, whatever the number of calls. It never
/// asks for a repaint, and no pass is counted as done.
pub proof fn lemma_cancel_before_start(model: LoopModel, count: nat)
    requires
        model.wf(),
        model.phase == Phase::Idle,
    ensures
        model.after_steps(count, true).action(true) != Action::Redraw,
        model.after_steps(count, true).iterations_done == 0,
        count == 1 ==> model.after_steps(count, true).phase == Phase::Accumulating,
        count >= 2 ==> model.after_steps(count, true).phase == Phase::Cancelled,
{
    reveal_with_fuel(LoopModel::after_steps, 3);
    if count >= 2 {
        let cancelled = model.step(true).step(true);
        assert(model.after_steps(count, true) == cancelled.after_steps(
            (count - 2) as nat,
            true,
        ));
        lemma_terminal_states_absorb(cancelled, (count - 2) as nat, true);
    }
}

/// Without a stop request, a running render with `remaining` passes left is
/// complete after at most two calls for each of them.
pub proof fn lemma_running_completes(model: LoopModel, remaining: nat)
    requires
        model.wf(),
        model.phase == Phase::Accumulating,
        remaining == model.loops - model.iterations_done,
    ensures
        model.after_steps(2 * remaining, false).phase == Phase::Completed,
        model.after_steps(2 * remaining, false).iterations_done == model.loops,
    decreases remaining,
{
    reveal_with_fuel(LoopModel::after_steps, 3);
    let rest = (2 * remaining - 2) as nat;
    let first = model.step(false);
    let second = first.step(false);
    assert(model.after_steps(2 * remaining, false) == second.after_steps(rest, false));
    if model.redraw_due() {
        // points, repaint, pass closed
        if second.phase == Phase::Completed {
            lemma_terminal_states_absorb(second, rest, false);
        } else {
            lemma_running_completes(second, (remaining - 1) as nat);
        }
    } else {
        // points, pass closed; the second call already belongs to the next pass
        assert(first.phase == Phase::Accumulating);
        lemma_running_completes(first, (remaining - 1) as nat);
        let done = first.after_steps(rest, false);
        lemma_terminal_states_absorb(done, 1, false);
        lemma_after_steps_split(first, rest, 1, false);
        assert(first.after_steps(rest + 1, false) == done);
        assert(model.after_steps(2 * remaining, false) == first.after_steps(rest + 1, false));
    }
}

/// Steps can be taken in two lots.
pub proof fn lemma_after_steps_split(model: LoopModel, first: nat, second: nat, cancel: bool)
    ensures
        model.after_steps(first + second, cancel) == model.after_steps(first, cancel).after_steps(
            second,
            cancel,
        ),
    decreases first,
{
    if first > 0 {
        lemma_after_steps_split(model.step(cancel), (first - 1) as nat, second, cancel);
    }
}

/// Without a stop request, a render is complete after at most one call to
/// begin and two for each pass, with every pass done.
pub proof fn lemma_uncancelled_run_completes(model: LoopModel)
    requires
        model.wf(),
        model.phase == Phase::Idle,
    ensures
        model.after_steps(1 + 2 * model.loops, false).phase == Phase::Completed,
        model.after_steps(1 + 2 * model.loops, false).iterations_done == model.loops,
{
    reveal_with_fuel(LoopModel::after_steps, 2);
    let started = model.step(false);
    lemma_running_completes(started, model.loops);
    assert(model.after_steps(1 + 2 * model.loops, false) == started.after_steps(
        2 * model.loops,
        false,
    ));
}

/// The pass that completes a render leaves the progress at 100.
pub proof fn lemma_completion_reports_all(model: LoopModel, info: ControlBlock)
    requires
        model.wf(),
        model.step(info.cancel_requested).phase == Phase::Completed,
        model.phase != Phase::Completed,
    ensures
        model.info_after(info).progress_percent == 100,
{
    lemma_percent_rounded_bounds(model.loops, model.loops);
}

impl LoopController {
    #[verifier::type_invariant]
    closed spec fn inv(&self) -> bool {
        self@.wf()
    }

    /// Sets up a render of `point_budget` points in `loops` passes that
    /// repaints whenever the points done are a multiple of `draw_at`. A
    /// render in no passes, or with a redraw interval of 0, is refused.
    pub fn new(point_budget: u32, loops: u32, draw_at: u32) -> (made: Result<
        LoopController,
        ConfigError,
    >)
        ensures
            loops == 0 ==> made == Err::<LoopController, ConfigError>(ConfigError::NoLoops),
            loops != 0 && draw_at == 0 ==> made == Err::<LoopController, ConfigError>(
                ConfigError::NoDrawInterval,
            ),
            loops != 0 && draw_at != 0 ==> made.is_ok() && made.unwrap()@ == (LoopModel {
                phase: Phase::Idle,
                point_budget: point_budget as nat,
                loops: loops as nat,
                draw_at: draw_at as nat,
                iterations_done: 0,
            }),
    {
        if loops == 0 {
            Err(ConfigError::NoLoops)
        } else if draw_at == 0 {
            Err(ConfigError::NoDrawInterval)
        } else {
            Ok(LoopController { phase: Phase::Idle, point_budget, loops, draw_at, iterations_done: 0 })
        }
    }

    /// Looks at the stop request in `info` and moves the render on by one
    /// step. When the step closes a pass, the progress in `info` becomes the
    /// rounded percentage of passes done.
    pub fn advance(&mut self, info: &mut ControlBlock) -> (action: Action)
        ensures
            old(self)@.wf(),
            final(self)@.wf(),
            final(self)@ == old(self)@.step(old(info).cancel_requested),
            action == old(self)@.action(old(info).cancel_requested),
            *final(info) == old(self)@.info_after(*old(info)),
    {
        proof {
            use_type_invariant(&*self);
            lemma_points_done_within_budget(self@);
        }
        let per_loop: u32 = self.point_budget / self.loops;
        match self.phase {
            Phase::Idle => {
                *self = LoopController { phase: Phase::Accumulating, ..*self };
                Action::Accumulate(per_loop)
            },
            Phase::Accumulating => {
                if info.cancel_requested {
                    *self = LoopController { phase: Phase::Cancelled, ..*self };
                    Action::Stop
                } else if self.redraw_is_due() {
                    *self = LoopController { phase: Phase::Redrawing, ..*self };
                    Action::Redraw
                } else {
                    self.close_pass(info)
                }
            },
            Phase::Redrawing => {
                if info.cancel_requested {
                    *self = LoopController { phase: Phase::Cancelled, ..*self };
                    Action::Stop
                } else {
                    self.close_pass(info)
                }
            },
            Phase::Completed | Phase::Cancelled => Action::Stop,
        }
    }

    /// The state the host sees.
    pub fn state(&self) -> (state: RunState)
        ensures
            state == self@.state(),
    {
        match self.phase {
            Phase::Idle => RunState::Idle,
            Phase::Accumulating | Phase::Redrawing => RunState::Running,
            Phase::Completed => RunState::Completed,
            Phase::Cancelled => RunState::Cancelled,
        }
    }

    /// What the controller last asked for.
    pub fn phase(&self) -> (phase: Phase)
        ensures
            phase == self@.phase,
    {
        self.phase
    }

    /// Passes that are done.
    pub fn iterations_done(&self) -> (done: u32)
        ensures
            done == self@.iterations_done,
    {
        self.iterations_done
    }

    /// Passes in the whole render.
    pub fn loops(&self) -> (loops: u32)
        ensures
            loops == self@.loops,
            loops > 0,
    {
        proof {
            use_type_invariant(self);
        }
        self.loops
    }

    /// Points in each pass.
    pub fn points_per_loop(&self) -> (points: u32)
        ensures
            points == self@.points_per_loop(),
    {
        proof {
            use_type_invariant(self);
        }
        self.point_budget / self.loops
    }

    /// Points asked for in the passes that are done.
    pub fn points_done(&self) -> (points: u32)
        ensures
            points == self@.points_done(),
    {
        proof {
            use_type_invariant(self);
            lemma_points_done_within_budget(self@);
        }
        let per_loop: u64 = (self.point_budget / self.loops) as u64;
        let points: u64 = (self.iterations_done as u64) * per_loop;
        assert(points == self@.points_done()) by (nonlinear_arith)
            requires
                points == (self.iterations_done as u64) * per_loop,
                per_loop == self@.points_per_loop(),
                self@.points_done() == self@.iterations_done * self@.points_per_loop(),
                self@.iterations_done == self.iterations_done,
        ;
        points as u32
    }

    /// Whether the pass under way ends with a repaint.
    fn redraw_is_due(&self) -> (due: bool)
        requires
            self@.iterations_done < self@.loops,
        ensures
            due == self@.redraw_due(),
    {
        proof {
            use_type_invariant(self);
            lemma_points_done_within_budget(self@);
        }
        let points_done: u32 = self.points_done();
        points_done % self.draw_at == 0 || self.iterations_done + 1 == self.loops
    }

    /// Counts the pass under way as done and writes the progress.
    fn close_pass(&mut self, info: &mut ControlBlock) -> (action: Action)
        requires
            old(self)@.iterations_done < old(self)@.loops,
        ensures
            final(self)@ == old(self)@.pass_closed(),
            action == if final(self)@.phase == Phase::Completed {
                Action::Stop
            } else {
                Action::Accumulate(old(self)@.points_per_loop() as u32)
            },
            *final(info) == (ControlBlock {
                progress_percent: percent_rounded(
                    old(self)@.iterations_done + 1,
                    old(self)@.loops,
                ) as u32,
                ..*old(info)
            }),
    {
        proof {
            use_type_invariant(&*self);
            lemma_percent_rounded_bounds((self.iterations_done + 1) as nat, self.loops as nat);
        }
        let done: u32 = self.iterations_done + 1;
        let percent: u64 = (200 * (done as u64) + (self.loops as u64)) / (2 * (self.loops as u64));
        info.progress_percent = percent as u32;
        if done == self.loops {
            *self = LoopController { phase: Phase::Completed, iterations_done: done, ..*self };
            Action::Stop
        } else {
            *self = LoopController { phase: Phase::Accumulating, iterations_done: done, ..*self };
            Action::Accumulate(self.point_budget / self.loops)
        }
    }
}

} // verus!
