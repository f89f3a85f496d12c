//! What holds of every run of a chain.

use crate::error::{FerrumError, FerrumResult};
use crate::middleware::{
    start_before, starts_with, transparent, AfterMiddleware, AroundMiddleware, BeforeMiddleware,
    Call, Chain, Event, Handler, Progress,
};
use crate::request::Request;
use crate::response::Response;
use vstd::prelude::*;

verus! {

/// Whether every call in the log succeeded.
pub open spec fn all_ok(log: Seq<Event>) -> bool {
    forall|k: int| 0 <= k < log.len() ==> (#[trigger] log[k]).ok
}

/// The number of calls of the handler in the log.
pub open spec fn handler_calls(log: Seq<Event>) -> nat
    decreases log.len(),
{
    if log.len() == 0 {
        0
    } else {
        handler_calls(log.drop_first()) + if log[0].call == Call::Handle {
            1nat
        } else {
            0nat
        }
    }
}

/// The log of a run in which nothing fails: every stage before the handler in
/// the order of linking, the handler, every stage after it in the order of
/// linking.
pub open spec fn clean_log(befores: int, afters: int) -> Seq<Event> {
    Seq::new(
        (befores + 1 + afters) as nat,
        |k: int|
            Event {
                call: if k < befores {
                    Call::Before(k)
                } else if k == befores {
                    Call::Handle
                } else {
                    Call::After(k - befores - 1)
                },
                ok: true,
            },
    )
}

/// The part of the clean log that lies ahead at a point of a run.
pub open spec fn clean_rest(befores: int, afters: int, from: Progress) -> Seq<Event> {
    match from {
        Progress::Before { index } => clean_log(befores, afters).skip(index as int),
        Progress::Handle => clean_log(befores, afters).skip(befores),
        Progress::After { index, .. } => clean_log(befores, afters).skip(befores + 1 + index),
        _ => Seq::empty(),
    }
}

/// Whether the first stage before the handler was offered a failure and
/// declined, so that no stage before the handler recovered from it.
pub open spec fn declined_by_all(log: Seq<Event>) -> bool {
    exists|k: int|
        0 <= k < log.len() && #[trigger] log[k] == (Event { call: Call::BeforeCatch(0), ok: false })
}

/// Whether a stage after the handler recovered from a failure.
pub open spec fn recovered_after(log: Seq<Event>) -> bool {
    exists|k: int| 0 <= k < log.len() && (#[trigger] log[k]).ok && log[k].call is AfterCatch
}

/// Whether the log calls `before` of the stages before the handler in the order
/// in which they were linked, none twice, and none that was linked before the
/// stage at `floor`.
pub open spec fn befores_in_order(log: Seq<Event>, floor: int) -> bool {
    &&& forall|p: int|
        0 <= p < log.len() && (#[trigger] log[p]).call is Before ==> log[p].call->Before_0 >= floor
    &&& forall|p: int, q: int|
        0 <= p < q < log.len() && (#[trigger] log[p]).call is Before && (#[trigger] log[q]).call
            is Before ==> log[p].call->Before_0 < log[q].call->Before_0
}

/// Whether the log calls `after` of the stages after the handler in the order in
/// which they were linked, none twice, and none that was linked before the
/// stage at `floor`.
pub open spec fn afters_in_order(log: Seq<Event>, floor: int) -> bool {
    &&& forall|p: int|
        0 <= p < log.len() && (#[trigger] log[p]).call is After ==> log[p].call->After_0 >= floor
    &&& forall|p: int, q: int|
        0 <= p < q < log.len() && (#[trigger] log[p]).call is After && (#[trigger] log[q]).call
            is After ==> log[p].call->After_0 < log[q].call->After_0
}

/// Whether a call is made on a stage before the handler.
pub open spec fn before_handler(call: Call) -> bool {
    call is Before || call is BeforeCatch
}

/// Whether the calls on the stages before the handler all come first in the
/// log.
pub open spec fn befores_come_first(log: Seq<Event>) -> bool {
    forall|p: int, q: int|
        0 <= p < q < log.len() && before_handler((#[trigger] log[q]).call) ==> before_handler(
            (#[trigger] log[p]).call,
        )
}

/// The first stage of its kind that a run may still call `before` or `after`
/// of.
pub open spec fn floor(from: Progress) -> int {
    match from {
        Progress::Before { index } => index as int,
        Progress::BeforeFailed { resume, .. } => resume as int,
        Progress::After { index, .. } => index as int,
        Progress::AfterFailed { low, .. } => low as int,
        _ => 0,
    }
}

/// Counting the handler's calls, one call at the front counts by itself.
pub proof fn lemma_handler_calls_step(log: Seq<Event>, call: Call, ok: bool, rest: Seq<Event>)
    requires
        starts_with(log, call, ok, rest),
    ensures
        log.len() == rest.len() + 1,
        log[0] == (Event { call, ok }),
        log.drop_first() == rest,
        log.skip(1) == rest,
        handler_calls(log) == handler_calls(rest) + if call == Call::Handle {
            1nat
        } else {
            0nat
        },
{
    assert(log.drop_first() =~= rest);
    assert(log.skip(1) =~= rest);
}

impl<H: Handler, B: BeforeMiddleware, A: AfterMiddleware> Chain<H, B, A> {
    /// A run that has not ended makes the call that is due, and goes on from
    /// where that call leaves it.
    pub proof fn lemma_next_step(
        self,
        from: Progress,
        request: Request,
        end: Request,
        outcome: FerrumResult<Response>,
        log: Seq<Event>,
    ) -> (step: (Request, Progress, Seq<Event>))
        requires
            self.runs_from(from, request, end, outcome, log),
            !(from is Done),
        ensures
            from.placed(self.befores.len() as int, self.afters.len() as int),
            self.advances(from, request, step.0, step.1),
            starts_with(log, from.due(), step.1.succeeded(), step.2),
            self.runs_from(step.1, step.0, end, outcome, step.2),
            step.1.placed(self.befores.len() as int, self.afters.len() as int),
            step.1.phase() <= from.phase(),
            from is Handle ==> step.1.phase() <= 1,
            log.len() > 0,
            log[0].call == from.due(),
            log[0].ok == step.1.succeeded(),
    {
        let (next, to, rest) = choose|next: Request, to: Progress, rest: Seq<Event>|
            {
                &&& #[trigger] self.advances(from, request, next, to)
                &&& #[trigger] starts_with(log, from.due(), to.succeeded(), rest)
                &&& self.runs_from(to, next, end, outcome, rest)
            };
        lemma_handler_calls_step(log, from.due(), to.succeeded(), rest);
        (next, to, rest)
    }

    /// Where nothing fails, every stage before the handler runs in the order of
    /// linking, then the handler, then every stage after it in the order of
    /// linking, and the outcome is a response.
    pub proof fn lemma_clean_run(
        self,
        from: Progress,
        request: Request,
        end: Request,
        outcome: FerrumResult<Response>,
        log: Seq<Event>,
    )
        requires
            self.runs_from(from, request, end, outcome, log),
            from.succeeded(),
            all_ok(log),
        ensures
            log == clean_rest(self.befores.len() as int, self.afters.len() as int, from),
            outcome is Ok,
        decreases
            from.phase(),
            from.span(self.befores.len() as int, self.afters.len() as int),
            from.slack(),
    {
        let befores = self.befores.len() as int;
        let afters = self.afters.len() as int;
        if from is Done {
            assert(log =~= clean_rest(befores, afters, from));
        } else {
            let (next, to, rest) = self.lemma_next_step(from, request, end, outcome, log);
            assert(log[0].ok);
            assert(all_ok(rest)) by {
                assert forall|k: int| 0 <= k < rest.len() implies (#[trigger] rest[k]).ok by {
                    assert(rest[k] == log[k + 1]);
                }
            }
            self.lemma_clean_run(to, next, end, outcome, rest);
            assert(log =~= clean_rest(befores, afters, from));
        }
    }

    /// The handler is called at most once in a run: once when the run reaches
    /// it, never once the run is past it.
    pub proof fn lemma_handler_calls(
        self,
        from: Progress,
        request: Request,
        end: Request,
        outcome: FerrumResult<Response>,
        log: Seq<Event>,
    )
        requires
            self.runs_from(from, request, end, outcome, log),
        ensures
            handler_calls(log) <= 1,
            from.phase() == 2 ==> handler_calls(log) == 1,
            from.phase() <= 1 ==> handler_calls(log) == 0,
        decreases
            from.phase(),
            from.span(self.befores.len() as int, self.afters.len() as int),
            from.slack(),
    {
        if !(from is Done) {
            let (next, to, rest) = self.lemma_next_step(from, request, end, outcome, log);
            self.lemma_handler_calls(to, next, end, outcome, rest);
            lemma_handler_calls_step(log, from.due(), to.succeeded(), rest);
        }
    }

    /// From the handler on, no stage before the handler is called.
    pub proof fn lemma_no_way_back(
        self,
        from: Progress,
        request: Request,
        end: Request,
        outcome: FerrumResult<Response>,
        log: Seq<Event>,
    )
        requires
            self.runs_from(from, request, end, outcome, log),
            from.phase() <= 2,
        ensures
            forall|k: int|
                0 <= k < log.len() ==> !((#[trigger] log[k]).call is Before) && !(log[k].call
                    is BeforeCatch),
        decreases
            from.phase(),
            from.span(self.befores.len() as int, self.afters.len() as int),
            from.slack(),
    {
        if !(from is Done) {
            let (next, to, rest) = self.lemma_next_step(from, request, end, outcome, log);
            self.lemma_no_way_back(to, next, end, outcome, rest);
            assert forall|k: int| 0 <= k < log.len() implies !((#[trigger] log[k]).call is Before)
                && !(log[k].call is BeforeCatch) by {
                if k > 0 {
                    assert(log[k] == rest[k - 1]);
                }
            }
        }
    }

    /// A failure that the stages after the handler are offered ends as a
    /// response only where one of them recovered.
    pub proof fn lemma_response_after_failure(
        self,
        from: Progress,
        request: Request,
        end: Request,
        outcome: FerrumResult<Response>,
        log: Seq<Event>,
    )
        requires
            self.runs_from(from, request, end, outcome, log),
            from.phase() <= 1,
            !from.succeeded(),
            outcome is Ok,
        ensures
            recovered_after(log),
        decreases
            from.phase(),
            from.span(self.befores.len() as int, self.afters.len() as int),
            from.slack(),
    {
        if !(from is Done) {
            let (next, to, rest) = self.lemma_next_step(from, request, end, outcome, log);
            if to.succeeded() {
                assert(log[0].ok && log[0].call is AfterCatch);
            } else {
                self.lemma_response_after_failure(to, next, end, outcome, rest);
                let k = choose|k: int|
                    0 <= k < rest.len() && (#[trigger] rest[k]).ok && rest[k].call is AfterCatch;
                assert(log[k + 1] == rest[k]);
            }
        }
    }

    /// Where no stage before the handler recovers, the handler is never called,
    /// and the outcome is a failure unless a stage after the handler recovered.
    pub proof fn lemma_unrecovered(
        self,
        from: Progress,
        request: Request,
        end: Request,
        outcome: FerrumResult<Response>,
        log: Seq<Event>,
    )
        requires
            self.runs_from(from, request, end, outcome, log),
            from.phase() == 3,
            declined_by_all(log),
        ensures
            handler_calls(log) == 0,
            outcome is Ok ==> recovered_after(log),
        decreases
            from.phase(),
            from.span(self.befores.len() as int, self.afters.len() as int),
            from.slack(),
    {
        let (next, to, rest) = self.lemma_next_step(from, request, end, outcome, log);
        lemma_handler_calls_step(log, from.due(), to.succeeded(), rest);
        let declined = Event { call: Call::BeforeCatch(0), ok: false };
        if log[0] == declined {
            self.lemma_handler_calls(to, next, end, outcome, rest);
            if outcome is Ok {
                self.lemma_response_after_failure(to, next, end, outcome, rest);
                let k = choose|k: int|
                    0 <= k < rest.len() && (#[trigger] rest[k]).ok && rest[k].call is AfterCatch;
                assert(log[k + 1] == rest[k]);
            }
        } else {
            let at = choose|k: int| 0 <= k < log.len() && #[trigger] log[k] == declined;
            assert(rest[at - 1] == log[at]);
            assert(declined_by_all(rest));
            if to.phase() == 3 {
                self.lemma_unrecovered(to, next, end, outcome, rest);
                if outcome is Ok {
                    let k = choose|k: int|
                        0 <= k < rest.len() && (#[trigger] rest[k]).ok && rest[k].call
                            is AfterCatch;
                    assert(log[k + 1] == rest[k]);
                }
            } else {
                self.lemma_no_way_back(to, next, end, outcome, rest);
                assert(rest[at - 1].call is BeforeCatch);
            }
        }
    }
    /// Where every failure before the handler finds a stage that recovers from
    /// it, the handler is called.
    pub proof fn lemma_recovered(
        self,
        from: Progress,
        request: Request,
        end: Request,
        outcome: FerrumResult<Response>,
        log: Seq<Event>,
    )
        requires
            self.runs_from(from, request, end, outcome, log),
            from.phase() >= 2,
            !declined_by_all(log),
        ensures
            handler_calls(log) == 1,
        decreases
            from.phase(),
            from.span(self.befores.len() as int, self.afters.len() as int),
            from.slack(),
    {
        let (next, to, rest) = self.lemma_next_step(from, request, end, outcome, log);
        lemma_handler_calls_step(log, from.due(), to.succeeded(), rest);
        self.lemma_handler_calls(from, request, end, outcome, log);
        if from.phase() == 3 {
            if to.phase() >= 2 {
                if declined_by_all(rest) {
                    let at = choose|k: int|
                        0 <= k < rest.len() && #[trigger] rest[k] == (Event {
                            call: Call::BeforeCatch(0),
                            ok: false,
                        });
                    assert(log[at + 1] == rest[at]);
                }
                self.lemma_recovered(to, next, end, outcome, rest);
            } else {
                assert(log[0] == (Event { call: Call::BeforeCatch(0), ok: false }));
            }
        }
    }

    /// Whatever fails, `before` and `after` are called on the stages in the order
    /// in which they were linked, on none twice, and the calls on the stages
    /// before the handler come first.
    pub proof fn lemma_in_order(
        self,
        from: Progress,
        request: Request,
        end: Request,
        outcome: FerrumResult<Response>,
        log: Seq<Event>,
    )
        requires
            self.runs_from(from, request, end, outcome, log),
        ensures
            befores_in_order(log, if from.phase() == 3 { floor(from) } else { 0 }),
            afters_in_order(log, if from.phase() == 1 { floor(from) } else { 0 }),
            befores_come_first(log),
        decreases
            from.phase(),
            from.span(self.befores.len() as int, self.afters.len() as int),
            from.slack(),
    {
        if !(from is Done) {
            let (next, to, rest) = self.lemma_next_step(from, request, end, outcome, log);
            self.lemma_in_order(to, next, end, outcome, rest);
            let before_floor = if from.phase() == 3 { floor(from) } else { 0 };
            let after_floor = if from.phase() == 1 { floor(from) } else { 0 };
            assert forall|p: int| 0 < p < log.len() implies #[trigger] log[p] == rest[p - 1] by {}
            if to.phase() <= 2 {
                self.lemma_no_way_back(to, next, end, outcome, rest);
            }
            if from.phase() <= 2 {
                self.lemma_no_way_back(from, request, end, outcome, log);
            }
            assert(befores_in_order(log, before_floor)) by {
                assert forall|p: int| 0 <= p < log.len() && (#[trigger] log[p]).call
                    is Before implies log[p].call->Before_0 >= before_floor by {
                    if p > 0 {
                        assert(log[p] == rest[p - 1]);
                    }
                }
                assert forall|p: int, q: int|
                    0 <= p < q < log.len() && (#[trigger] log[p]).call is Before && (
                    #[trigger] log[q]).call is Before implies log[p].call->Before_0
                    < log[q].call->Before_0 by {
                    assert(log[q] == rest[q - 1]);
                    if p > 0 {
                        assert(log[p] == rest[p - 1]);
                    }
                }
            }
            assert(afters_in_order(log, after_floor)) by {
                assert forall|p: int| 0 <= p < log.len() && (#[trigger] log[p]).call
                    is After implies log[p].call->After_0 >= after_floor by {
                    if p > 0 {
                        assert(log[p] == rest[p - 1]);
                    }
                }
                assert forall|p: int, q: int|
                    0 <= p < q < log.len() && (#[trigger] log[p]).call is After && (
                    #[trigger] log[q]).call is After implies log[p].call->After_0
                    < log[q].call->After_0 by {
                    assert(log[q] == rest[q - 1]);
                    if p > 0 {
                        assert(log[p] == rest[p - 1]);
                    }
                }
            }
            assert(befores_come_first(log)) by {
                assert forall|p: int, q: int|
                    0 <= p < q < log.len() && before_handler(
                        (#[trigger] log[q]).call,
                    ) implies before_handler((#[trigger] log[p]).call) by {
                    assert(log[q] == rest[q - 1]);
                    if p > 0 {
                        assert(log[p] == rest[p - 1]);
                    }
                }
            }
        }
    }

    /// A run can be taken up at any call in its log: what follows that call is
    /// itself a run, from the point at which the call was due.
    pub proof fn lemma_taken_up(
        self,
        from: Progress,
        request: Request,
        end: Request,
        outcome: FerrumResult<Response>,
        log: Seq<Event>,
        skipped: int,
    ) -> (point: (Progress, Request))
        requires
            self.runs_from(from, request, end, outcome, log),
            0 <= skipped < log.len(),
        ensures
            self.runs_from(point.0, point.1, end, outcome, log.skip(skipped)),
            !(point.0 is Done),
            point.0.placed(self.befores.len() as int, self.afters.len() as int),
            point.0.due() == log[skipped].call,
        decreases skipped,
    {
        assert(!(from is Done));
        let (next, to, rest) = self.lemma_next_step(from, request, end, outcome, log);
        if skipped == 0 {
            assert(log.skip(0) =~= log);
            (from, request)
        } else {
            let point = self.lemma_taken_up(to, next, end, outcome, rest, skipped - 1);
            assert(log.skip(skipped) =~= rest.skip(skipped - 1));
            point
        }
    }

    /// A failure of a stage before the handler is offered to the stages before
    /// the handler last linked first, and the first success lets the run go on
    /// with the stage at `resume`.
    pub proof fn lemma_unwinding_order(
        self,
        resume: usize,
        pending: usize,
        failure: FerrumError,
        request: Request,
        end: Request,
        outcome: FerrumResult<Response>,
        log: Seq<Event>,
        declines: int,
    )
        requires
            self.runs_from(
                Progress::BeforeFailed { resume, pending, failure },
                request,
                end,
                outcome,
                log,
            ),
            0 <= declines < pending,
            declines < log.len(),
            forall|d: int| 0 <= d < declines ==> !(#[trigger] log[d]).ok,
            log[declines].ok,
        ensures
            forall|d: int|
                0 <= d <= declines ==> (#[trigger] log[d]).call == Call::BeforeCatch(
                    pending - 1 - d,
                ),
            log.len() > declines + 1,
            log[declines + 1].call == start_before(self.befores.len() as int, resume as int).due(),
        decreases declines,
    {
        let from = Progress::BeforeFailed { resume, pending, failure };
        let (next, to, rest) = self.lemma_next_step(from, request, end, outcome, log);
        if declines == 0 {
            assert(to == start_before(self.befores.len() as int, resume as int));
            self.lemma_next_step(to, next, end, outcome, rest);
            assert(log[1] == rest[0]);
        } else {
            assert(!log[0].ok);
            match to {
                Progress::BeforeFailed { resume: same, pending: fewer, failure: handed_on } => {
                    assert(same == resume && fewer == pending - 1);
                    assert forall|d: int| 0 <= d < declines - 1 implies !(
                    #[trigger] rest[d]).ok by {
                        assert(rest[d] == log[d + 1]);
                    }
                    assert(rest[declines - 1] == log[declines]);
                    self.lemma_unwinding_order(
                        same,
                        fewer,
                        handed_on,
                        next,
                        end,
                        outcome,
                        rest,
                        declines - 1,
                    );
                    assert forall|d: int| 0 <= d <= declines implies (#[trigger] log[d]).call
                        == Call::BeforeCatch(pending - 1 - d) by {
                        if d > 0 {
                            assert(log[d] == rest[d - 1]);
                        }
                    }
                    assert(log[declines + 1] == rest[declines]);
                },
                _ => {
                    assert(false);
                },
            }
        }
    }
}

/// A call of the handler in the log counts.
pub proof fn lemma_handler_call_counts(log: Seq<Event>, at: int)
    requires
        0 <= at < log.len(),
        log[at].call == Call::Handle,
    ensures
        handler_calls(log) >= 1,
    decreases at,
{
    if at > 0 {
        assert(log.drop_first()[at - 1] == log[at]);
        lemma_handler_call_counts(log.drop_first(), at - 1);
    }
}

/// In a run in which no call fails, the stages before the handler are called in
/// the order in which they were linked, then the handler, once, then the stages
/// after it in the order in which they were linked; and the chain gives a
/// response.
pub proof fn law_clean_run_is_in_order<H: Handler, B: BeforeMiddleware, A: AfterMiddleware>(
    chain: Chain<H, B, A>,
    request: Request,
    end: Request,
    outcome: FerrumResult<Response>,
    log: Seq<Event>,
)
    requires
        chain.runs(request, end, outcome, log),
        all_ok(log),
    ensures
        log == clean_log(chain.befores.len() as int, chain.afters.len() as int),
        handler_calls(log) == 1,
        outcome is Ok,
{
    let befores = chain.befores.len() as int;
    let afters = chain.afters.len() as int;
    chain.lemma_clean_run(chain.start(), request, end, outcome, log);
    assert(log =~= clean_log(befores, afters));
    chain.lemma_handler_calls(chain.start(), request, end, outcome, log);
    lemma_handler_call_counts(log, befores);
}

/// In every run, whatever fails, `before` is called on the stages before the
/// handler in the order in which they were linked and on none twice, `after`
/// likewise on the stages after it, and no stage before the handler is called
/// once the run is past them.
pub proof fn law_stages_run_in_order<H: Handler, B: BeforeMiddleware, A: AfterMiddleware>(
    chain: Chain<H, B, A>,
    request: Request,
    end: Request,
    outcome: FerrumResult<Response>,
    log: Seq<Event>,
)
    requires
        chain.runs(request, end, outcome, log),
    ensures
        befores_in_order(log, 0),
        afters_in_order(log, 0),
        befores_come_first(log),
{
    chain.lemma_in_order(chain.start(), request, end, outcome, log);
}

/// In every run the handler is called at most once.
pub proof fn law_handler_runs_at_most_once<H: Handler, B: BeforeMiddleware, A: AfterMiddleware>(
    chain: Chain<H, B, A>,
    request: Request,
    end: Request,
    outcome: FerrumResult<Response>,
    log: Seq<Event>,
)
    requires
        chain.runs(request, end, outcome, log),
    ensures
        handler_calls(log) <= 1,
{
    chain.lemma_handler_calls(chain.start(), request, end, outcome, log);
}

/// Where a stage before the handler fails and none of the stages offered the
/// failure recovers, the handler is never called, and the chain gives the
/// failure that is left, or the response of a stage after the handler that
/// recovered from it.
pub proof fn law_unrecovered_failure_skips_handler<
    H: Handler,
    B: BeforeMiddleware,
    A: AfterMiddleware,
>(
    chain: Chain<H, B, A>,
    request: Request,
    end: Request,
    outcome: FerrumResult<Response>,
    log: Seq<Event>,
)
    requires
        chain.runs(request, end, outcome, log),
        declined_by_all(log),
    ensures
        handler_calls(log) == 0,
        outcome is Err || recovered_after(log),
{
    if chain.start().phase() == 3 {
        chain.lemma_unrecovered(chain.start(), request, end, outcome, log);
    } else {
        chain.lemma_no_way_back(chain.start(), request, end, outcome, log);
        let at = choose|k: int|
            0 <= k < log.len() && #[trigger] log[k] == (Event {
                call: Call::BeforeCatch(0),
                ok: false,
            });
        assert(log[at].call is BeforeCatch);
    }
}

/// The handler is called once in every run but those in which a failure before
/// the handler went unrecovered; in those it is never called.
pub proof fn law_handler_runs_unless_unrecovered<
    H: Handler,
    B: BeforeMiddleware,
    A: AfterMiddleware,
>(
    chain: Chain<H, B, A>,
    request: Request,
    end: Request,
    outcome: FerrumResult<Response>,
    log: Seq<Event>,
)
    requires
        chain.runs(request, end, outcome, log),
    ensures
        handler_calls(log) == if declined_by_all(log) {
            0nat
        } else {
            1nat
        },
{
    if declined_by_all(log) {
        law_unrecovered_failure_skips_handler(chain, request, end, outcome, log);
    } else {
        chain.lemma_recovered(chain.start(), request, end, outcome, log);
    }
}

/// Where the stage at `failed` fails, the failure is offered to that stage and
/// then to the stages linked before it, last linked first. Where the stages
/// down to the one behind `recoverer` decline and the stage at `recoverer`
/// recovers, the run goes on with the stage behind the one that failed, or with
/// the handler where that was the last stage. `at` is where in the log the
/// failed call stands.
pub proof fn law_recovery_resumes_behind_failure<
    H: Handler,
    B: BeforeMiddleware,
    A: AfterMiddleware,
>(
    chain: Chain<H, B, A>,
    request: Request,
    end: Request,
    outcome: FerrumResult<Response>,
    log: Seq<Event>,
    at: int,
    failed: int,
    recoverer: int,
)
    requires
        chain.runs(request, end, outcome, log),
        0 <= recoverer <= failed,
        0 <= at,
        at + (failed - recoverer) + 1 < log.len(),
        log[at] == (Event { call: Call::Before(failed), ok: false }),
        forall|d: int| 1 <= d <= failed - recoverer ==> !(#[trigger] log[at + d]).ok,
        log[at + (failed - recoverer) + 1].ok,
    ensures
        forall|d: int|
            0 <= d <= failed - recoverer ==> (#[trigger] log[at + 1 + d]).call
                == Call::BeforeCatch(failed - d),
        at + (failed - recoverer) + 2 < log.len(),
        log[at + (failed - recoverer) + 2].call == if failed + 1 < chain.befores.len() {
            Call::Before(failed + 1)
        } else {
            Call::Handle
        },
{
    let befores = chain.befores.len() as int;
    let (point, mid) = chain.lemma_taken_up(chain.start(), request, end, outcome, log, at);
    let tail = log.skip(at);
    assert(tail[0] == log[at]);
    let (next, to, rest) = chain.lemma_next_step(point, mid, end, outcome, tail);
    assert(point == Progress::Before { index: failed as usize });
    let declines = failed - recoverer;
    match to {
        Progress::BeforeFailed { resume, pending, failure } => {
            assert(resume == failed + 1 && pending == failed + 1);
            assert forall|d: int| 0 <= d < declines implies !(#[trigger] rest[d]).ok by {
                assert(rest[d] == tail[d + 1]);
                assert(tail[d + 1] == log[at + (d + 1)]);
            }
            assert(rest[declines] == tail[declines + 1]);
            assert(tail[declines + 1] == log[at + declines + 1]);
            chain.lemma_unwinding_order(
                resume,
                pending,
                failure,
                next,
                end,
                outcome,
                rest,
                declines,
            );
            assert forall|d: int| 0 <= d <= declines implies (#[trigger] log[at + 1 + d]).call
                == Call::BeforeCatch(failed - d) by {
                assert(rest[d] == tail[d + 1]);
                assert(tail[d + 1] == log[at + 1 + d]);
            }
            assert(rest[declines + 1] == tail[declines + 2]);
            assert(tail[declines + 2] == log[at + declines + 2]);
        },
        _ => {
            assert(false);
        },
    }
}

/// A chain without stages does what its handler does, and nothing else.
pub proof fn law_bare_chain_is_its_handler<H: Handler, B: BeforeMiddleware, A: AfterMiddleware>(
    chain: Chain<H, B, A>,
    request: Request,
    end: Request,
    outcome: FerrumResult<Response>,
)
    requires
        chain.befores.len() == 0,
        chain.afters.len() == 0,
    ensures
        chain.handles(request, end, outcome) <==> chain.handler.handles(request, end, outcome),
{
    if chain.handles(request, end, outcome) {
        let log = choose|log: Seq<Event>| chain.runs(request, end, outcome, log);
        let (next, to, rest) = chain.lemma_next_step(Progress::Handle, request, end, outcome, log);
        assert(to is Done);
    }
    if chain.handler.handles(request, end, outcome) {
        let to = Progress::Done { outcome };
        let ok = outcome is Ok;
        let log = seq![Event { call: Call::Handle, ok }];
        assert(chain.runs_from(to, end, end, outcome, Seq::<Event>::empty()));
        assert(chain.advances(Progress::Handle, request, end, to));
        assert(starts_with(log, Call::Handle, to.succeeded(), Seq::<Event>::empty()));
        assert(chain.runs(request, end, outcome, log));
    }
}

/// Wrapping a handler that always gives one response in a handler that does
/// only what the wrapped one does yields that same response, and the request
/// is left as the wrapped handler leaves it.
pub proof fn law_wrapping_is_transparent<W: Handler, H: Handler>(
    outer: W,
    inner: H,
    fixed: Response,
    request: Request,
    end: Request,
    outcome: FerrumResult<Response>,
)
    requires
        transparent(outer, inner),
        forall|before: Request, after: Request, given: FerrumResult<Response>|
            #[trigger] inner.handles(before, after, given) ==> given == Ok::<Response, FerrumError>(
                fixed,
            ),
        outer.handles(request, end, outcome),
    ensures
        outcome == Ok::<Response, FerrumError>(fixed),
        inner.handles(request, end, outcome),
{
}

/// A wrapping value that adds nothing of its own to the outcome gives a handler
/// that does only what the wrapped one does: around a handler that always gives
/// one response, that response is the outcome. `wrapped` is what `around` gave
/// for `handler`.
pub proof fn law_idle_around_changes_nothing<H: Handler, W: AroundMiddleware<H>>(
    around: W,
    handler: H,
    wrapped: W::Wrapped,
    fixed: Response,
    request: Request,
    end: Request,
    outcome: FerrumResult<Response>,
)
    requires
        forall|before: Request, after: Request, given: FerrumResult<Response>|
            #[trigger] wrapped.handles(before, after, given) ==> around.wraps(
                handler,
                before,
                after,
                given,
            ),
        forall|before: Request, after: Request, given: FerrumResult<Response>|
            #[trigger] around.wraps(handler, before, after, given) ==> handler.handles(
                before,
                after,
                given,
            ),
        forall|before: Request, after: Request, given: FerrumResult<Response>|
            #[trigger] handler.handles(before, after, given) ==> given == Ok::<
                Response,
                FerrumError,
            >(fixed),
        wrapped.handles(request, end, outcome),
    ensures
        transparent(wrapped, handler),
        outcome == Ok::<Response, FerrumError>(fixed),
{
    assert(around.wraps(handler, request, end, outcome));
    law_wrapping_is_transparent(wrapped, handler, fixed, request, end, outcome);
}

/// Wrappers nest: a handler that does only what a second does, which does only
/// what a third does, does only what the third does.
pub proof fn law_wrapping_nests<V: Handler, W: Handler, H: Handler>(
    outermost: V,
    outer: W,
    inner: H,
)
    requires
        transparent(outermost, outer),
        transparent(outer, inner),
    ensures
        transparent(outermost, inner),
{
}

} // verus!
