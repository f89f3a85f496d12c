//! Handlers, the stages that run before and after them, and the chain that
//! runs a request through all of them.
//!
//! A chain runs its stages one at a time. The stages before the handler run in
//! the order in which they were linked. When one of them fails, the failure is
//! offered for recovery to that stage and then to the stages linked before it,
//! last linked first; the first that recovers lets the run go on with the stage
//! after the one that failed. When none recovers, the handler is passed over and
//! the failure goes to the stages after the handler, as a failure of the handler
//! would. Such a failure is offered to the stages that have not run yet, last
//! linked first; the first that recovers gives a response, and the run goes on
//! with the stage linked after it. A response runs through the stages after the
//! handler in the order in which they were linked.

use crate::error::{FerrumError, FerrumResult};
use crate::request::Request;
use crate::response::Response;
use vstd::prelude::*;

pub mod laws;

verus! {

/// Something that answers a request.
pub trait Handler: Send + Sync + 'static {
    /// What a call of `handle` may do: give `outcome` and leave the request, which
    /// was `before`, as `after`. An implementation that says nothing here
    /// promises nothing.
    open spec fn handles(
        &self,
        before: Request,
        after: Request,
        outcome: FerrumResult<Response>,
    ) -> bool {
        true
    }

    /// Answers the request with a response or a failure.
    fn handle(&self, request: &mut Request) -> (outcome: FerrumResult<Response>)
        ensures
            self.handles(*old(request), *final(request), outcome),
    ;
}

/// A stage that runs before the handler.
pub trait BeforeMiddleware: Send + Sync + 'static {
    /// What a call of `before` may do.
    open spec fn admits(&self, before: Request, after: Request, result: FerrumResult<()>) -> bool {
        true
    }

    /// What a call of `catch` may do when it is offered `failure`.
    open spec fn recovers(
        &self,
        before: Request,
        failure: FerrumError,
        after: Request,
        result: FerrumResult<()>,
    ) -> bool {
        true
    }

    /// Looks at the request, and lets it pass or fails.
    fn before(&self, request: &mut Request) -> (result: FerrumResult<()>)
        ensures
            self.admits(*old(request), *final(request), result),
    ;

    /// Is offered a failure, and recovers from it or hands on a failure.
    fn catch(&self, request: &mut Request, failure: FerrumError) -> (result: FerrumResult<()>)
        ensures
            self.recovers(*old(request), failure, *final(request), result),
    ;
}

/// A stage that runs after the handler.
pub trait AfterMiddleware: Send + Sync + 'static {
    /// What a call of `after` may do with `response`.
    open spec fn transforms(
        &self,
        before: Request,
        response: Response,
        after: Request,
        result: FerrumResult<Response>,
    ) -> bool {
        true
    }

    /// What a call of `catch` may do when it is offered `failure`.
    open spec fn recovers(
        &self,
        before: Request,
        failure: FerrumError,
        after: Request,
        result: FerrumResult<Response>,
    ) -> bool {
        true
    }

    /// Is handed the response, and gives a response or fails.
    fn after(&self, request: &mut Request, response: Response) -> (result: FerrumResult<Response>)
        ensures
            self.transforms(*old(request), response, *final(request), result),
    ;

    /// Is offered a failure, and gives a response in its place or hands on a
    /// failure.
    fn catch(&self, request: &mut Request, failure: FerrumError) -> (result: FerrumResult<
        Response,
    >)
        ensures
            self.recovers(*old(request), failure, *final(request), result),
    ;
}

/// A value that wraps a handler in a handler of its own, which does its work
/// around a call of the one it wraps.
pub trait AroundMiddleware<H: Handler>: Sized {
    /// The handler that comes out.
    type Wrapped: Handler;

    /// What the handler that `around` gives for `handler` may do.
    open spec fn wraps(
        self,
        handler: H,
        before: Request,
        after: Request,
        outcome: FerrumResult<Response>,
    ) -> bool {
        true
    }

    /// Wraps the handler.
    fn around(self, handler: H) -> (wrapped: Self::Wrapped)
        ensures
            forall|before: Request, after: Request, outcome: FerrumResult<Response>|
                #[trigger] wrapped.handles(before, after, outcome) ==> self.wraps(
                    handler,
                    before,
                    after,
                    outcome,
                ),
    ;
}

/// Whether `outer` does to a request only what `inner` does: every outcome of
/// `outer`, with the request as it leaves it, is one of `inner`.
pub open spec fn transparent<W: Handler, H: Handler>(outer: W, inner: H) -> bool {
    forall|before: Request, after: Request, outcome: FerrumResult<Response>|
        #[trigger] outer.handles(before, after, outcome) ==> inner.handles(before, after, outcome)
}

impl<T: Handler + ?Sized> Handler for Box<T> {
    open spec fn handles(
        &self,
        before: Request,
        after: Request,
        outcome: FerrumResult<Response>,
    ) -> bool {
        (**self).handles(before, after, outcome)
    }

    fn handle(&self, request: &mut Request) -> (outcome: FerrumResult<Response>) {
        (**self).handle(request)
    }
}

impl<T: BeforeMiddleware + ?Sized> BeforeMiddleware for Box<T> {
    open spec fn admits(&self, before: Request, after: Request, result: FerrumResult<()>) -> bool {
        (**self).admits(before, after, result)
    }

    open spec fn recovers(
        &self,
        before: Request,
        failure: FerrumError,
        after: Request,
        result: FerrumResult<()>,
    ) -> bool {
        (**self).recovers(before, failure, after, result)
    }

    fn before(&self, request: &mut Request) -> (result: FerrumResult<()>) {
        (**self).before(request)
    }

    fn catch(&self, request: &mut Request, failure: FerrumError) -> (result: FerrumResult<()>) {
        (**self).catch(request, failure)
    }
}

impl<T: AfterMiddleware + ?Sized> AfterMiddleware for Box<T> {
    open spec fn transforms(
        &self,
        before: Request,
        response: Response,
        after: Request,
        result: FerrumResult<Response>,
    ) -> bool {
        (**self).transforms(before, response, after, result)
    }

    open spec fn recovers(
        &self,
        before: Request,
        failure: FerrumError,
        after: Request,
        result: FerrumResult<Response>,
    ) -> bool {
        (**self).recovers(before, failure, after, result)
    }

    fn after(&self, request: &mut Request, response: Response) -> (result: FerrumResult<Response>) {
        (**self).after(request, response)
    }

    fn catch(&self, request: &mut Request, failure: FerrumError) -> (result: FerrumResult<
        Response,
    >) {
        (**self).catch(request, failure)
    }
}

/// One operation of a chain's members. The number is the place of the stage in
/// the order in which the stages of its kind were linked, from zero.
pub enum Call {
    /// `before` of a stage before the handler.
    Before(int),
    /// `catch` of a stage before the handler.
    BeforeCatch(int),
    /// `handle` of the handler.
    Handle,
    /// `after` of a stage after the handler.
    After(int),
    /// `catch` of a stage after the handler.
    AfterCatch(int),
}

/// One call that a run of a chain made, and whether it succeeded.
pub struct Event {
    pub call: Call,
    pub ok: bool,
}

/// Whether `log` is the one call given, with its success, and then `rest`.
pub open spec fn starts_with(log: Seq<Event>, call: Call, ok: bool, rest: Seq<Event>) -> bool {
    log == seq![Event { call, ok }] + rest
}

/// Where a run of a chain stands, with what it carries.
pub enum Progress {
    /// `before` of the stage at `index` is next.
    Before { index: usize },
    /// A stage before the handler failed, and `catch` of the stage at
    /// `pending - 1` is next. Once a stage recovers, the run resumes with the
    /// stage at `resume`, the one behind the stage that failed.
    BeforeFailed { resume: usize, pending: usize, failure: FerrumError },
    /// The handler is next.
    Handle,
    /// `after` of the stage at `index` is next, with `response`.
    After { index: usize, response: Response },
    /// The run carries a failure, the stages after the handler from `low` on
    /// have not run, and `catch` of the stage at `pending - 1` is next.
    AfterFailed { low: usize, pending: usize, failure: FerrumError },
    /// The run has ended.
    Done { outcome: FerrumResult<Response> },
}

impl Progress {
    /// Whether the call that led here succeeded: the run carries no failure.
    pub open spec fn succeeded(self) -> bool {
        match self {
            Progress::BeforeFailed { .. } => false,
            Progress::AfterFailed { .. } => false,
            Progress::Done { outcome } => outcome is Ok,
            _ => true,
        }
    }

    /// The call that is next.
    pub open spec fn due(self) -> Call {
        match self {
            Progress::Before { index } => Call::Before(index as int),
            Progress::BeforeFailed { pending, .. } => Call::BeforeCatch(pending - 1),
            Progress::Handle => Call::Handle,
            Progress::After { index, .. } => Call::After(index as int),
            Progress::AfterFailed { pending, .. } => Call::AfterCatch(pending - 1),
            Progress::Done { .. } => Call::Handle,
        }
    }

    /// Which part of the run this is: 3 before the handler, 2 at the handler, 1
    /// after it, 0 at the end.
    pub open spec fn phase(self) -> int {
        match self {
            Progress::Before { .. } => 3,
            Progress::BeforeFailed { .. } => 3,
            Progress::Handle => 2,
            Progress::After { .. } => 1,
            Progress::AfterFailed { .. } => 1,
            Progress::Done { .. } => 0,
        }
    }

    /// Whether the places named fit a chain with `befores` stages before the
    /// handler and `afters` after it.
    pub open spec fn placed(self, befores: int, afters: int) -> bool {
        match self {
            Progress::Before { index } => index < befores,
            Progress::BeforeFailed { resume, pending, .. } => 1 <= pending <= resume <= befores,
            Progress::Handle => true,
            Progress::After { index, .. } => index < afters,
            Progress::AfterFailed { low, pending, .. } => low < pending <= afters,
            Progress::Done { .. } => true,
        }
    }

    /// How many stages of the part the run is in lie ahead.
    pub open spec fn span(self, befores: int, afters: int) -> int {
        match self {
            Progress::Before { index } => befores - index,
            Progress::BeforeFailed { resume, .. } => befores - resume + 1,
            Progress::After { index, .. } => afters - index,
            Progress::AfterFailed { low, .. } => afters - low,
            _ => 0,
        }
    }

    /// How many calls may follow before the span shrinks.
    pub open spec fn slack(self) -> int {
        match self {
            Progress::Before { index } => index + 2,
            Progress::BeforeFailed { pending, .. } => pending as int,
            Progress::AfterFailed { low, pending, .. } => pending - low,
            _ => 0,
        }
    }
}

/// Where a run stands that is to go on with the stage at `index` before the
/// handler: at that stage, or at the handler where no such stage is left.
pub open spec fn start_before(befores: int, index: int) -> Progress {
    if index < befores {
        Progress::Before { index: index as usize }
    } else {
        Progress::Handle
    }
}

/// Where a run stands that carries `failure` from a stage before the handler
/// with `pending` stages still to be offered it: at the last of them, or, where
/// none is left, with the stages after the handler, none of which has run.
pub open spec fn start_before_failed(
    afters: int,
    resume: int,
    pending: int,
    failure: FerrumError,
) -> Progress {
    if pending > 0 {
        Progress::BeforeFailed { resume: resume as usize, pending: pending as usize, failure }
    } else {
        start_after_failed(0, afters, failure)
    }
}

/// Where a run stands that is to go on with the stage at `index` after the
/// handler: at that stage, or at its end with the response where no such stage
/// is left.
pub open spec fn start_after(afters: int, index: int, response: Response) -> Progress {
    if index < afters {
        Progress::After { index: index as usize, response }
    } else {
        Progress::Done { outcome: Ok(response) }
    }
}

/// Where a run stands that carries `failure` with the stages after the handler
/// from `low` up to `pending` still to be offered it: at the last of them, or at
/// its end with the failure where none is left.
pub open spec fn start_after_failed(low: int, pending: int, failure: FerrumError) -> Progress {
    if pending > low {
        Progress::AfterFailed { low: low as usize, pending: pending as usize, failure }
    } else {
        Progress::Done { outcome: Err(failure) }
    }
}

/// A handler with the stages that run before and after it.
pub struct Chain<H, B, A> {
    /// The stages before the handler, in the order in which they were linked.
    pub befores: Vec<B>,
    /// The stages after the handler, in the order in which they were linked.
    pub afters: Vec<A>,
    /// The handler.
    pub handler: H,
}

impl<H: Handler, B: BeforeMiddleware, A: AfterMiddleware> Chain<H, B, A> {
    /// Where a run of the chain starts.
    pub open spec fn start(self) -> Progress {
        start_before(self.befores.len() as int, 0)
    }

    /// Whether the call that is due at `from`, made with the request as
    /// `request`, may leave the request as `next` and the run at `to`.
    pub open spec fn advances(
        self,
        from: Progress,
        request: Request,
        next: Request,
        to: Progress,
    ) -> bool {
        let befores = self.befores.len() as int;
        let afters = self.afters.len() as int;
        match from {
            Progress::Before { index } => exists|result: FerrumResult<()>|
                {
                    &&& #[trigger] self.befores@[index as int].admits(request, next, result)
                    &&& to == match result {
                        Ok(_) => start_before(befores, index + 1),
                        Err(failure) => start_before_failed(afters, index + 1, index + 1, failure),
                    }
                },
            Progress::BeforeFailed { resume, pending, failure } => exists|result: FerrumResult<()>|
                {
                    &&& #[trigger] self.befores@[pending - 1].recovers(
                        request,
                        failure,
                        next,
                        result,
                    )
                    &&& to == match result {
                        Ok(_) => start_before(befores, resume as int),
                        Err(handed_on) => start_before_failed(
                            afters,
                            resume as int,
                            pending - 1,
                            handed_on,
                        ),
                    }
                },
            Progress::Handle => exists|result: FerrumResult<Response>|
                {
                    &&& #[trigger] self.handler.handles(request, next, result)
                    &&& to == match result {
                        Ok(response) => start_after(afters, 0, response),
                        Err(failure) => start_after_failed(0, afters, failure),
                    }
                },
            Progress::After { index, response } => exists|result: FerrumResult<Response>|
                {
                    &&& #[trigger] self.afters@[index as int].transforms(
                        request,
                        response,
                        next,
                        result,
                    )
                    &&& to == match result {
                        Ok(transformed) => start_after(afters, index + 1, transformed),
                        Err(failure) => start_after_failed(index + 1, afters, failure),
                    }
                },
            Progress::AfterFailed { low, pending, failure } => exists|
                result: FerrumResult<Response>,
            |
                {
                    &&& #[trigger] self.afters@[pending - 1].recovers(
                        request,
                        failure,
                        next,
                        result,
                    )
                    &&& to == match result {
                        Ok(response) => start_after(afters, pending as int, response),
                        Err(handed_on) => start_after_failed(low as int, pending - 1, handed_on),
                    }
                },
            Progress::Done { .. } => false,
        }
    }

    /// Whether the chain, standing at `from` with the request as `request`, may
    /// end with `outcome` and the request as `end`, having made the calls in
    /// `log` on the way.
    pub open spec fn runs_from(
        self,
        from: Progress,
        request: Request,
        end: Request,
        outcome: FerrumResult<Response>,
        log: Seq<Event>,
    ) -> bool
        decreases
            from.phase(),
            from.span(self.befores.len() as int, self.afters.len() as int),
            from.slack(),
    {
        match from {
            Progress::Done { outcome: reached } => {
                &&& end == request
                &&& outcome == reached
                &&& log == Seq::<Event>::empty()
            },
            _ => from.placed(self.befores.len() as int, self.afters.len() as int) && exists|
                next: Request,
                to: Progress,
                rest: Seq<Event>,
            |
                {
                    &&& #[trigger] self.advances(from, request, next, to)
                    &&& #[trigger] starts_with(log, from.due(), to.succeeded(), rest)
                    &&& self.runs_from(to, next, end, outcome, rest)
                },
        }
    }

    /// Whether a run of the whole chain on `request` may end with `outcome` and
    /// the request as `end`, having made the calls in `log`.
    pub open spec fn runs(
        self,
        request: Request,
        end: Request,
        outcome: FerrumResult<Response>,
        log: Seq<Event>,
    ) -> bool {
        self.runs_from(self.start(), request, end, outcome, log)
    }
}

impl<H: Handler, B: BeforeMiddleware, A: AfterMiddleware> Chain<H, B, A> {
    /// A chain of the handler alone.
    pub fn new(handler: H) -> (chain: Self)
        ensures
            chain.handler == handler,
            chain.befores@ == Seq::<B>::empty(),
            chain.afters@ == Seq::<A>::empty(),
    {
        Chain { befores: Vec::new(), afters: Vec::new(), handler }
    }

    /// Links a stage before the handler and a stage after it, each behind those
    /// of its kind linked so far.
    pub fn link(&mut self, before: B, after: A)
        ensures
            final(self).befores@ == old(self).befores@.push(before),
            final(self).afters@ == old(self).afters@.push(after),
            final(self).handler == old(self).handler,
    {
        self.befores.push(before);
        self.afters.push(after);
    }

    /// Links a stage before the handler, behind those linked so far.
    pub fn link_before(&mut self, before: B)
        ensures
            final(self).befores@ == old(self).befores@.push(before),
            final(self).afters == old(self).afters,
            final(self).handler == old(self).handler,
    {
        self.befores.push(before);
    }

    /// Links a stage after the handler, behind those linked so far.
    pub fn link_after(&mut self, after: A)
        ensures
            final(self).afters@ == old(self).afters@.push(after),
            final(self).befores == old(self).befores,
            final(self).handler == old(self).handler,
    {
        self.afters.push(after);
    }

    /// Wraps the handler of the chain. The stages stay as they are: they run
    /// around the handler that comes out.
    pub fn link_around<W: AroundMiddleware<H>>(self, around: W) -> (chain: Chain<W::Wrapped, B, A>)
        ensures
            chain.befores == self.befores,
            chain.afters == self.afters,
            forall|before: Request, after: Request, outcome: FerrumResult<Response>|
                #[trigger] chain.handler.handles(before, after, outcome) ==> around.wraps(
                    self.handler,
                    before,
                    after,
                    outcome,
                ),
    {
        Chain {
            befores: self.befores,
            afters: self.afters,
            handler: around.around(self.handler),
        }
    }

    /// Where a run of the chain starts: at the first stage before the handler,
    /// or at the handler where there is none.
    pub fn begin(&self) -> (from: Progress)
        ensures
            from == self.start(),
            from.placed(self.befores.len() as int, self.afters.len() as int),
    {
        self.enter_before(0)
    }

    /// Where a run stands that is to go on with the stage at `index` before the
    /// handler.
    fn enter_before(&self, index: usize) -> (to: Progress)
        ensures
            to == start_before(self.befores.len() as int, index as int),
            to.placed(self.befores.len() as int, self.afters.len() as int),
    {
        if index < self.befores.len() {
            Progress::Before { index }
        } else {
            Progress::Handle
        }
    }

    /// Where a run stands that carries a failure from before the handler, with
    /// `pending` stages still to be offered it.
    fn enter_before_failed(&self, resume: usize, pending: usize, failure: FerrumError) -> (to:
        Progress)
        requires
            pending <= resume <= self.befores@.len(),
        ensures
            to == start_before_failed(
                self.afters.len() as int,
                resume as int,
                pending as int,
                failure,
            ),
            to.placed(self.befores.len() as int, self.afters.len() as int),
    {
        if pending > 0 {
            Progress::BeforeFailed { resume, pending, failure }
        } else {
            self.enter_after_failed(0, self.afters.len(), failure)
        }
    }

    /// Where a run stands that is to go on with the stage at `index` after the
    /// handler.
    fn enter_after(&self, index: usize, response: Response) -> (to: Progress)
        ensures
            to == start_after(self.afters.len() as int, index as int, response),
            to.placed(self.befores.len() as int, self.afters.len() as int),
    {
        if index < self.afters.len() {
            Progress::After { index, response }
        } else {
            Progress::Done { outcome: Ok(response) }
        }
    }

    /// Where a run stands that carries a failure, with the stages after the
    /// handler from `low` up to `pending` still to be offered it.
    fn enter_after_failed(&self, low: usize, pending: usize, failure: FerrumError) -> (to:
        Progress)
        requires
            pending <= self.afters@.len(),
        ensures
            to == start_after_failed(low as int, pending as int, failure),
            to.placed(self.befores.len() as int, self.afters.len() as int),
    {
        if pending > low {
            Progress::AfterFailed { low, pending, failure }
        } else {
            Progress::Done { outcome: Err(failure) }
        }
    }

    /// Makes the call that is due and says where the run stands then. A run that
    /// has ended stays where it is.
    pub fn advance(&self, request: &mut Request, from: Progress) -> (to: Progress)
        requires
            from.placed(self.befores.len() as int, self.afters.len() as int),
        ensures
            to.placed(self.befores.len() as int, self.afters.len() as int),
            !(from is Done) ==> self.advances(from, *old(request), *final(request), to),
            from is Done ==> to == from && *final(request) == *old(request),
    {
        match from {
            Progress::Before { index } => {
                match self.befores[index].before(request) {
                    Ok(_) => self.enter_before(index + 1),
                    Err(failure) => self.enter_before_failed(index + 1, index + 1, failure),
                }
            },
            Progress::BeforeFailed { resume, pending, failure } => {
                match self.befores[pending - 1].catch(request, failure) {
                    Ok(_) => self.enter_before(resume),
                    Err(handed_on) => self.enter_before_failed(resume, pending - 1, handed_on),
                }
            },
            Progress::Handle => {
                match self.handler.handle(request) {
                    Ok(response) => self.enter_after(0, response),
                    Err(failure) => self.enter_after_failed(0, self.afters.len(), failure),
                }
            },
            Progress::After { index, response } => {
                match self.afters[index].after(request, response) {
                    Ok(transformed) => self.enter_after(index + 1, transformed),
                    Err(failure) => self.enter_after_failed(index + 1, self.afters.len(), failure),
                }
            },
            Progress::AfterFailed { low, pending, failure } => {
                match self.afters[pending - 1].catch(request, failure) {
                    Ok(response) => self.enter_after(pending, response),
                    Err(handed_on) => self.enter_after_failed(low, pending - 1, handed_on),
                }
            },
            Progress::Done { outcome } => Progress::Done { outcome },
        }
    }
}

impl<H: Handler, B: BeforeMiddleware, A: AfterMiddleware> Handler for Chain<H, B, A> {
    /// A chain ends a request as one of its runs does.
    open spec fn handles(
        &self,
        before: Request,
        after: Request,
        outcome: FerrumResult<Response>,
    ) -> bool {
        exists|log: Seq<Event>| self.runs(before, after, outcome, log)
    }

    fn handle(&self, request: &mut Request) -> (outcome: FerrumResult<Response>) {
        let ghost befores = self.befores.len() as int;
        let ghost afters = self.afters.len() as int;
        let ghost mut log = Seq::<Event>::empty();
        let mut progress = self.begin();
        loop
            invariant
                befores == self.befores.len(),
                afters == self.afters.len(),
                progress.placed(befores, afters),
                forall|end: Request, reached: FerrumResult<Response>, rest: Seq<Event>|
                    #[trigger] self.runs_from(progress, *request, end, reached, rest)
                        ==> self.runs_from(self.start(), *old(request), end, reached, log + rest),
            decreases progress.phase(), progress.span(befores, afters), progress.slack(),
        {
            match progress {
                Progress::Done { outcome } => {
                    proof {
                        assert(self.runs_from(
                            Progress::Done { outcome },
                            *request,
                            *request,
                            outcome,
                            Seq::<Event>::empty(),
                        ));
                        assert(log + Seq::<Event>::empty() =~= log);
                        assert(self.runs(*old(request), *request, outcome, log));
                    }
                    return outcome;
                },
                from => {
                    let ghost before = *request;
                    let ghost so_far = log;
                    let to = self.advance(request, from);
                    proof {
                        let event = Event { call: from.due(), ok: to.succeeded() };
                        log = so_far.push(event);
                        assert forall|
                            end: Request,
                            reached: FerrumResult<Response>,
                            rest: Seq<Event>,
                        |
                            #[trigger] self.runs_from(to, *request, end, reached, rest)
                            implies self.runs_from(
                            self.start(),
                            *old(request),
                            end,
                            reached,
                            log + rest,
                        ) by {
                            assert(self.advances(from, before, *request, to));
                            assert(starts_with(seq![event] + rest, from.due(), event.ok, rest));
                            assert(self.runs_from(from, before, end, reached, seq![event] + rest));
                            assert(so_far + (seq![event] + rest) =~= log + rest);
                        }
                    }
                    progress = to;
                },
            }
        }
    }
}

} // verus!
