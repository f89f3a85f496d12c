//! The settings of a server and the handler it serves.

use crate::middleware::Handler;
use std::time::Duration;
use vstd::prelude::*;

verus! {

/// The span of time of that many seconds: what `Duration::from_secs` gives for
/// the number.
pub uninterp spec fn span_of(seconds: u64) -> Duration;

/// `Duration::from_secs`: the span of that many seconds.
#[verifier::external_body]
pub(crate) fn seconds(count: u64) -> (span: Duration)
    ensures
        span == span_of(count),
{
    Duration::from_secs(count)
}

/// `num_cpus::get`: the number of processors that this process may use, which
/// is the machine's to say.
#[verifier::external_body]
pub(crate) fn available_processors() -> (count: usize) {
    num_cpus::get()
}

/// A server that is ready to be started: the handler and the settings.
pub struct Ferrum<H: Handler> {
    /// The handler that answers the requests.
    pub handler: H,
    /// Whether connections are kept alive between requests.
    pub keep_alive: bool,
    /// How long a connection may stay idle, if there is a limit.
    pub timeout: Option<Duration>,
    /// The number of threads that handle requests.
    pub num_threads: usize,
}

impl<H: Handler> Ferrum<H> {
    /// A server for `handler` with the usual settings: connections are kept
    /// alive, an idle connection is dropped after 30 seconds, and there are as
    /// many handling threads as processors are available.
    pub fn new(handler: H) -> (server: Ferrum<H>)
        ensures
            server.handler == handler,
            server.keep_alive,
            server.timeout == Some(span_of(30)),
    {
        Ferrum {
            handler,
            keep_alive: true,
            timeout: Some(seconds(30)),
            num_threads: available_processors(),
        }
    }
}

} // verus!
