use std::time::Duration;

use ferrum::{Ferrum, FerrumResult, Handler, Request, Response};

struct Hello;

impl Handler for Hello {
    fn handle(&self, _: &mut Request) -> FerrumResult<Response> {
        Ok(Response::new())
    }
}

#[test]
fn new_server_has_the_usual_settings() {
    let server = Ferrum::new(Hello);

    assert!(server.keep_alive);
    assert_eq!(server.timeout, Some(Duration::from_secs(30)));
    assert_eq!(server.num_threads, num_cpus::get());
    assert!(server.num_threads >= 1);
}
