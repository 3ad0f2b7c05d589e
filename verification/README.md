# serve_limit

Rate limiting and request logging for a file server, verified with Verus.

- `src/clock.rs`: time as durations since the clock was started.
- `src/ratelimit/level.rs`: the atomic in which a limiter publishes its arrival time.
- `src/ratelimit/gcra.rs`, `gcra_laws.rs`: the GCRA rate limiter, its observer, and what
  holds of a bucket over many requests.
- `src/ratelimit/permits.rs`: the permits of a tokio semaphore, with one owner.
- `src/ratelimit/concurrency.rs`: the cap on concurrent serves.
- `src/ratelimit/limiters.rs`: the fixed set of limiters and its configuration.
- `src/ratelimit/state.rs`: the scheduler as a state machine.
- `src/ratelimit/scheduler.rs`: the queue, dispatching, and the handles of request
  handlers.
- `src/ratelimit/scheduler_laws.rs`: what holds of the limiters and the scheduler over
  time: order, the cap, the rates, wakeups.
- `src/middleware/`: the request log, its text, and the layers of middleware.
- `app/`: the task that drives the scheduler and the axum layers. It is not verified.
- `tests/`: tests of the library.
