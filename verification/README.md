# minitokio

A toy tokio-like runtime capable of executing async-await futures, with its decisions verified by
[Verus](https://github.com/verus-lang/verus).

- `src/` is the verified core. `executor` holds the states of the tasks and says what a worker does
  with a task; `current` says what is current on a thread; `reactor` says whom an event wakes; `net`
  says what a future does that reads, writes or accepts; `http_server` is a simple HTTP server.
  `schedule` and `registry` state and prove what holds of an executor and of a reactor as a whole:
  every task is in one place, no wakeup is lost, a stopped reactor keeps nobody waiting.
- The keys of tasks and resources come from a `slab::Slab`. `slots` models it; `task_slab` and
  `waker_slab` hold what is believed of it. In `http_server` the parser is `httparse`'s, and the
  date comes from `chrono`.
- `app/` is the runtime around the core: threads, the ready queue, `mio`'s sockets and the futures.

The purpose is to understand how all pieces fit together in an async runtime.
