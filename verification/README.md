# async_rt

Small pieces of asynchronous runtimes, verified with Verus.

- `src/request.rs`: framing of HTTP `GET` requests, decimal numbers, the
  request paths and answers of the delay server.
- `src/http.rs`: an HTTP `GET` future as a state machine: its driver reports
  polls and read results, the future says what to do next and what it
  resolves to.
- `src/coroutine.rs`: a hand-written coroutine that awaits two such futures
  in turn.
- `src/epoll.rs`: the tally of one pass over a batch of readiness events.
- `src/fibers.rs`: a cooperative round-robin scheduler for green threads.
- `src/stack.rs`: the layout of the frames a new thread or a stack swap
  starts from.

`app/` holds the programs that do the I/O, the context switches and the
system calls: `async_rt_app <coroutine|delayserver|epoll|fibers|...>`.
