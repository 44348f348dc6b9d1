# metatracer

The control point of a meta-tracing JIT compiler, verified with Verus.

An interpreter calls the control point at every iteration of its dispatch loop. The control point
counts how often each location of the user program comes up, starts tracing a location when its
count reaches the threshold, stops when the loop has come round once, hands the trace to a compiler
thread, and executes the trace once it is finished.

- `src/types.rs`: locations, counts, phases, traces, transitions.
- `src/hot_counts.rs`, `src/traces.rs`: the two pieces of shared state.
- `src/context.rs`: what belongs to one thread, and the compilations that it starts.
- `src/control.rs`: the control point, as a whole and visit by visit.
- `src/threads.rs`: any number of threads that take turns at the shared state.
- `src/laws.rs`: what holds over many calls, and over every interleaving of threads.
- `app/`: the control point with global locks, thread-locals and real compiler threads.
