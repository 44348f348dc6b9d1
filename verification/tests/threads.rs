//! The control point with several threads, which take turns at the shared state in many orders.
use metatracer::{
    hot_count, store_trace, trace_settable, CompileJob, ControlPoint, HotCounts, JitLocation,
    JitPhase, JitThreadContext, JitTrace, JitTransition, Traces, HOT_THRESHOLD,
};

/// The number of orders in which the turns are tried.
const MULTITHREAD_REPS: u64 = 200;

/// What a thread is to do with a location.
#[derive(Clone, Copy)]
enum Goal {
    /// Trace it, with the hot counts and the transitions checked on the way. No other thread may
    /// work on the location, whose hot count must be zero.
    Trace(JitLocation),
    /// Call the control point until a trace executes.
    Exec(JitLocation),
}

/// An interpreter thread.
struct Task {
    cx: JitThreadContext,
    goals: Vec<Goal>,
    /// How many calls have been made for the first goal.
    calls: u32,
    call: Option<ControlPoint>,
}

/// A compiler thread, which may have made its check already.
struct Compiler {
    job: CompileJob,
    checked: bool,
}

struct World {
    traces: Traces,
    counts: HotCounts,
    tasks: Vec<Task>,
    compilers: Vec<Compiler>,
    /// The locations that have been counted, in order.
    counted: Vec<JitLocation>,
    /// The locations that have been traced, in order.
    traced: Vec<JitLocation>,
    random: u64,
}

impl World {
    fn new(seed: u64) -> World {
        World {
            traces: Traces::new(),
            counts: HotCounts::new(),
            tasks: Vec::new(),
            compilers: Vec::new(),
            counted: Vec::new(),
            traced: Vec::new(),
            random: seed,
        }
    }

    fn spawn(&mut self, goals: &[Goal]) {
        let goals = goals.to_vec();
        self.tasks.push(Task { cx: JitThreadContext::new(), goals, calls: 0, call: None });
    }

    /// Let the threads take turns until the interpreter threads have reached their goals.
    fn join(&mut self) {
        let mut turns = 0;
        while self.tasks.iter().any(|task| !task.goals.is_empty()) {
            self.random = self.random.wrapping_mul(6364136223846793005).wrapping_add(1442695040888963407);
            let n = self.tasks.len() + self.compilers.len();
            let who = (self.random >> 33) as usize % n;
            if who < self.tasks.len() {
                self.interpreter_turn(who);
            } else {
                self.compiler_turn(who - self.tasks.len());
            }
            turns += 1;
            if turns == 1_000_000 {
                panic!("timed out waiting for trace to execute");
            }
        }
    }

    fn compiler_turn(&mut self, who: usize) {
        if !self.compilers[who].checked {
            let loc = self.compilers[who].job.location();
            assert!(trace_settable(&self.traces, loc, JitTrace::FinalisedTrace));
            self.compilers[who].checked = true;
        } else {
            let loc = self.compilers.remove(who).job.location();
            store_trace(&mut self.traces, loc, JitTrace::FinalisedTrace);
        }
    }

    fn interpreter_turn(&mut self, who: usize) {
        let World { traces, counts, tasks, compilers, counted, traced, .. } = self;
        let task = &mut tasks[who];
        if task.goals.is_empty() {
            return;
        }
        let cx = &mut task.cx;
        let call = match task.call {
            None => {
                let loc = match task.goals[0] {
                    Goal::Trace(loc) => {
                        if task.calls < HOT_THRESHOLD {
                            assert!(hot_count(counts, loc) == task.calls);
                            assert!(cx.current_phase() == JitPhase::Interpreting);
                        } else {
                            assert!(cx.current_phase() == JitPhase::Tracing(loc));
                        }
                        loc
                    }
                    Goal::Exec(loc) => loc,
                };
                ControlPoint::enter(cx, loc)
            }
            Some(ControlPoint::TryExec { loc }) => ControlPoint::try_exec(traces, cx, loc),
            Some(ControlPoint::Count { loc }) => {
                counted.push(loc);
                ControlPoint::count(counts, loc)
            }
            Some(ControlPoint::CheckPending { loc }) => ControlPoint::check_pending(traces, loc),
            Some(ControlPoint::CheckUntraced { loc }) => {
                assert!(trace_settable(traces, loc, JitTrace::TracePending));
                ControlPoint::check_untraced(traces, loc)
            }
            Some(ControlPoint::Mark { loc }) => {
                traced.push(loc);
                ControlPoint::mark(traces, cx, loc)
            }
            Some(ControlPoint::Compile { loc }) => {
                let job = JitThreadContext::compile_trace(loc);
                compilers.push(Compiler { job, checked: false });
                ControlPoint::stop_tracing(cx)
            }
            Some(ControlPoint::Finished { transition }) => {
                task.call = None;
                task.returned(transition);
                return;
            }
        };
        task.call = Some(call);
    }

    /// How often the location has been traced.
    fn times_traced(&self, loc: JitLocation) -> usize {
        self.traced.iter().filter(|at| **at == loc).count()
    }
}

impl Task {
    /// The control point has returned.
    fn returned(&mut self, transition: JitTransition) {
        self.calls += 1;
        let reached = match self.goals[0] {
            Goal::Trace(_) => {
                let expected = if self.calls < HOT_THRESHOLD {
                    JitTransition::IncrementedHotCount
                } else if self.calls == HOT_THRESHOLD {
                    JitTransition::StartedTracing
                } else {
                    JitTransition::FinishedTracing
                };
                assert!(transition == expected);
                if transition == JitTransition::FinishedTracing {
                    assert!(self.cx.current_phase() == JitPhase::Interpreting);
                }
                transition == JitTransition::FinishedTracing
            }
            Goal::Exec(_) => transition == JitTransition::ExecutedTrace,
        };
        if reached {
            self.goals.remove(0);
            self.calls = 0;
        }
    }
}

/// Two threads, each tracing and executing a different location.
#[test]
fn test_jit_multithread_0() {
    for seed in 0..MULTITHREAD_REPS {
        let mut world = World::new(seed);
        world.spawn(&[Goal::Trace(666), Goal::Exec(666)]);
        world.spawn(&[Goal::Trace(777), Goal::Exec(777)]);
        world.join();
    }
}

/// Two threads, executing traces collected on the other thread.
#[test]
fn test_jit_multithread_1() {
    for seed in 0..MULTITHREAD_REPS {
        let mut world = World::new(seed);
        world.spawn(&[Goal::Trace(666)]);
        world.join();

        world.spawn(&[Goal::Exec(666)]);
        world.join();
    }
}

/// Two threads, collecting and executing various traces.
#[test]
fn test_jit_multithread_2() {
    for seed in 0..MULTITHREAD_REPS {
        let mut world = World::new(seed);
        world.spawn(&[Goal::Exec(888), Goal::Exec(666), Goal::Exec(999)]);
        world.spawn(&[Goal::Exec(666), Goal::Exec(777), Goal::Exec(888)]);
        world.join();
        for loc in [666, 777, 888, 999] {
            assert_eq!(world.times_traced(loc), 1);
            assert_eq!(world.traces.get(loc), Some(JitTrace::FinalisedTrace));
        }
    }
}

/// Three threads all operating on the same location. The trace must not be collected three times.
#[test]
fn test_jit_multithread_3() {
    for seed in 0..MULTITHREAD_REPS {
        let mut world = World::new(seed);
        world.spawn(&[Goal::Exec(666)]);
        world.spawn(&[Goal::Exec(666)]);
        world.spawn(&[Goal::Exec(666)]);
        world.join();
        assert_eq!(world.times_traced(666), 1);
        assert!(world.compilers.is_empty());
    }
}

/// Many threads that pass many locations on their way.
#[test]
fn many_threads_many_locations() {
    for seed in 0..20 {
        let mut world = World::new(seed);
        for first in 0..6 {
            let goals: Vec<Goal> = (0..6).map(|i| Goal::Exec((first + i) % 6)).collect();
            world.spawn(&goals);
        }
        world.join();
        for loc in 0..6 {
            assert_eq!(world.times_traced(loc), 1);
            let times = world.counted.iter().filter(|at| **at == loc).count();
            assert!(times >= HOT_THRESHOLD as usize);
            assert_eq!(hot_count(&world.counts, loc) as usize, times);
        }
    }
}
