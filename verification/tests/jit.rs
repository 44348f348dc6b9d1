//! The life of locations under the control point, on one thread.
use metatracer::{
    hot_count, jit_control_point, Jit, JitLocation, JitPhase, JitThreadContext, JitTrace,
    JitTransition, HOT_THRESHOLD,
};

/// A JIT, and the one thread that uses it.
struct Interpreter {
    jit: Jit,
    cx: JitThreadContext,
}

impl Interpreter {
    fn new() -> Interpreter {
        Interpreter { jit: Jit::new(), cx: JitThreadContext::new() }
    }

    fn control_point(&mut self, loc: JitLocation) -> JitTransition {
        jit_control_point(&mut self.jit, &mut self.cx, loc)
    }

    /// Let the compilations that have been started come to their end.
    fn run_compilers(&mut self) {
        while let Some(job) = self.jit.jobs.pop() {
            job.run(&mut self.jit.traces);
        }
    }

    /// Force a trace to be collected for the given location, whose hot count must be zero.
    ///
    /// The hot counts and the transitions are checked after each call to the control point.
    fn dummy_trace_location(&mut self, loc: JitLocation) {
        // Interpreting phase.
        for i in 0..(HOT_THRESHOLD - 1) {
            assert!(hot_count(&self.jit.counts, loc) == i);
            assert!(self.cx.current_phase() == JitPhase::Interpreting);
            assert!(self.control_point(loc) == JitTransition::IncrementedHotCount);
        }

        // The next iteration should trigger tracing.
        assert!(hot_count(&self.jit.counts, loc) == HOT_THRESHOLD - 1);
        assert!(self.cx.current_phase() == JitPhase::Interpreting);
        assert!(self.control_point(loc) == JitTransition::StartedTracing);

        // When the start of the loop being traced shows up, we should fall back to the interpreter
        // while the trace is being compiled.
        assert!(self.cx.current_phase() == JitPhase::Tracing(loc));
        assert!(self.control_point(loc) == JitTransition::FinishedTracing);
        assert!(self.cx.current_phase() == JitPhase::Interpreting);
    }

    /// Call the control point until a trace executes for the given location.
    fn dummy_exec_trace(&mut self, loc: JitLocation) {
        let mut tries = 0;
        let max_tries = 1000;

        loop {
            match self.control_point(loc) {
                JitTransition::ExecutedTrace => break, // The trace appeared and ran, good.
                _ => {}                                // Still waiting.
            }
            tries += 1;
            if tries == max_tries {
                panic!("timed out waiting for trace to execute");
            }
            self.run_compilers();
        }
    }
}

/// The most basic scenario.
#[test]
fn test_jit_0() {
    let mut it = Interpreter::new();
    it.dummy_trace_location(666);
    it.dummy_exec_trace(666);
}

/// Tracing a few different locations.
#[test]
fn test_jit_lifecycle_1() {
    let mut it = Interpreter::new();
    it.dummy_trace_location(666);
    it.dummy_trace_location(777);
    it.dummy_trace_location(888);
    it.dummy_exec_trace(666);
    it.dummy_exec_trace(777);
    it.dummy_exec_trace(888);
}

/// Tracing a few different locations in a weird order.
#[test]
fn test_jit_lifecycle_2() {
    let mut it = Interpreter::new();
    it.dummy_trace_location(888);
    it.dummy_trace_location(666);
    it.dummy_exec_trace(888);
    it.dummy_trace_location(777);
    it.dummy_exec_trace(777);
    it.dummy_exec_trace(666);
}

/// A location whose trace is being compiled is counted on, and executed once the trace is there.
/// From then on it is no longer counted.
#[test]
fn counted_until_compiled() {
    let mut it = Interpreter::new();
    it.dummy_trace_location(5);
    assert_eq!(it.jit.traces.get(5), Some(JitTrace::TracePending));
    for i in 0..20 {
        assert_eq!(hot_count(&it.jit.counts, 5), HOT_THRESHOLD + i);
        assert_eq!(it.control_point(5), JitTransition::IncrementedHotCount);
    }
    it.run_compilers();
    assert_eq!(it.jit.traces.get(5), Some(JitTrace::FinalisedTrace));
    for _ in 0..20 {
        assert_eq!(it.control_point(5), JitTransition::ExecutedTrace);
        assert_eq!(it.cx.current_phase(), JitPhase::Interpreting);
    }
    assert_eq!(hot_count(&it.jit.counts, 5), HOT_THRESHOLD + 20);
}

/// A thread that finds a location partly counted starts tracing it that much earlier.
#[test]
fn partly_counted_location_is_traced() {
    for before in 0..HOT_THRESHOLD {
        let mut it = Interpreter::new();
        for _ in 0..before {
            assert_eq!(it.control_point(5), JitTransition::IncrementedHotCount);
        }
        it.cx = JitThreadContext::new();
        for _ in 0..(HOT_THRESHOLD - before - 1) {
            assert_eq!(it.control_point(5), JitTransition::IncrementedHotCount);
        }
        assert_eq!(it.control_point(5), JitTransition::StartedTracing);
        assert_eq!(it.control_point(5), JitTransition::FinishedTracing);
        it.run_compilers();
        assert_eq!(it.control_point(5), JitTransition::ExecutedTrace);
        assert_eq!(hot_count(&it.jit.counts, 5), HOT_THRESHOLD);
    }
}

/// While a thread traces, other locations go into the trace: they are neither counted nor run.
#[test]
fn tracing_goes_on_at_other_locations() {
    let mut it = Interpreter::new();
    it.dummy_trace_location(8);
    it.run_compilers();
    for _ in 0..HOT_THRESHOLD {
        it.control_point(1);
    }
    assert_eq!(it.cx.current_phase(), JitPhase::Tracing(1));
    for loc in [0, 2, 8, u32::MAX] {
        assert_eq!(it.control_point(loc), JitTransition::ContinuedTracing);
        assert_eq!(it.cx.current_phase(), JitPhase::Tracing(1));
    }
    assert_eq!(hot_count(&it.jit.counts, 2), 0);
    assert_eq!(it.control_point(1), JitTransition::FinishedTracing);
    assert_eq!(hot_count(&it.jit.counts, 1), HOT_THRESHOLD);
    assert_eq!(it.control_point(2), JitTransition::IncrementedHotCount);
    assert_eq!(it.control_point(8), JitTransition::ExecutedTrace);
}

/// Only the locations that come up change.
#[test]
fn other_locations_are_left_alone() {
    let mut it = Interpreter::new();
    it.control_point(3);
    it.control_point(3);
    it.dummy_trace_location(4);
    assert_eq!(hot_count(&it.jit.counts, 3), 2);
    assert_eq!(hot_count(&it.jit.counts, 5), 0);
    assert_eq!(it.jit.traces.get(3), None);
    assert_eq!(it.jit.traces.get(4), Some(JitTrace::TracePending));
}

/// Each compilation is started once, and under its location's name.
#[test]
fn compilations_are_named() {
    let mut it = Interpreter::new();
    it.dummy_trace_location(0);
    it.dummy_trace_location(u32::MAX);
    it.dummy_trace_location(1070);
    let names: Vec<&str> = it.jit.jobs.iter().map(|job| job.name()).collect();
    assert_eq!(names, ["compile_loc_0", "compile_loc_4294967295", "compile_loc_1070"]);
    let locs: Vec<JitLocation> = it.jit.jobs.iter().map(|job| job.location()).collect();
    assert_eq!(locs, [0, u32::MAX, 1070]);
}
