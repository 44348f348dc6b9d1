//! The parts of the control point, one by one.
use metatracer::{
    debug_thread_name, hot_count, incr_hot_count, set_trace, store_trace, trace_pending,
    trace_settable, try_exec_trace, ControlPoint, HotCounts, JitPhase, JitThreadContext, JitTrace,
    JitTransition, Traces, HOT_THRESHOLD,
};

#[test]
fn hot_counts_go_up_by_one() {
    let mut counts = HotCounts::new();
    assert_eq!(hot_count(&counts, 7), 0);
    assert_eq!(incr_hot_count(&mut counts, 7), 1);
    assert_eq!(incr_hot_count(&mut counts, 7), 2);
    assert_eq!(incr_hot_count(&mut counts, 9), 1);
    assert_eq!(hot_count(&counts, 7), 2);
    assert_eq!(hot_count(&counts, 9), 1);
    assert_eq!(hot_count(&counts, 8), 0);
}

#[test]
fn a_trace_is_pending_then_finished() {
    let mut traces = Traces::new();
    assert_eq!(traces.get(7), None);
    assert!(!trace_pending(&traces, 7));
    assert!(trace_settable(&traces, 7, JitTrace::TracePending));
    assert!(!trace_settable(&traces, 7, JitTrace::FinalisedTrace));

    set_trace(&mut traces, 7, JitTrace::TracePending);
    assert!(trace_pending(&traces, 7));
    assert!(!trace_settable(&traces, 7, JitTrace::TracePending));
    assert!(trace_settable(&traces, 7, JitTrace::FinalisedTrace));

    store_trace(&mut traces, 7, JitTrace::FinalisedTrace);
    assert!(!trace_pending(&traces, 7));
    assert!(!trace_settable(&traces, 7, JitTrace::TracePending));
    assert!(!trace_settable(&traces, 7, JitTrace::FinalisedTrace));
    assert_eq!(traces.get(8), None);
}

#[test]
fn only_a_finished_trace_is_executed() {
    let mut traces = Traces::new();
    let mut cx = JitThreadContext::new();
    assert!(!try_exec_trace(&traces, &mut cx, 7));
    set_trace(&mut traces, 7, JitTrace::TracePending);
    assert!(!try_exec_trace(&traces, &mut cx, 7));
    cx.phase_transition(JitPhase::Tracing(1));
    assert!(!try_exec_trace(&traces, &mut cx, 7));
    assert_eq!(cx.current_phase(), JitPhase::Tracing(1));
    set_trace(&mut traces, 7, JitTrace::FinalisedTrace);
    assert!(try_exec_trace(&traces, &mut cx, 7));
    assert_eq!(cx.current_phase(), JitPhase::Interpreting);
}

#[test]
fn a_context_keeps_its_phase() {
    let mut cx = JitThreadContext::new();
    assert_eq!(cx.current_phase(), JitPhase::Interpreting);
    cx.phase_transition(JitPhase::RunningTrace(3));
    assert_eq!(cx.current_phase(), JitPhase::RunningTrace(3));
    cx.reset();
    assert_eq!(cx.current_phase(), JitPhase::Interpreting);
}

#[test]
fn a_compilation_stores_the_finished_trace() {
    let mut traces = Traces::new();
    set_trace(&mut traces, 42, JitTrace::TracePending);
    let job = JitThreadContext::compile_trace(42);
    assert_eq!(job.name(), "compile_loc_42");
    assert_eq!(job.location(), 42);
    job.run(&mut traces);
    assert_eq!(traces.get(42), Some(JitTrace::FinalisedTrace));
}

#[test]
fn threads_without_a_name() {
    assert_eq!(debug_thread_name(Some("thr2")), "thr2");
    assert_eq!(debug_thread_name(Some("")), "");
    assert_eq!(debug_thread_name(None), "no_name");
}

#[test]
fn the_call_that_makes_a_location_hot() {
    let mut traces = Traces::new();
    let mut counts = HotCounts::new();
    let mut cx = JitThreadContext::new();
    for _ in 0..(HOT_THRESHOLD - 1) {
        incr_hot_count(&mut counts, 6);
    }
    let done = |transition| ControlPoint::Finished { transition };
    assert_eq!(ControlPoint::enter(&cx, 6), ControlPoint::TryExec { loc: 6 });
    assert_eq!(ControlPoint::try_exec(&traces, &mut cx, 6), ControlPoint::Count { loc: 6 });
    assert_eq!(ControlPoint::count(&mut counts, 6), ControlPoint::CheckPending { loc: 6 });
    assert_eq!(ControlPoint::check_pending(&traces, 6), ControlPoint::CheckUntraced { loc: 6 });
    assert_eq!(ControlPoint::check_untraced(&traces, 6), ControlPoint::Mark { loc: 6 });
    assert_eq!(
        ControlPoint::mark(&mut traces, &mut cx, 6),
        done(JitTransition::StartedTracing)
    );
    assert_eq!(cx.current_phase(), JitPhase::Tracing(6));
    assert_eq!(ControlPoint::enter(&cx, 5), done(JitTransition::ContinuedTracing));
    assert_eq!(ControlPoint::enter(&cx, 6), ControlPoint::Compile { loc: 6 });
    let job = JitThreadContext::compile_trace(6);
    assert_eq!(ControlPoint::stop_tracing(&mut cx), done(JitTransition::FinishedTracing));
    assert_eq!(cx.current_phase(), JitPhase::Interpreting);
    assert_eq!(
        ControlPoint::check_pending(&traces, 6),
        done(JitTransition::IncrementedHotCount)
    );
    assert_eq!(ControlPoint::count(&mut counts, 6), done(JitTransition::IncrementedHotCount));
    job.run(&mut traces);
    assert_eq!(
        ControlPoint::try_exec(&traces, &mut cx, 6),
        done(JitTransition::ExecutedTrace)
    );
}
