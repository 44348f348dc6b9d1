//! Many threads at the control point.
//!
//! A [`System`] is what any number of interpreter threads share, together with where each of them
//! and each compiler thread stands. Threads take turns in any order, and a turn is one visit to
//! the shared state. The laws hold of every run, however the turns fall.
use vstd::prelude::*;

use crate::control::{entered, fresh, ControlPoint, JitView};
use crate::hot_counts::count_of;
use crate::traces::settable;
use crate::types::{JitLocation, JitPhase, JitTrace, HOT_THRESHOLD};

verus! {

/// An interpreter thread: its phase, and the call of the control point that it is in, if any.
pub struct Thread {
    pub phase: JitPhase,
    pub call: Option<ControlPoint>,
}

/// How far a compiler thread has come.
pub enum Stage {
    /// About to check that its location is marked as pending.
    Checking,
    /// About to store the finished trace.
    Storing,
    /// Gone.
    Done,
}

/// The shared state and the threads. The compiler thread of `jit.jobs[i]` is at `stages[i]`.
#[verifier::ext_equal]
pub struct System {
    pub jit: JitView,
    pub threads: Map<int, Thread>,
    pub stages: Seq<Stage>,
}

/// One turn of one thread.
pub enum Turn {
    /// A new interpreter thread starts.
    Start { id: int },
    /// An interpreter thread calls the control point.
    Call { id: int, loc: JitLocation },
    /// A call of the control point goes one step further.
    Step { id: int },
    /// A call of the control point returns.
    Return { id: int },
    /// An interpreter thread ends.
    End { id: int },
    /// A compiler thread checks that its location is marked as pending.
    Check { job: int },
    /// A compiler thread stores the finished trace.
    Store { job: int },
}

/// The system before any thread has started.
pub open spec fn initial() -> System {
    System { jit: fresh(), threads: Map::empty(), stages: Seq::empty() }
}

impl System {
    /// Whether the turn can be taken.
    pub open spec fn enabled(self, turn: Turn) -> bool {
        match turn {
            Turn::Start { id } => !self.threads.contains_key(id),
            Turn::Call { id, loc } => {
                &&& self.threads.contains_key(id)
                &&& self.threads[id].call is None
                &&& !(self.threads[id].phase is RunningTrace)
            },
            Turn::Step { id } => {
                &&& self.threads.contains_key(id)
                &&& self.threads[id].call matches Some(call) && call.ready(self.jit)
            },
            Turn::Return { id } => {
                &&& self.threads.contains_key(id)
                &&& self.threads[id].call matches Some(call) && call is Finished
            },
            Turn::End { id } => {
                &&& self.threads.contains_key(id)
                &&& self.threads[id].call is None
            },
            Turn::Check { job } => {
                &&& 0 <= job < self.stages.len()
                &&& self.stages[job] is Checking
                &&& settable(self.jit.traces, self.jit.jobs[job].loc, JitTrace::FinalisedTrace)
            },
            Turn::Store { job } => {
                &&& 0 <= job < self.stages.len()
                &&& self.stages[job] is Storing
            },
        }
    }

    /// The system after the turn.
    pub open spec fn after(self, turn: Turn) -> System {
        match turn {
            Turn::Start { id } => System {
                threads: self.threads.insert(
                    id,
                    Thread { phase: JitPhase::Interpreting, call: None },
                ),
                ..self
            },
            Turn::Call { id, loc } => {
                let phase = self.threads[id].phase;
                System {
                    threads: self.threads.insert(
                        id,
                        Thread { phase, call: Some(entered(phase, loc)) },
                    ),
                    ..self
                }
            },
            Turn::Step { id } => {
                let call0 = self.threads[id].call.unwrap();
                let (jit, phase, call) = call0.step(self.jit, self.threads[id].phase);
                System {
                    jit,
                    threads: self.threads.insert(id, Thread { phase, call: Some(call) }),
                    stages: if call0 is Compile {
                        self.stages.push(Stage::Checking)
                    } else {
                        self.stages
                    },
                }
            },
            Turn::Return { id } => System {
                threads: self.threads.insert(
                    id,
                    Thread { phase: self.threads[id].phase, call: None },
                ),
                ..self
            },
            Turn::End { id } => System { threads: self.threads.remove(id), ..self },
            Turn::Check { job } => System {
                stages: self.stages.update(job, Stage::Storing),
                ..self
            },
            Turn::Store { job } => System {
                jit: JitView {
                    traces: self.jit.traces.insert(
                        self.jit.jobs[job].loc,
                        JitTrace::FinalisedTrace,
                    ),
                    ..self.jit
                },
                stages: self.stages.update(job, Stage::Done),
                ..self
            },
        }
    }
}

/// `states` is a run from `states[0]`: each state comes from the one before by the turn between.
pub open spec fn is_path(states: Seq<System>, turns: Seq<Turn>) -> bool {
    &&& states.len() == turns.len() + 1
    &&& forall|i: int|
        0 <= i < turns.len() ==> #[trigger] states[i].enabled(turns[i]) && states[i + 1]
            == states[i].after(turns[i])
}

/// A run of the system from its start.
pub open spec fn is_run(states: Seq<System>, turns: Seq<Turn>) -> bool {
    is_path(states, turns) && states[0] == initial()
}

/// A thread that has work to do on a location.
pub enum Worker {
    Interpreter { id: int },
    Compiler { job: int },
}

/// The thread has seen `loc` become hot, and is about to mark it.
pub open spec fn claims(thread: Thread, loc: JitLocation) -> bool {
    thread.call matches Some(call) && (call == (ControlPoint::CheckPending { loc }) || call == (
    ControlPoint::CheckUntraced { loc }) || call == (ControlPoint::Mark { loc }))
}

impl System {
    /// `worker` is tracing or compiling `loc`.
    pub open spec fn traces_or_compiles(self, worker: Worker, loc: JitLocation) -> bool {
        match worker {
            Worker::Interpreter { id } => {
                &&& self.threads.contains_key(id)
                &&& self.threads[id].phase == JitPhase::Tracing(loc)
            },
            Worker::Compiler { job } => {
                &&& 0 <= job < self.stages.len()
                &&& self.jit.jobs[job].loc == loc
                &&& !(self.stages[job] is Done)
            },
        }
    }

    /// `worker` is about to mark `loc`, or is tracing or compiling it.
    pub open spec fn works_on(self, worker: Worker, loc: JitLocation) -> bool {
        ||| self.traces_or_compiles(worker, loc)
        ||| worker matches Worker::Interpreter { id } && self.threads.contains_key(id) && claims(
            self.threads[id],
            loc,
        )
    }

    /// `loc` has been interpreted often enough to be traced.
    pub open spec fn hot(self, loc: JitLocation) -> bool {
        count_of(self.jit.counts, loc) >= HOT_THRESHOLD
    }

    /// The trace store's entry for `loc`.
    pub open spec fn trace(self, loc: JitLocation) -> Option<JitTrace> {
        self.jit.traces.get(loc)
    }

    /// What every turn keeps.
    pub open spec fn inv(self) -> bool {
        // Each compiler thread has its job.
        &&& self.stages.len() == self.jit.jobs.len()
        // No two of them have the same location, and one that is gone has left its trace.
        &&& forall|a: int, b: int|
            0 <= a < b < self.jit.jobs.len() ==> #[trigger] self.jit.jobs[a].loc
                != #[trigger] self.jit.jobs[b].loc
        &&& forall|a: int|
            0 <= a < self.stages.len() && #[trigger] self.stages[a] is Done ==> self.trace(
                self.jit.jobs[a].loc,
            ) == Some(JitTrace::FinalisedTrace)
        // A thread is in the phase that its call takes it to be in, and never runs a trace when
        // others have their turn.
        &&& forall|id: int| #[trigger]
            self.threads.contains_key(id) ==> {
                &&& !(self.threads[id].phase is RunningTrace)
                &&& self.threads[id].call matches Some(call) ==> call.fits(self.threads[id].phase)
            }
        // No two threads work on one location.
        &&& forall|v: Worker, w: Worker, loc: JitLocation| #[trigger]
            self.works_on(v, loc) && #[trigger] self.works_on(w, loc) ==> v == w
        // A location is worked on only when it is hot and until its trace is finished. The trace
        // store holds it once it is marked.
        &&& forall|w: Worker, loc: JitLocation| #[trigger]
            self.works_on(w, loc) ==> {
                &&& self.hot(loc)
                &&& self.trace(loc) == if self.traces_or_compiles(w, loc) {
                    Some(JitTrace::TracePending)
                } else {
                    None::<JitTrace>
                }
            }
        // The trace store holds hot locations only.
        &&& forall|loc: JitLocation| #[trigger] self.trace(loc) is Some ==> self.hot(loc)
        // A hot location is in the trace store, or a thread is about to mark it.
        &&& forall|loc: JitLocation| #[trigger]
            self.hot(loc) && self.trace(loc) is None ==> exists|w: Worker| self.works_on(w, loc)
    }

    /// Each location that is marked as pending is being traced or compiled. A thread that ends in
    /// the middle of tracing leaves a mark behind to which nobody attends.
    pub open spec fn attended(self) -> bool {
        forall|loc: JitLocation| #[trigger]
            self.trace(loc) == Some(JitTrace::TracePending) ==> exists|w: Worker|
                self.traces_or_compiles(w, loc)
    }

    /// The turn is the end of a thread in the middle of tracing.
    pub open spec fn abandons(self, turn: Turn) -> bool {
        turn matches Turn::End { id } && self.threads[id].phase is Tracing
    }
}

/// The invariant holds at the start, and each mark is attended to: there is none.
pub proof fn lemma_initial()
    ensures
        initial().inv(),
        initial().attended(),
{
}

/// A turn that leaves the shared state and the work on every location alone keeps the invariant.
proof fn lemma_same_work(s: System, t: System)
    requires
        s.inv(),
        t.jit == s.jit,
        t.stages.len() == s.stages.len(),
        forall|a: int|
            0 <= a < s.stages.len() ==> #[trigger] t.stages[a] is Done == s.stages[a] is Done,
        forall|id: int| #[trigger]
            t.threads.contains_key(id) ==> {
                &&& !(t.threads[id].phase is RunningTrace)
                &&& t.threads[id].call matches Some(call) ==> call.fits(t.threads[id].phase)
            },
        forall|w: Worker, loc: JitLocation| #[trigger]
            t.works_on(w, loc) == s.works_on(w, loc),
        forall|w: Worker, loc: JitLocation| #[trigger]
            t.traces_or_compiles(w, loc) == s.traces_or_compiles(w, loc),
    ensures
        t.inv(),
{
    assert forall|loc: JitLocation| #[trigger]
        t.hot(loc) && t.trace(loc) is None implies exists|w: Worker|
        t.works_on(w, loc) by {
        assert(s.hot(loc) && s.trace(loc) is None);
        let w = choose|w: Worker| s.works_on(w, loc);
        assert(t.works_on(w, loc));
    }
    assert forall|w: Worker, loc: JitLocation| #[trigger] t.works_on(w, loc) implies t.hot(loc)
        && t.trace(loc) == if t.traces_or_compiles(w, loc) {
        Some(JitTrace::TracePending)
    } else {
        None::<JitTrace>
    } by {
        assert(s.works_on(w, loc));
        assert(s.hot(loc));
        assert(t.traces_or_compiles(w, loc) == s.traces_or_compiles(w, loc));
    }
    assert forall|loc: JitLocation| #[trigger] t.trace(loc) is Some implies t.hot(loc) by {
        assert(s.trace(loc) is Some);
        assert(s.hot(loc));
    }
}

/// The turns that change neither the shared state nor the work.
proof fn lemma_quiet_turn(s: System, turn: Turn)
    requires
        s.inv(),
        s.enabled(turn),
        turn matches Turn::Step { id } ==> {
            let call = s.threads[id].call.unwrap();
            call is TryExec || call is CheckPending || call is CheckUntraced
        },
        !(turn is End),
        !(turn is Store),
    ensures
        s.after(turn).inv(),
{
    let t = s.after(turn);
    match turn {
        Turn::Step { id } => {
            let call = s.threads[id].call.unwrap();
            if call is CheckPending {
                let loc = call->CheckPending_loc;
                assert(s.works_on(Worker::Interpreter { id }, loc));
            }
            assert(t.jit == s.jit);
        },
        _ => {},
    }
    lemma_same_work(s, t);
}

/// Every turn keeps the invariant.
pub proof fn lemma_turn(s: System, turn: Turn)
    requires
        s.inv(),
        s.enabled(turn),
    ensures
        s.after(turn).inv(),
{
    match turn {
        Turn::Step { id } => match s.threads[id].call.unwrap() {
            ControlPoint::Count { loc } => lemma_count(s, id, loc),
            ControlPoint::Mark { loc } => lemma_mark(s, id, loc),
            ControlPoint::Compile { loc } => lemma_compile(s, id, loc),
            _ => lemma_quiet_turn(s, turn),
        },
        Turn::End { id } => lemma_end(s, id),
        Turn::Store { job } => lemma_store(s, job),
        _ => lemma_quiet_turn(s, turn),
    }
}

/// As long as no thread ends in the middle of tracing, each mark is attended to.
pub proof fn lemma_turn_attended(s: System, turn: Turn)
    requires
        s.inv(),
        s.attended(),
        s.enabled(turn),
        !s.abandons(turn),
    ensures
        s.after(turn).attended(),
{
    let t = s.after(turn);
    assert forall|loc: JitLocation| #[trigger]
        t.trace(loc) == Some(JitTrace::TracePending) implies exists|w: Worker|
        t.traces_or_compiles(w, loc) by {
        if s.trace(loc) == Some(JitTrace::TracePending) {
            let w = choose|w: Worker| s.traces_or_compiles(w, loc);
            assert(s.works_on(w, loc));
            if let Turn::Step { id } = turn {
                if s.threads[id].call.unwrap() is Compile && w == (Worker::Interpreter { id }) {
                    let new = Worker::Compiler { job: s.stages.len() as int };
                    assert(t.traces_or_compiles(new, loc));
                } else {
                    assert(t.traces_or_compiles(w, loc));
                }
            } else {
                assert(t.traces_or_compiles(w, loc));
            }
        } else {
            let me = Worker::Interpreter { id: turn->Step_id };
            assert(t.traces_or_compiles(me, loc));
        }
    }
}

/// Work that ends with its thread.
proof fn lemma_end(s: System, id: int)
    requires
        s.inv(),
        s.enabled(Turn::End { id }),
    ensures
        s.after(Turn::End { id }).inv(),
{
    let t = s.after(Turn::End { id });
    let me = Worker::Interpreter { id };
    assert forall|w: Worker, l: JitLocation| #[trigger]
        t.traces_or_compiles(w, l) == (w != me && s.traces_or_compiles(w, l)) by {}
    assert forall|w: Worker, l: JitLocation| #[trigger]
        t.works_on(w, l) == (w != me && s.works_on(w, l)) by {}
    assert forall|l: JitLocation| #[trigger] t.hot(l) == s.hot(l) by {}
    assert forall|l: JitLocation| #[trigger] t.trace(l) == s.trace(l) by {}
    assert forall|l: JitLocation| #[trigger]
        t.hot(l) && t.trace(l) is None implies exists|w: Worker| t.works_on(w, l) by {
        assert(s.hot(l));
        let w = choose|w: Worker| s.works_on(w, l);
        assert(!s.traces_or_compiles(w, l));
        assert(t.works_on(w, l));
    }
    assert forall|l: JitLocation| #[trigger] t.trace(l) is Some implies t.hot(l) by {
        assert(s.trace(l) is Some);
    }
}

/// Work that begins where a hot count reaches the threshold.
proof fn lemma_count(s: System, id: int, loc: JitLocation)
    requires
        s.inv(),
        s.enabled(Turn::Step { id }),
        s.threads[id].call == Some(ControlPoint::Count { loc }),
    ensures
        s.after(Turn::Step { id }).inv(),
{
    let t = s.after(Turn::Step { id });
    let me = Worker::Interpreter { id };
    let count = count_of(s.jit.counts, loc) + 1;
    assert forall|w: Worker, l: JitLocation| #[trigger]
        t.traces_or_compiles(w, l) == s.traces_or_compiles(w, l) by {}
    assert forall|w: Worker, l: JitLocation| #[trigger]
        t.works_on(w, l) == (s.works_on(w, l) || (count == HOT_THRESHOLD && w == me && l == loc)) by {}
    assert forall|l: JitLocation| #[trigger] t.hot(l) == (s.hot(l) || (l == loc && count == HOT_THRESHOLD)) by {}
    assert forall|l: JitLocation| #[trigger] t.trace(l) == s.trace(l) by {}
    assert(count == HOT_THRESHOLD ==> !s.hot(loc) && s.trace(loc) is None);
    assert forall|l: JitLocation| #[trigger]
        t.hot(l) && t.trace(l) is None implies exists|w: Worker|
        t.works_on(w, l) by {
        if s.hot(l) {
            let w = choose|w: Worker| s.works_on(w, l);
            assert(t.works_on(w, l));
        } else {
            assert(t.works_on(me, l));
        }
    }
    assert forall|l: JitLocation| #[trigger] t.trace(l) is Some implies t.hot(l) by {
        assert(s.trace(l) is Some);
        assert(s.hot(l));
    }
    assert forall|v: Worker, w: Worker, l: JitLocation| #[trigger]
        t.works_on(v, l) && #[trigger] t.works_on(w, l) implies v == w by {
        if l == loc && count == HOT_THRESHOLD {
            assert(!s.works_on(v, l));
            assert(!s.works_on(w, l));
        }
    }
}

/// Work that goes from marking to tracing.
proof fn lemma_mark(s: System, id: int, loc: JitLocation)
    requires
        s.inv(),
        s.enabled(Turn::Step { id }),
        s.threads[id].call == Some(ControlPoint::Mark { loc }),
    ensures
        s.after(Turn::Step { id }).inv(),
{
    let t = s.after(Turn::Step { id });
    let me = Worker::Interpreter { id };
    assert(s.works_on(me, loc));
    assert forall|w: Worker, l: JitLocation| #[trigger]
        t.traces_or_compiles(w, l) == (s.traces_or_compiles(w, l) || (w == me && l == loc)) by {}
    assert forall|w: Worker, l: JitLocation| #[trigger] t.works_on(w, l) == s.works_on(w, l) by {}
    assert forall|l: JitLocation| #[trigger] t.hot(l) == s.hot(l) by {}
    assert forall|l: JitLocation| #[trigger] t.trace(l) == if l == loc {
        Some(JitTrace::TracePending)
    } else {
        s.trace(l)
    } by {}
    assert forall|l: JitLocation| #[trigger]
        t.hot(l) && t.trace(l) is None implies exists|w: Worker|
        t.works_on(w, l) by {
        if l == loc {
            assert(t.works_on(me, l));
        } else {
            let w = choose|w: Worker| s.works_on(w, l);
            assert(t.works_on(w, l));
        }
    }
    assert forall|l: JitLocation| #[trigger] t.trace(l) is Some implies t.hot(l) by {
        if l != loc {
            assert(s.trace(l) is Some);
        }
        assert(s.hot(l));
    }
}

/// Work that goes from an interpreter thread to a compiler thread.
proof fn lemma_compile(s: System, id: int, loc: JitLocation)
    requires
        s.inv(),
        s.enabled(Turn::Step { id }),
        s.threads[id].call == Some(ControlPoint::Compile { loc }),
    ensures
        s.after(Turn::Step { id }).inv(),
{
    let t = s.after(Turn::Step { id });
    let me = Worker::Interpreter { id };
    let new = Worker::Compiler { job: s.stages.len() as int };
    assert(s.works_on(me, loc));
    assert(s.traces_or_compiles(me, loc));
    assert forall|a: int| 0 <= a < s.jit.jobs.len() implies #[trigger] s.jit.jobs[a].loc != loc by {
        if s.jit.jobs[a].loc == loc {
            if s.stages[a] is Done {
                assert(s.trace(loc) == Some(JitTrace::FinalisedTrace));
            } else {
                assert(s.works_on(Worker::Compiler { job: a }, loc));
            }
        }
    }
    assert forall|w: Worker, l: JitLocation| #[trigger]
        t.traces_or_compiles(w, l) == ((w != me && s.traces_or_compiles(w, l)) || (w == new && l
            == loc)) by {}
    assert forall|w: Worker, l: JitLocation| #[trigger]
        t.works_on(w, l) == ((w != me && s.works_on(w, l)) || (w == new && l == loc)) by {}
    assert forall|l: JitLocation| #[trigger] t.hot(l) == s.hot(l) by {}
    assert forall|l: JitLocation| #[trigger] t.trace(l) == s.trace(l) by {}
    assert forall|l: JitLocation| #[trigger]
        t.hot(l) && t.trace(l) is None implies exists|w: Worker|
        t.works_on(w, l) by {
        if l == loc {
            assert(t.works_on(new, l));
        } else {
            assert(s.hot(l));
            let w = choose|w: Worker| s.works_on(w, l);
            assert(t.works_on(w, l));
        }
    }
    assert forall|l: JitLocation| #[trigger] t.trace(l) is Some implies t.hot(l) by {
        assert(s.trace(l) is Some);
    }
}

/// Work that ends with the finished trace.
proof fn lemma_store(s: System, job: int)
    requires
        s.inv(),
        s.enabled(Turn::Store { job }),
    ensures
        s.after(Turn::Store { job }).inv(),
{
    let t = s.after(Turn::Store { job });
    let me = Worker::Compiler { job };
    let loc = s.jit.jobs[job].loc;
    assert(s.works_on(me, loc));
    assert forall|w: Worker, l: JitLocation| #[trigger]
        t.traces_or_compiles(w, l) == (w != me && s.traces_or_compiles(w, l)) by {}
    assert forall|w: Worker, l: JitLocation| #[trigger]
        t.works_on(w, l) == (w != me && s.works_on(w, l)) by {}
    assert forall|l: JitLocation| #[trigger] t.hot(l) == s.hot(l) by {}
    assert forall|l: JitLocation| #[trigger] t.trace(l) == if l == loc {
        Some(JitTrace::FinalisedTrace)
    } else {
        s.trace(l)
    } by {}
    assert forall|l: JitLocation| #[trigger]
        t.hot(l) && t.trace(l) is None implies exists|w: Worker|
        t.works_on(w, l) by {
        assert(s.hot(l));
        let w = choose|w: Worker| s.works_on(w, l);
        assert(t.works_on(w, l));
    }
    assert forall|l: JitLocation| #[trigger] t.trace(l) is Some implies t.hot(l) by {
        if l != loc {
            assert(s.trace(l) is Some);
        }
        assert(s.hot(l));
    }
}

} // verus!
