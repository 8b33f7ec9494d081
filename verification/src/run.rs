//! Running whole programs, alone or one after another in a session that
//! keeps its globals.
use vstd::prelude::*;
use crate::canvas::{ExecutionResult, EventView, commands_view, events_view, frames_of, frames_view, output_of, texts_view};
use crate::eval::block_run;
use crate::error::{ErrorKind, RuntimeError};
use crate::host::{Host, HostQuery, HostReply};
use crate::interp::{ExecSignal, Interpreter, MAX_DEPTH, globals_kept, initial_global};
use crate::store::{env_lookup, has_key};
use crate::syntax::Program;

verus! {

/// The state `s` a run starts from when the interpreter was in `a`: the
/// previous run's canvas and events are forgotten and this run's lines
/// begin after the lines printed so far; the store and everything else
/// stay (the host's clock is restarted).
pub open spec fn run_started<H: Host>(a: Interpreter<H>, s: Interpreter<H>) -> bool {
    &&& s.inv()
    &&& s.store == a.store
    &&& s.torch == a.torch
    &&& s.stream_events == a.stream_events
    &&& s.recorder.output@ == a.recorder.output@
    &&& s.recorder.run_start == a.recorder.output@.len()
    &&& s.recorder.current@.len() == 0
    &&& s.recorder.frames@.len() == 0
    &&& s.recorder.events@.len() == 0
}

/// A run of `stmts` from `a` that started in `s`, ran its statements as a
/// block in the global scope ending in `t` with signal `sig`, and left
/// `b` with result `r`: a block that finished normally gets its open
/// canvas frame closed and hands back this run's lines, frames and events;
/// a `돌려준다` outside any function is refused; an error is the run's error.
pub open spec fn run_steps<H: Host>(
    a: Interpreter<H>,
    b: Interpreter<H>,
    stmts: Seq<crate::syntax::Stmt>,
    r: Result<ExecutionResult, RuntimeError>,
    s: Interpreter<H>,
    t: Interpreter<H>,
    sig: Result<ExecSignal, RuntimeError>,
) -> bool {
    &&& run_started(a, s)
    &&& block_run(s, t, stmts, 0, MAX_DEPTH as nat, sig)
    &&& match sig {
        Ok(ExecSignal::Continue) => {
            &&& b.store == t.store
            &&& b.torch == t.torch
            &&& b.stream_events == t.stream_events
            &&& b.host == t.host
            &&& b.recorder.output@ == t.recorder.output@
            &&& b.recorder.run_start == t.recorder.run_start
            &&& b.recorder.current@.len() == 0
            &&& t.recorder.current@.len() == 0 ==> b.recorder == t.recorder
            &&& t.recorder.current@.len() > 0 ==> {
                &&& frames_view(b.recorder.frames@) == frames_view(t.recorder.frames@).push(commands_view(t.recorder.current@))
                &&& events_view(b.recorder.events@) == events_view(t.recorder.events@).push(EventView::Frame(commands_view(t.recorder.current@)))
            }
            &&& r matches Ok(res)
            &&& texts_view(res.output@) == texts_view(b.recorder.output@).skip(b.recorder.run_start as int)
            &&& frames_view(res.canvas_frames@) == frames_view(b.recorder.frames@)
            &&& events_view(res.events@) == events_view(b.recorder.events@)
        },
        Ok(ExecSignal::Return(_)) => r matches Err(e) && e.kind == ErrorKind::ReturnOutsideFunction && b == t,
        Err(e) => r == Err::<ExecutionResult, RuntimeError>(e) && b == t,
    }
}

/// Running the program `stmts` from `a` leaves `b` and gives `r` (see
/// `run_steps`).
pub open spec fn program_run<H: Host>(
    a: Interpreter<H>,
    b: Interpreter<H>,
    stmts: Seq<crate::syntax::Stmt>,
    r: Result<ExecutionResult, RuntimeError>,
) -> bool {
    exists|s: Interpreter<H>, t: Interpreter<H>, sig: Result<ExecSignal, RuntimeError>| #[trigger] run_steps(a, b, stmts, r, s, t, sig)
}

/// A fresh interpreter: one global scope binding the builtins and the
/// canvas, nothing stored, nothing asked of PyTorch, nothing printed or
/// drawn, nothing echoed.
pub open spec fn fresh_state<H: Host>(a: Interpreter<H>) -> bool {
    &&& a.inv()
    &&& a.store.frames@.len() == 1
    &&& a.store.frames@[0].parent is None
    &&& forall|key: Seq<char>| #[trigger] env_lookup(a.store.frames_view(), 0, key) == initial_global(key)
    &&& a.store.lists@.len() == 0
    &&& a.store.records@.len() == 0
    &&& a.store.functions@.len() == 0
    &&& a.torch.datasets@.len() == 0
    &&& a.torch.loaders@.len() == 0
    &&& a.torch.models@.len() == 0
    &&& a.torch.optimizers@.len() == 0
    &&& a.torch.log.entries().len() == 0
    &&& a.streamed.entries().len() == 0
    &&& a.recorder.output@.len() == 0
    &&& a.recorder.current@.len() == 0
    &&& a.recorder.frames@.len() == 0
    &&& a.recorder.events@.len() == 0
    &&& !a.stream_events
}

impl<H: Host> Interpreter<H> {
    /// Runs a program in the global scope: forgets the previous run's
    /// canvas and events (printed lines stay), runs the statements, closes
    /// the open canvas frame, and hands back this run's lines, frames and
    /// events. A `돌려준다` outside any function is an error.
    pub fn run_program(&mut self, program: &Program) -> (r: Result<ExecutionResult, RuntimeError>)
        requires
            old(self).inv(),
        ensures
            final(self).inv(),
            final(self).store.frames@.len() >= old(self).store.frames@.len(),
            final(self).stream_events == old(self).stream_events,
            globals_kept(old(self).store, final(self).store),
            texts_view(old(self).recorder.output@).is_prefix_of(texts_view(final(self).recorder.output@)),
            r matches Ok(res) ==> {
                &&& texts_view(res.output@) == texts_view(final(self).recorder.output@).skip(old(self).recorder.output@.len() as int)
                &&& texts_view(res.output@) == output_of(events_view(res.events@))
                &&& frames_view(res.canvas_frames@) == frames_of(events_view(res.events@))
                &&& final(self).recorder.current@.len() == 0
                &&& forall|i: int| 0 <= i < res.canvas_frames@.len() ==> (#[trigger] frames_view(res.canvas_frames@)[i]).len() > 0
            },
            program.statements@.len() == 0 ==> (r matches Ok(res) && res.output@.len() == 0 && res.events@.len() == 0
                && res.canvas_frames@.len() == 0),
            program_run(*old(self), *final(self), program.statements@, r),
            old(self).queries.entries().is_prefix_of(final(self).queries.entries()),
            final(self).queries.entries().len() > old(self).queries.entries().len(),
            final(self).queries.entries()[old(self).queries.entries().len() as int] == (HostQuery::RestartClock, HostReply::Done),
    {
        self.recorder.start_run();
        self.queries.restart_clock(&mut self.host);
        let ghost start = *self;
        proof {
            crate::interp::lemma_prefix_refl(texts_view(old(self).recorder.output@));
            crate::interp::lemma_prefix_push(old(self).queries.entries(), (HostQuery::RestartClock, HostReply::Done));
        }
        let signal = self.execute_block(&program.statements, 0, MAX_DEPTH);
        let ghost sig = signal;
        let ghost ran = *self;
        proof {
            assert(ran.grows_from(&start));
            crate::interp::lemma_prefix_trans(old(self).queries.entries(), start.queries.entries(), ran.queries.entries());
            assert(ran.queries.entries()[old(self).queries.entries().len() as int]
                == ran.queries.entries().subrange(0, start.queries.entries().len() as int)[old(self).queries.entries().len() as int]);
        }
        match signal {
            Ok(ExecSignal::Continue) => {
                let ghost before = *self;
                self.recorder.finish_frame();
                let res = self.recorder.result();
                proof {
                    assert forall|i: int| 0 <= i < res.canvas_frames@.len() implies (#[trigger] frames_view(res.canvas_frames@)[i]).len() > 0 by {
                        assert(frames_view(res.canvas_frames@).len() == res.canvas_frames@.len());
                        assert(frames_view(self.recorder.frames@).len() == self.recorder.frames@.len());
                        assert(self.recorder.inv());
                        assert(frames_view(res.canvas_frames@)[i] == frames_view(self.recorder.frames@)[i]);
                        assert(self.recorder.frames@[i].commands@.len() > 0);
                        assert(frames_view(self.recorder.frames@)[i] == crate::canvas::commands_view(self.recorder.frames@[i].commands@));
                    }
                    assert(run_steps(*old(self), *self, program.statements@, Ok::<ExecutionResult, RuntimeError>(res), start, ran, sig));

                    if program.statements@.len() == 0 {
                        assert(before == start);
                        assert(self.recorder.events@.len() == 0);
                        assert(self.recorder.frames@.len() == 0);
                        assert(events_view(res.events@).len() == res.events@.len());
                        assert(frames_view(res.canvas_frames@).len() == res.canvas_frames@.len());
                        assert(texts_view(res.output@).len() == res.output@.len());
                        assert(self.recorder.run_start == self.recorder.output@.len());
                    }
                }
                Ok(res)
            },
            Ok(ExecSignal::Return(_)) => {
                let e = RuntimeError::new(ErrorKind::ReturnOutsideFunction);
                proof {
                    assert(run_steps(*old(self), *self, program.statements@, Err::<ExecutionResult, RuntimeError>(e), start, ran, sig));
                }
                Err(e)
            },
            Err(e) => {
                proof {
                    assert(run_steps(*old(self), *self, program.statements@, Err::<ExecutionResult, RuntimeError>(e), start, ran, sig));
                }
                Err(e)
            },
        }
    }
}

/// An interpreter that runs programs one after another, each seeing the
/// globals the ones before it defined.
pub struct InterpreterSession<H: Host> {
    interpreter: Interpreter<H>,
}

impl<H: Host> InterpreterSession<H> {
    /// The session's interpreter is well formed.
    pub closed spec fn inv(&self) -> bool {
        self.interpreter.inv()
    }

    /// Whether printed lines are echoed and sleeps really wait.
    pub closed spec fn streams(&self) -> bool {
        self.interpreter.stream_events
    }

    /// Whether the global scope binds `name`.
    pub closed spec fn binds_global(&self, name: Seq<char>) -> bool {
        has_key(self.interpreter.store.frames_view()[0].entries, name)
    }

    /// The state of the session's interpreter.
    pub closed spec fn state(&self) -> Interpreter<H> {
        self.interpreter
    }

    /// A session whose globals are the builtins and the canvas.
    pub fn new(host: H) -> (r: Self)
        ensures
            r.inv(),
            fresh_state(r.state()),
            !r.streams(),
            forall|name: Seq<char>| #[trigger] r.binds_global(name) <==> initial_global(name) is Some,
    {
        let interpreter = Interpreter::new(host);
        proof {
            assert forall|name: Seq<char>| #[trigger] has_key(interpreter.store.frames_view()[0].entries, name)
                <==> initial_global(name) is Some by {
                assert(env_lookup(interpreter.store.frames_view(), 0, name) == initial_global(name));
            }
        }
        InterpreterSession { interpreter }
    }

    /// Runs a resolved program in this session.
    pub fn interpret_hir_program(&mut self, program: &Program) -> (r: Result<ExecutionResult, RuntimeError>)
        requires
            old(self).inv(),
        ensures
            final(self).inv(),
            final(self).streams() == old(self).streams(),
            forall|name: Seq<char>| old(self).binds_global(name) ==> #[trigger] final(self).binds_global(name),
            r matches Ok(res) ==> {
                &&& texts_view(res.output@) == output_of(events_view(res.events@))
                &&& frames_view(res.canvas_frames@) == frames_of(events_view(res.events@))
                &&& forall|i: int| 0 <= i < res.canvas_frames@.len() ==> (#[trigger] frames_view(res.canvas_frames@)[i]).len() > 0
            },
            program.statements@.len() == 0 ==> (r matches Ok(res) && res.output@.len() == 0 && res.events@.len() == 0
                && res.canvas_frames@.len() == 0),
            program_run(old(self).state(), final(self).state(), program.statements@, r),
            old(self).state().queries.entries().is_prefix_of(final(self).state().queries.entries()),
            final(self).state().queries.entries()[old(self).state().queries.entries().len() as int]
                == (HostQuery::RestartClock, HostReply::Done),
    {
        self.interpreter.run_program(program)
    }

    /// Turns echoing of printed lines and real sleeping on or off.
    pub fn set_stream_events(&mut self, enabled: bool)
        requires
            old(self).inv(),
        ensures
            final(self).inv(),
            final(self).streams() == enabled,
            forall|name: Seq<char>| #[trigger] final(self).binds_global(name) == old(self).binds_global(name),
    {
        self.interpreter.set_stream_events(enabled);
    }
}

/// Runs a resolved program in a fresh session.
pub fn interpret_hir_program<H: Host>(host: H, program: &Program) -> (r: Result<ExecutionResult, RuntimeError>)
    ensures
        r matches Ok(res) ==> {
            &&& texts_view(res.output@) == output_of(events_view(res.events@))
            &&& frames_view(res.canvas_frames@) == frames_of(events_view(res.events@))
            &&& forall|i: int| 0 <= i < res.canvas_frames@.len() ==> (#[trigger] frames_view(res.canvas_frames@)[i]).len() > 0
        },
        program.statements@.len() == 0 ==> (r matches Ok(res) && res.output@.len() == 0 && res.events@.len() == 0
            && res.canvas_frames@.len() == 0),
        exists|a: Interpreter<H>, b: Interpreter<H>| fresh_state(a) && #[trigger] program_run(a, b, program.statements@, r),
{
    let mut session = InterpreterSession::new(host);
    let ghost a = session.state();
    let r = session.interpret_hir_program(program);
    proof {
        assert(fresh_state(a) && program_run(a, session.state(), program.statements@, r));
    }
    r
}

} // verus!
