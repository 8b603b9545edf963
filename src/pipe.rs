use vstd::prelude::*;

verus! {

/// A broken link in a two-process pipe, reported as a broken-pipe I/O error.
#[derive(Clone, Copy, Debug, PartialEq, Eq, Structural)]
pub enum PipeFault {
    /// The upstream process was spawned without a readable output stream.
    UpstreamStdoutMissing,
    /// The downstream process was spawned without a writable input stream.
    DownstreamStdinMissing,
    /// Waiting for the downstream process failed.
    WaitFailed,
}

impl PipeFault {
    /// Text of the I/O error that reports this fault.
    pub fn message(&self) -> (r: &'static str)
        ensures
            r@ == match self {
                PipeFault::UpstreamStdoutMissing => "Could not pipe command, stdout not found"@,
                PipeFault::DownstreamStdinMissing => "Could not pipe command, stdin not found"@,
                PipeFault::WaitFailed => "Could not wait for pipe"@,
            },
    {
        match self {
            PipeFault::UpstreamStdoutMissing => "Could not pipe command, stdout not found",
            PipeFault::DownstreamStdinMissing => "Could not pipe command, stdin not found",
            PipeFault::WaitFailed => "Could not wait for pipe",
        }
    }
}

/// Where a two-process pipe stands, and so what is to be done next.
#[derive(Clone, Copy, Debug, PartialEq, Eq, Structural)]
pub enum PipeStage {
    /// Spawn the upstream process with its output stream piped.
    SpawnUpstream,
    /// Spawn the downstream process with its input stream piped and its output
    /// stream sent to the destination.
    SpawnDownstream,
    /// Relay the upstream's output to the downstream's input line by line,
    /// then close that input.
    Relay,
    /// Wait for the downstream process and collect what it produced.
    Wait,
    /// The pipe completed: hand back the downstream's output and status.
    Finished,
    /// Spawning a process failed: hand back the spawn error as it came.
    SpawnFailed,
    /// The pipe broke: hand back a broken-pipe error for this fault.
    Broken(PipeFault),
}

/// What the step just performed observed.
#[derive(Clone, Copy, Debug, PartialEq, Eq, Structural)]
pub enum PipeEvent {
    /// A process was spawned; `stream_present` tells whether the stream that
    /// the pipe needs from it was handed out.
    Spawned { stream_present: bool },
    /// Spawning a process failed.
    SpawnError,
    /// The upstream's output stream reached its end and everything read was
    /// relayed.
    Relayed,
    /// Waiting for the downstream process ended; `ok` tells whether it worked.
    Waited { ok: bool },
}

/// Whether the pipe has nothing left to do.
pub open spec fn is_final(stage: PipeStage) -> bool {
    match stage {
        PipeStage::Finished | PipeStage::SpawnFailed | PipeStage::Broken(_) => true,
        _ => false,
    }
}

/// The stage after `stage` once its step has produced `event`.
///
/// Each spawn failure ends the pipe with that failure; a missing stream after
/// a spawn, or a failed wait, ends it as a broken pipe; otherwise the steps
/// follow in order: upstream, downstream, relay, wait. An event that the
/// stage's step cannot produce leaves the stage as it is. Only the
/// downstream's end is looked at: the upstream's own exit status plays no
/// part.
pub open spec fn pipe_step(stage: PipeStage, event: PipeEvent) -> PipeStage {
    match (stage, event) {
        (PipeStage::SpawnUpstream, PipeEvent::Spawned { stream_present }) => if stream_present {
            PipeStage::SpawnDownstream
        } else {
            PipeStage::Broken(PipeFault::UpstreamStdoutMissing)
        },
        (PipeStage::SpawnDownstream, PipeEvent::Spawned { stream_present }) => if stream_present {
            PipeStage::Relay
        } else {
            PipeStage::Broken(PipeFault::DownstreamStdinMissing)
        },
        (PipeStage::SpawnUpstream, PipeEvent::SpawnError) => PipeStage::SpawnFailed,
        (PipeStage::SpawnDownstream, PipeEvent::SpawnError) => PipeStage::SpawnFailed,
        (PipeStage::Relay, PipeEvent::Relayed) => PipeStage::Wait,
        (PipeStage::Wait, PipeEvent::Waited { ok }) => if ok {
            PipeStage::Finished
        } else {
            PipeStage::Broken(PipeFault::WaitFailed)
        },
        _ => stage,
    }
}

/// The stage reached from `stage` after the given events, in order.
pub open spec fn run_pipe(stage: PipeStage, events: Seq<PipeEvent>) -> PipeStage
    decreases events.len(),
{
    if events.len() == 0 {
        stage
    } else {
        run_pipe(pipe_step(stage, events[0]), events.drop_first())
    }
}

/// The events that still have to be seen, in order, for a pipe at `stage`
/// to finish.
pub open spec fn steps_to_finish(stage: PipeStage) -> Seq<PipeEvent> {
    let up = PipeEvent::Spawned { stream_present: true };
    let down = PipeEvent::Spawned { stream_present: true };
    let waited = PipeEvent::Waited { ok: true };
    match stage {
        PipeStage::SpawnUpstream => seq![up, down, PipeEvent::Relayed, waited],
        PipeStage::SpawnDownstream => seq![down, PipeEvent::Relayed, waited],
        PipeStage::Relay => seq![PipeEvent::Relayed, waited],
        PipeStage::Wait => seq![waited],
        _ => Seq::empty(),
    }
}

/// Whether `a` can be found in `b` in order, other events between.
pub open spec fn occurs_in_order(a: Seq<PipeEvent>, b: Seq<PipeEvent>) -> bool
    decreases b.len(),
{
    if a.len() == 0 {
        true
    } else if b.len() == 0 {
        false
    } else if a[0] == b[0] {
        occurs_in_order(a.drop_first(), b.drop_first())
    } else {
        occurs_in_order(a, b.drop_first())
    }
}

/// Once the pipe has ended, by finishing or by failing, no event changes it.
pub proof fn lemma_pipe_end_is_kept(stage: PipeStage, events: Seq<PipeEvent>)
    requires
        is_final(stage),
    ensures
        run_pipe(stage, events) == stage,
    decreases events.len(),
{
    if events.len() > 0 {
        lemma_pipe_end_is_kept(stage, events.drop_first());
    }
}

/// A pipe finishes only after every step has worked, in order: from any stage,
/// the events that lead to `Finished` hold those that `steps_to_finish` names.
/// So a finished pipe has spawned the upstream with its output stream, then the
/// downstream with its input stream, has relayed everything, and only then
/// waited, with success, for the downstream process.
pub proof fn lemma_finish_needs_every_step(stage: PipeStage, events: Seq<PipeEvent>)
    requires
        run_pipe(stage, events) == PipeStage::Finished,
    ensures
        occurs_in_order(steps_to_finish(stage), events),
    decreases events.len(),
{
    if events.len() > 0 {
        let e = events[0];
        let rest = events.drop_first();
        let next = pipe_step(stage, e);
        if is_final(next) && next != PipeStage::Finished {
            lemma_pipe_end_is_kept(next, rest);
        } else {
            lemma_finish_needs_every_step(next, rest);
            let needed = steps_to_finish(stage);
            if next == stage {
                if needed.len() > 0 {
                    assert(needed[0] != e);
                }
            } else {
                assert(needed.len() > 0 && needed[0] == e);
                assert(needed.drop_first() =~= steps_to_finish(next));
            }
        }
    }
}

/// Decides the pipe's next stage from the current one and what its step
/// observed, as `pipe_step` says.
pub fn next_stage(stage: PipeStage, event: PipeEvent) -> (r: PipeStage)
    ensures
        r == pipe_step(stage, event),
        is_final(stage) ==> r == stage,
{
    match (stage, event) {
        (PipeStage::SpawnUpstream, PipeEvent::Spawned { stream_present }) => {
            if stream_present {
                PipeStage::SpawnDownstream
            } else {
                PipeStage::Broken(PipeFault::UpstreamStdoutMissing)
            }
        },
        (PipeStage::SpawnDownstream, PipeEvent::Spawned { stream_present }) => {
            if stream_present {
                PipeStage::Relay
            } else {
                PipeStage::Broken(PipeFault::DownstreamStdinMissing)
            }
        },
        (PipeStage::SpawnUpstream, PipeEvent::SpawnError) => PipeStage::SpawnFailed,
        (PipeStage::SpawnDownstream, PipeEvent::SpawnError) => PipeStage::SpawnFailed,
        (PipeStage::Relay, PipeEvent::Relayed) => PipeStage::Wait,
        (PipeStage::Wait, PipeEvent::Waited { ok }) => {
            if ok {
                PipeStage::Finished
            } else {
                PipeStage::Broken(PipeFault::WaitFailed)
            }
        },
        _ => stage,
    }
}

} // verus!
