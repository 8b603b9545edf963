use cmd_utils::{next_stage, PipeEvent, PipeFault, PipeStage};

#[test]
fn pipe_runs_its_steps_in_order() {
    let mut stage = PipeStage::SpawnUpstream;
    stage = next_stage(stage, PipeEvent::Spawned { stream_present: true });
    assert_eq!(stage, PipeStage::SpawnDownstream);
    stage = next_stage(stage, PipeEvent::Spawned { stream_present: true });
    assert_eq!(stage, PipeStage::Relay);
    stage = next_stage(stage, PipeEvent::Relayed);
    assert_eq!(stage, PipeStage::Wait);
    stage = next_stage(stage, PipeEvent::Waited { ok: true });
    assert_eq!(stage, PipeStage::Finished);
}

#[test]
fn pipe_reports_missing_streams() {
    assert_eq!(
        next_stage(PipeStage::SpawnUpstream, PipeEvent::Spawned { stream_present: false }),
        PipeStage::Broken(PipeFault::UpstreamStdoutMissing)
    );
    assert_eq!(
        next_stage(PipeStage::SpawnDownstream, PipeEvent::Spawned { stream_present: false }),
        PipeStage::Broken(PipeFault::DownstreamStdinMissing)
    );
}

#[test]
fn pipe_reports_spawn_and_wait_failures() {
    assert_eq!(next_stage(PipeStage::SpawnUpstream, PipeEvent::SpawnError), PipeStage::SpawnFailed);
    assert_eq!(next_stage(PipeStage::SpawnDownstream, PipeEvent::SpawnError), PipeStage::SpawnFailed);
    assert_eq!(
        next_stage(PipeStage::Wait, PipeEvent::Waited { ok: false }),
        PipeStage::Broken(PipeFault::WaitFailed)
    );
}

#[test]
fn pipe_final_stages_stay() {
    for stage in [PipeStage::Finished, PipeStage::SpawnFailed, PipeStage::Broken(PipeFault::WaitFailed)] {
        assert_eq!(next_stage(stage, PipeEvent::Relayed), stage);
        assert_eq!(next_stage(stage, PipeEvent::Waited { ok: true }), stage);
    }
    assert_eq!(next_stage(PipeStage::Relay, PipeEvent::Waited { ok: true }), PipeStage::Relay);
}

#[test]
fn pipe_fault_messages() {
    assert_eq!(PipeFault::UpstreamStdoutMissing.message(), "Could not pipe command, stdout not found");
    assert_eq!(PipeFault::DownstreamStdinMissing.message(), "Could not pipe command, stdin not found");
    assert_eq!(PipeFault::WaitFailed.message(), "Could not wait for pipe");
}
