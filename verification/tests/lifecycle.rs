use plumber::IoErrorKind;
use plumber::Pipeline;
use plumber::PipelineError;
use plumber::Registry;
use plumber::chain::HeadStdinPolicy;
use plumber::chain::StdinWire;
use plumber::chain::StdoutWire;

#[test]
fn pipeline_round_trip_two_stages() {
    let mut p = Pipeline::new("p".to_string(), "cat | wc -l".to_string()).unwrap();
    assert_eq!(p.commands.len(), 2);
    assert_eq!(p.commands[0].name, "cat");
    assert_eq!(p.commands[1].name, "wc");
    assert_eq!(p.commands[1].args, vec!["-l".to_string()]);

    let plan = p.plan(HeadStdinPolicy::Inherit);
    assert_eq!(plan.len(), 2);
    // Stage 0's stdout is wired to stage 1's stdin through a fresh pipe.
    assert!(matches!(plan[0].stdout, StdoutWire::ToNextStage));
    assert!(matches!(plan[1].stdin, StdinWire::FromPrevStage));
    assert!(matches!(plan[0].stdin, StdinWire::Head(HeadStdinPolicy::Inherit)));
    assert!(matches!(plan[1].stdout, StdoutWire::Inherit));
    assert_eq!(plan[0].stderr_log, "/tmp/plumber/log/p/cat.stderr.log");
    assert_eq!(plan[1].stderr_log, "/tmp/plumber/log/p/wc.stderr.log");

    let mut builder = p.make_builder();
    assert_eq!(builder.next_stage(), Some(0));
    builder.on_spawned(111);
    assert_eq!(builder.next_stage(), Some(1));
    builder.on_spawned(222);
    assert_eq!(builder.next_stage(), None);
    let pids = builder.finish();
    assert_eq!(pids, vec![111, 222]);

    p.record_jobs(pids);
    assert_eq!(p.get_first_pid(), "111");
    assert_eq!(p.get_name(), "p");
    assert_eq!(p.pid_file(), "/tmp/plumber/lib/p/.pid");
}

#[test]
fn registry_round_trip() {
    let mut reg = Registry::new();
    reg.write("asdf_plumber_test_2", 1234);
    assert_eq!(reg.read("asdf_plumber_test_2").unwrap(), 1234);
    reg.write("asdf_plumber_test_2", 4321);
    assert_eq!(reg.read("asdf_plumber_test_2").unwrap(), 4321);
    reg.remove("asdf_plumber_test_2");
    assert!(matches!(reg.read("asdf_plumber_test_2"), Err(PipelineError::NotFound)));
    // Removing an absent record is idempotent.
    reg.remove("asdf_plumber_test_2");
    assert!(matches!(reg.read("asdf_plumber_test_2"), Err(PipelineError::NotFound)));
}

#[test]
fn graceful_shutdown_signals_head_once() {
    let p = {
        let mut p = Pipeline::new("p".to_string(), "yes | pv | wc -l".to_string()).unwrap();
        p.record_jobs(vec![10, 20, 30]);
        p
    };
    let mut sup = p.make_supervisor();

    // Before any shutdown request, no signal is owed.
    assert_eq!(sup.poll_shutdown(), None);

    sup.request_shutdown();
    sup.request_shutdown(); // setting the flag twice is a no-op

    // Exactly one signal, aimed at the head stage's pid.
    assert_eq!(sup.poll_shutdown(), Some(10));
    assert_eq!(sup.poll_shutdown(), None);

    // The run does not finish until all three stages have been reaped.
    let mut reaped = 0;
    while let Some((i, pid)) = sup.next_wait() {
        assert_eq!(pid, [10, 20, 30][i]);
        sup.record_exit();
        reaped += 1;
        assert_eq!(sup.poll_shutdown(), None);
    }
    assert_eq!(reaped, 3);
    assert!(sup.is_terminated());
}

#[test]
fn spawn_failure_names_first_stage() {
    let p = Pipeline::new("p".to_string(), "nonexistent-binary-xyz | cat".to_string()).unwrap();
    let builder = p.make_builder();
    let e = builder.on_spawn_failed();
    match e {
        PipelineError::SpawnError { stage_index, name } => {
            assert_eq!(stage_index, 0);
            assert_eq!(name, "nonexistent-binary-xyz");
        },
        _ => panic!("expected a spawn error"),
    }
}

#[test]
fn spawn_failure_mid_chain() {
    let p = Pipeline::new("p".to_string(), "cat | nonexistent-binary-xyz".to_string()).unwrap();
    let mut builder = p.make_builder();
    builder.on_spawned(77);
    let e = builder.on_spawn_failed();
    match e {
        PipelineError::SpawnError { stage_index, name } => {
            assert_eq!(stage_index, 1);
            assert_eq!(name, "nonexistent-binary-xyz");
        },
        _ => panic!("expected a spawn error"),
    }
}

#[test]
fn stop_targets_recorded_pid() {
    assert_eq!(Pipeline::stop_target(Some("1234")).unwrap(), 1234);
    assert!(matches!(Pipeline::stop_target(None), Err(PipelineError::NotFound)));
    assert!(matches!(Pipeline::stop_target(Some("junk")), Err(PipelineError::IoError)));
}

#[test]
fn io_error_classification() {
    assert!(matches!(
        PipelineError::from_io_kind(&IoErrorKind::NotFound),
        PipelineError::NotFound
    ));
    assert!(matches!(
        PipelineError::from_io_kind(&IoErrorKind::PermissionDenied),
        PipelineError::IoError
    ));
    assert!(matches!(PipelineError::from_io_kind(&IoErrorKind::Other), PipelineError::IoError));
}
