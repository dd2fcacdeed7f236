use msrv::instance::{
    launch_plan, must_kill, next_write, stop_command, Instance, InstanceEnv, LoadError,
    ProcessSample, SwitchAction, TickOutcome, WaitOutcome, WriteOutcome,
};
use msrv::messages::instance_messages::AlterServer;
use msrv::model::{Error, InstanceDescriptor, InstanceState, Ports};

fn env() -> InstanceEnv {
    InstanceEnv { timeout: 30, password: "secret".to_string() }
}

fn descriptor() -> InstanceDescriptor {
    InstanceDescriptor {
        name: "alpha".to_string(),
        source: "https://example.org/pack.zip".to_string(),
        java_args: vec!["-XX:+UseG1GC".to_string(), "-Dfoo=bar".to_string()],
        memory: None,
        max_memory: 2048,
        ports: Ports { port: 25565, rcon: 25575 },
    }
}

fn stopped() -> Instance {
    let (i, _) = Instance::load("/data/alpha".to_string(), env(), Ok(descriptor())).unwrap();
    i
}

fn running() -> Instance {
    let mut i = stopped();
    assert_eq!(i.switch_run(true), Ok(SwitchAction::Launch));
    assert!(i.launched());
    assert_eq!(i.rcon_up(), Ok(()));
    i
}

#[test]
fn created_instance_downloads_then_stops() {
    let mut i = Instance::create("/data/alpha".to_string(), descriptor(), env());
    assert_eq!(i.state(), InstanceState::Downloading);
    assert!(i.desc().is_none());
    assert_eq!(i.switch_run(true), Err(Error::BadState));
    assert_eq!(i.unpack_finished(true), Ok(()));
    assert_eq!(i.state(), InstanceState::Stopped);
    assert_eq!(i.desc().unwrap().name, "alpha");
    assert_eq!(i.unpack_finished(true), Err(Error::BadState));
}

#[test]
fn failed_unpack_keeps_downloading() {
    let mut i = Instance::create("/data/alpha".to_string(), descriptor(), env());
    assert_eq!(i.unpack_finished(false), Err(Error::Io));
    assert_eq!(i.state(), InstanceState::Downloading);
}

#[test]
fn load_passes_errors_and_ports() {
    let (i, ports) = Instance::load("/data/alpha".to_string(), env(), Ok(descriptor())).unwrap();
    assert_eq!(ports, Ports { port: 25565, rcon: 25575 });
    assert_eq!(i.state(), InstanceState::Stopped);
    assert_eq!(i.place(), "/data/alpha");
    assert_eq!(i.env().timeout, 30);
    assert!(matches!(
        Instance::load("/data/x".to_string(), env(), Err(LoadError::BadManifest)),
        Err(LoadError::BadManifest)
    ));
    assert!(matches!(
        Instance::load("/data/x".to_string(), env(), Err(LoadError::NoManifest)),
        Err(LoadError::NoManifest)
    ));
}

#[test]
fn name_is_the_last_path_component() {
    assert_eq!(stopped().name(), "alpha");
    let i = Instance::create("beta".to_string(), descriptor(), env());
    assert_eq!(i.name(), "beta");
    let i = Instance::create("/srv/data/gämma".to_string(), descriptor(), env());
    assert_eq!(i.name(), "gämma");
}

#[test]
fn switch_run_follows_the_state_machine() {
    let mut i = stopped();
    assert_eq!(i.switch_run(false), Ok(SwitchAction::Nothing));
    assert_eq!(i.state(), InstanceState::Stopped);
    assert_eq!(i.switch_run(true), Ok(SwitchAction::Launch));
    assert_eq!(i.state(), InstanceState::Stopped);
    assert!(i.launched());
    assert_eq!(i.state(), InstanceState::Starting);
    assert!(!i.launched());
    assert_eq!(i.switch_run(true), Err(Error::BadState));
    assert_eq!(i.switch_run(false), Err(Error::BadState));
    assert_eq!(i.rcon_up(), Ok(()));
    assert_eq!(i.state(), InstanceState::Running);
    assert_eq!(i.rcon_up(), Err(Error::RconUnavailable));
    assert_eq!(i.switch_run(true), Ok(SwitchAction::Nothing));
    assert_eq!(i.switch_run(false), Ok(SwitchAction::GracefulStop));
    assert_eq!(i.state(), InstanceState::Stopping);
    assert_eq!(i.switch_run(true), Err(Error::BadState));
    assert!(i.stop_completed());
    assert_eq!(i.state(), InstanceState::Stopped);
    assert!(!i.stop_completed());
}

#[test]
fn failed_launch_keeps_state_and_lost_rcon_crashes() {
    let mut i = stopped();
    assert_eq!(i.switch_run(true), Ok(SwitchAction::Launch));
    // the spawn fails: `launched` is never reported
    assert_eq!(i.state(), InstanceState::Stopped);
    assert_eq!(i.switch_run(true), Ok(SwitchAction::Launch));
    assert!(i.launched());
    assert!(i.rcon_down());
    assert_eq!(i.state(), InstanceState::Crashed);
    assert!(!i.rcon_down());
    let mut r = running();
    assert!(r.rcon_down());
    assert_eq!(r.state(), InstanceState::Crashed);
}

#[test]
fn tick_samples_memory_then_detects_crash() {
    let mut i = stopped();
    assert_eq!(i.switch_run(true), Ok(SwitchAction::Launch));
    assert!(!i.needs_sample());
    assert!(i.launched());
    assert!(i.needs_sample());
    assert_eq!(i.tick(ProcessSample::Resident(3 * 1024 * 1024 + 512)), TickOutcome::Nothing);
    assert_eq!(i.desc().unwrap().memory, Some(3072));
    assert_eq!(i.rcon_up(), Ok(()));
    assert_eq!(i.tick(ProcessSample::Unreadable), TickOutcome::Nothing);
    assert_eq!(i.state(), InstanceState::Running);
    assert_eq!(i.desc().unwrap().memory, Some(3072));
    assert_eq!(i.tick(ProcessSample::Gone), TickOutcome::Nothing);
    assert_eq!(i.state(), InstanceState::Crashed);
    assert!(!i.needs_sample());
    assert_eq!(i.tick(ProcessSample::Gone), TickOutcome::Flush);
    assert_eq!(i.desc().unwrap().memory, None);
}

#[test]
fn tick_does_nothing_while_downloading_or_stopping() {
    let mut d = Instance::create("/data/alpha".to_string(), descriptor(), env());
    assert_eq!(d.tick(ProcessSample::Gone), TickOutcome::Nothing);
    assert_eq!(d.state(), InstanceState::Downloading);
    let mut s = running();
    s.tick(ProcessSample::Resident(2048)).to_owned();
    s.switch_run(false).unwrap();
    assert_eq!(s.tick(ProcessSample::Gone), TickOutcome::Nothing);
    assert_eq!(s.state(), InstanceState::Stopping);
    assert_eq!(s.desc().unwrap().memory, Some(2));
}

#[test]
fn kill_is_total_and_idempotent() {
    let mut r = running();
    assert!(r.kill());
    assert_eq!(r.state(), InstanceState::Crashed);
    assert!(!r.kill());
    assert_eq!(r.state(), InstanceState::Crashed);
    let mut s = stopped();
    assert!(!s.kill());
    assert_eq!(s.state(), InstanceState::Crashed);
    let mut d = Instance::create("/data/alpha".to_string(), descriptor(), env());
    assert!(!d.kill());
    assert_eq!(d.state(), InstanceState::Crashed);
}

#[test]
fn rcon_is_available_only_while_running() {
    assert_eq!(stopped().rcon_available(), Err(Error::RconUnavailable));
    assert_eq!(running().rcon_available(), Ok(()));
}

#[test]
fn alter_applies_only_at_rest() {
    let mut i = stopped();
    let msg = AlterServer { max_memory: Some(4096), port: Some(25600), java_args: None };
    assert_eq!(i.alter(msg), Ok(()));
    let d = i.desc().unwrap();
    assert_eq!(d.max_memory, 4096);
    assert_eq!(d.ports, Ports { port: 25600, rcon: 25575 });
    assert_eq!(d.java_args.len(), 2);
    let mut r = running();
    let msg = AlterServer { max_memory: Some(1), port: None, java_args: Some(vec![]) };
    assert_eq!(r.alter(msg), Err(Error::BadState));
    assert_eq!(r.desc().unwrap().max_memory, 2048);
    assert_eq!(r.desc().unwrap().java_args.len(), 2);
}

#[test]
fn launch_plan_is_exact() {
    let plan = launch_plan(&descriptor(), "a.jar:b.jar:".to_string(), "pw".to_string());
    assert_eq!(
        plan.args,
        vec![
            "-Xmx2048M",
            "-DlegacyClassPath",
            "a.jar:b.jar:",
            "-XX:+UseG1GC",
            "-Dfoo=bar",
            "--nogui"
        ]
    );
    let env: Vec<(&str, &str)> =
        plan.patch_env.iter().map(|(k, v)| (k.as_str(), v.as_str())).collect();
    assert_eq!(
        env,
        vec![
            ("MPORT", "25565"),
            ("MRCON", "25575"),
            ("MAXMEMORY", "2G"),
            ("PASSWORD", "pw")
        ]
    );
}

#[test]
fn launch_plan_rounds_memory_down_to_whole_gibibytes() {
    let mut d = descriptor();
    d.max_memory = 1536;
    d.java_args.clear();
    d.ports = Ports { port: 7, rcon: 0 };
    let plan = launch_plan(&d, String::new(), String::new());
    assert_eq!(plan.args, vec!["-Xmx1536M", "-DlegacyClassPath", "", "--nogui"]);
    assert_eq!(plan.patch_env[0].1, "7");
    assert_eq!(plan.patch_env[1].1, "0");
    assert_eq!(plan.patch_env[2].1, "1G");
}

#[test]
fn stop_writes_retry_on_interrupt() {
    assert_eq!(stop_command(), b"stop\n".to_vec());
    assert_eq!(next_write(0, WriteOutcome::Interrupted), Some(0));
    assert_eq!(next_write(0, WriteOutcome::Wrote(2)), Some(2));
    assert_eq!(next_write(2, WriteOutcome::Wrote(3)), None);
    assert_eq!(next_write(0, WriteOutcome::Wrote(5)), None);
    assert_eq!(next_write(3, WriteOutcome::Wrote(0)), None);
    assert_eq!(next_write(1, WriteOutcome::Failed), None);
}

/// Drives the graceful stop of a running instance with a stand-in process
/// that accepts the command in pieces and then reports `wait`.
fn graceful_stop(wait: WaitOutcome) -> (Instance, bool) {
    let mut i = running();
    assert_eq!(i.switch_run(false), Ok(SwitchAction::GracefulStop));
    let cmd = stop_command();
    let mut accepted = Vec::new();
    let mut written = 0usize;
    let script = [WriteOutcome::Interrupted, WriteOutcome::Wrote(3), WriteOutcome::Wrote(2)];
    for outcome in script {
        if let WriteOutcome::Wrote(n) = outcome {
            accepted.extend_from_slice(&cmd[written..written + n]);
        }
        match next_write(written, outcome) {
            Some(n) => written = n,
            None => break,
        }
    }
    assert_eq!(accepted, b"stop\n".to_vec());
    let killed = must_kill(wait);
    assert_eq!(i.state(), InstanceState::Stopping);
    assert!(i.stop_completed());
    (i, killed)
}

#[test]
fn graceful_stop_of_exiting_process_reaches_stopped() {
    let (i, killed) = graceful_stop(WaitOutcome::Exited);
    assert!(!killed);
    assert_eq!(i.state(), InstanceState::Stopped);
}

#[test]
fn graceful_stop_of_hanging_process_kills_it() {
    let (i, killed) = graceful_stop(WaitOutcome::TimedOut);
    assert!(killed);
    assert_eq!(i.state(), InstanceState::Stopped);
    assert!(must_kill(WaitOutcome::Failed));
}
