use msrv::instance::{Instance, InstanceEnv, LoadError, SwitchAction};
use msrv::messages::native_messages::AddrOf;
use msrv::model::{Error, InstanceDescriptor, InstanceState, Ports};
use msrv::native::{Servers, StartupAction};

fn servers() -> Servers {
    Servers::new("/data".to_string(), 25575..25580, 25565..25570, 30, "pw".to_string())
}

fn ports(port: u16, rcon: u16) -> Ports {
    Ports { port, rcon }
}

fn snapshot(s: &Servers) -> (Vec<u16>, Vec<u16>) {
    let info = s.ports_info();
    (info.ports, info.rcons)
}

#[test]
fn new_server_reserves_both_ports() {
    let mut s = servers();
    assert_eq!(s.new_server("a".to_string(), ports(25565, 25575), false), Ok(()));
    assert!(s.is_tracked(&"a".to_string()));
    assert_eq!(s.ports_of(&"a".to_string()), Some(ports(25565, 25575)));
    let info = s.ports_info();
    assert_eq!(info.ports, vec![25565]);
    assert_eq!(info.rcons, vec![25575]);
    assert_eq!(info.port_limits, [25565, 25570]);
    assert_eq!(info.rcon_limits, [25575, 25580]);
}

#[test]
fn new_server_refuses_names_in_use() {
    let mut s = servers();
    s.new_server("a".to_string(), ports(25565, 25575), false).unwrap();
    let before = snapshot(&s);
    assert_eq!(s.new_server("a".to_string(), ports(25566, 25576), false), Err(Error::NameInUse));
    assert_eq!(s.new_server("b".to_string(), ports(25566, 25576), true), Err(Error::NameInUse));
    assert_eq!(snapshot(&s), before);
}

#[test]
fn new_server_on_reserved_port_changes_nothing() {
    let mut s = servers();
    s.new_server("a".to_string(), ports(25565, 25575), false).unwrap();
    let before = snapshot(&s);
    assert_eq!(
        s.new_server("b".to_string(), ports(25565, 25576), false),
        Err(Error::PortsUnavailable)
    );
    assert_eq!(snapshot(&s), before);
    assert_eq!(
        s.new_server("c".to_string(), ports(25566, 25575), false),
        Err(Error::PortsUnavailable)
    );
    assert_eq!(snapshot(&s), before);
    assert_eq!(
        s.new_server("d".to_string(), ports(25566, 30000), false),
        Err(Error::PortsUnavailable)
    );
    assert_eq!(snapshot(&s), before);
    assert!(!s.is_tracked(&"b".to_string()));
    assert!(!s.is_tracked(&"c".to_string()));
}

#[test]
fn delete_releases_ports_and_unknown_names_fail() {
    let mut s = servers();
    assert_eq!(s.delete_server(&"a".to_string()), Err(Error::NotFound));
    s.new_server("a".to_string(), ports(25565, 25575), false).unwrap();
    s.new_server("b".to_string(), ports(25566, 25576), false).unwrap();
    assert_eq!(s.delete_server(&"a".to_string()), Ok(ports(25565, 25575)));
    assert_eq!(snapshot(&s), (vec![25566], vec![25576]));
    assert!(!s.is_tracked(&"a".to_string()));
    assert_eq!(s.delete_server(&"a".to_string()), Err(Error::NotFound));
    assert_eq!(s.new_server("c".to_string(), ports(25565, 25575), false), Ok(()));
}

#[test]
fn delete_of_running_instance_kills_it_first() {
    let mut s = servers();
    s.new_server("a".to_string(), ports(25565, 25575), false).unwrap();
    let desc = InstanceDescriptor {
        name: "a".to_string(),
        source: "https://example.org/a.zip".to_string(),
        java_args: vec![],
        memory: None,
        max_memory: 1024,
        ports: ports(25565, 25575),
    };
    let env = InstanceEnv { timeout: 1, password: "pw".to_string() };
    let mut inst = Instance::create(s.name_to_path(&"a".to_string()), desc, env);
    inst.unpack_finished(true).unwrap();
    assert_eq!(inst.switch_run(true), Ok(SwitchAction::Launch));
    assert!(inst.launched());
    inst.rcon_up().unwrap();
    assert_eq!(inst.state(), InstanceState::Running);
    assert_eq!(s.delete_server(&"a".to_string()), Ok(ports(25565, 25575)));
    assert!(inst.kill());
    assert_eq!(inst.state(), InstanceState::Crashed);
    assert_eq!(inst.rcon_available(), Err(Error::RconUnavailable));
    assert!(!inst.needs_sample());
    assert_eq!(snapshot(&s), (vec![], vec![]));
}

#[test]
fn nuke_forgets_tracked_instances_only() {
    let mut s = servers();
    assert_eq!(s.nuke(&"a".to_string()), None);
    s.new_server("a".to_string(), ports(25565, 25575), false).unwrap();
    assert_eq!(s.nuke(&"a".to_string()), Some(ports(25565, 25575)));
    assert_eq!(snapshot(&s), (vec![], vec![]));
}

#[test]
fn alter_moves_the_port_reserving_first() {
    let mut s = servers();
    s.new_server("a".to_string(), ports(25565, 25575), false).unwrap();
    s.new_server("b".to_string(), ports(25566, 25576), false).unwrap();
    assert_eq!(s.alter_server(&"x".to_string(), Some(25567)), Err(Error::NotFound));
    assert_eq!(s.alter_server(&"a".to_string(), Some(25566)), Err(Error::AlreadyTaken));
    assert_eq!(s.alter_server(&"a".to_string(), Some(26000)), Err(Error::OutOfRange));
    assert_eq!(snapshot(&s), (vec![25565, 25566], vec![25575, 25576]));
    assert_eq!(s.alter_server(&"a".to_string(), Some(25565)), Ok(()));
    assert_eq!(s.alter_server(&"a".to_string(), None), Ok(()));
    assert_eq!(s.alter_server(&"a".to_string(), Some(25569)), Ok(()));
    assert_eq!(snapshot(&s), (vec![25566, 25569], vec![25575, 25576]));
    assert_eq!(s.ports_of(&"a".to_string()), Some(ports(25569, 25575)));
}

#[test]
fn startup_tracks_quarantines_and_purges() {
    let mut s = servers();
    assert_eq!(s.register_loaded("a".to_string(), Ok(ports(25565, 25575))), StartupAction::Track);
    assert_eq!(
        s.register_loaded("b".to_string(), Ok(ports(25565, 25576))),
        StartupAction::Quarantine
    );
    assert_eq!(
        s.register_loaded("c".to_string(), Err(LoadError::BadManifest)),
        StartupAction::Quarantine
    );
    assert_eq!(
        s.register_loaded("d".to_string(), Err(LoadError::NoManifest)),
        StartupAction::Purge
    );
    assert_eq!(
        s.register_loaded("e".to_string(), Err(LoadError::PathIsNotDir)),
        StartupAction::Ignore
    );
    assert_eq!(
        s.register_loaded("c".to_string(), Err(LoadError::BadManifest)),
        StartupAction::Quarantine
    );
    let mut broken = s.broken();
    broken.sort();
    assert_eq!(broken, vec!["b".to_string(), "c".to_string()]);
    assert!(s.is_broken(&"b".to_string()));
    assert!(!s.is_broken(&"d".to_string()));
    assert_eq!(snapshot(&s), (vec![25565], vec![25575]));
}

#[test]
fn renew_brings_a_broken_instance_back() {
    let mut s = servers();
    s.register_loaded("a".to_string(), Ok(ports(25565, 25575)));
    s.register_loaded("b".to_string(), Err(LoadError::BadManifest));
    assert_eq!(s.renew_server("z".to_string(), ports(25566, 25576)), Err(Error::NotFound));
    assert_eq!(
        s.renew_server("b".to_string(), ports(25565, 25576)),
        Err(Error::PortsUnavailable)
    );
    assert!(s.is_broken(&"b".to_string()));
    assert_eq!(s.renew_server("b".to_string(), ports(25566, 25576)), Ok(()));
    assert!(!s.is_broken(&"b".to_string()));
    assert!(s.is_tracked(&"b".to_string()));
    assert_eq!(snapshot(&s), (vec![25565, 25566], vec![25575, 25576]));
}

#[test]
fn paths_and_settings() {
    let s = servers();
    assert_eq!(s.name_to_path(&"alpha".to_string()), "/data/alpha");
    let env = s.env();
    assert_eq!(env.timeout, 30);
    assert_eq!(env.password, "pw");
    let a: AddrOf<()> = AddrOf::new("alpha".to_string());
    assert_eq!(a.0, "alpha");
}
