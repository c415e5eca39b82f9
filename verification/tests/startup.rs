use daigent::inject_vars::create_init_script;
use daigent::startup::{
    startup_vars, Coordinator, RunConfig, StartupAction, StartupError, StartupEvent, StartupPhase,
    DEV_PORT,
};

fn script_of(fields: &str) -> String {
    format!(
        "\n        console.log(\"Successfully injected InputShare variables\");\n        window.__INJECTED__ = {{\n            {}\n        }};\n    ",
        fields
    )
}

fn answers(dev: bool, events: &[StartupEvent]) -> (Vec<StartupAction>, StartupPhase) {
    let mut coordinator = Coordinator::new(RunConfig { dev });
    let actions = events.iter().map(|event| coordinator.handle(*event)).collect();
    (actions, coordinator.current_phase())
}

fn spawns(actions: &[StartupAction]) -> usize {
    actions.iter().filter(|action| matches!(action, StartupAction::SpawnSidecar(_))).count()
}

const ALL_EVENTS: [StartupEvent; 8] = [
    StartupEvent::Begin,
    StartupEvent::PortAllocated(3000),
    StartupEvent::PortAllocated(3001),
    StartupEvent::PortUnavailable,
    StartupEvent::InjectorRegistered,
    StartupEvent::HostReady,
    StartupEvent::SidecarSpawned,
    StartupEvent::SidecarFailed,
];

#[test]
fn dev_port_is_fixed() {
    assert_eq!(DEV_PORT, 1450);
}

#[test]
fn variables_of_a_dev_session() {
    let vars = startup_vars(true, DEV_PORT);
    assert_eq!(vars.len(), 2);
    assert_eq!(vars.position("dev"), Some(0));
    assert_eq!(vars.position("server_port"), Some(1));
    assert_eq!(vars.get("dev"), Some(&"true".to_string()));
    assert_eq!(vars.get("server_port"), Some(&"1450".to_string()));
    assert_eq!(
        create_init_script(&vars),
        Ok(script_of("dev: 'true',\nserver_port: '1450'"))
    );
}

#[test]
fn variables_of_a_session_with_its_own_server() {
    let vars = startup_vars(false, 52113);
    assert_eq!(vars.get("dev"), Some(&"false".to_string()));
    assert_eq!(vars.get("server_port"), Some(&"52113".to_string()));
    assert_eq!(
        create_init_script(&vars),
        Ok(script_of("dev: 'false',\nserver_port: '52113'"))
    );
}

#[test]
fn new_coordinator_has_done_nothing() {
    let coordinator = Coordinator::new(RunConfig { dev: false });
    assert_eq!(coordinator.current_phase(), StartupPhase::Created);
}

#[test]
fn dev_session_skips_port_and_sidecar() {
    let (actions, phase) = answers(
        true,
        &[StartupEvent::Begin, StartupEvent::InjectorRegistered, StartupEvent::HostReady],
    );
    assert_eq!(
        actions,
        vec![
            StartupAction::RegisterInjector(script_of("dev: 'true',\nserver_port: '1450'")),
            StartupAction::LaunchHost,
            StartupAction::Complete,
        ]
    );
    assert_eq!(phase, StartupPhase::Started { port: 1450 });
    assert_eq!(spawns(&actions), 0);
}

#[test]
fn session_with_its_own_server_runs_every_step_in_order() {
    let (actions, phase) = answers(
        false,
        &[
            StartupEvent::Begin,
            StartupEvent::PortAllocated(40123),
            StartupEvent::InjectorRegistered,
            StartupEvent::HostReady,
            StartupEvent::SidecarSpawned,
        ],
    );
    assert_eq!(
        actions,
        vec![
            StartupAction::AllocatePort,
            StartupAction::RegisterInjector(script_of("dev: 'false',\nserver_port: '40123'")),
            StartupAction::LaunchHost,
            StartupAction::SpawnSidecar(40123),
            StartupAction::Complete,
        ]
    );
    assert_eq!(phase, StartupPhase::Started { port: 40123 });
    assert_eq!(spawns(&actions), 1);
}

#[test]
fn phases_of_a_session_with_its_own_server() {
    let mut coordinator = Coordinator::new(RunConfig { dev: false });
    coordinator.handle(StartupEvent::Begin);
    assert_eq!(coordinator.current_phase(), StartupPhase::AwaitingPort);
    coordinator.handle(StartupEvent::PortAllocated(9));
    assert_eq!(coordinator.current_phase(), StartupPhase::AwaitingInjector { port: 9 });
    coordinator.handle(StartupEvent::InjectorRegistered);
    assert_eq!(coordinator.current_phase(), StartupPhase::AwaitingHost { port: 9 });
    coordinator.handle(StartupEvent::HostReady);
    assert_eq!(coordinator.current_phase(), StartupPhase::AwaitingSidecar { port: 9 });
    coordinator.handle(StartupEvent::SidecarSpawned);
    assert_eq!(coordinator.current_phase(), StartupPhase::Started { port: 9 });
}

#[test]
fn no_port_is_fatal() {
    let (actions, phase) = answers(
        false,
        &[
            StartupEvent::Begin,
            StartupEvent::PortUnavailable,
            StartupEvent::InjectorRegistered,
            StartupEvent::HostReady,
            StartupEvent::PortAllocated(5),
        ],
    );
    assert_eq!(
        actions,
        vec![
            StartupAction::AllocatePort,
            StartupAction::Abort(StartupError::Allocation),
            StartupAction::Ignore,
            StartupAction::Ignore,
            StartupAction::Ignore,
        ]
    );
    assert_eq!(phase, StartupPhase::Failed { error: StartupError::Allocation });
    assert_eq!(spawns(&actions), 0);
}

#[test]
fn failed_launch_of_the_server_is_fatal() {
    let (actions, phase) = answers(
        false,
        &[
            StartupEvent::Begin,
            StartupEvent::PortAllocated(7),
            StartupEvent::InjectorRegistered,
            StartupEvent::HostReady,
            StartupEvent::SidecarFailed,
            StartupEvent::HostReady,
            StartupEvent::SidecarSpawned,
        ],
    );
    assert_eq!(actions[3], StartupAction::SpawnSidecar(7));
    assert_eq!(actions[4], StartupAction::Abort(StartupError::Spawn));
    assert_eq!(actions[5], StartupAction::Ignore);
    assert_eq!(actions[6], StartupAction::Ignore);
    assert_eq!(phase, StartupPhase::Failed { error: StartupError::Spawn });
    assert_eq!(spawns(&actions), 1);
}

#[test]
fn events_out_of_turn_are_ignored() {
    let mut coordinator = Coordinator::new(RunConfig { dev: false });
    for event in ALL_EVENTS {
        if event != StartupEvent::Begin {
            assert_eq!(coordinator.handle(event), StartupAction::Ignore);
            assert_eq!(coordinator.current_phase(), StartupPhase::Created);
        }
    }
    coordinator.handle(StartupEvent::Begin);
    for event in [
        StartupEvent::Begin,
        StartupEvent::InjectorRegistered,
        StartupEvent::HostReady,
        StartupEvent::SidecarSpawned,
        StartupEvent::SidecarFailed,
    ] {
        assert_eq!(coordinator.handle(event), StartupAction::Ignore);
        assert_eq!(coordinator.current_phase(), StartupPhase::AwaitingPort);
    }
}

#[test]
fn host_is_not_launched_before_the_injector_is_registered() {
    let (actions, phase) = answers(
        false,
        &[StartupEvent::Begin, StartupEvent::PortAllocated(7), StartupEvent::HostReady],
    );
    assert_eq!(actions[2], StartupAction::Ignore);
    assert_eq!(phase, StartupPhase::AwaitingInjector { port: 7 });
    assert!(!actions.contains(&StartupAction::LaunchHost));
}

#[test]
fn second_host_ready_launches_no_second_server() {
    let (actions, _) = answers(
        false,
        &[
            StartupEvent::Begin,
            StartupEvent::PortAllocated(7),
            StartupEvent::InjectorRegistered,
            StartupEvent::HostReady,
            StartupEvent::HostReady,
            StartupEvent::SidecarSpawned,
            StartupEvent::HostReady,
            StartupEvent::Begin,
        ],
    );
    assert_eq!(spawns(&actions), 1);
    assert_eq!(actions[4], StartupAction::Ignore);
    assert_eq!(actions[6], StartupAction::Ignore);
    assert_eq!(actions[7], StartupAction::Ignore);
}

#[test]
fn every_short_session_launches_the_server_at_most_once() {
    let n = ALL_EVENTS.len();
    for dev in [true, false] {
        for length in 0..=5u32 {
            for code in 0..n.pow(length) {
                let mut events = Vec::new();
                let mut rest = code;
                for _ in 0..length {
                    events.push(ALL_EVENTS[rest % n]);
                    rest /= n;
                }
                let (actions, phase) = answers(dev, &events);
                let count = spawns(&actions);
                assert!(count <= 1);
                if dev {
                    assert_eq!(count, 0);
                } else if matches!(phase, StartupPhase::Started { .. }) {
                    assert_eq!(count, 1);
                }
                let launch = actions.iter().position(|a| *a == StartupAction::LaunchHost);
                let register = actions
                    .iter()
                    .position(|a| matches!(a, StartupAction::RegisterInjector(_)));
                if let Some(launch) = launch {
                    assert!(register.unwrap() < launch);
                    assert_eq!(events[launch], StartupEvent::InjectorRegistered);
                }
                if let Some(spawn) = actions
                    .iter()
                    .position(|a| matches!(a, StartupAction::SpawnSidecar(_)))
                {
                    assert!(launch.unwrap() < spawn);
                    assert_eq!(events[spawn], StartupEvent::HostReady);
                }
            }
        }
    }
}
