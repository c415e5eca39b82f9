//! The startup coordinator: which step comes next, and with what.
//!
//! The coordinator performs nothing itself. It is told what happened and
//! answers with the step to take: allocate a port, register the injected
//! variables, launch the host, launch the server. The order of these steps is
//! the point: the port is known before the variables are built, the variables
//! are registered before the host loads anything, and the server is launched
//! once, after the host is ready, and never in dev mode.

use vstd::prelude::*;
use crate::inject_vars::{
    all_keys_valid,
    create_init_script,
    distinct_keys,
    script_text,
    valid_key,
    ConfigError,
    InjectedVars,
};
use crate::reader::{lemma_script_round_trip, read_script};
use crate::text::{decimal, decimal_string};

verus! {

/// The port on which the server is expected in dev mode.
pub const DEV_PORT: u16 = 1450;

/// How the application was started.
#[derive(Debug, Clone, Copy, PartialEq, Eq, Structural)]
pub struct RunConfig {
    /// In dev mode the server runs outside the application, on `DEV_PORT`.
    pub dev: bool,
}

/// Why startup was given up.
#[derive(Debug, Clone, Copy, PartialEq, Eq, Structural)]
pub enum StartupError {
    /// No free port could be had.
    Allocation,
    /// The injected variables could not be written as a script.
    Config(ConfigError),
    /// The server could not be launched.
    Spawn,
}

/// How far startup has come.
#[derive(Debug, Clone, Copy, PartialEq, Eq, Structural)]
pub enum StartupPhase {
    /// Nothing was done yet.
    Created,
    /// A port was asked for.
    AwaitingPort,
    /// The port is chosen and the injected variables are being registered.
    AwaitingInjector { port: u16 },
    /// The variables are registered and the host is starting.
    AwaitingHost { port: u16 },
    /// The host is ready and the server is being launched.
    AwaitingSidecar { port: u16 },
    /// Startup is complete.
    Started { port: u16 },
    /// Startup was given up.
    Failed { error: StartupError },
}

/// What the coordinator is told.
#[derive(Debug, Clone, Copy, PartialEq, Eq, Structural)]
pub enum StartupEvent {
    /// The application starts.
    Begin,
    /// The system gave this free port.
    PortAllocated(u16),
    /// The system gave no port.
    PortUnavailable,
    /// The injected variables are registered with the host.
    InjectorRegistered,
    /// The host has finished its own setup.
    HostReady,
    /// The server process was created.
    SidecarSpawned,
    /// The server process could not be created.
    SidecarFailed,
}

/// The step that the coordinator asks for.
#[derive(Debug, Clone, PartialEq, Eq)]
pub enum StartupAction {
    /// Ask the system for a free port.
    AllocatePort,
    /// Register this script to run before any front-end script.
    RegisterInjector(String),
    /// Start the host, which loads the front-end.
    LaunchHost,
    /// Launch the server on this port.
    SpawnSidecar(u16),
    /// Give up with this error.
    Abort(StartupError),
    /// Startup is complete; there is nothing left to do.
    Complete,
    /// The event does not belong here; nothing changes.
    Ignore,
}

/// The mathematical form of a [`StartupAction`].
pub enum ActionView {
    AllocatePort,
    RegisterInjector(Seq<char>),
    LaunchHost,
    SpawnSidecar(u16),
    Abort(StartupError),
    Complete,
    Ignore,
}

impl View for StartupAction {
    type V = ActionView;

    open spec fn view(&self) -> ActionView {
        match self {
            StartupAction::AllocatePort => ActionView::AllocatePort,
            StartupAction::RegisterInjector(script) => ActionView::RegisterInjector(script@),
            StartupAction::LaunchHost => ActionView::LaunchHost,
            StartupAction::SpawnSidecar(port) => ActionView::SpawnSidecar(*port),
            StartupAction::Abort(error) => ActionView::Abort(*error),
            StartupAction::Complete => ActionView::Complete,
            StartupAction::Ignore => ActionView::Ignore,
        }
    }
}

/// How a flag is written: `true` or `false`.
pub open spec fn flag_text(flag: bool) -> Seq<char> {
    if flag {
        "true"@
    } else {
        "false"@
    }
}

/// The variables of a session: the mode first, then the server's port.
pub open spec fn startup_entries(dev: bool, port: u16) -> Seq<(Seq<char>, Seq<char>)> {
    seq![("dev"@, flag_text(dev)), ("server_port"@, decimal(port as nat))]
}

/// The script that hands the variables of a session to the front-end.
pub open spec fn startup_script(dev: bool, port: u16) -> Seq<char> {
    script_text(startup_entries(dev, port))
}

/// The keys of a session's variables are field names, and they differ.
pub proof fn lemma_startup_entries_are_sound(dev: bool, port: u16)
    ensures
        all_keys_valid(startup_entries(dev, port)),
        distinct_keys(startup_entries(dev, port)),
{
    reveal_strlit("dev");
    reveal_strlit("server_port");
    assert(valid_key("dev"@));
    assert(valid_key("server_port"@));
    assert("dev"@.len() != "server_port"@.len());
}

/// The front-end reads from the script of a session exactly the session's
/// variables: the mode as `true` or `false`, and the port in decimal.
pub proof fn lemma_startup_script_reads_back(dev: bool, port: u16)
    ensures
        read_script(startup_script(dev, port)) == Some(startup_entries(dev, port)),
{
    lemma_startup_entries_are_sound(dev, port);
    lemma_script_round_trip(startup_entries(dev, port));
}

/// Builds the variables of a session.
pub fn startup_vars(dev: bool, port: u16) -> (vars: InjectedVars)
    ensures
        vars.wf(),
        vars@ == startup_entries(dev, port),
{
    let mut vars = InjectedVars::new();
    let flag = if dev {
        "true".to_owned()
    } else {
        "false".to_owned()
    };
    proof {
        lemma_startup_entries_are_sound(dev, port);
    }
    let _ = vars.insert("dev", flag);
    assert(vars@ =~= seq![("dev"@, flag_text(dev))]);
    let _ = vars.insert("server_port", decimal_string(port as u64));
    assert(vars@ =~= startup_entries(dev, port)) by {
        let first = seq![("dev"@, flag_text(dev))];
        assert(first[0].0 == startup_entries(dev, port)[0].0);
    }
    vars
}

/// The step that answers `event` in `phase`.
pub open spec fn action_for(config: RunConfig, phase: StartupPhase, event: StartupEvent)
    -> ActionView {
    match (phase, event) {
        (StartupPhase::Created, StartupEvent::Begin) => if config.dev {
            ActionView::RegisterInjector(startup_script(true, DEV_PORT))
        } else {
            ActionView::AllocatePort
        },
        (StartupPhase::AwaitingPort, StartupEvent::PortAllocated(port)) => {
            ActionView::RegisterInjector(startup_script(config.dev, port))
        },
        (StartupPhase::AwaitingPort, StartupEvent::PortUnavailable) => ActionView::Abort(
            StartupError::Allocation,
        ),
        (StartupPhase::AwaitingInjector { port }, StartupEvent::InjectorRegistered) => {
            ActionView::LaunchHost
        },
        (StartupPhase::AwaitingHost { port }, StartupEvent::HostReady) => if config.dev {
            ActionView::Complete
        } else {
            ActionView::SpawnSidecar(port)
        },
        (StartupPhase::AwaitingSidecar { port }, StartupEvent::SidecarSpawned) => {
            ActionView::Complete
        },
        (StartupPhase::AwaitingSidecar { port }, StartupEvent::SidecarFailed) => ActionView::Abort(
            StartupError::Spawn,
        ),
        _ => ActionView::Ignore,
    }
}

/// The phase after `event` arrived in `phase`.
pub open spec fn next_phase(config: RunConfig, phase: StartupPhase, event: StartupEvent)
    -> StartupPhase {
    match (phase, event) {
        (StartupPhase::Created, StartupEvent::Begin) => if config.dev {
            StartupPhase::AwaitingInjector { port: DEV_PORT }
        } else {
            StartupPhase::AwaitingPort
        },
        (StartupPhase::AwaitingPort, StartupEvent::PortAllocated(port)) => {
            StartupPhase::AwaitingInjector { port }
        },
        (StartupPhase::AwaitingPort, StartupEvent::PortUnavailable) => StartupPhase::Failed {
            error: StartupError::Allocation,
        },
        (StartupPhase::AwaitingInjector { port }, StartupEvent::InjectorRegistered) => {
            StartupPhase::AwaitingHost { port }
        },
        (StartupPhase::AwaitingHost { port }, StartupEvent::HostReady) => if config.dev {
            StartupPhase::Started { port }
        } else {
            StartupPhase::AwaitingSidecar { port }
        },
        (StartupPhase::AwaitingSidecar { port }, StartupEvent::SidecarSpawned) => {
            StartupPhase::Started { port }
        },
        (StartupPhase::AwaitingSidecar { port }, StartupEvent::SidecarFailed) => {
            StartupPhase::Failed { error: StartupError::Spawn }
        },
        _ => phase,
    }
}

/// The coordinator of one session.
pub struct Coordinator {
    config: RunConfig,
    phase: StartupPhase,
}

impl Coordinator {
    /// How the session was started.
    pub closed spec fn config(&self) -> RunConfig {
        self.config
    }

    /// How far startup has come.
    pub closed spec fn phase(&self) -> StartupPhase {
        self.phase
    }

    /// A coordinator that has done nothing yet.
    pub fn new(config: RunConfig) -> (coordinator: Coordinator)
        ensures
            coordinator.config() == config,
            coordinator.phase() == StartupPhase::Created,
    {
        Coordinator { config, phase: StartupPhase::Created }
    }

    /// How far startup has come.
    pub fn current_phase(&self) -> (phase: StartupPhase)
        ensures
            phase == self.phase(),
    {
        self.phase
    }

    /// Registers the variables of the session for `port`.
    fn register(&mut self, port: u16) -> (action: StartupAction)
        ensures
            final(self).config() == old(self).config(),
            final(self).phase() == (StartupPhase::AwaitingInjector { port }),
            action@ == ActionView::RegisterInjector(startup_script(old(self).config().dev, port)),
    {
        let vars = startup_vars(self.config.dev, port);
        proof {
            lemma_startup_entries_are_sound(self.config.dev, port);
        }
        match create_init_script(&vars) {
            Ok(script) => {
                self.phase = StartupPhase::AwaitingInjector { port };
                StartupAction::RegisterInjector(script)
            },
            Err(error) => {
                self.phase = StartupPhase::Failed { error: StartupError::Config(error) };
                StartupAction::Abort(StartupError::Config(error))
            },
        }
    }

    /// Takes what happened and answers with the step to take next.
    pub fn handle(&mut self, event: StartupEvent) -> (action: StartupAction)
        ensures
            final(self).config() == old(self).config(),
            final(self).phase() == next_phase(old(self).config(), old(self).phase(), event),
            action@ == action_for(old(self).config(), old(self).phase(), event),
    {
        match (self.phase, event) {
            (StartupPhase::Created, StartupEvent::Begin) => {
                if self.config.dev {
                    self.register(DEV_PORT)
                } else {
                    self.phase = StartupPhase::AwaitingPort;
                    StartupAction::AllocatePort
                }
            },
            (StartupPhase::AwaitingPort, StartupEvent::PortAllocated(port)) => self.register(port),
            (StartupPhase::AwaitingPort, StartupEvent::PortUnavailable) => {
                self.phase = StartupPhase::Failed { error: StartupError::Allocation };
                StartupAction::Abort(StartupError::Allocation)
            },
            (StartupPhase::AwaitingInjector { port }, StartupEvent::InjectorRegistered) => {
                self.phase = StartupPhase::AwaitingHost { port };
                StartupAction::LaunchHost
            },
            (StartupPhase::AwaitingHost { port }, StartupEvent::HostReady) => {
                if self.config.dev {
                    self.phase = StartupPhase::Started { port };
                    StartupAction::Complete
                } else {
                    self.phase = StartupPhase::AwaitingSidecar { port };
                    StartupAction::SpawnSidecar(port)
                }
            },
            (StartupPhase::AwaitingSidecar { port }, StartupEvent::SidecarSpawned) => {
                self.phase = StartupPhase::Started { port };
                StartupAction::Complete
            },
            (StartupPhase::AwaitingSidecar { port }, StartupEvent::SidecarFailed) => {
                self.phase = StartupPhase::Failed { error: StartupError::Spawn };
                StartupAction::Abort(StartupError::Spawn)
            },
            _ => StartupAction::Ignore,
        }
    }
}

} // verus!
