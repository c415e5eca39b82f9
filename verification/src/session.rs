//! A session as a whole: what holds of the coordinator's answers whatever
//! events arrive, in whatever order.

use vstd::prelude::*;
use crate::startup::{
    action_for,
    next_phase,
    startup_script,
    ActionView,
    RunConfig,
    StartupError,
    StartupEvent,
    StartupPhase,
    DEV_PORT,
};

verus! {

/// The phase of a fresh coordinator after `events` arrived one by one.
pub open spec fn phase_after(config: RunConfig, events: Seq<StartupEvent>) -> StartupPhase
    decreases events.len(),
{
    if events.len() == 0 {
        StartupPhase::Created
    } else {
        next_phase(config, phase_after(config, events.drop_last()), events.last())
    }
}

/// The coordinator's answer to the event at `index` of `events`.
pub open spec fn action_at(config: RunConfig, events: Seq<StartupEvent>, index: int) -> ActionView
    recommends
        0 <= index < events.len(),
{
    action_for(config, phase_after(config, events.take(index)), events[index])
}

/// The steps that a session takes at most once each.
pub enum Step {
    AllocatePort,
    RegisterInjector,
    LaunchHost,
    SpawnSidecar,
}

/// Whether `action` asks for `step`.
pub open spec fn asks_for(action: ActionView, step: Step) -> bool {
    match step {
        Step::AllocatePort => action is AllocatePort,
        Step::RegisterInjector => action is RegisterInjector,
        Step::LaunchHost => action is LaunchHost,
        Step::SpawnSidecar => action is SpawnSidecar,
    }
}

/// How often the coordinator asks for `step` while `events` arrive.
pub open spec fn step_count(config: RunConfig, events: Seq<StartupEvent>, step: Step) -> nat
    decreases events.len(),
{
    if events.len() == 0 {
        0
    } else {
        let earlier = step_count(config, events.drop_last(), step);
        if asks_for(
            action_for(config, phase_after(config, events.drop_last()), events.last()),
            step,
        ) {
            earlier + 1
        } else {
            earlier
        }
    }
}

/// How often the coordinator asks for the launch of the server while `events`
/// arrive.
pub open spec fn spawn_count(config: RunConfig, events: Seq<StartupEvent>) -> nat {
    step_count(config, events, Step::SpawnSidecar)
}

/// Whether the script for `port` was handed out for registration while
/// `events` arrived.
pub open spec fn script_registered(config: RunConfig, events: Seq<StartupEvent>, port: u16)
    -> bool {
    exists|j: int|
        0 <= j < events.len() && #[trigger] action_at(config, events, j)
            == ActionView::RegisterInjector(startup_script(config.dev, port))
}

/// Whether the launch of the host was asked for while `events` arrived.
pub open spec fn host_launched(config: RunConfig, events: Seq<StartupEvent>) -> bool {
    exists|j: int|
        0 <= j < events.len() && #[trigger] action_at(config, events, j) == ActionView::LaunchHost
}

/// The number of times that a step outside dev mode was taken: none in dev
/// mode, once otherwise.
pub open spec fn once_outside_dev(config: RunConfig) -> nat {
    if config.dev {
        0
    } else {
        1
    }
}

/// What every reachable phase tells about the session so far: how often each
/// step was asked for, and which port was chosen and handed to the front-end.
pub open spec fn phase_accounts_for(
    config: RunConfig,
    events: Seq<StartupEvent>,
    phase: StartupPhase,
) -> bool {
    let ports = step_count(config, events, Step::AllocatePort);
    let scripts = step_count(config, events, Step::RegisterInjector);
    let hosts = step_count(config, events, Step::LaunchHost);
    let spawns = step_count(config, events, Step::SpawnSidecar);
    match phase {
        StartupPhase::Created => ports == 0 && scripts == 0 && hosts == 0 && spawns == 0,
        StartupPhase::AwaitingPort => {
            &&& !config.dev
            &&& ports == 1 && scripts == 0 && hosts == 0 && spawns == 0
        },
        StartupPhase::AwaitingInjector { port } => {
            &&& config.dev ==> port == DEV_PORT
            &&& script_registered(config, events, port)
            &&& ports == once_outside_dev(config) && scripts == 1 && hosts == 0 && spawns == 0
        },
        StartupPhase::AwaitingHost { port } => {
            &&& config.dev ==> port == DEV_PORT
            &&& script_registered(config, events, port)
            &&& host_launched(config, events)
            &&& ports == once_outside_dev(config) && scripts == 1 && hosts == 1 && spawns == 0
        },
        StartupPhase::AwaitingSidecar { port } => {
            &&& !config.dev
            &&& script_registered(config, events, port)
            &&& host_launched(config, events)
            &&& ports == 1 && scripts == 1 && hosts == 1 && spawns == 1
        },
        StartupPhase::Started { port } => {
            &&& config.dev ==> port == DEV_PORT
            &&& script_registered(config, events, port)
            &&& host_launched(config, events)
            &&& ports == once_outside_dev(config) && scripts == 1 && hosts == 1
            &&& spawns == once_outside_dev(config)
        },
        StartupPhase::Failed { error } => match error {
            StartupError::Allocation => {
                &&& !config.dev
                &&& ports == 1 && scripts == 0 && hosts == 0 && spawns == 0
            },
            StartupError::Spawn => {
                &&& !config.dev
                &&& host_launched(config, events)
                &&& ports == 1 && scripts == 1 && hosts == 1 && spawns == 1
            },
            StartupError::Config(_) => false,
        },
    }
}

/// An answer that was given stays the same when more events arrive.
pub proof fn lemma_action_at_is_stable(
    config: RunConfig,
    events: Seq<StartupEvent>,
    shorter: int,
    index: int,
)
    requires
        0 <= index < shorter <= events.len(),
    ensures
        action_at(config, events.take(shorter), index) == action_at(config, events, index),
{
    assert(events.take(shorter).take(index) =~= events.take(index));
}

/// Every phase that a session reaches accounts for the session so far.
pub proof fn lemma_phase_accounts(config: RunConfig, events: Seq<StartupEvent>)
    ensures
        phase_accounts_for(config, events, phase_after(config, events)),
    decreases events.len(),
{
    if events.len() == 0 {
    } else {
        let earlier = events.drop_last();
        let last = events.len() - 1;
        let before = phase_after(config, earlier);
        lemma_phase_accounts(config, earlier);
        assert(events.take(last) =~= earlier);
        assert(action_at(config, events, last) == action_for(config, before, events.last()));
        // What was answered earlier is still what was answered.
        assert forall|j: int| 0 <= j < last implies action_at(config, earlier, j) == action_at(
            config,
            events,
            j,
        ) by {
            lemma_action_at_is_stable(config, events, last, j);
        }
        assert forall|port: u16| script_registered(config, earlier, port) implies script_registered(
            config,
            events,
            port,
        ) by {
            let j = choose|j: int|
                0 <= j < earlier.len() && #[trigger] action_at(config, earlier, j)
                    == ActionView::RegisterInjector(startup_script(config.dev, port));
            assert(action_at(config, events, j) == action_at(config, earlier, j));
        }
        if host_launched(config, earlier) {
            let j = choose|j: int|
                0 <= j < earlier.len() && #[trigger] action_at(config, earlier, j)
                    == ActionView::LaunchHost;
            assert(action_at(config, events, j) == action_at(config, earlier, j));
            assert(host_launched(config, events));
        }
    }
}

/// No step is taken twice: in every session the port is asked for at most
/// once, the variables are registered at most once, the host is launched at
/// most once, and so is the server.
pub proof fn lemma_each_step_at_most_once(
    config: RunConfig,
    events: Seq<StartupEvent>,
    step: Step,
)
    ensures
        step_count(config, events, step) <= 1,
{
    lemma_phase_accounts(config, events);
}

/// A session that completes startup has registered the variables and
/// launched the host exactly once each.
pub proof fn lemma_started_session_is_complete(config: RunConfig, events: Seq<StartupEvent>)
    requires
        phase_after(config, events) is Started,
    ensures
        step_count(config, events, Step::RegisterInjector) == 1,
        step_count(config, events, Step::LaunchHost) == 1,
        step_count(config, events, Step::AllocatePort) == once_outside_dev(config),
        step_count(config, events, Step::SpawnSidecar) == once_outside_dev(config),
{
    lemma_phase_accounts(config, events);
}

/// The server's launch is asked for at most once in a session, never in dev
/// mode, and exactly once in every session outside dev mode that completes
/// startup or gets as far as launching the server.
pub proof fn lemma_single_spawn(config: RunConfig, events: Seq<StartupEvent>)
    ensures
        spawn_count(config, events) <= 1,
        config.dev ==> spawn_count(config, events) == 0,
        !config.dev && phase_after(config, events) is Started ==> spawn_count(config, events) == 1,
        phase_after(config, events) is AwaitingSidecar ==> spawn_count(config, events) == 1,
{
    lemma_phase_accounts(config, events);
}

/// The host is launched only in answer to the news that the injected
/// variables are registered, and by then the script was handed out: the
/// front-end never loads before its variables are in place.
pub proof fn lemma_injection_precedes_launch(
    config: RunConfig,
    events: Seq<StartupEvent>,
    index: int,
)
    requires
        0 <= index < events.len(),
        action_at(config, events, index) == ActionView::LaunchHost,
    ensures
        events[index] == StartupEvent::InjectorRegistered,
        exists|j: int|
            0 <= j < index && #[trigger] action_at(config, events, j) is RegisterInjector,
{
    let earlier = events.take(index);
    lemma_phase_accounts(config, earlier);
    let port = phase_after(config, earlier)->AwaitingInjector_port;
    assert(script_registered(config, earlier, port));
    let j = choose|j: int|
        0 <= j < earlier.len() && #[trigger] action_at(config, earlier, j)
            == ActionView::RegisterInjector(startup_script(config.dev, port));
    lemma_action_at_is_stable(config, events, index, j);
    assert(action_at(config, events, j) is RegisterInjector);
}

/// The port is chosen before the variables are built: the script that is
/// handed out for registration is the one for the dev port in dev mode, and
/// the one for the port that the system just gave otherwise.
pub proof fn lemma_script_carries_chosen_port(
    config: RunConfig,
    events: Seq<StartupEvent>,
    index: int,
)
    requires
        0 <= index < events.len(),
        action_at(config, events, index) is RegisterInjector,
    ensures
        config.dev ==> events[index] == StartupEvent::Begin && action_at(config, events, index)
            == ActionView::RegisterInjector(startup_script(true, DEV_PORT)),
        !config.dev ==> (events[index] matches StartupEvent::PortAllocated(port) && action_at(
            config,
            events,
            index,
        ) == ActionView::RegisterInjector(startup_script(false, port))),
{
    lemma_phase_accounts(config, events.take(index));
}

/// The server is launched only in answer to the news that the host is ready,
/// only outside dev mode, after the host was launched, and on the very port
/// that was handed to the front-end.
pub proof fn lemma_spawn_follows_host_ready(
    config: RunConfig,
    events: Seq<StartupEvent>,
    index: int,
    port: u16,
)
    requires
        0 <= index < events.len(),
        action_at(config, events, index) == ActionView::SpawnSidecar(port),
    ensures
        events[index] == StartupEvent::HostReady,
        !config.dev,
        exists|j: int|
            0 <= j < index && #[trigger] action_at(config, events, j) == ActionView::LaunchHost,
        exists|j: int|
            0 <= j < index && #[trigger] action_at(config, events, j)
                == ActionView::RegisterInjector(startup_script(false, port)),
{
    let earlier = events.take(index);
    lemma_phase_accounts(config, earlier);
    assert(phase_after(config, earlier) == (StartupPhase::AwaitingHost { port }));
    let launch = choose|j: int|
        0 <= j < earlier.len() && #[trigger] action_at(config, earlier, j)
            == ActionView::LaunchHost;
    lemma_action_at_is_stable(config, events, index, launch);
    let register = choose|j: int|
        0 <= j < earlier.len() && #[trigger] action_at(config, earlier, j)
            == ActionView::RegisterInjector(startup_script(config.dev, port));
    lemma_action_at_is_stable(config, events, index, register);
}

/// A failure to get a port or to launch the server ends startup: the phase
/// stays `Failed` and every later event is ignored.
pub proof fn lemma_failure_is_final(
    config: RunConfig,
    error: StartupError,
    event: StartupEvent,
)
    ensures
        next_phase(config, StartupPhase::Failed { error }, event) == (StartupPhase::Failed {
            error,
        }),
        action_for(config, StartupPhase::Failed { error }, event) == ActionView::Ignore,
{
}

} // verus!
