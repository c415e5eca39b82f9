//! The supervisor of the bundled server process: the command that launches
//! it, its life cycle, and the relay of what it reports.

use vstd::prelude::*;
use crate::text::{decimal, decimal_string};

verus! {

/// Where the child process stands.
#[derive(Debug, Clone, Copy, PartialEq, Eq, Structural)]
pub enum SidecarState {
    /// No launch was asked for.
    NotStarted,
    /// The launch was asked for and is not confirmed yet.
    Spawning,
    /// The process was created and has not exited.
    Running,
    /// The launch failed or the process exited. Nothing follows.
    Terminated,
}

/// What reaches the supervisor from the launch and from the child's streams.
#[derive(Debug, Clone, PartialEq, Eq)]
pub enum SidecarInput {
    /// The system confirmed that the process was created.
    Spawned,
    /// A line that the child wrote to its standard output.
    Stdout(Vec<u8>),
    /// A line that the child wrote to its standard error.
    Stderr(Vec<u8>),
    /// The launch, or reading from the child, failed with this message.
    Error(String),
    /// The child exited, with this code if the system gave one.
    Exited(Option<i32>),
    /// Something of a kind that the supervisor does not know.
    Unknown,
}

/// What the supervisor relays to the log.
#[derive(Debug, Clone, PartialEq, Eq)]
pub enum SidecarEvent {
    /// A line of the child's standard output.
    OutputLine(Vec<u8>),
    /// A line of the child's standard error.
    ErrorLine(Vec<u8>),
    /// The child could not be launched, or reading from it failed.
    SpawnError(String),
    /// The child exited, with this code if the system gave one.
    Terminated(Option<i32>),
}

/// The mathematical form of a [`SidecarInput`].
pub enum InputView {
    Spawned,
    Stdout(Seq<u8>),
    Stderr(Seq<u8>),
    Error(Seq<char>),
    Exited(Option<i32>),
    Unknown,
}

/// The mathematical form of a [`SidecarEvent`].
pub enum EventView {
    OutputLine(Seq<u8>),
    ErrorLine(Seq<u8>),
    SpawnError(Seq<char>),
    Terminated(Option<i32>),
}

impl View for SidecarInput {
    type V = InputView;

    open spec fn view(&self) -> InputView {
        match self {
            SidecarInput::Spawned => InputView::Spawned,
            SidecarInput::Stdout(bytes) => InputView::Stdout(bytes@),
            SidecarInput::Stderr(bytes) => InputView::Stderr(bytes@),
            SidecarInput::Error(message) => InputView::Error(message@),
            SidecarInput::Exited(code) => InputView::Exited(*code),
            SidecarInput::Unknown => InputView::Unknown,
        }
    }
}

impl View for SidecarEvent {
    type V = EventView;

    open spec fn view(&self) -> EventView {
        match self {
            SidecarEvent::OutputLine(bytes) => EventView::OutputLine(bytes@),
            SidecarEvent::ErrorLine(bytes) => EventView::ErrorLine(bytes@),
            SidecarEvent::SpawnError(message) => EventView::SpawnError(message@),
            SidecarEvent::Terminated(code) => EventView::Terminated(*code),
        }
    }
}

/// The state after `input` arrived in `state`.
///
/// The confirmation moves a pending launch to running; an error ends a
/// pending launch; an exit ends a running child. Everything else leaves the
/// state as it is, and nothing leaves `Terminated`.
pub open spec fn next_state(state: SidecarState, input: InputView) -> SidecarState {
    match (state, input) {
        (SidecarState::Spawning, InputView::Spawned) => SidecarState::Running,
        (SidecarState::Spawning, InputView::Error(_)) => SidecarState::Terminated,
        (SidecarState::Running, InputView::Exited(_)) => SidecarState::Terminated,
        _ => state,
    }
}

/// The event that is relayed when `input` arrives in `state`, if any.
///
/// A failed launch is reported. A running child has its lines, its errors and
/// its exit relayed. Nothing else is relayed: not before the launch, and not
/// after the end.
pub open spec fn emitted(state: SidecarState, input: InputView) -> Option<EventView> {
    match (state, input) {
        (SidecarState::Spawning, InputView::Error(message)) => Some(
            EventView::SpawnError(message),
        ),
        (SidecarState::Running, InputView::Stdout(bytes)) => Some(EventView::OutputLine(bytes)),
        (SidecarState::Running, InputView::Stderr(bytes)) => Some(EventView::ErrorLine(bytes)),
        (SidecarState::Running, InputView::Error(message)) => Some(EventView::SpawnError(message)),
        (SidecarState::Running, InputView::Exited(code)) => Some(EventView::Terminated(code)),
        _ => None,
    }
}

/// Whether `event` reports that the child failed after its launch: it exited
/// with a code other than zero, or without any.
pub open spec fn is_runtime_failure(event: EventView) -> bool {
    event matches EventView::Terminated(code) && code != Some(0i32)
}

impl SidecarEvent {
    /// Tells whether the event reports that the child failed after its
    /// launch. Such a failure is logged and nothing else: the child is not
    /// launched again.
    pub fn reports_runtime_failure(&self) -> (failed: bool)
        ensures
            failed == is_runtime_failure(self@),
    {
        match self {
            SidecarEvent::Terminated(Some(code)) => *code != 0,
            SidecarEvent::Terminated(None) => true,
            _ => false,
        }
    }
}

/// The command that launches the bundled server.
#[derive(Debug, Clone, PartialEq, Eq)]
pub struct SidecarCommand {
    /// The name under which the host knows the bundled executable.
    pub program: String,
    /// The arguments: the server's entry script, then the port.
    pub args: Vec<String>,
}

/// The name under which the host knows the bundled executable.
pub open spec fn sidecar_program() -> Seq<char> {
    "node_runtime"@
}

/// The arguments of the server for `port`: the entry script and the port in
/// decimal.
pub open spec fn sidecar_args(port: u16) -> Seq<Seq<char>> {
    seq!["bin/server.js"@, decimal(port as nat)]
}

impl SidecarCommand {
    /// Whether this is the command that launches the server on `port`.
    pub open spec fn launches_on(&self, port: u16) -> bool {
        &&& self.program@ == sidecar_program()
        &&& self.args@.len() == 2
        &&& self.args@[0]@ == sidecar_args(port)[0]
        &&& self.args@[1]@ == sidecar_args(port)[1]
    }

    /// The command that launches the server on `port`.
    pub fn for_port(port: u16) -> (command: SidecarCommand)
        ensures
            command.launches_on(port),
    {
        let mut args: Vec<String> = Vec::new();
        args.push("bin/server.js".to_owned());
        args.push(decimal_string(port as u64));
        SidecarCommand { program: "node_runtime".to_owned(), args }
    }
}

/// The supervisor of one child process. It owns the child's life cycle: a
/// session has one supervisor, and a supervisor launches once.
pub struct Supervisor {
    state: SidecarState,
}

impl Supervisor {
    /// Where the child stands.
    pub closed spec fn state(&self) -> SidecarState {
        self.state
    }

    /// A supervisor whose child was not launched yet.
    pub fn new() -> (supervisor: Supervisor)
        ensures
            supervisor.state() == SidecarState::NotStarted,
    {
        Supervisor { state: SidecarState::NotStarted }
    }

    /// Where the child stands.
    pub fn current_state(&self) -> (state: SidecarState)
        ensures
            state == self.state(),
    {
        self.state
    }

    /// Whether the relay has ended: the launch failed or the child exited.
    pub fn is_finished(&self) -> (finished: bool)
        ensures
            finished == (self.state() == SidecarState::Terminated),
    {
        match self.state {
            SidecarState::Terminated => true,
            _ => false,
        }
    }

    /// Asks for the launch of the server on `port`.
    ///
    /// The first request moves the supervisor to `Spawning` and hands out the
    /// command to run. Every later request is refused and changes nothing, so
    /// that no second child is launched.
    pub fn begin_spawn(&mut self, port: u16) -> (command: Option<SidecarCommand>)
        ensures
            old(self).state() == SidecarState::NotStarted ==> final(self).state()
                == SidecarState::Spawning && (command matches Some(c) && c.launches_on(port)),
            old(self).state() != SidecarState::NotStarted ==> final(self).state() == old(
                self,
            ).state() && command is None,
    {
        match self.state {
            SidecarState::NotStarted => {
                self.state = SidecarState::Spawning;
                Some(SidecarCommand::for_port(port))
            },
            _ => None,
        }
    }

    /// Takes one input, moves the state, and hands back the event to relay.
    pub fn handle(&mut self, input: SidecarInput) -> (event: Option<SidecarEvent>)
        ensures
            final(self).state() == next_state(old(self).state(), input@),
            match event {
                Some(e) => emitted(old(self).state(), input@) == Some(e@),
                None => emitted(old(self).state(), input@) is None,
            },
    {
        match self.state {
            SidecarState::Spawning => match input {
                SidecarInput::Spawned => {
                    self.state = SidecarState::Running;
                    None
                },
                SidecarInput::Error(message) => {
                    self.state = SidecarState::Terminated;
                    Some(SidecarEvent::SpawnError(message))
                },
                _ => None,
            },
            SidecarState::Running => match input {
                SidecarInput::Stdout(bytes) => Some(SidecarEvent::OutputLine(bytes)),
                SidecarInput::Stderr(bytes) => Some(SidecarEvent::ErrorLine(bytes)),
                SidecarInput::Error(message) => Some(SidecarEvent::SpawnError(message)),
                SidecarInput::Exited(code) => {
                    self.state = SidecarState::Terminated;
                    Some(SidecarEvent::Terminated(code))
                },
                _ => None,
            },
            _ => None,
        }
    }
}

/// The mathematical form of a list of inputs.
pub open spec fn inputs_view(inputs: Seq<SidecarInput>) -> Seq<InputView> {
    Seq::new(inputs.len(), |i: int| inputs[i]@)
}

/// The mathematical form of a list of events.
pub open spec fn events_view(events: Seq<SidecarEvent>) -> Seq<EventView> {
    Seq::new(events.len(), |i: int| events[i]@)
}

/// The state after all of `inputs` arrived, one after the other, in `state`.
pub open spec fn relay_state(state: SidecarState, inputs: Seq<InputView>) -> SidecarState
    decreases inputs.len(),
{
    if inputs.len() == 0 {
        state
    } else {
        next_state(relay_state(state, inputs.drop_last()), inputs.last())
    }
}

/// The events relayed while all of `inputs` arrive, one after the other, in
/// `state`: in the order of the inputs that gave them.
pub open spec fn relay_events(state: SidecarState, inputs: Seq<InputView>) -> Seq<EventView>
    decreases inputs.len(),
{
    if inputs.len() == 0 {
        Seq::empty()
    } else {
        let earlier = relay_events(state, inputs.drop_last());
        match emitted(relay_state(state, inputs.drop_last()), inputs.last()) {
            Some(event) => earlier.push(event),
            None => earlier,
        }
    }
}

impl Supervisor {
    /// Takes a batch of inputs in order and hands back the events to relay.
    pub fn relay(&mut self, inputs: Vec<SidecarInput>) -> (events: Vec<SidecarEvent>)
        ensures
            final(self).state() == relay_state(old(self).state(), inputs_view(inputs@)),
            events_view(events@) == relay_events(old(self).state(), inputs_view(inputs@)),
    {
        let ghost start = self.state();
        let ghost all = inputs_view(inputs@);
        let mut events: Vec<SidecarEvent> = Vec::new();
        for input in it: inputs.into_iter()
            invariant
                it.seq() == inputs@,
                all == inputs_view(inputs@),
                self.state() == relay_state(start, all.take(it.index())),
                events_view(events@) == relay_events(start, all.take(it.index())),
        {
            proof {
                let next = all.take(it.index() + 1);
                assert(next.drop_last() =~= all.take(it.index()));
                assert(next.last() == input@);
            }
            let ghost before = events@;
            match self.handle(input) {
                Some(event) => {
                    events.push(event);
                    assert(events_view(events@) =~= events_view(before).push(event@));
                },
                None => {},
            }
        }
        assert(all.take(all.len() as int) =~= all);
        events
    }
}

/// After the end nothing moves and nothing is relayed, whatever arrives.
pub proof fn lemma_terminated_is_final(inputs: Seq<InputView>)
    ensures
        relay_state(SidecarState::Terminated, inputs) == SidecarState::Terminated,
        relay_events(SidecarState::Terminated, inputs) == Seq::<EventView>::empty(),
    decreases inputs.len(),
{
    if inputs.len() > 0 {
        lemma_terminated_is_final(inputs.drop_last());
    }
}

/// Inputs that arrive one batch after the other are relayed as if they had
/// arrived in one batch.
pub proof fn lemma_relay_in_batches(
    state: SidecarState,
    first: Seq<InputView>,
    second: Seq<InputView>,
)
    ensures
        relay_state(state, first + second) == relay_state(relay_state(state, first), second),
        relay_events(state, first + second) == relay_events(state, first) + relay_events(
            relay_state(state, first),
            second,
        ),
    decreases second.len(),
{
    if second.len() == 0 {
        assert(first + second =~= first);
        assert(relay_events(state, first) + Seq::<EventView>::empty() =~= relay_events(
            state,
            first,
        ));
    } else {
        lemma_relay_in_batches(state, first, second.drop_last());
        assert((first + second).drop_last() =~= first + second.drop_last());
        assert((first + second).last() == second.last());
        let middle = relay_state(state, first);
        let earlier = relay_events(middle, second.drop_last());
        match emitted(relay_state(middle, second.drop_last()), second.last()) {
            Some(event) => {
                assert((relay_events(state, first) + earlier).push(event) =~= relay_events(
                    state,
                    first,
                ) + earlier.push(event));
            },
            None => {},
        }
    }
}

/// A launch that fails ends the session at once: the failure is relayed, the
/// child never counts as running, and whatever arrives later changes nothing.
pub proof fn lemma_failed_spawn_never_runs(message: Seq<char>, later: Seq<InputView>)
    ensures
        next_state(SidecarState::Spawning, InputView::Error(message)) == SidecarState::Terminated,
        relay_state(SidecarState::Spawning, seq![InputView::Error(message)] + later)
            == SidecarState::Terminated,
        relay_events(SidecarState::Spawning, seq![InputView::Error(message)] + later) == seq![
            EventView::SpawnError(message),
        ],
{
    let first = seq![InputView::Error(message)];
    assert(first.drop_last() =~= Seq::<InputView>::empty());
    assert(relay_state(SidecarState::Spawning, first) == SidecarState::Terminated) by {
        reveal_with_fuel(relay_state, 2);
    }
    assert(relay_events(SidecarState::Spawning, first) =~= seq![EventView::SpawnError(message)])
        by {
        reveal_with_fuel(relay_events, 2);
        reveal_with_fuel(relay_state, 2);
    }
    lemma_relay_in_batches(SidecarState::Spawning, first, later);
    lemma_terminated_is_final(later);
    assert(seq![EventView::SpawnError(message)] + Seq::<EventView>::empty() =~= seq![
        EventView::SpawnError(message),
    ]);
}

/// Whether `input` is something that a running child reports before it exits:
/// a line of either stream, or an error.
pub open spec fn is_report(input: InputView) -> bool {
    input is Stdout || input is Stderr || input is Error
}

/// While the child runs, each of its lines and errors is relayed as it
/// arrives, and the state stays `Running`.
pub proof fn lemma_running_relays_each(input: InputView)
    requires
        is_report(input),
    ensures
        next_state(SidecarState::Running, input) == SidecarState::Running,
        emitted(SidecarState::Running, input) is Some,
        input matches InputView::Stdout(bytes) ==> emitted(SidecarState::Running, input) == Some(
            EventView::OutputLine(bytes),
        ),
        input matches InputView::Stderr(bytes) ==> emitted(SidecarState::Running, input) == Some(
            EventView::ErrorLine(bytes),
        ),
        input matches InputView::Error(message) ==> emitted(SidecarState::Running, input) == Some(
            EventView::SpawnError(message),
        ),
{
}

/// The exit of a running child is the last event: it is relayed with its
/// code, and nothing that arrives later is relayed.
pub proof fn lemma_exit_is_last(code: Option<i32>, later: Seq<InputView>)
    ensures
        relay_state(SidecarState::Running, seq![InputView::Exited(code)] + later)
            == SidecarState::Terminated,
        relay_events(SidecarState::Running, seq![InputView::Exited(code)] + later) == seq![
            EventView::Terminated(code),
        ],
{
    let first = seq![InputView::Exited(code)];
    assert(first.drop_last() =~= Seq::<InputView>::empty());
    assert(relay_state(SidecarState::Running, first) == SidecarState::Terminated) by {
        reveal_with_fuel(relay_state, 2);
    }
    assert(relay_events(SidecarState::Running, first) =~= seq![EventView::Terminated(code)]) by {
        reveal_with_fuel(relay_events, 2);
        reveal_with_fuel(relay_state, 2);
    }
    lemma_relay_in_batches(SidecarState::Running, first, later);
    lemma_terminated_is_final(later);
    assert(seq![EventView::Terminated(code)] + Seq::<EventView>::empty() =~= seq![
        EventView::Terminated(code),
    ]);
}

/// Nothing is lost and nothing is reordered: while the child runs, a batch of
/// reports gives one event per report, in the order of arrival.
pub proof fn lemma_running_relays_all(inputs: Seq<InputView>)
    requires
        forall|i: int| 0 <= i < inputs.len() ==> is_report(#[trigger] inputs[i]),
    ensures
        relay_state(SidecarState::Running, inputs) == SidecarState::Running,
        relay_events(SidecarState::Running, inputs).len() == inputs.len(),
        forall|i: int|
            0 <= i < inputs.len() ==> emitted(SidecarState::Running, #[trigger] inputs[i]) == Some(
                relay_events(SidecarState::Running, inputs)[i],
            ),
    decreases inputs.len(),
{
    if inputs.len() > 0 {
        let earlier = inputs.drop_last();
        assert forall|i: int| 0 <= i < earlier.len() implies is_report(#[trigger] earlier[i]) by {
            assert(earlier[i] == inputs[i]);
        }
        lemma_running_relays_all(earlier);
        assert(is_report(inputs.last()));
        lemma_running_relays_each(inputs.last());
        let events = relay_events(SidecarState::Running, inputs);
        assert forall|i: int| 0 <= i < inputs.len() implies emitted(
            SidecarState::Running,
            #[trigger] inputs[i],
        ) == Some(events[i]) by {
            if i < earlier.len() {
                assert(earlier[i] == inputs[i]);
            }
        }
    }
}

/// A child that writes one line to each stream and then exits is relayed in
/// full: its output line, its error line and its exit, and nothing after it.
pub proof fn lemma_clean_exit_is_complete(
    output: Seq<u8>,
    error: Seq<u8>,
    code: Option<i32>,
    later: Seq<InputView>,
)
    ensures
        relay_state(
            SidecarState::Running,
            seq![InputView::Stdout(output), InputView::Stderr(error), InputView::Exited(code)]
                + later,
        ) == SidecarState::Terminated,
        relay_events(
            SidecarState::Running,
            seq![InputView::Stdout(output), InputView::Stderr(error), InputView::Exited(code)]
                + later,
        ) == seq![
            EventView::OutputLine(output),
            EventView::ErrorLine(error),
            EventView::Terminated(code),
        ],
{
    let lines = seq![InputView::Stdout(output), InputView::Stderr(error)];
    let exit = seq![InputView::Exited(code)] + later;
    assert(lines + exit =~= seq![
        InputView::Stdout(output),
        InputView::Stderr(error),
        InputView::Exited(code),
    ] + later);
    lemma_running_relays_all(lines);
    lemma_exit_is_last(code, later);
    lemma_relay_in_batches(SidecarState::Running, lines, exit);
    let events = relay_events(SidecarState::Running, lines);
    assert(emitted(SidecarState::Running, lines[0]) == Some(events[0]));
    assert(emitted(SidecarState::Running, lines[1]) == Some(events[1]));
    assert(events =~= seq![EventView::OutputLine(output), EventView::ErrorLine(error)]);
    assert(events + seq![EventView::Terminated(code)] =~= seq![
        EventView::OutputLine(output),
        EventView::ErrorLine(error),
        EventView::Terminated(code),
    ]);
}

} // verus!
