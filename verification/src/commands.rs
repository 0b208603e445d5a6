//! Running commands under a concurrency limit.
//!
//! The service decides; its caller acts. The caller asks for a permit before
//! it starts a command and hands the permit back when the command has ended,
//! however it ended. The service never grants more permits than the limit,
//! and knows when the run is over. What a finished command sends to the
//! outputs of the run is decided here too.

use crate::command_line_args::CommandLineArgs;
use crate::common::OwnedCommandAndArgs;
use crate::text::{join_tokens, join_with_spaces};
use vstd::prelude::*;
use vstd::string::{StrSliceExecFns, StringExecFns};
use vstd::utf8::encode_utf8;

verus! {

/// What the service keeps track of. Commands are known by tickets, handed
/// out in the order in which the commands are started: 0, 1, 2, and so on.
pub struct ServiceState {
    /// The number of permits.
    pub limit: nat,
    /// The tickets of the commands that hold a permit, in start order.
    pub running: Seq<u64>,
    /// How many commands have been started.
    pub started: nat,
    /// The tickets of the commands that have ended, in the order in which
    /// they ended.
    pub finished: Seq<u64>,
}

/// What can happen to the service.
pub enum ServiceEvent {
    /// The caller asks to start the next command.
    Start,
    /// The caller reports that the command with this ticket has ended.
    Finish { ticket: u64 },
}

/// The service before anything has happened.
pub open spec fn initial_state(limit: nat) -> ServiceState {
    ServiceState { limit, running: Seq::empty(), started: 0, finished: Seq::empty() }
}

/// A command can start: a permit is free, and a ticket is left.
pub open spec fn can_start(state: ServiceState) -> bool {
    state.running.len() < state.limit && state.started < u64::MAX
}

/// The state after the next command has started.
pub open spec fn after_start(state: ServiceState) -> ServiceState {
    ServiceState {
        limit: state.limit,
        running: state.running.push(state.started as u64),
        started: state.started + 1,
        finished: state.finished,
    }
}

/// `at` is the first place in `running` that holds `ticket`.
pub open spec fn is_first_position(running: Seq<u64>, ticket: u64, at: int) -> bool {
    &&& 0 <= at < running.len()
    &&& running[at] == ticket
    &&& forall|k: int| 0 <= k < at ==> running[k] != ticket
}

/// The first place in `running` that holds `ticket`.
pub open spec fn first_position(running: Seq<u64>, ticket: u64) -> int {
    choose|at: int| is_first_position(running, ticket, at)
}

/// The state after a running command has ended.
pub open spec fn after_finish(state: ServiceState, ticket: u64) -> ServiceState {
    ServiceState {
        limit: state.limit,
        running: state.running.remove(first_position(state.running, ticket)),
        started: state.started,
        finished: state.finished.push(ticket),
    }
}

/// The number of permits that no command holds.
pub open spec fn free_permits(state: ServiceState) -> nat {
    if state.running.len() < state.limit {
        (state.limit - state.running.len()) as nat
    } else {
        0
    }
}

/// What an event does to the state. A start without a free permit and the
/// end of a command that is not running change nothing.
pub open spec fn step(state: ServiceState, event: ServiceEvent) -> ServiceState {
    match event {
        ServiceEvent::Start => if can_start(state) {
            after_start(state)
        } else {
            state
        },
        ServiceEvent::Finish { ticket } => if state.running.contains(ticket) {
            after_finish(state, ticket)
        } else {
            state
        },
    }
}

/// The state after a sequence of events.
pub open spec fn after_events(state: ServiceState, events: Seq<ServiceEvent>) -> ServiceState
    decreases events.len(),
{
    if events.len() == 0 {
        state
    } else {
        step(after_events(state, events.drop_last()), events.last())
    }
}

/// What holds of every state the service can be in: no more commands run
/// than there are permits, every started command is running or has ended,
/// and no ticket is in use twice.
pub open spec fn consistent(state: ServiceState) -> bool {
    &&& state.running.len() <= state.limit
    &&& state.started <= u64::MAX
    &&& state.running.len() + state.finished.len() == state.started
    &&& state.running.no_duplicates()
    &&& forall|i: int|
        0 <= i < state.running.len() ==> (#[trigger] state.running[i]) < state.started
}

/// Commands have ended in the order in which they were started, and a
/// running command is the one started after those that have ended.
pub open spec fn in_start_order(state: ServiceState) -> bool {
    &&& forall|i: int| 0 <= i < state.finished.len() ==> (#[trigger] state.finished[i]) == i
    &&& forall|i: int|
        0 <= i < state.running.len() ==> (#[trigger] state.running[i]) == state.finished.len() + i
}

/// There is only one first place.
proof fn lemma_first_position(running: Seq<u64>, ticket: u64, at: int)
    requires
        is_first_position(running, ticket, at),
    ensures
        first_position(running, ticket) == at,
{
}

/// Removing the running command with a ticket that only it holds.
proof fn lemma_remove_running(running: Seq<u64>, at: int)
    requires
        0 <= at < running.len(),
        running.no_duplicates(),
    ensures
        first_position(running, running[at]) == at,
        running.remove(at).len() == running.len() - 1,
        running.remove(at).no_duplicates(),
        forall|i: int| 0 <= i < at ==> #[trigger] running.remove(at)[i] == running[i],
        forall|i: int|
            at <= i < running.len() - 1 ==> #[trigger] running.remove(at)[i] == running[i + 1],
{
    lemma_first_position(running, running[at], at);
}

/// An event keeps a consistent state consistent.
pub proof fn lemma_step_consistent(state: ServiceState, event: ServiceEvent)
    requires
        consistent(state),
    ensures
        consistent(step(state, event)),
{
    match event {
        ServiceEvent::Start => {},
        ServiceEvent::Finish { ticket } => {
            if state.running.contains(ticket) {
                let at = state.running.index_of(ticket);
                lemma_remove_running(state.running, at);
            }
        },
    }
}

/// With at most one permit, an event keeps the start order.
pub proof fn lemma_step_in_start_order(state: ServiceState, event: ServiceEvent)
    requires
        consistent(state),
        in_start_order(state),
        state.limit <= 1,
    ensures
        in_start_order(step(state, event)),
{
    match event {
        ServiceEvent::Start => {},
        ServiceEvent::Finish { ticket } => {
            if state.running.contains(ticket) {
                let at = state.running.index_of(ticket);
                lemma_remove_running(state.running, at);
            }
        },
    }
}

/// Whatever is asked of the service, in whatever order: at no time do more
/// commands hold a permit than the limit allows, and the number of permits in
/// use is the number of commands started and not yet ended.
pub proof fn lemma_permits_within_limit(limit: nat, events: Seq<ServiceEvent>)
    ensures
        consistent(after_events(initial_state(limit), events)),
        after_events(initial_state(limit), events).running.len() <= limit,
        after_events(initial_state(limit), events).limit == limit,
    decreases events.len(),
{
    if events.len() > 0 {
        lemma_permits_within_limit(limit, events.drop_last());
        lemma_step_consistent(
            after_events(initial_state(limit), events.drop_last()),
            events.last(),
        );
    }
}

/// With a concurrency limit of one, commands end in the order in which they
/// were started: the command that ends as number `i` is the one that was
/// started as number `i`. Commands are started in the order in which they
/// are handed to the service, so they end in the order in which they were
/// made.
pub proof fn lemma_one_job_keeps_order(events: Seq<ServiceEvent>)
    ensures
        in_start_order(after_events(initial_state(1), events)),
        forall|i: int|
            0 <= i < after_events(initial_state(1), events).finished.len()
                ==> (#[trigger] after_events(initial_state(1), events).finished[i]) == i,
    decreases events.len(),
{
    if events.len() > 0 {
        let before = after_events(initial_state(1), events.drop_last());
        lemma_one_job_keeps_order(events.drop_last());
        lemma_permits_within_limit(1, events.drop_last());
        lemma_step_in_start_order(before, events.last());
    }
}

/// What the caller of the service does next.
#[derive(Debug, Clone, Copy, PartialEq, Eq, Structural)]
pub enum NextStep {
    /// Wait for the next command to arrive or for a running command to end,
    /// whichever comes first.
    Receive,
    /// Wait for a running command to end.
    AwaitCompletion,
    /// Nothing runs and nothing more can start: the run is over.
    Shutdown,
}

/// What the caller of a service in this state does next, given whether the
/// producer has closed the channel.
pub open spec fn next_step_of(state: ServiceState, channel_closed: bool) -> NextStep {
    if !channel_closed && can_start(state) {
        NextStep::Receive
    } else if state.running.len() > 0 {
        NextStep::AwaitCompletion
    } else {
        NextStep::Shutdown
    }
}

/// Grants the permits of a run and keeps count of the commands in flight.
pub struct CommandService {
    limit: usize,
    running: Vec<u64>,
    started: u64,
    finished: Ghost<Seq<u64>>,
}

impl View for CommandService {
    type V = ServiceState;

    closed spec fn view(&self) -> ServiceState {
        ServiceState {
            limit: self.limit as nat,
            running: self.running@,
            started: self.started as nat,
            finished: self.finished@,
        }
    }
}

impl CommandService {
    /// The service is in a state that it can reach: see [`consistent`].
    pub open spec fn wf(&self) -> bool {
        consistent(self@)
    }

    /// A service with as many permits as the configuration allows jobs.
    pub fn new(command_line_args: &CommandLineArgs) -> (service: Self)
        ensures
            service@ == initial_state(command_line_args.jobs as nat),
            service.wf(),
    {
        Self {
            limit: command_line_args.jobs,
            running: Vec::new(),
            started: 0,
            finished: Ghost(Seq::empty()),
        }
    }

    /// The number of permits.
    pub fn limit(&self) -> (limit: usize)
        ensures
            limit == self@.limit,
    {
        self.limit
    }

    /// The number of commands that hold a permit. It never exceeds the limit.
    pub fn outstanding(&self) -> (count: usize)
        ensures
            count == self@.running.len(),
            self.wf() ==> count <= self@.limit,
    {
        self.running.len()
    }

    /// The number of free permits.
    pub fn available_permits(&self) -> (count: usize)
        ensures
            count == free_permits(self@),
            self.wf() ==> count == self@.limit - self@.running.len(),
    {
        if self.running.len() < self.limit {
            self.limit - self.running.len()
        } else {
            0
        }
    }

    /// Takes a permit for the next command, if one is free, and returns the
    /// ticket of the command.
    pub fn try_start(&mut self) -> (ticket: Option<u64>)
        ensures
            final(self)@ == step(old(self)@, ServiceEvent::Start),
            ticket is Some <==> can_start(old(self)@),
            ticket matches Some(t) ==> t == old(self)@.started,
            old(self).wf() ==> final(self).wf(),
    {
        proof {
            if self.wf() {
                lemma_step_consistent(self@, ServiceEvent::Start);
            }
        }
        if self.running.len() < self.limit && self.started < u64::MAX {
            let ticket = self.started;
            self.started = ticket + 1;
            self.running.push(ticket);
            Some(ticket)
        } else {
            None
        }
    }

    /// Hands back the permit of the command with this ticket. Returns
    /// whether the command was running; if it was not, nothing changes.
    pub fn finish(&mut self, ticket: u64) -> (was_running: bool)
        ensures
            final(self)@ == step(old(self)@, (ServiceEvent::Finish { ticket })),
            was_running == old(self)@.running.contains(ticket),
            old(self).wf() ==> final(self).wf(),
    {
        proof {
            if self.wf() {
                lemma_step_consistent(self@, ServiceEvent::Finish { ticket });
            }
        }
        let mut i: usize = 0;
        while i < self.running.len()
            invariant
                *self == *old(self),
                self.wf() ==> consistent(step(self@, ServiceEvent::Finish { ticket })),
                i <= self.running.len(),
                forall|k: int| 0 <= k < i ==> self.running@[k] != ticket,
            decreases self.running.len() - i,
        {
            if self.running[i] == ticket {
                proof {
                    lemma_first_position(self.running@, ticket, i as int);
                }
                self.running.remove(i);
                self.finished = Ghost(self.finished@.push(ticket));
                return true;
            }
            i += 1;
        }
        false
    }

    /// What to do next, given whether the producer has closed the channel:
    /// receive while a permit is free and commands may still arrive, else
    /// wait for a running command, and shut down when none is left.
    pub fn next_step(&self, channel_closed: bool) -> (next: NextStep)
        ensures
            next == next_step_of(self@, channel_closed),
            next == NextStep::Shutdown ==> self@.running.len() == 0,
    {
        if !channel_closed && self.running.len() < self.limit && self.started < u64::MAX {
            NextStep::Receive
        } else if self.running.len() > 0 {
            NextStep::AwaitCompletion
        } else {
            NextStep::Shutdown
        }
    }
}

/// How a command ended.
#[derive(Debug)]
pub enum CommandOutcome {
    /// The process ran to its end; what it wrote was captured.
    Completed { stdout: Vec<u8>, stderr: Vec<u8> },
    /// The timeout came first, and the process was terminated.
    TimedOut,
    /// The process could not be started.
    SpawnFailed,
}

/// What a finished command sends to the outputs of the run.
#[derive(Debug)]
pub struct ForwardedOutput {
    pub stdout: Vec<u8>,
    pub stderr: Vec<u8>,
}

/// The notice for a command that ran into the timeout: one line that names
/// the command.
pub open spec fn timeout_notice(command: Seq<Seq<char>>) -> Seq<char> {
    ("timeout running command: "@ + join_with_spaces(command)).push('\n')
}

/// What a command that ended sends to the standard output of the run: what
/// it wrote there itself, or the notice of its timeout.
pub open spec fn forwarded_stdout(command: Seq<Seq<char>>, outcome: CommandOutcome) -> Seq<u8> {
    match outcome {
        CommandOutcome::Completed { stdout, stderr } => stdout@,
        CommandOutcome::TimedOut => encode_utf8(timeout_notice(command)),
        CommandOutcome::SpawnFailed => Seq::empty(),
    }
}

/// What a command that ended sends to the standard error of the run: what it
/// wrote there itself, and nothing else.
pub open spec fn forwarded_stderr(outcome: CommandOutcome) -> Seq<u8> {
    match outcome {
        CommandOutcome::Completed { stdout, stderr } => stderr@,
        CommandOutcome::TimedOut => Seq::empty(),
        CommandOutcome::SpawnFailed => Seq::empty(),
    }
}

/// The notice for a command that ran into the timeout.
pub fn timeout_notice_text(command: &OwnedCommandAndArgs) -> (notice: String)
    ensures
        notice@ == timeout_notice(command@),
{
    let mut tokens: Vec<String> = Vec::new();
    tokens.push(command.command_path.clone());
    let mut i: usize = 0;
    while i < command.args.len()
        invariant
            i <= command.args.len(),
            tokens.deep_view() == command@.take(1 + i),
        decreases command.args.len() - i,
    {
        tokens.push(command.args[i].clone());
        assert(command@.take(1 + i + 1) == command@.take(1 + i).push(command@[1 + i]));
        i += 1;
    }
    assert(command@.take(command@.len() as int) == command@);
    let mut notice = "timeout running command: ".to_owned();
    let joined = join_tokens(&tokens);
    notice.append(joined.as_str());
    notice.push('\n');
    notice
}

/// What a command sends to the outputs of the run once it has ended. A
/// completed command has its captured output forwarded byte for byte. A
/// command that ran into the timeout puts its notice on standard output and
/// nothing on standard error. A command that could not be started sends
/// nothing.
pub fn forwarded_output(command: &OwnedCommandAndArgs, outcome: CommandOutcome) -> (output:
    ForwardedOutput)
    ensures
        output.stdout@ == forwarded_stdout(command@, outcome),
        output.stderr@ == forwarded_stderr(outcome),
{
    match outcome {
        CommandOutcome::Completed { stdout, stderr } => ForwardedOutput { stdout, stderr },
        CommandOutcome::TimedOut => {
            let notice = timeout_notice_text(command);
            ForwardedOutput { stdout: notice.as_str().as_bytes_vec(), stderr: Vec::new() }
        },
        CommandOutcome::SpawnFailed => ForwardedOutput { stdout: Vec::new(), stderr: Vec::new() },
    }
}

} // verus!
