//! The supervision of one running child: how long to wait for it, when to ask
//! its process group to end, when to kill the group, and what the run comes to.
//! The caller owns the child; it performs each action and reports what
//! happened as the next event.

use vstd::prelude::*;
use vstd::string::StringExecFns;
use crate::result::{CommandResult, Seconds};
use crate::text::{push_signed_decimal, signed_decimal};

verus! {

/// The seconds that a child is given to exit after it was asked to.
pub const GRACE_SECONDS: u64 = 1;

/// Where the supervision of a child stands.
#[derive(Clone, Copy, Debug, PartialEq, Eq, Structural)]
pub enum Phase {
    /// The child runs and its time limit has not passed.
    Running,
    /// The time limit has passed and the group was asked to end.
    Terminating,
    /// The group did not end in time and is being killed.
    Killing,
    /// The run is over.
    Exited,
}

/// The signal sent to a process group.
#[derive(Clone, Copy, Debug, PartialEq, Eq, Structural)]
pub enum GroupSignal {
    Terminate,
    Kill,
}

/// What the caller observed.
#[derive(Debug)]
pub enum Event {
    /// The child exited: with `code`, or by a signal where there is none.
    /// `status` describes the exit in words.
    ChildExited { code: Option<i32>, status: String },
    /// The wait ended before the child did.
    WaitElapsed,
    /// The signal was sent.
    SignalSent,
    /// The signal could not be sent.
    SignalFailed { reason: String },
}

/// What a run came to.
#[derive(Debug)]
pub enum Verdict {
    /// The child exited with a code, within its time limit.
    Exited { code: i32 },
    /// The child was ended by a signal, within its time limit.
    Signaled,
    /// The time limit passed; the child exited after it was asked to.
    TimedOut { status: String },
    /// The time limit passed and the group was killed.
    Killed,
    /// A signal could not be sent to the group.
    SignalFailed { signal: GroupSignal, reason: String },
}

/// What the caller does next.
#[derive(Debug)]
pub enum Action {
    /// Wait for the child, `seconds` at most.
    Wait { seconds: u64 },
    /// Send the terminate signal to the child's process group, and wait for
    /// the child, `grace_seconds` at most.
    Terminate { grace_seconds: u64 },
    /// Send the kill signal to the child's process group.
    Kill,
    /// Stop: the run is over.
    Finish { verdict: Verdict },
    /// The event does not apply in this phase; nothing is to be done.
    Nothing,
}

/// The transitions. From `Running` a child that exits ends the run, and a
/// wait that elapses asks the group to end. From `Terminating` a child that
/// exits ends the run as timed out, and a wait that elapses has the group
/// killed. From `Killing` the sent signal ends the run. A signal that cannot
/// be sent ends the run too. `Exited` is left by no event.
pub open spec fn transition(phase: Phase, event: Event) -> (Phase, Action) {
    match (phase, event) {
        (Phase::Running, Event::ChildExited { code: Some(c), status }) => (
            Phase::Exited,
            Action::Finish { verdict: Verdict::Exited { code: c } },
        ),
        (Phase::Running, Event::ChildExited { code: None, status }) => (
            Phase::Exited,
            Action::Finish { verdict: Verdict::Signaled },
        ),
        (Phase::Running, Event::WaitElapsed) => (
            Phase::Terminating,
            Action::Terminate { grace_seconds: GRACE_SECONDS },
        ),
        (Phase::Terminating, Event::ChildExited { code, status }) => (
            Phase::Exited,
            Action::Finish { verdict: Verdict::TimedOut { status } },
        ),
        (Phase::Terminating, Event::WaitElapsed) => (Phase::Killing, Action::Kill),
        (Phase::Terminating, Event::SignalFailed { reason }) => (
            Phase::Exited,
            Action::Finish {
                verdict: Verdict::SignalFailed { signal: GroupSignal::Terminate, reason },
            },
        ),
        (Phase::Killing, Event::SignalSent) => (
            Phase::Exited,
            Action::Finish { verdict: Verdict::Killed },
        ),
        (Phase::Killing, Event::SignalFailed { reason }) => (
            Phase::Exited,
            Action::Finish { verdict: Verdict::SignalFailed { signal: GroupSignal::Kill, reason } },
        ),
        _ => (phase, Action::Nothing),
    }
}

/// The supervisor of one child.
#[derive(Debug)]
pub struct Supervisor {
    phase: Phase,
    time_limit: u64,
}

impl Supervisor {
    /// Where the supervision stands.
    pub closed spec fn phase(&self) -> Phase {
        self.phase
    }

    /// The seconds that the child may run.
    pub closed spec fn limit(&self) -> u64 {
        self.time_limit
    }

    /// The supervisor of a child that was just started.
    pub fn new(time_limit: u64) -> (r: Self)
        ensures
            r.phase() == Phase::Running,
            r.limit() == time_limit,
    {
        Supervisor { phase: Phase::Running, time_limit }
    }

    /// Where the supervision stands.
    pub fn current_phase(&self) -> (p: Phase)
        ensures
            p == self.phase(),
    {
        self.phase
    }

    /// The first action: wait for the child as long as its time limit says.
    pub fn begin(&self) -> (action: Action)
        ensures
            action == (Action::Wait { seconds: self.limit() }),
    {
        Action::Wait { seconds: self.time_limit }
    }

    /// Takes the next event and says what to do.
    pub fn on_event(&mut self, event: Event) -> (action: Action)
        ensures
            (final(self).phase(), action) == transition(old(self).phase(), event),
            final(self).limit() == old(self).limit(),
    {
        match self.phase {
            Phase::Running => match event {
                Event::ChildExited { code: Some(c), status } => {
                    self.phase = Phase::Exited;
                    Action::Finish { verdict: Verdict::Exited { code: c } }
                },
                Event::ChildExited { code: None, status } => {
                    self.phase = Phase::Exited;
                    Action::Finish { verdict: Verdict::Signaled }
                },
                Event::WaitElapsed => {
                    self.phase = Phase::Terminating;
                    Action::Terminate { grace_seconds: GRACE_SECONDS }
                },
                _ => Action::Nothing,
            },
            Phase::Terminating => match event {
                Event::ChildExited { code, status } => {
                    self.phase = Phase::Exited;
                    Action::Finish { verdict: Verdict::TimedOut { status } }
                },
                Event::WaitElapsed => {
                    self.phase = Phase::Killing;
                    Action::Kill
                },
                Event::SignalFailed { reason } => {
                    self.phase = Phase::Exited;
                    Action::Finish {
                        verdict: Verdict::SignalFailed { signal: GroupSignal::Terminate, reason },
                    }
                },
                _ => Action::Nothing,
            },
            Phase::Killing => match event {
                Event::SignalSent => {
                    self.phase = Phase::Exited;
                    Action::Finish { verdict: Verdict::Killed }
                },
                Event::SignalFailed { reason } => {
                    self.phase = Phase::Exited;
                    Action::Finish {
                        verdict: Verdict::SignalFailed { signal: GroupSignal::Kill, reason },
                    }
                },
                _ => Action::Nothing,
            },
            Phase::Exited => Action::Nothing,
        }
    }
}

/// How the output of a child reaches the client.
#[derive(Clone, Copy, Debug, PartialEq, Eq, Structural)]
pub enum Mode {
    /// Captured whole and returned with the result.
    Buffered,
    /// Sent line by line while the child runs.
    Streamed,
}

/// The failure that a verdict is reported as; none for a child that exited
/// with a code within its time limit.
pub open spec fn failure_text(verdict: Verdict) -> Option<Seq<char>> {
    match verdict {
        Verdict::Exited { code } => None,
        Verdict::Signaled => Some("Terminated by signal"@),
        Verdict::TimedOut { status } => Some("Time Limit Exceeded: "@ + status@),
        Verdict::Killed => Some("Time Limit Exceeded: killed"@),
        Verdict::SignalFailed { signal: GroupSignal::Terminate, reason } => Some(
            "Kill failed: "@ + reason@,
        ),
        Verdict::SignalFailed { signal: GroupSignal::Kill, reason } => Some(
            "Force kill failed: "@ + reason@,
        ),
    }
}

/// The `status` label under which a verdict is counted.
pub open spec fn status_label(verdict: Verdict) -> Seq<char> {
    match verdict {
        Verdict::Exited { code } => "ok"@,
        Verdict::Signaled => "terminated"@,
        _ => "timeout"@,
    }
}

/// The `code` label under which a verdict is counted: the exit code where
/// there is one, and the empty text otherwise.
pub open spec fn code_label(verdict: Verdict) -> Seq<char> {
    match verdict {
        Verdict::Exited { code } => signed_decimal(code as int),
        _ => Seq::<char>::empty(),
    }
}

impl Verdict {
    /// Whether the child ended within its time limit. Only for such a run is
    /// the output collected: read to its end where it is buffered, waited
    /// for where it is streamed.
    pub fn in_time(&self) -> (r: bool)
        ensures
            r == (*self is Exited || *self is Signaled),
    {
        match self {
            Verdict::Exited { .. } => true,
            Verdict::Signaled => true,
            _ => false,
        }
    }

    /// The two labels, `status` and `code`, under which this run is counted.
    /// Every run has one verdict, so it is counted once.
    pub fn metric_labels(&self) -> (labels: (String, String))
        ensures
            labels.0@ == status_label(*self),
            labels.1@ == code_label(*self),
    {
        match self {
            Verdict::Exited { code } => {
                let mut text = String::new();
                push_signed_decimal(&mut text, *code as i64);
                (String::from_str("ok"), text)
            },
            Verdict::Signaled => (String::from_str("terminated"), String::new()),
            _ => (String::from_str("timeout"), String::new()),
        }
    }

    /// The result of a run. A child that exited with a code gives a success,
    /// with the captured output in buffered mode and without it in streamed
    /// mode. A child ended by a signal, or after its time limit, gives a
    /// failure that says so. A signal that could not be sent is an error of
    /// the execution itself.
    pub fn conclude(
        self,
        mode: Mode,
        stdout: String,
        stderr: String,
        time_cost: Seconds,
        start_time: Seconds,
    ) -> (r: Result<CommandResult, String>)
        ensures
            match self {
                Verdict::Exited { code } => r matches Ok(res) && res.error is None
                    && res.exit_code == Some(code) && res.time_cost == Some(time_cost)
                    && res.start_time == Some(start_time) && (mode == Mode::Buffered ==> res.stdout
                    == Some(stdout) && res.stderr == Some(stderr)) && (mode == Mode::Streamed
                    ==> res.stdout is None && res.stderr is None),
                Verdict::SignalFailed { .. } => r matches Err(message) && Some(message@)
                    == failure_text(self),
                _ => r matches Ok(res) && res.is_err_shape() && Some(res.error->0@)
                    == failure_text(self),
            },
    {
        match self {
            Verdict::Exited { code } => match mode {
                Mode::Buffered => Ok(CommandResult::ok(stdout, stderr, code, time_cost, start_time)),
                Mode::Streamed => Ok(CommandResult::chunked_ok(code, time_cost, start_time)),
            },
            Verdict::Signaled => Ok(CommandResult::err(String::from_str("Terminated by signal"))),
            Verdict::TimedOut { status } => {
                let mut text = String::from_str("Time Limit Exceeded: ");
                text.append(status.as_str());
                Ok(CommandResult::err(text))
            },
            Verdict::Killed => Ok(
                CommandResult::err(String::from_str("Time Limit Exceeded: killed")),
            ),
            Verdict::SignalFailed { signal, reason } => {
                let mut text = match signal {
                    GroupSignal::Terminate => String::from_str("Kill failed: "),
                    GroupSignal::Kill => String::from_str("Force kill failed: "),
                };
                text.append(reason.as_str());
                Err(text)
            },
        }
    }
}

/// Whether `text` begins with `head`.
pub open spec fn begins_with(text: Seq<char>, head: Seq<char>) -> bool {
    head.len() <= text.len() && text.take(head.len() as int) == head
}

/// A run whose time limit passed and whose signals were sent is reported as
/// a failure that begins with "Time Limit Exceeded".
pub proof fn lemma_timeout_text(phase: Phase, event: Event)
    requires
        phase == Phase::Terminating || phase == Phase::Killing,
        !(event is SignalFailed),
    ensures
        transition(phase, event).1 matches Action::Finish { verdict } ==> failure_text(verdict)
            is Some && begins_with(failure_text(verdict)->0, "Time Limit Exceeded"@),
{
    reveal_strlit("Time Limit Exceeded");
    reveal_strlit("Time Limit Exceeded: ");
    reveal_strlit("Time Limit Exceeded: killed");
    match transition(phase, event).1 {
        Action::Finish { verdict } => {
            match verdict {
                Verdict::TimedOut { status } => {
                    let whole = "Time Limit Exceeded: "@ + status@;
                    assert(whole.take(19) == "Time Limit Exceeded"@);
                },
                Verdict::Killed => {
                    assert("Time Limit Exceeded: killed"@.take(19) == "Time Limit Exceeded"@);
                },
                _ => {},
            }
        },
        _ => {},
    }
}

/// The seconds of waiting that an action asks for.
pub open spec fn wait_of(action: Action) -> nat {
    match action {
        Action::Wait { seconds } => seconds as nat,
        Action::Terminate { grace_seconds } => grace_seconds as nat,
        _ => 0,
    }
}

/// The seconds of waiting that can still be asked for from a phase on.
pub open spec fn wait_left(phase: Phase) -> nat {
    match phase {
        Phase::Running => GRACE_SECONDS as nat,
        _ => 0,
    }
}

/// The steps that lie between a phase and the end of the run, at most.
pub open spec fn steps_left(phase: Phase) -> nat {
    match phase {
        Phase::Running => 3,
        Phase::Terminating => 2,
        Phase::Killing => 1,
        Phase::Exited => 0,
    }
}

/// No step asks for more waiting than its phase has left: after the wait for
/// the time limit, a run waits one more second at most.
pub proof fn lemma_wait_is_bounded(phase: Phase, event: Event)
    ensures
        wait_of(transition(phase, event).1) + wait_left(transition(phase, event).0) <= wait_left(
            phase,
        ),
{
}

/// An event either does not apply, or brings the run nearer to its end; the
/// run is over exactly when a verdict is handed out, and nothing leaves
/// `Exited`.
pub proof fn lemma_progress(phase: Phase, event: Event)
    ensures
        transition(phase, event).1 is Nothing ==> transition(phase, event).0 == phase,
        !(transition(phase, event).1 is Nothing) ==> steps_left(transition(phase, event).0)
            < steps_left(phase),
        transition(phase, event).1 is Finish <==> phase != Phase::Exited && transition(
            phase,
            event,
        ).0 == Phase::Exited,
        phase == Phase::Exited ==> transition(phase, event) == (Phase::Exited, Action::Nothing),
{
}

/// A run whose time limit passed never ends as a plain exit: its verdict is
/// a timeout, a kill, or a signal that could not be sent.
pub proof fn lemma_timeout_verdict(phase: Phase, event: Event)
    requires
        phase == Phase::Terminating || phase == Phase::Killing,
    ensures
        transition(phase, event).1 matches Action::Finish { verdict } ==> verdict is TimedOut
            || verdict is Killed || verdict is SignalFailed,
{
}

/// Where a run stands after a sequence of events.
pub struct Trace {
    /// The phase reached.
    pub phase: Phase,
    /// The seconds of waiting asked for on the way.
    pub waited: nat,
    /// The number of verdicts handed out on the way.
    pub verdicts: nat,
}

/// The run from `phase` through `events`, taken in order.
pub open spec fn trace(phase: Phase, events: Seq<Event>) -> Trace
    decreases events.len(),
{
    if events.len() == 0 {
        Trace { phase, waited: 0, verdicts: 0 }
    } else {
        let before = trace(phase, events.drop_last());
        let step = transition(before.phase, events.last());
        Trace {
            phase: step.0,
            waited: before.waited + wait_of(step.1),
            verdicts: before.verdicts + if step.1 is Finish {
                1nat
            } else {
                0nat
            },
        }
    }
}

/// Whatever events arrive, and in whatever order: after the wait for the
/// time limit a run asks for one more second of waiting at most, and it
/// hands out one verdict at most, exactly one where it comes to its end. A
/// run is therefore counted once.
pub proof fn lemma_trace(phase: Phase, events: Seq<Event>)
    ensures
        trace(phase, events).waited + wait_left(trace(phase, events).phase) <= wait_left(phase),
        trace(phase, events).waited <= GRACE_SECONDS,
        trace(phase, events).verdicts <= 1,
        trace(phase, events).verdicts == 1 <==> phase != Phase::Exited && trace(
            phase,
            events,
        ).phase == Phase::Exited,
        steps_left(trace(phase, events).phase) <= steps_left(phase),
    decreases events.len(),
{
    if events.len() > 0 {
        lemma_trace(phase, events.drop_last());
        let before = trace(phase, events.drop_last());
        lemma_wait_is_bounded(before.phase, events.last());
        lemma_progress(before.phase, events.last());
    }
}

} // verus!
