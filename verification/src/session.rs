//! The course of a session, and the step of the loop that carries out
//! submitted commands.
//!
//! The caller owns the process and its pipes. It goes through the steps of
//! [`session_steps`] in order. While it serves, it hands the four shared
//! cells to [`poll`] at every tick and writes the lines that come back to
//! the tool's input, until it is told to shut down.

use vstd::prelude::*;
use vstd::string::*;
use crate::command::{command_of, dispatch, effect_of};
use crate::device::DeviceView;
use crate::registry::Registry;
use crate::text::{lemma_split_single, text_of};

verus! {

/// The pause between two ticks of the command loop, in milliseconds.
pub const TICK_MILLIS: u64 = 100;

/// The pause before the first tick, in milliseconds, in which the tool
/// answers the opening lines.
pub const SETTLE_MILLIS: u64 = 500;

/// One thing that the caller does in the course of a session.
///
/// A step that fails is passed over and the next one is taken, unless
/// [`Step::fatal`] says that the session ends with it.
#[derive(Clone, Debug, PartialEq, Eq)]
pub enum Step {
    /// Run the tool once with this single argument.
    Reset(String),
    /// Run the tool once with these arguments and, if it ended well, take
    /// its output into the registry with
    /// [`crate::discovery::seed_registry`].
    Enumerate(Vec<String>),
    /// Start the long-lived tool with its input, output and error piped.
    Spawn,
    /// Write this line to the tool's input.
    Write(String),
    /// Start the loop that reads the tool's output, beside this one.
    Listen,
    /// Run the command loop until [`poll`] answers with the shutdown.
    Serve,
    /// Wait, however long it takes, until the tool has ended.
    Wait,
}

/// The mathematical value of a [`Step`].
pub enum StepView {
    Reset(Seq<char>),
    Enumerate(Seq<Seq<char>>),
    Spawn,
    Write(Seq<char>),
    Listen,
    Serve,
    Wait,
}

impl DeepView for Step {
    type V = StepView;

    open spec fn deep_view(&self) -> StepView {
        match *self {
            Step::Reset(argument) => StepView::Reset(argument@),
            Step::Enumerate(arguments) => StepView::Enumerate(arguments.deep_view()),
            Step::Spawn => StepView::Spawn,
            Step::Write(line) => StepView::Write(line@),
            Step::Listen => StepView::Listen,
            Step::Serve => StepView::Serve,
            Step::Wait => StepView::Wait,
        }
    }
}

/// Whether a session cannot go on when `step` fails. That holds of the start
/// of the tool alone.
pub open spec fn is_fatal(step: StepView) -> bool {
    step is Spawn
}

impl Step {
    /// Whether the session ends when this step fails.
    pub fn fatal(&self) -> (fatal: bool)
        ensures
            fatal == is_fatal(self.deep_view()),
    {
        match self {
            Step::Spawn => true,
            _ => false,
        }
    }
}

/// The course of a session from its first step to its last.
///
/// The adapter is switched off and on and given an agent. The devices that
/// were paired earlier are taken into the registry. The tool is started and
/// told to power up, to accept pairing, to be visible and to scan. Then its
/// output is read and commands are served. At the end the tool is told to
/// exit and is waited for.
pub open spec fn session_script() -> Seq<StepView> {
    seq![
        StepView::Reset("power off"@),
        StepView::Reset("power on"@),
        StepView::Reset("agent on"@),
        StepView::Reset("default-agent"@),
        StepView::Enumerate(seq!["devices"@, "Paired"@]),
        StepView::Spawn,
        StepView::Write("power on\n"@),
        StepView::Write("pairable on\n"@),
        StepView::Write("discoverable on\n"@),
        StepView::Write("scan on\n"@),
        StepView::Listen,
        StepView::Serve,
        StepView::Write("exit\n"@),
        StepView::Wait,
    ]
}

/// The steps of [`session_script`].
pub fn session_steps() -> (steps: Vec<Step>)
    ensures
        steps.deep_view() == session_script(),
{
    let mut listing: Vec<String> = Vec::new();
    listing.push(String::from_str("devices"));
    listing.push(String::from_str("Paired"));
    assert(listing.deep_view() =~= seq!["devices"@, "Paired"@]);
    let mut steps: Vec<Step> = Vec::new();
    steps.push(Step::Reset(String::from_str("power off")));
    steps.push(Step::Reset(String::from_str("power on")));
    steps.push(Step::Reset(String::from_str("agent on")));
    steps.push(Step::Reset(String::from_str("default-agent")));
    steps.push(Step::Enumerate(listing));
    steps.push(Step::Spawn);
    steps.push(Step::Write(String::from_str("power on\n")));
    steps.push(Step::Write(String::from_str("pairable on\n")));
    steps.push(Step::Write(String::from_str("discoverable on\n")));
    steps.push(Step::Write(String::from_str("scan on\n")));
    steps.push(Step::Listen);
    steps.push(Step::Serve);
    steps.push(Step::Write(String::from_str("exit\n")));
    steps.push(Step::Wait);
    steps
}

/// What the caller does after a tick.
#[derive(Clone, Debug, PartialEq, Eq)]
pub enum Poll {
    /// Write these lines to the tool, in order, and go on.
    Write(Vec<String>),
    /// Leave the loop, write the closing sequence and wait for the tool to
    /// end.
    Shutdown,
}

/// The mathematical value of a [`Poll`].
pub enum PollView {
    Write(Seq<Seq<char>>),
    Shutdown,
}

impl View for Poll {
    type V = PollView;

    open spec fn view(&self) -> PollView {
        match *self {
            Poll::Write(lines) => PollView::Write(lines.deep_view()),
            Poll::Shutdown => PollView::Shutdown,
        }
    }
}

/// The four cells that the loops of a session share.
pub struct SessionView {
    pub devices: Seq<DeviceView>,
    pub input: Seq<char>,
    pub running: bool,
    pub execute: bool,
}

/// The session after a tick, and what the caller is told to do.
///
/// A session that no longer runs is left alone and shut down. Without a
/// pending command nothing happens. A pending command is taken out of the
/// input buffer, which is left empty, and carried out.
pub open spec fn polled(session: SessionView) -> (SessionView, PollView) {
    if !session.running {
        (session, PollView::Shutdown)
    } else if !session.execute {
        (session, PollView::Write(Seq::empty()))
    } else {
        let effect = effect_of(command_of(session.input), session.devices, session.running);
        (
            SessionView {
                devices: effect.devices,
                input: Seq::empty(),
                running: effect.running,
                execute: false,
            },
            PollView::Write(effect.lines),
        )
    }
}

/// One tick of the loop that carries out commands.
pub fn poll(
    registry: &mut Registry,
    user_input: &mut Vec<char>,
    running: &mut bool,
    execute: &mut bool,
) -> (action: Poll)
    ensures
        polled(
            SessionView {
                devices: old(registry)@,
                input: old(user_input)@,
                running: *old(running),
                execute: *old(execute),
            },
        ) == ((
            SessionView {
                devices: final(registry)@,
                input: final(user_input)@,
                running: *final(running),
                execute: *final(execute),
            },
            action@,
        )),
{
    if !*running {
        return Poll::Shutdown;
    }
    if !*execute {
        let lines: Vec<String> = Vec::new();
        assert(lines.deep_view() =~= Seq::<Seq<char>>::empty());
        return Poll::Write(lines);
    }
    *execute = false;
    let mut taken: Vec<char> = Vec::new();
    std::mem::swap(user_input, &mut taken);
    let text = text_of(&taken);
    Poll::Write(dispatch(text.as_str(), registry, running))
}

/// `exit` clears the running flag and writes nothing; from then on every
/// tick leaves the session as it is and tells the caller to shut down.
pub proof fn lemma_exit(session: SessionView)
    requires
        session.running,
        session.execute,
        session.input == "exit"@,
    ensures
        ({
            let (after, action) = polled(session);
            &&& !after.running
            &&& after.devices == session.devices
            &&& after.input.len() == 0
            &&& action == PollView::Write(Seq::empty())
            &&& polled(after) == (after, PollView::Shutdown)
        }),
{
    reveal_strlit("exit");
    lemma_split_single("exit"@, ' ');
}

/// A session that no longer runs writes no control line again: every tick
/// leaves it as it is and answers with the shutdown.
pub proof fn lemma_stopped_stays_stopped(session: SessionView)
    requires
        !session.running,
    ensures
        polled(session) == (session, PollView::Shutdown),
{
}

/// No tick sets a cleared running flag again, and every tick leaves the
/// execute flag cleared unless the session has stopped.
pub proof fn lemma_flags_after_tick(session: SessionView)
    ensures
        polled(session).0.running ==> session.running,
        session.running ==> !polled(session).0.execute,
{
}

/// Once the command loop has been left, all that remains of a session is the
/// line `exit` and the wait for the tool to end.
pub proof fn lemma_script_ends_with_exit(k: int)
    requires
        0 <= k < session_script().len(),
        session_script()[k] == StepView::Serve,
    ensures
        session_script().skip(k + 1) == seq![StepView::Write("exit\n"@), StepView::Wait],
{
}

} // verus!
