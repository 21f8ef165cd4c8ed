//! The life of the companion: what it answers to the host, and when it
//! samples.
//!
//! Neither type here performs any work. Each is told what happened and says
//! what to do next.

use serde_json::Value;
use vstd::prelude::*;

use crate::control;
use crate::control::{Control, RefreshInterval};
use crate::json;
use crate::sampler::SystemSample;
use crate::text;
use crate::text::{decimal, joined};

verus! {

/// The version of the protocol that the companion speaks.
pub const PROTOCOL_VERSION: u32 = 5;

/// What the host sends, as far as the companion goes by it.
#[derive(Debug)]
pub enum HostFrame {
    /// Asks the companion to start.
    Init { v: u32, device_settings: Value },
    /// Changes the settings.
    Settings { v: u32, device_settings: Value },
    /// Passes on a message, which the companion has no use for.
    Message { v: u32 },
    /// Asks the companion to end.
    Shutdown { v: u32 },
}

/// Who gets a message of the companion.
#[derive(Clone, Copy, Debug, PartialEq, Eq, Structural)]
pub enum MessageTarget {
    Broadcast,
}

/// What a message of the companion holds.
#[derive(Debug)]
pub enum Payload {
    /// A sample of the system.
    Sample(SystemSample),
    /// Why there is no sample.
    Error { message: String },
}

/// What the companion sends.
#[derive(Debug)]
pub enum CompanionFrame {
    /// The companion has started.
    Ready { v: u32 },
    /// A message.
    Message { v: u32, target: MessageTarget, payload: Payload },
    /// The companion ends because of this error.
    Error { v: u32, message: String, code: String },
}

impl HostFrame {
    /// The version of the protocol that a frame is written in.
    pub open spec fn version_spec(self) -> u32 {
        match self {
            HostFrame::Init { v, .. } => v,
            HostFrame::Settings { v, .. } => v,
            HostFrame::Message { v } => v,
            HostFrame::Shutdown { v } => v,
        }
    }

    /// Returns the version of the protocol that a frame is written in.
    pub fn version(&self) -> (version: u32)
        ensures
            version == self.version_spec(),
    {
        match self {
            HostFrame::Init { v, .. } => *v,
            HostFrame::Settings { v, .. } => *v,
            HostFrame::Message { v } => *v,
            HostFrame::Shutdown { v } => *v,
        }
    }
}

impl CompanionFrame {
    /// Whether this frame reports an error with this code and message.
    pub open spec fn reports(self, code: Seq<char>, message: Seq<char>) -> bool {
        self matches CompanionFrame::Error { v, message: text, code: name } && v
            == PROTOCOL_VERSION && text@ == message && name@ == code
    }

    /// A frame that reports an error.
    pub fn error(code: &str, message: String) -> (frame: Self)
        ensures
            frame.reports(code@, message@),
    {
        CompanionFrame::Error { v: PROTOCOL_VERSION, message, code: code.to_owned() }
    }
}

/// Where the companion stands with the host.
#[derive(Clone, Copy, Debug, PartialEq, Eq, Structural)]
pub enum Session {
    /// The host has not asked to start.
    Waiting,
    /// The first settings are being applied.
    Starting,
    /// The companion has started.
    Running,
    /// New settings are being applied.
    Updating,
    /// The companion ends.
    Closed,
}

/// What to do for the host.
#[derive(Debug)]
pub enum HostAction {
    /// Send this frame and end.
    Refuse(CompanionFrame),
    /// Apply this interval, and say how that went.
    SetInterval(RefreshInterval),
    /// Send this frame and start sampling.
    Start(CompanionFrame),
    /// Wait for the next frame.
    Continue,
    /// End.
    Stop,
}

/// What to do for the host, as the contracts see it.
pub enum HostTurn {
    Refuse { code: Seq<char>, message: Seq<char> },
    SetInterval(RefreshInterval),
    Start,
    Continue,
    Stop,
}

impl HostAction {
    /// Whether this action is that turn.
    pub open spec fn takes(self, turn: HostTurn) -> bool {
        match turn {
            HostTurn::Refuse { code, message } => self matches HostAction::Refuse(frame)
                && frame.reports(code, message),
            HostTurn::SetInterval(interval) => self == HostAction::SetInterval(interval),
            HostTurn::Start => self == HostAction::Start(
                CompanionFrame::Ready { v: PROTOCOL_VERSION },
            ),
            HostTurn::Continue => self == HostAction::Continue,
            HostTurn::Stop => self == HostAction::Stop,
        }
    }
}

/// The answer to a frame in another version of the protocol.
pub open spec fn version_refusal(version: u32) -> HostTurn {
    HostTurn::Refuse {
        code: "protocol-version"@,
        message: "unsupported protocol version "@ + text::decimal_text(version as nat),
    }
}

/// The answer to settings that cannot be used.
pub open spec fn settings_refusal(message: Seq<char>) -> HostTurn {
    HostTurn::Refuse { code: "settings-invalid"@, message }
}

/// The answer to a frame that is not due.
pub open spec fn state_refusal() -> HostTurn {
    HostTurn::Refuse {
        code: "protocol-state"@,
        message: "invalid companion lifecycle frame"@,
    }
}

impl Session {
    /// Whether the companion waits for a frame.
    pub open spec fn awaits_frame(self) -> bool {
        self == Session::Waiting || self == Session::Running
    }

    /// Whether the companion waits to hear how applying an interval went.
    pub open spec fn awaits_interval(self) -> bool {
        self == Session::Starting || self == Session::Updating
    }

    /// What the settings of a frame ask for, where settings are due.
    pub open spec fn settings_turn(settings: Value) -> HostTurn {
        match RefreshInterval::requested(settings) {
            Some(interval) => HostTurn::SetInterval(interval),
            None => settings_refusal(control::refusal()),
        }
    }

    /// What follows a frame.
    pub open spec fn turn(self, frame: HostFrame) -> HostTurn {
        if frame.version_spec() != PROTOCOL_VERSION {
            version_refusal(frame.version_spec())
        } else {
            match (frame, self) {
                (HostFrame::Init { device_settings, .. }, Session::Waiting) => {
                    Session::settings_turn(device_settings)
                },
                (HostFrame::Settings { device_settings, .. }, Session::Running) => {
                    Session::settings_turn(device_settings)
                },
                (HostFrame::Message { .. }, Session::Running) => HostTurn::Continue,
                (HostFrame::Shutdown { .. }, _) => HostTurn::Stop,
                _ => state_refusal(),
            }
        }
    }

    /// Where the companion stands after a frame.
    pub open spec fn after(self, frame: HostFrame) -> Session {
        match self.turn(frame) {
            HostTurn::SetInterval(_) => if self == Session::Waiting {
                Session::Starting
            } else {
                Session::Updating
            },
            HostTurn::Continue => self,
            _ => Session::Closed,
        }
    }

    /// What follows once an interval was applied, or could not be for a reason.
    pub open spec fn interval_turn(self, failure: Option<Seq<char>>) -> HostTurn {
        match failure {
            Some(message) => settings_refusal(message),
            None => if self == Session::Starting {
                HostTurn::Start
            } else {
                HostTurn::Continue
            },
        }
    }

    /// A companion that the host has not asked to start.
    pub fn new() -> (session: Self)
        ensures
            session == Session::Waiting,
    {
        Session::Waiting
    }

    /// Decides what follows a frame.
    pub fn handle(&mut self, frame: &HostFrame) -> (action: HostAction)
        requires
            old(self).awaits_frame(),
        ensures
            action.takes(old(self).turn(*frame)),
            *final(self) == old(self).after(*frame),
    {
        let version: u32 = frame.version();
        if version != PROTOCOL_VERSION {
            *self = Session::Closed;
            let message = joined("unsupported protocol version ", decimal(version).as_str());
            return HostAction::Refuse(CompanionFrame::error("protocol-version", message));
        }
        match (frame, *self) {
            (HostFrame::Init { device_settings, .. }, Session::Waiting) => {
                self.handle_settings(device_settings)
            },
            (HostFrame::Settings { device_settings, .. }, Session::Running) => {
                self.handle_settings(device_settings)
            },
            (HostFrame::Message { .. }, Session::Running) => HostAction::Continue,
            (HostFrame::Shutdown { .. }, _) => {
                *self = Session::Closed;
                HostAction::Stop
            },
            _ => {
                *self = Session::Closed;
                let message = "invalid companion lifecycle frame".to_owned();
                HostAction::Refuse(CompanionFrame::error("protocol-state", message))
            },
        }
    }

    /// Decides what follows settings that are due.
    fn handle_settings(&mut self, settings: &Value) -> (action: HostAction)
        requires
            old(self).awaits_frame(),
        ensures
            action.takes(Session::settings_turn(*settings)),
            *final(self) == (match RefreshInterval::requested(*settings) {
                Some(_) => if *old(self) == Session::Waiting {
                    Session::Starting
                } else {
                    Session::Updating
                },
                None => Session::Closed,
            }),
    {
        match RefreshInterval::from_settings(settings) {
            Ok(interval) => {
                *self = match *self {
                    Session::Waiting => Session::Starting,
                    _ => Session::Updating,
                };
                HostAction::SetInterval(interval)
            },
            Err(message) => {
                *self = Session::Closed;
                HostAction::Refuse(CompanionFrame::error("settings-invalid", message))
            },
        }
    }

    /// Decides what follows once an interval was applied, or could not be.
    pub fn interval_applied(&mut self, outcome: Result<(), String>) -> (action: HostAction)
        requires
            old(self).awaits_interval(),
        ensures
            match outcome {
                Ok(()) => {
                    &&& action.takes(old(self).interval_turn(None))
                    &&& *final(self) == Session::Running
                },
                Err(message) => {
                    &&& action.takes(old(self).interval_turn(Some(message@)))
                    &&& *final(self) == Session::Closed
                },
            },
    {
        if let Err(message) = outcome {
            *self = Session::Closed;
            return HostAction::Refuse(CompanionFrame::error("settings-invalid", message));
        }
        let starting: bool = match *self {
            Session::Starting => true,
            _ => false,
        };
        *self = Session::Running;
        if starting {
            HostAction::Start(CompanionFrame::Ready { v: PROTOCOL_VERSION })
        } else {
            HostAction::Continue
        }
    }
}

/// Where the sampling loop stands.
#[derive(Clone, Copy, Debug, PartialEq, Eq, Structural)]
pub enum SamplerLoop {
    /// A sample is being taken.
    Sampling,
    /// It is being sent.
    Sending,
    /// The control is looked at, before the pause.
    Checking,
    /// The pause.
    Pausing,
    /// The loop has ended.
    Finished,
}

/// What happened in the sampling loop.
#[derive(Debug)]
pub enum LoopEvent {
    /// A sample was taken, or could not be.
    Sampled(Result<SystemSample, String>),
    /// The frame was sent, or could not be.
    Sent(Result<(), String>),
    /// The control before the pause, where it can be looked at.
    Checked(Option<Control>),
    /// The control after the pause, where it can be looked at.
    Woken(Option<Control>),
}

/// What to do in the sampling loop.
#[derive(Debug)]
pub enum LoopAction {
    /// Take a sample.
    Sample,
    /// Send this frame.
    Send(CompanionFrame),
    /// Look at the control.
    Check,
    /// Pause for so long, or until the control changes.
    Pause(RefreshInterval),
    /// Print this and end.
    Report(String),
    /// End.
    Finish,
}

impl SamplerLoop {
    /// Whether this is what the loop waits for.
    pub open spec fn expects(self, event: LoopEvent) -> bool {
        match self {
            SamplerLoop::Sampling => event is Sampled,
            SamplerLoop::Sending => event is Sent,
            SamplerLoop::Checking => event is Checked,
            SamplerLoop::Pausing => event is Woken,
            SamplerLoop::Finished => false,
        }
    }

    /// Whether this action follows an event, and where the loop stands then.
    pub open spec fn follows_loop(event: LoopEvent, action: LoopAction, next: SamplerLoop) -> bool {
        match event {
            LoopEvent::Sampled(result) => {
                let payload = match result {
                    Ok(sample) => Payload::Sample(sample),
                    Err(message) => Payload::Error { message },
                };
                &&& action == LoopAction::Send(
                    CompanionFrame::Message {
                        v: PROTOCOL_VERSION,
                        target: MessageTarget::Broadcast,
                        payload,
                    },
                )
                &&& next == SamplerLoop::Sending
            },
            LoopEvent::Sent(Ok(())) => action == LoopAction::Check && next == SamplerLoop::Checking,
            LoopEvent::Sent(Err(reason)) => {
                &&& action matches LoopAction::Report(message)
                &&& message@ == "native companion output failed: "@ + reason@
                &&& next == SamplerLoop::Finished
            },
            LoopEvent::Checked(seen) => if seen matches Some(control) && control.running {
                action == LoopAction::Pause(seen->Some_0.interval) && next == SamplerLoop::Pausing
            } else {
                action == LoopAction::Finish && next == SamplerLoop::Finished
            },
            LoopEvent::Woken(seen) => if seen matches Some(control) && control.running {
                action == LoopAction::Sample && next == SamplerLoop::Sampling
            } else {
                action == LoopAction::Finish && next == SamplerLoop::Finished
            },
        }
    }

    /// A loop that starts with a sample.
    pub fn new() -> (sampling: Self)
        ensures
            sampling == SamplerLoop::Sampling,
    {
        SamplerLoop::Sampling
    }

    /// Decides what follows an event.
    pub fn advance(&mut self, event: LoopEvent) -> (action: LoopAction)
        requires
            old(self).expects(event),
        ensures
            SamplerLoop::follows_loop(event, action, *final(self)),
    {
        match event {
            LoopEvent::Sampled(result) => {
                *self = SamplerLoop::Sending;
                let payload = match result {
                    Ok(sample) => Payload::Sample(sample),
                    Err(message) => Payload::Error { message },
                };
                LoopAction::Send(
                    CompanionFrame::Message {
                        v: PROTOCOL_VERSION,
                        target: MessageTarget::Broadcast,
                        payload,
                    },
                )
            },
            LoopEvent::Sent(Ok(())) => {
                *self = SamplerLoop::Checking;
                LoopAction::Check
            },
            LoopEvent::Sent(Err(reason)) => {
                *self = SamplerLoop::Finished;
                LoopAction::Report(joined("native companion output failed: ", reason.as_str()))
            },
            LoopEvent::Checked(Some(control)) if control.running => {
                *self = SamplerLoop::Pausing;
                LoopAction::Pause(control.interval)
            },
            LoopEvent::Woken(Some(control)) if control.running => {
                *self = SamplerLoop::Sampling;
                LoopAction::Sample
            },
            LoopEvent::Checked(_) | LoopEvent::Woken(_) => {
                *self = SamplerLoop::Finished;
                LoopAction::Finish
            },
        }
    }
}

/// Whatever it stands at, the companion refuses a frame in another version of
/// the protocol and ends.
pub proof fn other_versions_are_refused(session: Session, frame: HostFrame)
    requires
        frame.version_spec() != PROTOCOL_VERSION,
    ensures
        session.turn(frame) == version_refusal(frame.version_spec()),
        session.after(frame) == Session::Closed,
{
}

/// Before it has started, the companion takes nothing but a request to start
/// or to end; afterwards it takes anything but another request to start.
pub proof fn frames_are_taken_in_their_place(session: Session, frame: HostFrame)
    requires
        session.awaits_frame(),
        frame.version_spec() == PROTOCOL_VERSION,
    ensures
        session.turn(frame) == state_refusal() <==> match session {
            Session::Waiting => frame is Settings || frame is Message,
            _ => frame is Init,
        },
        session.turn(frame) == HostTurn::Stop <==> frame is Shutdown,
{
    reveal_strlit("protocol-state");
    reveal_strlit("settings-invalid");
    assert("protocol-state"@[0] == 'p' && "settings-invalid"@[0] == 's');
}

/// What a session goes through: frames, each with the reason why its interval
/// could not be applied, if it could not.
pub type HostInput = (HostFrame, Option<Seq<char>>);

/// How often the companion says that it is ready.
pub open spec fn starts(session: Session, inputs: Seq<HostInput>) -> nat
    decreases inputs.len(),
{
    if inputs.len() == 0 || !session.awaits_frame() {
        0
    } else {
        let (frame, failure) = inputs.first();
        let rest = inputs.drop_first();
        let next = session.after(frame);
        if !next.awaits_interval() {
            starts(next, rest)
        } else if failure is Some {
            0
        } else if next == Session::Starting {
            1 + starts(Session::Running, rest)
        } else {
            starts(Session::Running, rest)
        }
    }
}

/// Whatever the host sends, the companion says that it is ready at most once,
/// and not again once it has started.
pub proof fn ready_is_said_once(session: Session, inputs: Seq<HostInput>)
    ensures
        starts(session, inputs) <= 1,
        session != Session::Waiting ==> starts(session, inputs) == 0,
    decreases inputs.len(),
{
    if inputs.len() > 0 && session.awaits_frame() {
        let (frame, failure) = inputs.first();
        let rest = inputs.drop_first();
        ready_is_said_once(session.after(frame), rest);
        ready_is_said_once(Session::Running, rest);
    }
}

/// A loop that finds the control stopped, before or after its pause, ends and
/// takes no further sample.
pub proof fn stopped_loop_takes_no_sample(
    event: LoopEvent,
    action: LoopAction,
    next: SamplerLoop,
    later: LoopEvent,
)
    requires
        SamplerLoop::follows_loop(event, action, next),
        event matches LoopEvent::Checked(Some(control)) && !control.running || (
        event matches LoopEvent::Woken(Some(control)) && !control.running),
    ensures
        action == LoopAction::Finish,
        !next.expects(later),
{
}

/// A frame is refused by an error frame in version 5, with this code and this
/// message.
pub open spec fn refused_with(action: HostAction, code: Seq<char>, message: Seq<char>) -> bool {
    action matches HostAction::Refuse(frame) && frame matches CompanionFrame::Error {
        v,
        message: said,
        code: named,
    } && v == 5 && said@ == message && named@ == code
}

/// The version of a frame is the one that it carries.
pub proof fn frames_carry_their_version(v: u32, device_settings: Value)
    ensures
        (HostFrame::Init { v, device_settings }).version_spec() == v,
        (HostFrame::Settings { v, device_settings }).version_spec() == v,
        (HostFrame::Message { v }).version_spec() == v,
        (HostFrame::Shutdown { v }).version_spec() == v,
{
}

/// Where settings are due, the interval that they name is the one to apply:
/// the first settings come with the request to start, later ones by themselves.
pub proof fn named_interval_is_applied(
    device_settings: Value,
    setting: Seq<char>,
    started: HostAction,
    changed: HostAction,
)
    requires
        json::text_member(device_settings, "refreshInterval"@) == Some(setting),
        setting == "1s"@ || setting == "2s"@ || setting == "5s"@,
        started.takes(Session::Waiting.turn(HostFrame::Init { v: 5, device_settings })),
        changed.takes(Session::Running.turn(HostFrame::Settings { v: 5, device_settings })),
    ensures
        started == changed,
        setting == "1s"@ ==> started == HostAction::SetInterval(RefreshInterval::OneSecond),
        setting == "2s"@ ==> started == HostAction::SetInterval(RefreshInterval::TwoSeconds),
        setting == "5s"@ ==> started == HostAction::SetInterval(RefreshInterval::FiveSeconds),
        Session::Waiting.after(HostFrame::Init { v: 5, device_settings }) == Session::Starting,
        Session::Running.after(HostFrame::Settings { v: 5, device_settings }) == Session::Updating,
{
    control::settings_name_the_intervals(setting);
    reveal_strlit("1s");
    reveal_strlit("2s");
    reveal_strlit("5s");
    assert("2s"@[0] == '2' && "1s"@[0] == '1' && "5s"@[0] == '5');
}

/// Where settings are due, those that name no interval are refused, and the
/// companion ends.
pub proof fn nameless_settings_are_refused(
    device_settings: Value,
    started: HostAction,
    changed: HostAction,
)
    requires
        json::text_member(device_settings, "refreshInterval"@) matches Some(setting) ==> setting
            != "1s"@ && setting != "2s"@ && setting != "5s"@,
        started.takes(Session::Waiting.turn(HostFrame::Init { v: 5, device_settings })),
        changed.takes(Session::Running.turn(HostFrame::Settings { v: 5, device_settings })),
    ensures
        refused_with(
            started,
            "settings-invalid"@,
            "refreshInterval must be one of the manifest values: 1s, 2s, or 5s"@,
        ),
        refused_with(
            changed,
            "settings-invalid"@,
            "refreshInterval must be one of the manifest values: 1s, 2s, or 5s"@,
        ),
        Session::Waiting.after(HostFrame::Init { v: 5, device_settings }) == Session::Closed,
        Session::Running.after(HostFrame::Settings { v: 5, device_settings }) == Session::Closed,
{
}

/// A message is taken once the companion has started, and changes nothing; a
/// request to end is always taken.
pub proof fn messages_and_shutdowns_are_taken(
    session: Session,
    passed: HostAction,
    ended: HostAction,
)
    requires
        session == Session::Waiting || session == Session::Running,
        passed.takes(Session::Running.turn(HostFrame::Message { v: 5 })),
        ended.takes(session.turn(HostFrame::Shutdown { v: 5 })),
    ensures
        passed == HostAction::Continue,
        Session::Running.after(HostFrame::Message { v: 5 }) == Session::Running,
        ended == HostAction::Stop,
        session.after(HostFrame::Shutdown { v: 5 }) == Session::Closed,
{
}

/// A frame that is not due is refused, and the companion ends: settings or a
/// message before the request to start, and a second such request.
pub proof fn undue_frames_are_refused(session: Session, frame: HostFrame, action: HostAction)
    requires
        frame.version_spec() == 5,
        session == Session::Waiting && (frame is Settings || frame is Message) || (session
            == Session::Running && frame is Init),
        action.takes(session.turn(frame)),
    ensures
        refused_with(action, "protocol-state"@, "invalid companion lifecycle frame"@),
        session.after(frame) == Session::Closed,
{
}

/// A frame in another version is refused with that version in decimal, and the
/// companion ends.
pub proof fn refusal_names_the_version(session: Session, frame: HostFrame, action: HostAction)
    requires
        frame.version_spec() != 5,
        action.takes(session.turn(frame)),
    ensures
        refused_with(
            action,
            "protocol-version"@,
            "unsupported protocol version "@ + text::decimal_text(frame.version_spec() as nat),
        ),
        session.after(frame) == Session::Closed,
{
}

/// Once the first interval was applied the companion says that it is ready, in
/// version 5; after later ones it goes on. One that could not be applied is
/// refused with the reason.
pub proof fn applied_interval_is_answered(
    session: Session,
    reason: Seq<char>,
    applied: HostAction,
    failed: HostAction,
)
    requires
        session == Session::Starting || session == Session::Updating,
        applied.takes(session.interval_turn(None)),
        failed.takes(session.interval_turn(Some(reason))),
    ensures
        session == Session::Starting ==> applied == HostAction::Start(
            CompanionFrame::Ready { v: 5 },
        ),
        session == Session::Updating ==> applied == HostAction::Continue,
        refused_with(failed, "settings-invalid"@, reason),
{
}

/// Every sample is broadcast in version 5, and so is the reason why there is
/// none.
pub proof fn samples_are_broadcast(
    result: Result<SystemSample, String>,
    action: LoopAction,
    next: SamplerLoop,
)
    requires
        SamplerLoop::follows_loop(LoopEvent::Sampled(result), action, next),
    ensures
        action matches LoopAction::Send(frame) && frame matches CompanionFrame::Message {
            v,
            target,
            payload,
        } && {
            &&& v == 5
            &&& target == MessageTarget::Broadcast
            &&& result matches Ok(sample) ==> payload == Payload::Sample(sample)
            &&& result matches Err(reason) ==> payload == (Payload::Error { message: reason })
        },
        forall|sent: Result<(), String>| next.expects(LoopEvent::Sent(sent)),
{
}

/// A frame that was sent leads on to the pause; one that could not be sent ends
/// the loop, with a report of the reason.
pub proof fn failed_sending_ends_the_loop(
    outcome: Result<(), String>,
    action: LoopAction,
    next: SamplerLoop,
    later: LoopEvent,
)
    requires
        SamplerLoop::follows_loop(LoopEvent::Sent(outcome), action, next),
    ensures
        outcome is Ok ==> action == LoopAction::Check && (next.expects(later) <==> later is Checked),
        outcome matches Err(reason) ==> (action matches LoopAction::Report(said) && said@
            == "native companion output failed: "@ + reason@ && !next.expects(later)),
{
}

/// A loop that finds the control running pauses for exactly the interval that
/// the control holds, and then waits to be woken.
pub proof fn pause_is_as_long_as_was_set(
    control: Control,
    action: LoopAction,
    next: SamplerLoop,
    later: LoopEvent,
)
    requires
        control.running,
        SamplerLoop::follows_loop(LoopEvent::Checked(Some(control)), action, next),
    ensures
        action matches LoopAction::Pause(interval) && interval == control.interval,
        next.expects(later) <==> later is Woken,
{
}

/// A loop that is woken takes the next sample exactly where the control can be
/// looked at and is still running. Where it cannot be looked at, the loop ends.
pub proof fn woken_loop_samples_while_running(
    seen: Option<Control>,
    action: LoopAction,
    next: SamplerLoop,
    later: LoopEvent,
)
    ensures
        SamplerLoop::follows_loop(LoopEvent::Woken(seen), action, next) ==> {
            if seen matches Some(control) && control.running {
                action == LoopAction::Sample && (next.expects(later) <==> later is Sampled)
            } else {
                action == LoopAction::Finish && !next.expects(later)
            }
        },
        SamplerLoop::follows_loop(LoopEvent::Checked(seen), action, next) ==> (seen is None
            ==> action == LoopAction::Finish && !next.expects(later)),
{
}

} // verus!
