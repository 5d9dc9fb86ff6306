use vstd::prelude::*;

use crate::config::{has_output, output_set, Node};
use crate::data::{data_fields, Data, TELEMETRY_LEN};
use crate::error::Error;
use crate::util::PAYLOAD_ON_BYTE;

verus! {

/// Something that one of the orchestrator's sources produced.
pub enum Event {
    /// A telemetry buffer from the radio loop.
    Telemetry(Vec<u8>),
    /// The radio loop's channel has ended.
    RadioClosed,
    /// A control-plane message.
    Command { topic: String, payload: Vec<u8> },
    /// The control-plane stream reported an error.
    ControlError,
    /// The control-plane stream has ended.
    ControlClosed,
    /// The shutdown signal fired.
    Shutdown,
    /// The shutdown signal's channel has ended without firing.
    ShutdownClosed,
}

/// What the orchestrator decided for one event.
#[derive(Debug)]
pub enum Action {
    /// Hand this report to every publisher.
    Publish(Data),
    /// An output was switched; the node's configuration is marked as changed.
    ConfigChanged,
    /// Nothing to do.
    Ignored,
    /// Log this failure and go on.
    Failed(Error),
    /// Close the radio channel and leave the loop.
    Exit,
}

/// Whether the orchestrator still runs after handling `e`.
pub open spec fn next_running(running: bool, e: Event) -> bool {
    running && !(e is Shutdown)
}

/// Whether an orchestrator that started running still runs after the first `n` events.
pub open spec fn running_before(events: Seq<Event>, n: nat) -> bool
    decreases n,
{
    if n == 0 {
        true
    } else {
        next_running(running_before(events, (n - 1) as nat), events[n - 1])
    }
}

/// The control-plane payload that switches an output on.
pub open spec fn payload_on(payload: Seq<u8>) -> bool {
    payload == seq![PAYLOAD_ON_BYTE]
}

/// The single consumer that merges the radio channel, the control-plane stream and the
/// shutdown signal.
pub struct Orchestrator {
    running: bool,
}

impl Orchestrator {
    pub closed spec fn spec_running(&self) -> bool {
        self.running
    }

    pub fn new() -> (r: Orchestrator)
        ensures
            r.spec_running(),
    {
        Orchestrator { running: true }
    }

    pub fn is_running(&self) -> (r: bool)
        ensures
            r == self.spec_running(),
    {
        self.running
    }

    /// Decides what one event leads to. Telemetry is decoded for publication; a
    /// one-byte command switches the output whose command topic it names; failures are
    /// returned for logging and never stop the loop; the shutdown signal stops it, and a
    /// stopped orchestrator ignores every later event.
    pub fn handle(&mut self, node: &mut Node, event: Event) -> (r: Action)
        requires
            old(node).wf(),
        ensures
            final(node).wf(),
            final(self).spec_running() == next_running(old(self).spec_running(), event),
            !old(self).spec_running() ==> r is Ignored && *final(node) == *old(node),
            old(self).spec_running() ==> match event {
                Event::Telemetry(b) => *final(node) == *old(node) && if b@.len() >= TELEMETRY_LEN {
                    r matches Action::Publish(d) && data_fields(b@, d)
                } else {
                    r == Action::Failed(
                        Error::TelemetryTooShort { size: b@.len() as usize, needed: TELEMETRY_LEN },
                    )
                },
                Event::Command { topic, payload } => if payload@.len() != 1 {
                    r is Ignored && *final(node) == *old(node)
                } else if has_output(*old(node), topic@) {
                    r is ConfigChanged && output_set(
                        *old(node),
                        *final(node),
                        topic@,
                        payload_on(payload@),
                    )
                } else {
                    r == Action::Failed(Error::OptionError("Cannot find pin to update."))
                        && *final(node) == *old(node)
                },
                Event::Shutdown => r is Exit && *final(node) == *old(node),
                Event::ControlError => r == Action::Failed(
                    Error::ResultError("Control stream error"),
                ) && *final(node) == *old(node),
                Event::RadioClosed => r == Action::Failed(
                    Error::ChannelClosed("Radio channel is closed"),
                ) && *final(node) == *old(node),
                Event::ControlClosed => r == Action::Failed(
                    Error::ChannelClosed("Control channel is closed"),
                ) && *final(node) == *old(node),
                Event::ShutdownClosed => r == Action::Failed(
                    Error::ChannelClosed("Shutdown channel is closed"),
                ) && *final(node) == *old(node),
            },
    {
        if !self.running {
            return Action::Ignored;
        }
        match event {
            Event::Telemetry(buffer) => match Data::try_from(buffer.as_slice()) {
                Ok(data) => Action::Publish(data),
                Err(e) => Action::Failed(e),
            },
            Event::Command { topic, payload } => {
                if payload.len() != 1 {
                    Action::Ignored
                } else {
                    let on = payload[0] == PAYLOAD_ON_BYTE;
                    assert(on == payload_on(payload@)) by {
                        if on {
                            assert(payload@ =~= seq![PAYLOAD_ON_BYTE]);
                        }
                    }
                    match node.update_output(topic.as_str(), on) {
                        Ok(()) => Action::ConfigChanged,
                        Err(e) => Action::Failed(e),
                    }
                }
            },
            Event::Shutdown => {
                self.running = false;
                Action::Exit
            },
            Event::ControlError => Action::Failed(Error::new_result("Control stream error")),
            Event::RadioClosed => Action::Failed(Error::ChannelClosed("Radio channel is closed")),
            Event::ControlClosed => Action::Failed(
                Error::ChannelClosed("Control channel is closed"),
            ),
            Event::ShutdownClosed => Action::Failed(
                Error::ChannelClosed("Shutdown channel is closed"),
            ),
        }
    }
}

/// The orchestrator runs exactly until the shutdown signal has been handled: every
/// event before the first shutdown meets a running orchestrator and is dispatched, and
/// every event after it meets a stopped one and is ignored.
pub proof fn lemma_shutdown_is_final(events: Seq<Event>, n: nat)
    requires
        n <= events.len(),
    ensures
        running_before(events, n) <==> forall|k: int| 0 <= k < n ==> !(#[trigger] events[k] is Shutdown),
    decreases n,
{
    if n > 0 {
        lemma_shutdown_is_final(events, (n - 1) as nat);
        if running_before(events, n) {
            assert forall|k: int| 0 <= k < n implies !(#[trigger] events[k] is Shutdown) by {
                if k < n - 1 {
                } else {
                    assert(k == n - 1);
                }
            }
        }
    }
}

} // verus!
