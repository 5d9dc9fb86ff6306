use proxy::config::{DigitalPin, Node};
use proxy::error::Error;
use proxy::proxy::{Action, Event, Orchestrator};

fn node() -> Node {
    Node::new(
        60,
        7,
        vec![(
            "relay".to_string(),
            DigitalPin::Output { number: 2, state: false, state_topic: String::new(), command_topic: String::new() },
        )],
        vec![],
    )
    .unwrap()
}

fn report(gpio: u8) -> Vec<u8> {
    let mut b = vec![0u8; 17];
    b[0] = gpio;
    b
}

#[test]
fn events_before_shutdown_are_dispatched_and_later_ones_ignored() {
    let mut node = node();
    let mut o = Orchestrator::new();
    let events = vec![
        Event::Telemetry(report(1)),
        Event::Telemetry(report(2)),
        Event::Shutdown,
        Event::Telemetry(report(3)),
        Event::Command { topic: "node/digital/2/set".to_string(), payload: vec![b'1'] },
    ];
    let actions: Vec<Action> = events.into_iter().map(|e| o.handle(&mut node, e)).collect();
    assert!(matches!(actions[0], Action::Publish(d) if d.gpio_value == 1));
    assert!(matches!(actions[1], Action::Publish(d) if d.gpio_value == 2));
    assert!(matches!(actions[2], Action::Exit));
    assert!(matches!(actions[3], Action::Ignored));
    assert!(matches!(actions[4], Action::Ignored));
    assert!(!o.is_running());
    assert_eq!(node.to_bytes()[3], 0);
}

#[test]
fn command_switches_output_and_marks_dirty() {
    let mut node = node();
    node.update_config_dirty(false);
    let mut o = Orchestrator::new();
    let a = o.handle(&mut node, Event::Command { topic: "node/digital/2/set".to_string(), payload: vec![b'1'] });
    assert!(matches!(a, Action::ConfigChanged));
    assert!(node.is_config_dirty());
    assert_eq!(node.to_bytes()[3], 0b100);
    let a = o.handle(&mut node, Event::Command { topic: "node/digital/2/set".to_string(), payload: vec![b'0'] });
    assert!(matches!(a, Action::ConfigChanged));
    assert_eq!(node.to_bytes()[3], 0);
}

#[test]
fn command_for_unknown_topic_fails_and_loop_goes_on() {
    let mut node = node();
    node.update_config_dirty(false);
    let mut o = Orchestrator::new();
    let a = o.handle(&mut node, Event::Command { topic: "node/digital/5/set".to_string(), payload: vec![b'1'] });
    assert!(matches!(a, Action::Failed(Error::OptionError(_))));
    assert!(!node.is_config_dirty());
    assert!(o.is_running());
}

#[test]
fn command_with_longer_payload_is_ignored() {
    let mut node = node();
    node.update_config_dirty(false);
    let mut o = Orchestrator::new();
    let a = o.handle(&mut node, Event::Command { topic: "node/digital/2/set".to_string(), payload: b"11".to_vec() });
    assert!(matches!(a, Action::Ignored));
    assert!(!node.is_config_dirty());
}

#[test]
fn short_telemetry_fails_without_stopping() {
    let mut node = node();
    let mut o = Orchestrator::new();
    let a = o.handle(&mut node, Event::Telemetry(vec![1, 2, 3]));
    assert!(matches!(a, Action::Failed(Error::TelemetryTooShort { size: 3, needed: 17 })));
    assert!(o.is_running());
}

#[test]
fn closed_sources_are_reported() {
    let mut node = node();
    let mut o = Orchestrator::new();
    assert!(matches!(o.handle(&mut node, Event::RadioClosed), Action::Failed(Error::ChannelClosed(_))));
    assert!(matches!(o.handle(&mut node, Event::ControlClosed), Action::Failed(Error::ChannelClosed(_))));
    assert!(matches!(o.handle(&mut node, Event::ShutdownClosed), Action::Failed(Error::ChannelClosed(_))));
    assert!(matches!(o.handle(&mut node, Event::ControlError), Action::Failed(Error::ResultError(_))));
    assert!(o.is_running());
}
