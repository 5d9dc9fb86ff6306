use proxy::config::{AnalogPin, Config, DigitalPin, Discovery, Node, Pin};
use proxy::error::Error;
use proxy::home_assistant::{state_updates, StateValue};
use proxy::data::Data;
use proxy::radio::{on_payload, send_config, PollAction};

fn output(number: u8, state: bool) -> DigitalPin {
    DigitalPin::Output { number, state, state_topic: String::new(), command_topic: String::new() }
}

fn input(number: u8) -> DigitalPin {
    DigitalPin::Input { number, state_topic: String::new() }
}

fn analog(number: u8, enabled: bool) -> AnalogPin {
    AnalogPin { number, enabled, state_topic: String::new() }
}

fn scenario_node() -> Node {
    Node::new(
        0x0102,
        7,
        vec![("relay".to_string(), output(2, false)), ("door".to_string(), input(0))],
        vec![],
    )
    .unwrap()
}

fn full_node() -> Node {
    Node::new(
        600,
        7,
        vec![
            ("led".to_string(), output(1, true)),
            ("relay".to_string(), output(4, false)),
            ("button".to_string(), input(6)),
        ],
        vec![("light".to_string(), analog(0, true)), ("soil".to_string(), analog(2, false))],
    )
    .unwrap()
}

#[test]
fn update_output_scenario_bits() {
    let mut node = scenario_node();
    node.update_config_dirty(false);
    node.update_output("node/digital/2/set", true).unwrap();
    assert!(node.is_config_dirty());
    let bytes = node.to_bytes();
    assert_eq!(bytes[2], 0b0000_0100);
    assert_eq!(bytes[3], 0b0000_0100);
}

#[test]
fn update_output_unknown_topic_fails() {
    let mut node = scenario_node();
    node.update_config_dirty(false);
    let before = node.to_bytes();
    let r = node.update_output("node/digital/0/set", true);
    assert_eq!(r, Err(Error::OptionError("Cannot find pin to update.")));
    assert!(!node.is_config_dirty());
    assert_eq!(node.to_bytes(), before);
}

#[test]
fn update_output_off_clears_value_bit() {
    let mut node = full_node();
    node.update_output("node/digital/1/set", false).unwrap();
    assert_eq!(node.to_bytes()[3], 0);
}

#[test]
fn downlink_bytes_are_exact() {
    let node = full_node();
    assert_eq!(node.to_bytes(), vec![0x02, 0x58, 0b0001_0010, 0b0000_0010, 0b0000_0001]);
}

#[test]
fn downlink_of_node_without_pins() {
    let node = Node::new(0xFFFF, 3, vec![], vec![]).unwrap();
    assert_eq!(node.to_bytes(), vec![0xFF, 0xFF, 0, 0, 0]);
}

#[test]
fn downlink_with_highest_pin() {
    let node = Node::new(0, 3, vec![("top".to_string(), output(7, true))], vec![]).unwrap();
    assert_eq!(node.to_bytes(), vec![0, 0, 0x80, 0x80, 0]);
}

#[test]
fn new_node_is_dirty_and_has_topics() {
    let node = full_node();
    assert!(node.is_config_dirty());
    assert_eq!(node.addr(), 7);
    match &node.digital()[0].1 {
        DigitalPin::Output { state_topic, command_topic, .. } => {
            assert_eq!(state_topic, "node/digital/1/state");
            assert_eq!(command_topic, "node/digital/1/set");
        }
        DigitalPin::Input { .. } => panic!("expected an output"),
    }
    match &node.digital()[2].1 {
        DigitalPin::Input { state_topic, .. } => assert_eq!(state_topic, "node/digital/6/state"),
        DigitalPin::Output { .. } => panic!("expected an input"),
    }
    assert_eq!(node.analog()[1].1.state_topic, "node/analog/2/state");
}

#[test]
fn duplicate_digital_number_is_refused() {
    let r = Node::new(1, 1, vec![("a".to_string(), output(3, false)), ("b".to_string(), input(3))], vec![]);
    assert_eq!(r.unwrap_err(), Error::DuplicatePinNumber { number: 3 });
}

#[test]
fn duplicate_analog_number_is_refused() {
    let r = Node::new(1, 1, vec![], vec![("a".to_string(), analog(1, true)), ("b".to_string(), analog(1, false))]);
    assert_eq!(r.unwrap_err(), Error::DuplicatePinNumber { number: 1 });
}

#[test]
fn digital_number_out_of_range_is_refused() {
    let r = Node::new(1, 1, vec![("a".to_string(), output(8, false))], vec![]);
    assert_eq!(r.unwrap_err(), Error::PinNumberOutOfRange { number: 8 });
}

#[test]
fn analog_number_out_of_range_is_refused() {
    let r = Node::new(1, 1, vec![], vec![("a".to_string(), analog(3, true))]);
    assert_eq!(r.unwrap_err(), Error::PinNumberOutOfRange { number: 3 });
}

#[test]
fn duplicate_name_is_refused() {
    let r = Node::new(1, 1, vec![("a".to_string(), output(1, false)), ("a".to_string(), input(2))], vec![]);
    assert_eq!(r.unwrap_err(), Error::DuplicatePinName);
}

#[test]
fn pin_masks() {
    assert_eq!(output(5, true).as_tuple(), (0b10_0000, 0b10_0000));
    assert_eq!(output(5, false).as_tuple(), (0b10_0000, 0));
    assert_eq!(input(5).as_tuple(), (0, 0));
    assert_eq!(analog(2, true).as_byte(), 0b100);
    assert_eq!(analog(2, false).as_byte(), 0);
}

#[test]
fn subscribe_topics_lists_outputs() {
    let node = full_node();
    assert_eq!(node.subscribe_topics(), vec!["node/digital/1/set".to_string(), "node/digital/4/set".to_string()]);
}

#[test]
fn discovery_lists_pins_then_sensors() {
    let node = full_node();
    let d = node.discovery();
    let topics: Vec<&str> = d.iter().map(|(t, _)| t.as_str()).collect();
    assert_eq!(
        topics,
        vec![
            "homeassistant/switch/node/digital_1/config",
            "homeassistant/switch/node/digital_4/config",
            "homeassistant/binary_sensor/node/digital_6/config",
            "homeassistant/sensor/node/analog_0/config",
            "homeassistant/sensor/node/analog_bat/config",
            "homeassistant/sensor/node/temperature/config",
            "homeassistant/sensor/node/pressure/config",
            "homeassistant/sensor/node/humidity/config",
        ]
    );
    match &d[0].1 {
        Discovery::Switch { name, state_topic, command_topic, payload_on, payload_off } => {
            assert_eq!(name, "led");
            assert_eq!(state_topic, "node/digital/1/state");
            assert_eq!(command_topic, "node/digital/1/set");
            assert_eq!(payload_on, "1");
            assert_eq!(payload_off, "0");
        }
        _ => panic!("expected a switch"),
    }
    match &d[3].1 {
        Discovery::Sensor { name, state_topic, unit_of_measurement, .. } => {
            assert_eq!(name, "light");
            assert_eq!(state_topic, "node/analog/0/state");
            assert_eq!(*unit_of_measurement, None);
        }
        _ => panic!("expected a sensor"),
    }
    match &d[4].1 {
        Discovery::Sensor { name, state_topic, unit_of_measurement, .. } => {
            assert_eq!(name, "Battery");
            assert_eq!(state_topic, "node/analog/bat/state");
            assert_eq!(unit_of_measurement.as_deref(), Some("V"));
        }
        _ => panic!("expected a sensor"),
    }
}

#[test]
fn pin_trait_topics() {
    let node = full_node();
    let (topic, number) = node.digital()[1].1.topic_number_tuple();
    assert_eq!((topic, number), ("node/digital/4/state", 4));
    assert_eq!(node.digital()[2].1.discovery_topic(), "homeassistant/binary_sensor/node/digital_6/config");
    assert_eq!(node.analog()[0].1.discovery_topic(), "homeassistant/sensor/node/analog_0/config");
}

#[test]
fn config_getters_and_node_mut() {
    let mut conf = Config::new(1, 100, scenario_node());
    assert_eq!(conf.gateway_addr(), 1);
    assert_eq!(conf.network_id(), 100);
    assert_eq!(conf.node().addr(), 7);
    conf.node_mut().update_config_dirty(false);
    assert!(!conf.node().is_config_dirty());
}

#[test]
fn send_config_frames_the_configuration() {
    let mut node = scenario_node();
    let frame = send_config(&mut node, 1).unwrap();
    assert_eq!(frame, vec![9, 7, 1, 0, 0x02, 0x01, 0x02, 0b100, 0, 0]);
    assert!(!node.is_config_dirty());
}

#[test]
fn send_config_twice_sends_once() {
    let mut node = scenario_node();
    assert!(send_config(&mut node, 1).is_some());
    assert!(send_config(&mut node, 1).is_none());
    assert!(!node.is_config_dirty());
}

#[test]
fn config_request_when_dirty_sends_once() {
    let mut node = scenario_node();
    let mut sends = 0;
    if let PollAction::Transmit(_) = on_payload(&mut node, 1, &[0x02]) {
        sends += 1;
    }
    assert_eq!(sends, 1);
    assert!(!node.is_config_dirty());
}

#[test]
fn config_request_when_clean_sends_nothing() {
    let mut node = scenario_node();
    node.update_config_dirty(false);
    assert!(matches!(on_payload(&mut node, 1, &[0x02]), PollAction::Idle));
    assert!(!node.is_config_dirty());
}

#[test]
fn telemetry_payload_is_forwarded_without_marker() {
    let mut node = scenario_node();
    let mut payload = vec![0x08u8];
    payload.extend(1..=17u8);
    match on_payload(&mut node, 1, &payload) {
        PollAction::Forward(rest) => assert_eq!(rest, (1..=17u8).collect::<Vec<u8>>()),
        _ => panic!("expected a forward"),
    }
    assert!(node.is_config_dirty());
}

#[test]
fn other_payloads_are_discarded() {
    let mut node = scenario_node();
    assert!(matches!(on_payload(&mut node, 1, &[0x08, 1, 2]), PollAction::Discard));
    assert!(matches!(on_payload(&mut node, 1, &[0x02, 0x02]), PollAction::Discard));
    assert!(matches!(on_payload(&mut node, 1, &[]), PollAction::Discard));
    assert!(node.is_config_dirty());
}

#[test]
fn state_updates_cover_pins_and_sensors() {
    let node = full_node();
    let data = Data {
        gpio_value: 0b0100_0010,
        adc_value: [11, 22, 33],
        bat_value: 3000,
        temperature: -100,
        pressure: 101_000,
        humidity: 4500,
    };
    let updates = state_updates(&node, &data);
    let got: Vec<(&str, StateValue)> = updates.iter().map(|(t, v)| (t.as_str(), *v)).collect();
    assert_eq!(
        got,
        vec![
            ("node/digital/1/state", StateValue::Flag(true)),
            ("node/digital/4/state", StateValue::Flag(false)),
            ("node/digital/6/state", StateValue::Flag(true)),
            ("node/analog/0/state", StateValue::Number(11)),
            ("node/analog/bat/state", StateValue::Number(3000)),
            ("node/analog/temperature/state", StateValue::Number(-100)),
            ("node/analog/pressure/state", StateValue::Number(101_000)),
            ("node/analog/humidity/state", StateValue::Number(4500)),
        ]
    );
}
