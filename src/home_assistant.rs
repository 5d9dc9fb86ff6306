use vstd::prelude::*;

use crate::config::{
    battery_state_topic, bit_set, humidity_state_topic, pressure_state_topic,
    temperature_state_topic, AnalogPin, DigitalPin, Node, Pin,
};
use crate::data::Data;
use crate::util::{ANALOG_CHANNELS, PIN_SLOTS};

verus! {

/// The value published on a state topic.
#[derive(Debug, PartialEq, Eq, Clone, Copy)]
pub enum StateValue {
    /// A digital level, published as the on or off payload.
    Flag(bool),
    /// A raw reading, published in decimal.
    Number(i64),
}

pub open spec fn states_view(s: Seq<(String, StateValue)>) -> Seq<(Seq<char>, StateValue)> {
    s.map_values(|e: (String, StateValue)| (e.0@, e.1))
}

/// Each digital pin's level in the report's bitmap, in pin order.
pub open spec fn digital_states(pins: Seq<(String, DigitalPin)>, gpio: u8) -> Seq<(Seq<char>, StateValue)> {
    pins.map_values(
        |p: (String, DigitalPin)|
            (p.1.spec_state_topic(), StateValue::Flag(bit_set(gpio, p.1.spec_number()))),
    )
}

/// Each enabled analog pin's reading, in pin order.
pub open spec fn analog_states(pins: Seq<(String, AnalogPin)>, adc: Seq<u16>) -> Seq<(Seq<char>, StateValue)>
    decreases pins.len(),
{
    if pins.len() == 0 {
        Seq::empty()
    } else if pins.last().1.enabled {
        analog_states(pins.drop_last(), adc).push(
            (pins.last().1.state_topic@, StateValue::Number(adc[pins.last().1.number as int] as i64)),
        )
    } else {
        analog_states(pins.drop_last(), adc)
    }
}

/// The readings of the fixed sensors.
pub open spec fn environment_states(d: Data) -> Seq<(Seq<char>, StateValue)> {
    seq![
        (battery_state_topic(), StateValue::Number(d.bat_value as i64)),
        (temperature_state_topic(), StateValue::Number(d.temperature as i64)),
        (pressure_state_topic(), StateValue::Number(d.pressure as i64)),
        (humidity_state_topic(), StateValue::Number(d.humidity as i64)),
    ]
}

pub open spec fn spec_state_updates(node: Node, d: Data) -> Seq<(Seq<char>, StateValue)> {
    digital_states(node.spec_digital(), d.gpio_value) + analog_states(
        node.spec_analog(),
        d.adc_value@,
    ) + environment_states(d)
}

fn named(topic: &str, value: StateValue) -> (r: (String, StateValue))
    ensures
        r.0@ == topic@,
        r.1 == value,
{
    (String::from_str(topic), value)
}

/// The (state topic, value) pairs that publish one telemetry report: every digital pin,
/// the enabled analog pins, then the fixed sensors.
pub fn state_updates(node: &Node, data: &Data) -> (r: Vec<(String, StateValue)>)
    requires
        node.wf(),
    ensures
        states_view(r@) == spec_state_updates(*node, *data),
{
    let mut result: Vec<(String, StateValue)> = Vec::new();
    let digital = node.digital();
    let mut i: usize = 0;
    while i < digital.len()
        invariant
            node.wf(),
            digital@ == node.spec_digital(),
            i <= digital@.len(),
            states_view(result@) == digital_states(digital@.subrange(0, i as int), data.gpio_value),
        decreases digital@.len() - i,
    {
        let (topic, number) = digital[i].1.topic_number_tuple();
        assert(number < PIN_SLOTS);
        let on = data.gpio_value & (1u8 << number) != 0;
        let entry = (String::from_str(topic), StateValue::Flag(on));
        let ghost before = result@;
        result.push(entry);
        assert(states_view(result@) =~= states_view(before).push((entry.0@, entry.1)));
        assert(digital_states(digital@.subrange(0, i as int + 1), data.gpio_value) =~= digital_states(
            digital@.subrange(0, i as int),
            data.gpio_value,
        ).push((entry.0@, entry.1)));
        i = i + 1;
    }
    assert(digital@.subrange(0, digital@.len() as int) =~= digital@);
    let ghost digital_part = states_view(result@);
    let analog = node.analog();
    let mut i: usize = 0;
    while i < analog.len()
        invariant
            node.wf(),
            analog@ == node.spec_analog(),
            i <= analog@.len(),
            states_view(result@) == digital_part + analog_states(
                analog@.subrange(0, i as int),
                data.adc_value@,
            ),
        decreases analog@.len() - i,
    {
        assert(analog@.subrange(0, i as int + 1).drop_last() =~= analog@.subrange(0, i as int));
        let pin = &analog[i].1;
        if pin.enabled {
            let (topic, number) = pin.topic_number_tuple();
            assert(number < ANALOG_CHANNELS);
            let value = data.adc_value[number as usize];
            let entry = (String::from_str(topic), StateValue::Number(value as i64));
            let ghost before = result@;
            result.push(entry);
            assert(states_view(result@) =~= states_view(before).push((entry.0@, entry.1)));
        }
        i = i + 1;
    }
    assert(analog@.subrange(0, analog@.len() as int) =~= analog@);
    let ghost before = states_view(result@);
    result.push(named("node/analog/bat/state", StateValue::Number(data.bat_value as i64)));
    result.push(
        named("node/analog/temperature/state", StateValue::Number(data.temperature as i64)),
    );
    result.push(named("node/analog/pressure/state", StateValue::Number(data.pressure as i64)));
    result.push(named("node/analog/humidity/state", StateValue::Number(data.humidity as i64)));
    assert(states_view(result@) =~= before + environment_states(*data));
    result
}

} // verus!
